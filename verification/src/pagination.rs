//! Parsing of the `Link` response header into named pagination links.
//!
//! The header is a comma-separated list of entries of the shape
//! `<url>; rel="name"`; arbitrarily many entries must be handled, and
//! entries with a missing or unknown rel name are tolerated and ignored.

use vstd::prelude::*;

use crate::merge::view_opt_string;
use crate::models::PaginationLinks;
use crate::strutil::{chars_to_string, is_space, is_space_exec, str_chars};

verus! {

// ─── Spec: slicing one entry out of the header ──────────────────────────

/// Index of the first occurrence of `c`, or the length when absent.
pub open spec fn first_index_of(s: Seq<char>, c: char) -> nat
    decreases s.len(),
{
    if s.len() == 0 {
        0
    } else if s[0] == c {
        0
    } else {
        1 + first_index_of(s.drop_first(), c)
    }
}

proof fn lemma_first_index_of(s: Seq<char>, c: char)
    ensures
        first_index_of(s, c) <= s.len(),
        first_index_of(s, c) < s.len() ==> s[first_index_of(s, c) as int] == c,
        forall|k: int| 0 <= k < first_index_of(s, c) ==> s[k] != c,
    decreases s.len(),
{
    if s.len() == 0 {
    } else if s[0] == c {
    } else {
        lemma_first_index_of(s.drop_first(), c);
        assert(first_index_of(s, c) == 1 + first_index_of(s.drop_first(), c));
        assert forall|k: int| 0 <= k < first_index_of(s, c) implies s[k] != c by {
            if k > 0 {
                assert(s.drop_first()[k - 1] == s[k]);
                assert(s.drop_first()[k - 1] != c);
            }
        }
    }
}

/// The part of `s` before its first `;`, or all of it.
pub open spec fn before_semi(s: Seq<char>) -> Seq<char> {
    let i = first_index_of(s, ';');
    if i < s.len() {
        s.take(i as int)
    } else {
        s
    }
}

// ─── Spec: trimming and stripping ───────────────────────────────────────

pub open spec fn trim_start(s: Seq<char>) -> Seq<char>
    decreases s.len(),
{
    if s.len() > 0 && is_space(s[0]) {
        trim_start(s.drop_first())
    } else {
        s
    }
}

pub open spec fn trim_end(s: Seq<char>) -> Seq<char>
    decreases s.len(),
{
    if s.len() > 0 && is_space(s.last()) {
        trim_end(s.drop_last())
    } else {
        s
    }
}

/// Whitespace removed from both ends.
pub open spec fn trim(s: Seq<char>) -> Seq<char> {
    trim_end(trim_start(s))
}

/// Every leading occurrence of `c` removed.
pub open spec fn strip_start_char(s: Seq<char>, c: char) -> Seq<char>
    decreases s.len(),
{
    if s.len() > 0 && s[0] == c {
        strip_start_char(s.drop_first(), c)
    } else {
        s
    }
}

/// Every trailing occurrence of `c` removed.
pub open spec fn strip_end_char(s: Seq<char>, c: char) -> Seq<char>
    decreases s.len(),
{
    if s.len() > 0 && s.last() == c {
        strip_end_char(s.drop_last(), c)
    } else {
        s
    }
}

/// Every leading `rel=` removed.
pub open spec fn strip_rel_prefix(s: Seq<char>) -> Seq<char>
    decreases s.len(),
{
    if s.len() >= 4 && s.take(4) == "rel="@ {
        strip_rel_prefix(s.skip(4))
    } else {
        s
    }
}

// ─── Spec: one entry, and the whole header ──────────────────────────────

/// The URL an entry carries: its first segment, trimmed, with the angle
/// brackets stripped.
pub open spec fn url_of_part(part: Seq<char>) -> Seq<char> {
    strip_end_char(strip_start_char(trim(before_semi(part)), '<'), '>')
}

/// The rel name an entry carries: its second segment, trimmed, accepted
/// only with a `rel=` prefix, quotes stripped.
pub open spec fn rel_of_part(part: Seq<char>) -> Option<Seq<char>> {
    let i = first_index_of(part, ';');
    if i < part.len() {
        let seg = trim(before_semi(part.skip(i + 1 as int)));
        if seg.len() >= 4 && seg.take(4) == "rel="@ {
            Some(strip_end_char(strip_start_char(strip_rel_prefix(seg), '"'), '"'))
        } else {
            None
        }
    } else {
        None
    }
}

/// Ghost image of the named links.
pub struct LinksV {
    pub current: Option<Seq<char>>,
    pub next: Option<Seq<char>>,
    pub prev: Option<Seq<char>>,
    pub first: Option<Seq<char>>,
    pub last: Option<Seq<char>>,
}

impl View for PaginationLinks {
    type V = LinksV;

    open spec fn view(&self) -> LinksV {
        LinksV {
            current: view_opt_string(self.current),
            next: view_opt_string(self.next),
            prev: view_opt_string(self.prev),
            first: view_opt_string(self.first),
            last: view_opt_string(self.last),
        }
    }
}

pub open spec fn no_links() -> LinksV {
    LinksV { current: None, next: None, prev: None, first: None, last: None }
}

/// One entry applied to the accumulated links: a known rel name takes the
/// entry's URL, anything else changes nothing.
pub open spec fn update_links(acc: LinksV, part: Seq<char>) -> LinksV {
    match rel_of_part(part) {
        None => acc,
        Some(rel) => {
            let url = Some(url_of_part(part));
            if rel == "current"@ {
                LinksV { current: url, ..acc }
            } else if rel == "next"@ {
                LinksV { next: url, ..acc }
            } else if rel == "prev"@ {
                LinksV { prev: url, ..acc }
            } else if rel == "first"@ {
                LinksV { first: url, ..acc }
            } else if rel == "last"@ {
                LinksV { last: url, ..acc }
            } else {
                acc
            }
        },
    }
}

/// The comma-separated entries of `s` applied left to right.
pub open spec fn links_fold(acc: LinksV, s: Seq<char>) -> LinksV
    decreases s.len(),
{
    let i = first_index_of(s, ',');
    if i < s.len() {
        links_fold(update_links(acc, s.take(i as int)), s.skip(i + 1 as int))
    } else {
        update_links(acc, s)
    }
}

/// The named links of a `Link` header; a missing header carries none.
pub open spec fn links_of(h: Option<Seq<char>>) -> LinksV {
    match h {
        None => no_links(),
        Some(s) => links_fold(no_links(), s),
    }
}

// ─── Exec helpers ───────────────────────────────────────────────────────

/// First position of `c` in `v[lo..hi]`, or `hi` when absent; the position
/// of the spec-level first index inside that range.
fn find_char(v: &Vec<char>, lo: usize, hi: usize, c: char) -> (i: usize)
    requires
        lo <= hi <= v@.len(),
    ensures
        lo <= i <= hi,
        i - lo == first_index_of(v@.subrange(lo as int, hi as int), c),
        i < hi ==> v@[i as int] == c,
        forall|k: int| lo <= k < i ==> v@[k] != c,
{
    let ghost s = v@.subrange(lo as int, hi as int);
    proof {
        lemma_first_index_of(s, c);
    }
    let mut i: usize = lo;
    while i < hi
        invariant
            lo <= i <= hi <= v@.len(),
            s == v@.subrange(lo as int, hi as int),
            forall|k: int| lo <= k < i ==> v@[k] != c,
        decreases hi - i,
    {
        if v[i] == c {
            proof {
                lemma_first_index_of(s, c);
                assert(s[i - lo] == v@[i as int]);
                assert forall|k: int| 0 <= k < i - lo implies s[k] != c by {
                    assert(s[k] == v@[lo + k]);
                }
                if first_index_of(s, c) < i - lo {
                    assert(s[first_index_of(s, c) as int] == c);
                }
                if first_index_of(s, c) > i - lo {
                    assert(s[i - lo] != c);
                }
            }
            return i;
        }
        i = i + 1;
    }
    proof {
        lemma_first_index_of(s, c);
        assert forall|k: int| 0 <= k < s.len() implies s[k] != c by {
            assert(s[k] == v@[lo + k]);
        }
        if first_index_of(s, c) < s.len() {
            assert(s[first_index_of(s, c) as int] == c);
        }
    }
    i
}

/// First position of `c` in `v`, or the length when absent.
pub fn first_index_of_exec(v: &Vec<char>, c: char) -> (i: usize)
    ensures
        i as nat == first_index_of(v@, c),
        i <= v@.len(),
        i < v@.len() ==> v@[i as int] == c,
        forall|k: int| 0 <= k < i ==> v@[k] != c,
{
    let n = v.len();
    let i = find_char(v, 0, n, c);
    proof {
        assert(v@.subrange(0, n as int) =~= v@);
    }
    i
}

/// The characters `v[lo..hi]`, as a fresh vector.
fn subvec(v: &Vec<char>, lo: usize, hi: usize) -> (r: Vec<char>)
    requires
        lo <= hi <= v@.len(),
    ensures
        r@ == v@.subrange(lo as int, hi as int),
{
    let mut r: Vec<char> = Vec::new();
    let mut i: usize = lo;
    while i < hi
        invariant
            lo <= i <= hi <= v@.len(),
            r@ == v@.subrange(lo as int, i as int),
        decreases hi - i,
    {
        r.push(v[i]);
        i = i + 1;
        proof {
            assert(r@ =~= v@.subrange(lo as int, i as int));
        }
    }
    r
}

/// Whether `v[lo..hi]` spells exactly the characters of `lit`.
fn range_eq_str(v: &Vec<char>, lo: usize, hi: usize, lit: &str) -> (r: bool)
    requires
        lo <= hi <= v@.len(),
    ensures
        r == (v@.subrange(lo as int, hi as int) == lit@),
{
    let n = lit.unicode_len();
    if hi - lo != n {
        proof {
            assert(v@.subrange(lo as int, hi as int).len() != lit@.len());
        }
        return false;
    }
    let mut k: usize = 0;
    while k < n
        invariant
            lo + n <= hi <= v@.len(),
            hi - lo == n,
            n == lit@.len(),
            k <= n,
            forall|j: int| 0 <= j < k ==> v@[lo + j] == lit@[j],
        decreases n - k,
    {
        if v[lo + k] != lit.get_char(k) {
            proof {
                assert(v@.subrange(lo as int, hi as int)[k as int] == v@[lo + k]);
            }
            return false;
        }
        k = k + 1;
    }
    proof {
        assert(v@.subrange(lo as int, hi as int) =~= lit@);
    }
    true
}

// ─── The parser ─────────────────────────────────────────────────────────

/// Bounds of `trim(v[lo..hi])` inside `v`.
fn trim_range(v: &Vec<char>, lo: usize, hi: usize) -> (r: (usize, usize))
    requires
        lo <= hi <= v@.len(),
    ensures
        lo <= r.0 <= r.1 <= hi,
        v@.subrange(r.0 as int, r.1 as int) == trim(v@.subrange(lo as int, hi as int)),
{
    let mut a: usize = lo;
    let mut b: usize = hi;
    let ghost s0 = v@.subrange(lo as int, hi as int);
    while a < b && is_space_exec(v[a])
        invariant
            lo <= a <= b <= hi <= v@.len(),
            b == hi,
            trim_start(s0) == trim_start(v@.subrange(a as int, b as int)),
        decreases b - a,
    {
        proof {
            let cur = v@.subrange(a as int, b as int);
            assert(cur[0] == v@[a as int]);
            assert(cur.drop_first() =~= v@.subrange(a + 1, b as int));
        }
        a = a + 1;
    }
    proof {
        let cur = v@.subrange(a as int, b as int);
        if cur.len() > 0 {
            assert(cur[0] == v@[a as int]);
        }
        assert(trim_start(s0) == cur);
    }
    let ghost s1 = v@.subrange(a as int, b as int);
    while b > a && is_space_exec(v[b - 1])
        invariant
            lo <= a <= b <= hi <= v@.len(),
            trim_end(s1) == trim_end(v@.subrange(a as int, b as int)),
        decreases b,
    {
        proof {
            let cur = v@.subrange(a as int, b as int);
            assert(cur.last() == v@[b - 1]);
            assert(cur.drop_last() =~= v@.subrange(a as int, b - 1));
        }
        b = b - 1;
    }
    proof {
        let cur = v@.subrange(a as int, b as int);
        if cur.len() > 0 {
            assert(cur.last() == v@[b - 1]);
        }
        assert(trim_end(s1) == cur);
    }
    (a, b)
}

/// Bounds of `strip_start_char(strip_end_char-style)` strips inside `v`:
/// removes every leading `cl` and every trailing `cr` from `v[lo..hi]`.
fn strip_ends_range(v: &Vec<char>, lo: usize, hi: usize, cl: char, cr: char) -> (r: (usize, usize))
    requires
        lo <= hi <= v@.len(),
    ensures
        lo <= r.0 <= r.1 <= hi,
        v@.subrange(r.0 as int, r.1 as int) == strip_end_char(
            strip_start_char(v@.subrange(lo as int, hi as int), cl),
            cr,
        ),
{
    let mut a: usize = lo;
    let mut b: usize = hi;
    let ghost s0 = v@.subrange(lo as int, hi as int);
    while a < b && v[a] == cl
        invariant
            lo <= a <= b <= hi <= v@.len(),
            b == hi,
            strip_start_char(s0, cl) == strip_start_char(v@.subrange(a as int, b as int), cl),
        decreases b - a,
    {
        proof {
            let cur = v@.subrange(a as int, b as int);
            assert(cur[0] == v@[a as int]);
            assert(cur.drop_first() =~= v@.subrange(a + 1, b as int));
        }
        a = a + 1;
    }
    proof {
        let cur = v@.subrange(a as int, b as int);
        if cur.len() > 0 {
            assert(cur[0] == v@[a as int]);
        }
        assert(strip_start_char(s0, cl) == cur);
    }
    let ghost s1 = v@.subrange(a as int, b as int);
    while b > a && v[b - 1] == cr
        invariant
            lo <= a <= b <= hi <= v@.len(),
            strip_end_char(s1, cr) == strip_end_char(v@.subrange(a as int, b as int), cr),
        decreases b,
    {
        proof {
            let cur = v@.subrange(a as int, b as int);
            assert(cur.last() == v@[b - 1]);
            assert(cur.drop_last() =~= v@.subrange(a as int, b - 1));
        }
        b = b - 1;
    }
    proof {
        let cur = v@.subrange(a as int, b as int);
        if cur.len() > 0 {
            assert(cur.last() == v@[b - 1]);
        }
        assert(strip_end_char(s1, cr) == cur);
    }
    (a, b)
}

/// Whether `v[lo..hi]` starts with `rel=`.
fn has_rel_prefix(v: &Vec<char>, lo: usize, hi: usize) -> (r: bool)
    requires
        lo <= hi <= v@.len(),
    ensures
        r == {
            let s = v@.subrange(lo as int, hi as int);
            s.len() >= 4 && s.take(4) == "rel="@
        },
{
    proof {
        reveal_strlit("rel=");
    }
    let ghost s = v@.subrange(lo as int, hi as int);
    if hi - lo >= 4 {
        let r = v[lo] == 'r' && v[lo + 1] == 'e' && v[lo + 2] == 'l' && v[lo + 3] == '=';
        proof {
            assert(s.take(4)[0] == v@[lo as int]);
            assert(s.take(4)[1] == v@[lo + 1]);
            assert(s.take(4)[2] == v@[lo + 2]);
            assert(s.take(4)[3] == v@[lo + 3]);
            if r {
                assert(s.take(4) =~= "rel="@);
            } else {
                assert(s.take(4) != "rel="@);
            }
        }
        r
    } else {
        false
    }
}

/// Start of `strip_rel_prefix(v[lo..hi])` inside `v`.
fn strip_rel_range(v: &Vec<char>, lo: usize, hi: usize) -> (a: usize)
    requires
        lo <= hi <= v@.len(),
    ensures
        lo <= a <= hi,
        v@.subrange(a as int, hi as int) == strip_rel_prefix(v@.subrange(lo as int, hi as int)),
{
    let ghost s0 = v@.subrange(lo as int, hi as int);
    let mut a: usize = lo;
    while has_rel_prefix(v, a, hi)
        invariant
            lo <= a <= hi <= v@.len(),
            strip_rel_prefix(s0) == strip_rel_prefix(v@.subrange(a as int, hi as int)),
        decreases hi - a,
    {
        proof {
            let cur = v@.subrange(a as int, hi as int);
            assert(cur.skip(4) =~= v@.subrange(a + 4, hi as int));
        }
        a = a + 4;
    }
    proof {
        let cur = v@.subrange(a as int, hi as int);
        assert(strip_rel_prefix(cur) == cur);
    }
    a
}

/// Apply one header entry `v[lo..hi]` to the links gathered so far.
fn apply_part(links: &mut PaginationLinks, v: &Vec<char>, lo: usize, hi: usize)
    requires
        lo <= hi <= v@.len(),
    ensures
        final(links)@ == update_links(old(links)@, v@.subrange(lo as int, hi as int)),
{
    let ghost part = v@.subrange(lo as int, hi as int);
    let semi = find_char(v, lo, hi, ';');
    proof {
        if semi < hi {
            assert(part.take(semi - lo) =~= v@.subrange(lo as int, semi as int));
        }
        assert(before_semi(part) == v@.subrange(
            lo as int,
            if semi < hi {
                semi as int
            } else {
                hi as int
            },
        ));
    }
    if semi == hi {
        // no second segment: no rel name, the entry changes nothing
        return;
    }
    // rel segment: between the first and the second ';' (or the end)
    proof {
        assert(part.skip(semi - lo + 1) =~= v@.subrange(semi + 1, hi as int));
    }
    let semi2 = find_char(v, semi + 1, hi, ';');
    let ghost relseg0 = part.skip(semi - lo + 1);
    proof {
        if semi2 < hi {
            assert(relseg0.take(semi2 - semi - 1) =~= v@.subrange(semi + 1, semi2 as int));
        }
        assert(before_semi(relseg0) == v@.subrange(semi + 1, semi2 as int));
    }
    let (c0, d0) = trim_range(v, semi + 1, semi2);
    if !has_rel_prefix(v, c0, d0) {
        proof {
            assert(rel_of_part(part) is None);
        }
        return;
    }
    let c1 = strip_rel_range(v, c0, d0);
    let (c2, d2) = strip_ends_range(v, c1, d0, '"', '"');
    let ghost rel = v@.subrange(c2 as int, d2 as int);
    proof {
        assert(rel_of_part(part) == Some(rel));
    }
    // the URL: first segment trimmed, angle brackets stripped
    let (a0, b0) = trim_range(v, lo, semi);
    let (a1, b1) = strip_ends_range(v, a0, b0, '<', '>');
    let ghost url = v@.subrange(a1 as int, b1 as int);
    proof {
        assert(url_of_part(part) == url);
    }
    if range_eq_str(v, c2, d2, "current") {
        let url_s = chars_to_string(&subvec(v, a1, b1));
        links.current = Some(url_s);
    } else if range_eq_str(v, c2, d2, "next") {
        let url_s = chars_to_string(&subvec(v, a1, b1));
        links.next = Some(url_s);
    } else if range_eq_str(v, c2, d2, "prev") {
        let url_s = chars_to_string(&subvec(v, a1, b1));
        links.prev = Some(url_s);
    } else if range_eq_str(v, c2, d2, "first") {
        let url_s = chars_to_string(&subvec(v, a1, b1));
        links.first = Some(url_s);
    } else if range_eq_str(v, c2, d2, "last") {
        let url_s = chars_to_string(&subvec(v, a1, b1));
        links.last = Some(url_s);
    }
}

/// Parse a `Link` response header into its named pagination links. Every
/// comma-separated entry contributes its `<url>` under its `rel` name; a
/// later entry with the same rel name wins; entries without a well-formed
/// rel name, and unknown rel names, are ignored. A missing header parses
/// to no links at all.
pub fn parse_link_header(header: Option<&str>) -> (r: PaginationLinks)
    ensures
        r@ == links_of(match header {
            Some(h) => Some(h@),
            None => None,
        }),
{
    let h = match header {
        None => {
            return PaginationLinks::empty();
        },
        Some(h) => h,
    };
    let v = str_chars(h);
    let n = v.len();
    let mut links = PaginationLinks::empty();
    let mut lo: usize = 0;
    let mut done = false;
    proof {
        assert(v@.subrange(0, n as int) =~= h@);
    }
    while !done
        invariant
            lo <= n == v@.len(),
            v@ == h@,
            !done ==> links_fold(no_links(), h@) == links_fold(
                links@,
                v@.subrange(lo as int, n as int),
            ),
            done ==> links@ == links_fold(no_links(), h@),
        decreases n - lo, (if done { 0int } else { 1int }),
    {
        let ghost s = v@.subrange(lo as int, n as int);
        let comma = find_char(&v, lo, n, ',');
        proof {
            if comma < n {
                assert(s.take(comma - lo) =~= v@.subrange(lo as int, comma as int));
                assert(s.skip(comma - lo + 1) =~= v@.subrange(comma + 1, n as int));
            }
        }
        if comma < n {
            apply_part(&mut links, &v, lo, comma);
            lo = comma + 1;
        } else {
            apply_part(&mut links, &v, lo, n);
            done = true;
        }
    }
    links
}

} // verus!
