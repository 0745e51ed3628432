//! The cache file's format: one JSON document holding a whole snapshot.
//!
//! The writer emits one canonical form — fixed key order, no extra
//! whitespace — and the reader accepts exactly that form; anything else
//! reads as no cache at all. Writing a snapshot and reading it back
//! yields the same snapshot, field for field, which is proved below.

use vstd::prelude::*;

use crate::error::{digits_val, is_digit};
use crate::merge::view_opt_string;
use crate::models::{
    Assignment, AssignmentEventDetail, CacheData, CalendarEvent, Course, DiscussionTopic,
    Enrollment, Submission, User, WorkflowState,
};
use crate::error::{digit_of, parse_digits};
use crate::strutil::{dec_digits, push_char};

verus! {

// ─── Literals ───────────────────────────────────────────────────────────

/// Position just past `w`, when `s` carries exactly `w` at `i`.
pub open spec fn expect_at(s: Seq<char>, i: int, w: Seq<char>) -> Option<int> {
    if 0 <= i && i + w.len() <= s.len() && s.subrange(i, i + w.len()) == w {
        Some(i + w.len())
    } else {
        None
    }
}

// ─── Numbers ────────────────────────────────────────────────────────────

/// End of the digit run starting at `i`.
pub open spec fn digits_end(s: Seq<char>, i: int) -> int
    decreases s.len() - i,
{
    if 0 <= i < s.len() && is_digit(s[i]) {
        digits_end(s, i + 1)
    } else {
        i
    }
}

proof fn lemma_digits_end(s: Seq<char>, i: int)
    requires
        0 <= i <= s.len(),
    ensures
        i <= digits_end(s, i) <= s.len(),
        forall|k: int| i <= k < digits_end(s, i) ==> is_digit(s[k]),
        digits_end(s, i) < s.len() ==> !is_digit(s[digits_end(s, i)]),
    decreases s.len() - i,
{
    if i < s.len() && is_digit(s[i]) {
        lemma_digits_end(s, i + 1);
    }
}

pub open spec fn parse_u64_at(s: Seq<char>, i: int) -> Option<(u64, int)> {
    let j = digits_end(s, i);
    if 0 <= i && j > i && digits_val(s.subrange(i, j)) <= u64::MAX {
        Some(((digits_val(s.subrange(i, j)) as u64), j))
    } else {
        None
    }
}

/// The number an unsigned value's own decimal rendering spells is itself.
proof fn lemma_digits_val_of_dec(n: nat)
    ensures
        digits_val(dec_digits(n)) == n,
        dec_digits(n).len() >= 1,
        forall|k: int| 0 <= k < dec_digits(n).len() ==> is_digit(dec_digits(n)[k]),
    decreases n,
{
    if n < 10 {
        assert(dec_digits(n) =~= seq![crate::strutil::digit_char(n)]);
        assert(digits_val(dec_digits(n)) == digits_val(dec_digits(n).drop_last()) * 10
            + crate::error::digit_val(dec_digits(n).last()));
        assert(dec_digits(n).drop_last() =~= Seq::<char>::empty());
    } else {
        lemma_digits_val_of_dec(n / 10);
        assert(dec_digits(n) == dec_digits(n / 10).push(crate::strutil::digit_char(n % 10)));
        assert(dec_digits(n).drop_last() =~= dec_digits(n / 10));
        assert(dec_digits(n).last() == crate::strutil::digit_char(n % 10));
        assert forall|k: int| 0 <= k < dec_digits(n).len() implies is_digit(dec_digits(n)[k]) by {
            if k < dec_digits(n / 10).len() {
                assert(dec_digits(n)[k] == dec_digits(n / 10)[k]);
            }
        }
    }
}

/// Parsing picks the rendering of `n` back up, when the text carries
/// exactly it and no digit follows.
proof fn lemma_rt_u64(s: Seq<char>, i: int, n: u64)
    requires
        0 <= i,
        i + dec_digits(n as nat).len() <= s.len(),
        s.subrange(i, i + dec_digits(n as nat).len() as int) == dec_digits(n as nat),
        i + dec_digits(n as nat).len() == s.len() || !is_digit(
            s[i + dec_digits(n as nat).len()],
        ),
    ensures
        parse_u64_at(s, i) == Some((n, i + dec_digits(n as nat).len() as int)),
{
    let d = dec_digits(n as nat);
    let e = i + d.len() as int;
    lemma_digits_val_of_dec(n as nat);
    lemma_digits_end(s, i);
    assert forall|k: int| i <= k < e implies is_digit(s[k]) by {
        assert(s[k] == d[k - i]);
    }
    // the digit run ends exactly at e
    lemma_digits_end_exact(s, i, e);
    assert(s.subrange(i, e) == d);
}

proof fn lemma_digits_end_exact(s: Seq<char>, i: int, e: int)
    requires
        0 <= i <= e <= s.len(),
        forall|k: int| i <= k < e ==> is_digit(s[k]),
        e == s.len() || !is_digit(s[e]),
    ensures
        digits_end(s, i) == e,
    decreases e - i,
{
    if i < e {
        lemma_digits_end_exact(s, i + 1, e);
    }
}

/// A signed value's decimal rendering: a minus sign before the magnitude.
pub open spec fn enc_i64(n: i64) -> Seq<char> {
    if n < 0 {
        seq!['-'] + dec_digits((-(n as int)) as nat)
    } else {
        dec_digits(n as nat)
    }
}

pub open spec fn parse_i64_at(s: Seq<char>, i: int) -> Option<(i64, int)> {
    if 0 <= i < s.len() && s[i] == '-' {
        match parse_u64_at(s, i + 1) {
            Some((m, j)) => if 0 < m <= 9223372036854775808u64 {
                Some(((-(m as int)) as i64, j))
            } else {
                None
            },
            None => None,
        }
    } else {
        match parse_u64_at(s, i) {
            Some((m, j)) => if m <= i64::MAX as u64 {
                Some((m as i64, j))
            } else {
                None
            },
            None => None,
        }
    }
}

proof fn lemma_rt_i64(s: Seq<char>, i: int, n: i64)
    requires
        0 <= i,
        i + enc_i64(n).len() <= s.len(),
        s.subrange(i, i + enc_i64(n).len() as int) == enc_i64(n),
        i + enc_i64(n).len() == s.len() || !is_digit(s[i + enc_i64(n).len()]),
    ensures
        parse_i64_at(s, i) == Some((n, i + enc_i64(n).len() as int)),
{
    if n < 0 {
        let m = (-(n as int)) as nat;
        let d = dec_digits(m);
        assert(s[i] == enc_i64(n)[0]);
        assert(enc_i64(n)[0] == '-');
        assert(s.subrange(i + 1, i + 1 + d.len() as int) =~= d) by {
            assert forall|k: int| 0 <= k < d.len() implies s.subrange(
                i + 1,
                i + 1 + d.len() as int,
            )[k] == d[k] by {
                assert(s.subrange(i + 1, i + 1 + d.len() as int)[k] == s[i + 1 + k]);
                assert(s[i + 1 + k] == enc_i64(n)[1 + k]);
            }
        }
        lemma_digits_val_of_dec(m);
        lemma_rt_u64(s, i + 1, (m as u64));
        assert(0 < (m as u64) <= 9223372036854775808u64);
    } else {
        lemma_rt_u64(s, i, n as u64);
        assert(!is_digit('-')) by {
            assert(!is_digit('-'));
        }
    }
}

// ─── Booleans ───────────────────────────────────────────────────────────

pub open spec fn enc_bool(b: bool) -> Seq<char> {
    if b {
        "true"@
    } else {
        "false"@
    }
}

pub open spec fn parse_bool_at(s: Seq<char>, i: int) -> Option<(bool, int)> {
    match expect_at(s, i, "true"@) {
        Some(j) => Some((true, j)),
        None => match expect_at(s, i, "false"@) {
            Some(j) => Some((false, j)),
            None => None,
        },
    }
}

proof fn lemma_rt_bool(s: Seq<char>, i: int, b: bool)
    requires
        0 <= i,
        i + enc_bool(b).len() <= s.len(),
        s.subrange(i, i + enc_bool(b).len() as int) == enc_bool(b),
    ensures
        parse_bool_at(s, i) == Some((b, i + enc_bool(b).len() as int)),
{
    reveal_strlit("true");
    reveal_strlit("false");
    if b {
    } else {
        // "true" does not match text that spells "false"
        if i + 4 <= s.len() && s.subrange(i, i + 4) == "true"@ {
            assert(s[i] == "false"@[0]);
            assert(s.subrange(i, i + 4)[0] == s[i]);
            assert(false);
        }
    }
}

// ─── Strings ────────────────────────────────────────────────────────────

/// How one character is written inside a quoted string.
pub open spec fn esc(c: char) -> Seq<char> {
    if c == '"' {
        seq!['\\', '"']
    } else if c == '\\' {
        seq!['\\', '\\']
    } else if c == '\n' {
        seq!['\\', 'n']
    } else if c == '\r' {
        seq!['\\', 'r']
    } else if c == '\t' {
        seq!['\\', 't']
    } else {
        seq![c]
    }
}

pub open spec fn esc_chars(s: Seq<char>) -> Seq<char>
    decreases s.len(),
{
    if s.len() == 0 {
        Seq::empty()
    } else {
        esc(s[0]) + esc_chars(s.drop_first())
    }
}

/// A quoted, escaped string.
pub open spec fn enc_string(s: Seq<char>) -> Seq<char> {
    seq!['"'] + esc_chars(s) + seq!['"']
}

/// The characters up to the closing quote, unescaped, and the position
/// just past it.
pub open spec fn parse_strchars(s: Seq<char>, i: int) -> Option<(Seq<char>, int)>
    decreases s.len() - i,
{
    if i < 0 || i >= s.len() {
        None
    } else if s[i] == '"' {
        Some((Seq::empty(), i + 1))
    } else if s[i] == '\\' {
        if i + 1 < s.len() {
            let c = s[i + 1];
            let u: Option<char> = if c == '"' {
                Some('"')
            } else if c == '\\' {
                Some('\\')
            } else if c == 'n' {
                Some('\n')
            } else if c == 'r' {
                Some('\r')
            } else if c == 't' {
                Some('\t')
            } else {
                None
            };
            match u {
                Some(uc) => match parse_strchars(s, i + 2) {
                    Some((tail, j)) => Some((seq![uc] + tail, j)),
                    None => None,
                },
                None => None,
            }
        } else {
            None
        }
    } else {
        match parse_strchars(s, i + 1) {
            Some((tail, j)) => Some((seq![s[i]] + tail, j)),
            None => None,
        }
    }
}

pub open spec fn parse_string_at(s: Seq<char>, i: int) -> Option<(Seq<char>, int)> {
    if 0 <= i < s.len() && s[i] == '"' {
        parse_strchars(s, i + 1)
    } else {
        None
    }
}

proof fn lemma_rt_strchars(s: Seq<char>, i: int, x: Seq<char>)
    requires
        0 <= i,
        i + esc_chars(x).len() + 1 <= s.len(),
        s.subrange(i, i + esc_chars(x).len() as int) == esc_chars(x),
        s[i + esc_chars(x).len()] == '"',
    ensures
        parse_strchars(s, i) == Some((x, i + esc_chars(x).len() + 1)),
    decreases x.len(),
{
    if x.len() == 0 {
        assert(esc_chars(x).len() == 0);
        assert(s[i] == '"');
    } else {
        let e0 = esc(x[0]);
        let rest = esc_chars(x.drop_first());
        assert(esc_chars(x) == e0 + rest);
        assert forall|k: int| 0 <= k < e0.len() implies s[i + k] == e0[k] by {
            assert(s.subrange(i, i + esc_chars(x).len() as int)[k] == s[i + k]);
            assert((e0 + rest)[k] == e0[k]);
        }
        let i2 = i + e0.len() as int;
        assert(s.subrange(i2, i2 + rest.len() as int) =~= rest) by {
            assert forall|k: int| 0 <= k < rest.len() implies s.subrange(
                i2,
                i2 + rest.len() as int,
            )[k] == rest[k] by {
                assert(s.subrange(i2, i2 + rest.len() as int)[k] == s[i2 + k]);
                assert(s.subrange(i, i + esc_chars(x).len() as int)[e0.len() + k] == s[i2 + k]);
                assert((e0 + rest)[e0.len() + k] == rest[k]);
            }
        }
        lemma_rt_strchars(s, i2, x.drop_first());
        let c = x[0];
        assert(s[i + 0] == e0[0]);
        if c == '"' || c == '\\' || c == '\n' || c == '\r' || c == '\t' {
            assert(s[i] == '\\');
            assert(s[i + 1] == e0[1]);
            assert(seq![c] + x.drop_first() =~= x);
        } else {
            assert(s[i] == c);
            assert(s[i] != '"' && s[i] != '\\');
            assert(seq![c] + x.drop_first() =~= x);
        }
    }
}

proof fn lemma_rt_string(s: Seq<char>, i: int, x: Seq<char>)
    requires
        0 <= i,
        i + enc_string(x).len() <= s.len(),
        s.subrange(i, i + enc_string(x).len() as int) == enc_string(x),
    ensures
        parse_string_at(s, i) == Some((x, i + enc_string(x).len() as int)),
{
    let w = enc_string(x);
    assert(s[i] == w[0]);
    assert(w[0] == '"');
    assert forall|k: int| 0 <= k < esc_chars(x).len() implies s[i + 1 + k] == esc_chars(x)[k] by {
        assert(s.subrange(i, i + w.len() as int)[1 + k] == s[i + 1 + k]);
        assert(w[1 + k] == (seq!['"'] + esc_chars(x) + seq!['"'])[1 + k]);
    }
    assert(s.subrange(i + 1, i + 1 + esc_chars(x).len() as int) =~= esc_chars(x));
    assert(s[i + 1 + esc_chars(x).len()] == w[w.len() - 1]);
    assert(w[w.len() - 1] == '"');
    lemma_rt_strchars(s, i + 1, x);
}

// ─── Optional values ────────────────────────────────────────────────────

pub open spec fn enc_opt_u64(o: Option<u64>) -> Seq<char> {
    match o {
        None => "null"@,
        Some(n) => dec_digits(n as nat),
    }
}

pub open spec fn parse_opt_u64_at(s: Seq<char>, i: int) -> Option<(Option<u64>, int)> {
    match expect_at(s, i, "null"@) {
        Some(j) => Some((None, j)),
        None => match parse_u64_at(s, i) {
            Some((n, j)) => Some((Some(n), j)),
            None => None,
        },
    }
}

pub open spec fn enc_opt_i64(o: Option<i64>) -> Seq<char> {
    match o {
        None => "null"@,
        Some(n) => enc_i64(n),
    }
}

pub open spec fn parse_opt_i64_at(s: Seq<char>, i: int) -> Option<(Option<i64>, int)> {
    match expect_at(s, i, "null"@) {
        Some(j) => Some((None, j)),
        None => match parse_i64_at(s, i) {
            Some((n, j)) => Some((Some(n), j)),
            None => None,
        },
    }
}

pub open spec fn enc_opt_bool(o: Option<bool>) -> Seq<char> {
    match o {
        None => "null"@,
        Some(b) => enc_bool(b),
    }
}

pub open spec fn parse_opt_bool_at(s: Seq<char>, i: int) -> Option<(Option<bool>, int)> {
    match expect_at(s, i, "null"@) {
        Some(j) => Some((None, j)),
        None => match parse_bool_at(s, i) {
            Some((b, j)) => Some((Some(b), j)),
            None => None,
        },
    }
}

pub open spec fn enc_opt_string(o: Option<String>) -> Seq<char> {
    match o {
        None => "null"@,
        Some(x) => enc_string(x@),
    }
}

pub open spec fn parse_opt_string_at(s: Seq<char>, i: int) -> Option<(Option<Seq<char>>, int)> {
    match expect_at(s, i, "null"@) {
        Some(j) => Some((None, j)),
        None => match parse_string_at(s, i) {
            Some((x, j)) => Some((Some(x), j)),
            None => None,
        },
    }
}

proof fn lemma_null_mismatch(s: Seq<char>, i: int, c: char)
    requires
        0 <= i < s.len(),
        s[i] == c,
        c != 'n',
    ensures
        expect_at(s, i, "null"@) is None,
{
    reveal_strlit("null");
    if i + 4 <= s.len() && s.subrange(i, i + 4) == "null"@ {
        assert(s.subrange(i, i + 4)[0] == s[i]);
        assert("null"@[0] == 'n');
    }
}

proof fn lemma_rt_opt_u64(s: Seq<char>, i: int, o: Option<u64>)
    requires
        0 <= i,
        i + enc_opt_u64(o).len() <= s.len(),
        s.subrange(i, i + enc_opt_u64(o).len() as int) == enc_opt_u64(o),
        i + enc_opt_u64(o).len() == s.len() || !is_digit(s[i + enc_opt_u64(o).len()]),
    ensures
        parse_opt_u64_at(s, i) == Some((o, i + enc_opt_u64(o).len() as int)),
{
    match o {
        None => {
            reveal_strlit("null");
        },
        Some(n) => {
            lemma_digits_val_of_dec(n as nat);
            assert(s[i] == dec_digits(n as nat)[0]) by {
                assert(s.subrange(i, i + enc_opt_u64(o).len() as int)[0] == s[i]);
            }
            assert(is_digit(s[i]));
            lemma_null_mismatch(s, i, s[i]);
            lemma_rt_u64(s, i, n);
        },
    }
}

proof fn lemma_rt_opt_i64(s: Seq<char>, i: int, o: Option<i64>)
    requires
        0 <= i,
        i + enc_opt_i64(o).len() <= s.len(),
        s.subrange(i, i + enc_opt_i64(o).len() as int) == enc_opt_i64(o),
        i + enc_opt_i64(o).len() == s.len() || !is_digit(s[i + enc_opt_i64(o).len()]),
    ensures
        parse_opt_i64_at(s, i) == Some((o, i + enc_opt_i64(o).len() as int)),
{
    match o {
        None => {
            reveal_strlit("null");
        },
        Some(n) => {
            assert(s[i] == enc_i64(n)[0]) by {
                assert(s.subrange(i, i + enc_opt_i64(o).len() as int)[0] == s[i]);
            }
            if n < 0 {
                assert(enc_i64(n)[0] == '-');
            } else {
                lemma_digits_val_of_dec(n as nat);
                assert(is_digit(s[i]));
            }
            lemma_null_mismatch(s, i, s[i]);
            lemma_rt_i64(s, i, n);
        },
    }
}

proof fn lemma_rt_opt_bool(s: Seq<char>, i: int, o: Option<bool>)
    requires
        0 <= i,
        i + enc_opt_bool(o).len() <= s.len(),
        s.subrange(i, i + enc_opt_bool(o).len() as int) == enc_opt_bool(o),
    ensures
        parse_opt_bool_at(s, i) == Some((o, i + enc_opt_bool(o).len() as int)),
{
    match o {
        None => {
            reveal_strlit("null");
        },
        Some(b) => {
            reveal_strlit("true");
            reveal_strlit("false");
            assert(s[i] == enc_bool(b)[0]) by {
                assert(s.subrange(i, i + enc_opt_bool(o).len() as int)[0] == s[i]);
            }
            lemma_null_mismatch(s, i, s[i]);
            lemma_rt_bool(s, i, b);
        },
    }
}

proof fn lemma_rt_opt_string(s: Seq<char>, i: int, o: Option<String>)
    requires
        0 <= i,
        i + enc_opt_string(o).len() <= s.len(),
        s.subrange(i, i + enc_opt_string(o).len() as int) == enc_opt_string(o),
    ensures
        parse_opt_string_at(s, i) == Some(
            (
                match o {
                    None => None,
                    Some(x) => Some(x@),
                },
                i + enc_opt_string(o).len() as int,
            ),
        ),
{
    match o {
        None => {
            reveal_strlit("null");
        },
        Some(x) => {
            assert(s[i] == enc_string(x@)[0]) by {
                assert(s.subrange(i, i + enc_opt_string(o).len() as int)[0] == s[i]);
            }
            assert(enc_string(x@)[0] == '"');
            lemma_null_mismatch(s, i, s[i]);
            lemma_rt_string(s, i, x@);
        },
    }
}

// ─── Splitting an encoding ──────────────────────────────────────────────

/// A stretch of text known to spell `a + b` spells `a` then `b`.
proof fn lemma_split_sub(s: Seq<char>, i: int, a: Seq<char>, b: Seq<char>)
    requires
        0 <= i,
        i + a.len() + b.len() <= s.len(),
        s.subrange(i, i + a.len() + b.len()) == a + b,
    ensures
        s.subrange(i, i + a.len() as int) == a,
        s.subrange(i + a.len(), i + a.len() + b.len()) == b,
{
    assert(s.subrange(i, i + a.len() as int) =~= a) by {
        assert forall|k: int| 0 <= k < a.len() implies s.subrange(i, i + a.len() as int)[k]
            == a[k] by {
            assert(s.subrange(i, i + a.len() + b.len())[k] == s[i + k]);
            assert((a + b)[k] == a[k]);
        }
    }
    assert(s.subrange(i + a.len(), i + a.len() + b.len()) =~= b) by {
        assert forall|k: int| 0 <= k < b.len() implies s.subrange(
            i + a.len(),
            i + a.len() + b.len(),
        )[k] == b[k] by {
            assert(s.subrange(i, i + a.len() + b.len())[a.len() + k] == s[i + a.len() + k]);
            assert((a + b)[a.len() + k] == b[k]);
        }
    }
}

// ─── Lists ──────────────────────────────────────────────────────────────

/// The encoding of the elements from `k` on, each preceded by a comma.
pub open spec fn enc_list_from<T>(xs: Seq<T>, k: int, f: spec_fn(T) -> Seq<char>) -> Seq<char>
    decreases xs.len() - k,
{
    if k < 0 || k >= xs.len() {
        Seq::empty()
    } else {
        seq![','] + f(xs[k]) + enc_list_from(xs, k + 1, f)
    }
}

/// A JSON array of the elements, in order.
pub open spec fn enc_vec<T>(xs: Seq<T>, f: spec_fn(T) -> Seq<char>) -> Seq<char> {
    if xs.len() == 0 {
        seq!['[', ']']
    } else {
        seq!['['] + f(xs[0]) + enc_list_from(xs, 1, f) + seq![']']
    }
}

/// Elements up to and including the closing bracket. Comes after the
/// opening bracket and the first element's start, so the array is known
/// non-empty.
pub open spec fn parse_items<TV>(
    s: Seq<char>,
    i: int,
    pf: spec_fn(Seq<char>, int) -> Option<(TV, int)>,
) -> Option<(Seq<TV>, int)>
    decreases s.len() - i,
{
    if i < 0 || i >= s.len() {
        None
    } else {
        match pf(s, i) {
            None => None,
            Some((x, j)) => {
                let j2 = if j < i + 1 {
                    i + 1
                } else if j > s.len() {
                    s.len() as int
                } else {
                    j
                };
                if j2 < s.len() && s[j2] == ',' {
                    match parse_items(s, j2 + 1, pf) {
                        Some((tail, jj)) => Some((seq![x] + tail, jj)),
                        None => None,
                    }
                } else if j2 < s.len() && s[j2] == ']' {
                    Some((seq![x], j2 + 1))
                } else {
                    None
                }
            },
        }
    }
}

pub open spec fn parse_vec_at<TV>(
    s: Seq<char>,
    i: int,
    pf: spec_fn(Seq<char>, int) -> Option<(TV, int)>,
) -> Option<(Seq<TV>, int)> {
    if 0 <= i && i + 1 < s.len() && s[i] == '[' {
        if s[i + 1] == ']' {
            Some((Seq::empty(), i + 2))
        } else {
            parse_items(s, i + 1, pf)
        }
    } else {
        None
    }
}

/// Parsing picks the elements back up, one by one, given that each
/// element's own encoding parses back to its image.
proof fn lemma_rt_items<T, TV>(
    s: Seq<char>,
    i: int,
    xs: Seq<T>,
    k: int,
    f: spec_fn(T) -> Seq<char>,
    g: spec_fn(T) -> TV,
    pf: spec_fn(Seq<char>, int) -> Option<(TV, int)>,
)
    requires
        0 <= k < xs.len(),
        0 <= i,
        i + f(xs[k]).len() + enc_list_from(xs, k + 1, f).len() + 1 <= s.len(),
        s.subrange(i, i + f(xs[k]).len() + enc_list_from(xs, k + 1, f).len()) == f(xs[k])
            + enc_list_from(xs, k + 1, f),
        s[i + f(xs[k]).len() + enc_list_from(xs, k + 1, f).len()] == ']',
        forall|m: int| k <= m < xs.len() ==> (#[trigger] f(xs[m])).len() >= 1,
        forall|ii: int, m: int|
            k <= m < xs.len() && 0 <= ii && ii + f(xs[m]).len() <= s.len() && s.subrange(
                ii,
                ii + f(xs[m]).len() as int,
            ) == #[trigger] f(xs[m]) ==> #[trigger] pf(s, ii) == Some(
                (g(xs[m]), ii + f(xs[m]).len() as int),
            ),
    ensures
        parse_items(s, i, pf) == Some(
            (xs.skip(k).map_values(g), i + f(xs[k]).len() + enc_list_from(xs, k + 1, f).len() + 1),
        ),
    decreases xs.len() - k,
{
    let fk = f(xs[k]);
    let rest = enc_list_from(xs, k + 1, f);
    lemma_split_sub(s, i, fk, rest);
    assert(pf(s, i) == Some((g(xs[k]), i + fk.len() as int)));
    let j = i + fk.len() as int;
    if k + 1 < xs.len() {
        let fk1 = f(xs[k + 1]);
        let rest2 = enc_list_from(xs, k + 2, f);
        assert(rest == seq![','] + fk1 + rest2);
        assert(s[j] == ',') by {
            assert(s.subrange(j, j + rest.len() as int)[0] == s[j]);
            assert((seq![','] + fk1 + rest2)[0] == ',');
        }
        assert(s.subrange(j + 1, j + 1 + fk1.len() + rest2.len()) =~= fk1 + rest2) by {
            assert forall|p: int| 0 <= p < fk1.len() + rest2.len() implies s.subrange(
                j + 1,
                j + 1 + fk1.len() + rest2.len(),
            )[p] == (fk1 + rest2)[p] by {
                assert(s.subrange(j, j + rest.len() as int)[1 + p] == s[j + 1 + p]);
                assert((seq![','] + fk1 + rest2)[1 + p] == (fk1 + rest2)[p]);
            }
        }
        lemma_rt_items(s, j + 1, xs, k + 1, f, g, pf);
        assert(seq![g(xs[k])] + xs.skip(k + 1).map_values(g) =~= xs.skip(k).map_values(g));
    } else {
        assert(rest.len() == 0);
        assert(s[j] == ']');
        assert(xs.skip(k).map_values(g) =~= seq![g(xs[k])]);
    }
}

/// A whole array parses back to the images of its elements.
proof fn lemma_rt_vec<T, TV>(
    s: Seq<char>,
    i: int,
    xs: Seq<T>,
    f: spec_fn(T) -> Seq<char>,
    g: spec_fn(T) -> TV,
    pf: spec_fn(Seq<char>, int) -> Option<(TV, int)>,
)
    requires
        0 <= i,
        i + enc_vec(xs, f).len() <= s.len(),
        s.subrange(i, i + enc_vec(xs, f).len() as int) == enc_vec(xs, f),
        forall|m: int| 0 <= m < xs.len() ==> (#[trigger] f(xs[m])).len() >= 1,
        forall|m: int| 0 <= m < xs.len() ==> (#[trigger] f(xs[m]))[0] != ']',
        forall|ii: int, m: int|
            0 <= m < xs.len() && 0 <= ii && ii + f(xs[m]).len() <= s.len() && s.subrange(
                ii,
                ii + f(xs[m]).len() as int,
            ) == #[trigger] f(xs[m]) ==> #[trigger] pf(s, ii) == Some(
                (g(xs[m]), ii + f(xs[m]).len() as int),
            ),
    ensures
        parse_vec_at(s, i, pf) == Some((xs.map_values(g), i + enc_vec(xs, f).len() as int)),
{
    let w = enc_vec(xs, f);
    assert(s[i] == w[0]);
    assert(w[0] == '[');
    if xs.len() == 0 {
        assert(s[i + 1] == w[1]);
        assert(w[1] == ']');
        assert(xs.map_values(g) =~= Seq::<TV>::empty());
    } else {
        let body = f(xs[0]) + enc_list_from(xs, 1, f);
        assert(w == seq!['['] + f(xs[0]) + enc_list_from(xs, 1, f) + seq![']']);
        assert(s.subrange(i + 1, i + 1 + body.len() as int) =~= body) by {
            assert forall|p: int| 0 <= p < body.len() implies s.subrange(
                i + 1,
                i + 1 + body.len() as int,
            )[p] == body[p] by {
                assert(s.subrange(i, i + w.len() as int)[1 + p] == s[i + 1 + p]);
                assert(w[1 + p] == body[p]);
            }
        }
        assert(s[i + 1 + body.len()] == w[w.len() - 1]) by {
            assert(s.subrange(i, i + w.len() as int)[w.len() - 1] == s[i + w.len() - 1]);
        }
        assert(w[w.len() - 1] == ']');
        assert(s[i + 1] == body[0]) by {
            assert(s.subrange(i + 1, i + 1 + body.len() as int)[0] == s[i + 1]);
        }
        assert(body[0] == f(xs[0])[0]);
        assert(s[i + 1] != ']');
        lemma_rt_items(s, i + 1, xs, 0, f, g, pf);
        assert(xs.skip(0) =~= xs);
    }
}

// ─── Workflow states ────────────────────────────────────────────────────

pub open spec fn enc_state(x: WorkflowState) -> Seq<char> {
    match x {
        WorkflowState::Unsubmitted => "\"unsubmitted\""@,
        WorkflowState::Submitted => "\"submitted\""@,
        WorkflowState::Graded => "\"graded\""@,
    }
}

pub open spec fn parse_state_at(s: Seq<char>, i: int) -> Option<(WorkflowState, int)> {
    match expect_at(s, i, "\"unsubmitted\""@) {
        Some(j) => Some((WorkflowState::Unsubmitted, j)),
        None => match expect_at(s, i, "\"submitted\""@) {
            Some(j) => Some((WorkflowState::Submitted, j)),
            None => match expect_at(s, i, "\"graded\""@) {
                Some(j) => Some((WorkflowState::Graded, j)),
                None => None,
            },
        },
    }
}

proof fn lemma_expect_mismatch(s: Seq<char>, i: int, w: Seq<char>, k: int, c: char)
    requires
        0 <= i,
        0 <= k < w.len(),
        i + k < s.len(),
        s[i + k] == c,
        w[k] != c,
    ensures
        expect_at(s, i, w) is None,
{
    if i + w.len() <= s.len() && s.subrange(i, i + w.len()) == w {
        assert(s.subrange(i, i + w.len())[k] == s[i + k]);
    }
}

proof fn lemma_rt_state(s: Seq<char>, i: int, x: WorkflowState)
    requires
        0 <= i,
        i + enc_state(x).len() <= s.len(),
        s.subrange(i, i + enc_state(x).len() as int) == enc_state(x),
    ensures
        parse_state_at(s, i) == Some((x, i + enc_state(x).len() as int)),
{
    reveal_strlit("\"unsubmitted\"");
    reveal_strlit("\"submitted\"");
    reveal_strlit("\"graded\"");
    assert(s[i + 1] == enc_state(x)[1]) by {
        assert(s.subrange(i, i + enc_state(x).len() as int)[1] == s[i + 1]);
    }
    match x {
        WorkflowState::Unsubmitted => {
        },
        WorkflowState::Submitted => {
            lemma_expect_mismatch(s, i, "\"unsubmitted\""@, 1, 's');
        },
        WorkflowState::Graded => {
            lemma_expect_mismatch(s, i, "\"unsubmitted\""@, 1, 'g');
            lemma_expect_mismatch(s, i, "\"submitted\""@, 1, 'g');
        },
    }
}

proof fn lemma_enc_string_first(x: Seq<char>)
    ensures
        enc_string(x).len() >= 2,
        enc_string(x)[0] == '"',
{
}

// ─── Vectors of each element type ───────────────────────────────────────

pub open spec fn enc_enrollment_vec(xs: Seq<Enrollment>) -> Seq<char> {
    enc_vec(xs, |e: Enrollment| enc_enrollment(e))
}

pub open spec fn parse_enrollment_vec_at(s: Seq<char>, i: int) -> Option<(Seq<EnrollmentV>, int)> {
    parse_vec_at(s, i, |s2: Seq<char>, i2: int| parse_enrollment_at(s2, i2))
}

proof fn lemma_rt_enrollment_vec(s: Seq<char>, i: int, xs: Seq<Enrollment>)
    requires
        0 <= i,
        i + enc_enrollment_vec(xs).len() <= s.len(),
        s.subrange(i, i + enc_enrollment_vec(xs).len() as int) == enc_enrollment_vec(xs),
    ensures
        parse_enrollment_vec_at(s, i) == Some((views_enrollments(xs), i + enc_enrollment_vec(xs).len() as int)),
{
    let f = |e: Enrollment| enc_enrollment(e);
    let g = |e: Enrollment| e@;
    let pf = |s2: Seq<char>, i2: int| parse_enrollment_at(s2, i2);
    assert forall|m: int| 0 <= m < xs.len() implies (#[trigger] f(xs[m])).len() >= 1 by {
        lemma_enc_enrollment_first(xs[m]);
    }
    assert forall|m: int| 0 <= m < xs.len() implies (#[trigger] f(xs[m]))[0] != ']' by {
        lemma_enc_enrollment_first(xs[m]);
    }
    assert forall|ii: int, m: int|
        0 <= m < xs.len() && 0 <= ii && ii + f(xs[m]).len() <= s.len() && s.subrange(
            ii,
            ii + f(xs[m]).len() as int,
        ) == #[trigger] f(xs[m]) implies #[trigger] pf(s, ii) == Some(
        (g(xs[m]), ii + f(xs[m]).len() as int),
    ) by {
        lemma_rt_enrollment(s, ii, xs[m]);
    }
    lemma_rt_vec(s, i, xs, f, g, pf);
    assert(xs.map_values(g) =~= views_enrollments(xs));
}


pub open spec fn enc_course_vec(xs: Seq<Course>) -> Seq<char> {
    enc_vec(xs, |e: Course| enc_course(e))
}

pub open spec fn parse_course_vec_at(s: Seq<char>, i: int) -> Option<(Seq<CourseV>, int)> {
    parse_vec_at(s, i, |s2: Seq<char>, i2: int| parse_course_at(s2, i2))
}

proof fn lemma_rt_course_vec(s: Seq<char>, i: int, xs: Seq<Course>)
    requires
        0 <= i,
        i + enc_course_vec(xs).len() <= s.len(),
        s.subrange(i, i + enc_course_vec(xs).len() as int) == enc_course_vec(xs),
    ensures
        parse_course_vec_at(s, i) == Some((views_courses(xs), i + enc_course_vec(xs).len() as int)),
{
    let f = |e: Course| enc_course(e);
    let g = |e: Course| e@;
    let pf = |s2: Seq<char>, i2: int| parse_course_at(s2, i2);
    assert forall|m: int| 0 <= m < xs.len() implies (#[trigger] f(xs[m])).len() >= 1 by {
        lemma_enc_course_first(xs[m]);
    }
    assert forall|m: int| 0 <= m < xs.len() implies (#[trigger] f(xs[m]))[0] != ']' by {
        lemma_enc_course_first(xs[m]);
    }
    assert forall|ii: int, m: int|
        0 <= m < xs.len() && 0 <= ii && ii + f(xs[m]).len() <= s.len() && s.subrange(
            ii,
            ii + f(xs[m]).len() as int,
        ) == #[trigger] f(xs[m]) implies #[trigger] pf(s, ii) == Some(
        (g(xs[m]), ii + f(xs[m]).len() as int),
    ) by {
        lemma_rt_course(s, ii, xs[m]);
    }
    lemma_rt_vec(s, i, xs, f, g, pf);
    assert(xs.map_values(g) =~= views_courses(xs));
}


pub open spec fn enc_assignment_vec(xs: Seq<Assignment>) -> Seq<char> {
    enc_vec(xs, |e: Assignment| enc_assignment(e))
}

pub open spec fn parse_assignment_vec_at(s: Seq<char>, i: int) -> Option<(Seq<AssignmentV>, int)> {
    parse_vec_at(s, i, |s2: Seq<char>, i2: int| parse_assignment_at(s2, i2))
}

proof fn lemma_rt_assignment_vec(s: Seq<char>, i: int, xs: Seq<Assignment>)
    requires
        0 <= i,
        i + enc_assignment_vec(xs).len() <= s.len(),
        s.subrange(i, i + enc_assignment_vec(xs).len() as int) == enc_assignment_vec(xs),
    ensures
        parse_assignment_vec_at(s, i) == Some((views_assignments(xs), i + enc_assignment_vec(xs).len() as int)),
{
    let f = |e: Assignment| enc_assignment(e);
    let g = |e: Assignment| e@;
    let pf = |s2: Seq<char>, i2: int| parse_assignment_at(s2, i2);
    assert forall|m: int| 0 <= m < xs.len() implies (#[trigger] f(xs[m])).len() >= 1 by {
        lemma_enc_assignment_first(xs[m]);
    }
    assert forall|m: int| 0 <= m < xs.len() implies (#[trigger] f(xs[m]))[0] != ']' by {
        lemma_enc_assignment_first(xs[m]);
    }
    assert forall|ii: int, m: int|
        0 <= m < xs.len() && 0 <= ii && ii + f(xs[m]).len() <= s.len() && s.subrange(
            ii,
            ii + f(xs[m]).len() as int,
        ) == #[trigger] f(xs[m]) implies #[trigger] pf(s, ii) == Some(
        (g(xs[m]), ii + f(xs[m]).len() as int),
    ) by {
        lemma_rt_assignment(s, ii, xs[m]);
    }
    lemma_rt_vec(s, i, xs, f, g, pf);
    assert(xs.map_values(g) =~= views_assignments(xs));
}


pub open spec fn enc_calendar_event_vec(xs: Seq<CalendarEvent>) -> Seq<char> {
    enc_vec(xs, |e: CalendarEvent| enc_calendar_event(e))
}

pub open spec fn parse_calendar_event_vec_at(s: Seq<char>, i: int) -> Option<(Seq<CalendarEventV>, int)> {
    parse_vec_at(s, i, |s2: Seq<char>, i2: int| parse_calendar_event_at(s2, i2))
}

proof fn lemma_rt_calendar_event_vec(s: Seq<char>, i: int, xs: Seq<CalendarEvent>)
    requires
        0 <= i,
        i + enc_calendar_event_vec(xs).len() <= s.len(),
        s.subrange(i, i + enc_calendar_event_vec(xs).len() as int) == enc_calendar_event_vec(xs),
    ensures
        parse_calendar_event_vec_at(s, i) == Some((views_calendar_events(xs), i + enc_calendar_event_vec(xs).len() as int)),
{
    let f = |e: CalendarEvent| enc_calendar_event(e);
    let g = |e: CalendarEvent| e@;
    let pf = |s2: Seq<char>, i2: int| parse_calendar_event_at(s2, i2);
    assert forall|m: int| 0 <= m < xs.len() implies (#[trigger] f(xs[m])).len() >= 1 by {
        lemma_enc_calendar_event_first(xs[m]);
    }
    assert forall|m: int| 0 <= m < xs.len() implies (#[trigger] f(xs[m]))[0] != ']' by {
        lemma_enc_calendar_event_first(xs[m]);
    }
    assert forall|ii: int, m: int|
        0 <= m < xs.len() && 0 <= ii && ii + f(xs[m]).len() <= s.len() && s.subrange(
            ii,
            ii + f(xs[m]).len() as int,
        ) == #[trigger] f(xs[m]) implies #[trigger] pf(s, ii) == Some(
        (g(xs[m]), ii + f(xs[m]).len() as int),
    ) by {
        lemma_rt_calendar_event(s, ii, xs[m]);
    }
    lemma_rt_vec(s, i, xs, f, g, pf);
    assert(xs.map_values(g) =~= views_calendar_events(xs));
}


pub open spec fn enc_discussion_topic_vec(xs: Seq<DiscussionTopic>) -> Seq<char> {
    enc_vec(xs, |e: DiscussionTopic| enc_discussion_topic(e))
}

pub open spec fn parse_discussion_topic_vec_at(s: Seq<char>, i: int) -> Option<(Seq<DiscussionTopicV>, int)> {
    parse_vec_at(s, i, |s2: Seq<char>, i2: int| parse_discussion_topic_at(s2, i2))
}

proof fn lemma_rt_discussion_topic_vec(s: Seq<char>, i: int, xs: Seq<DiscussionTopic>)
    requires
        0 <= i,
        i + enc_discussion_topic_vec(xs).len() <= s.len(),
        s.subrange(i, i + enc_discussion_topic_vec(xs).len() as int) == enc_discussion_topic_vec(xs),
    ensures
        parse_discussion_topic_vec_at(s, i) == Some((views_discussion_topics(xs), i + enc_discussion_topic_vec(xs).len() as int)),
{
    let f = |e: DiscussionTopic| enc_discussion_topic(e);
    let g = |e: DiscussionTopic| e@;
    let pf = |s2: Seq<char>, i2: int| parse_discussion_topic_at(s2, i2);
    assert forall|m: int| 0 <= m < xs.len() implies (#[trigger] f(xs[m])).len() >= 1 by {
        lemma_enc_discussion_topic_first(xs[m]);
    }
    assert forall|m: int| 0 <= m < xs.len() implies (#[trigger] f(xs[m]))[0] != ']' by {
        lemma_enc_discussion_topic_first(xs[m]);
    }
    assert forall|ii: int, m: int|
        0 <= m < xs.len() && 0 <= ii && ii + f(xs[m]).len() <= s.len() && s.subrange(
            ii,
            ii + f(xs[m]).len() as int,
        ) == #[trigger] f(xs[m]) implies #[trigger] pf(s, ii) == Some(
        (g(xs[m]), ii + f(xs[m]).len() as int),
    ) by {
        lemma_rt_discussion_topic(s, ii, xs[m]);
    }
    lemma_rt_vec(s, i, xs, f, g, pf);
    assert(xs.map_values(g) =~= views_discussion_topics(xs));
}


pub open spec fn enc_opt_submission(o: Option<Submission>) -> Seq<char> {
    match o {
        None => "null"@,
        Some(v) => enc_submission(v),
    }
}

pub open spec fn parse_opt_submission_at(s: Seq<char>, i: int) -> Option<(Option<SubmissionV>, int)> {
    match expect_at(s, i, "null"@) {
        Some(j) => Some((None, j)),
        None => match parse_submission_at(s, i) {
            Some((v, j)) => Some((Some(v), j)),
            None => None,
        },
    }
}

proof fn lemma_rt_opt_submission(s: Seq<char>, i: int, o: Option<Submission>)
    requires
        0 <= i,
        i + enc_opt_submission(o).len() <= s.len(),
        s.subrange(i, i + enc_opt_submission(o).len() as int) == enc_opt_submission(o),
    ensures
        parse_opt_submission_at(s, i) == Some(
            (
                match o {
                    None => None,
                    Some(v) => Some(v@),
                },
                i + enc_opt_submission(o).len() as int,
            ),
        ),
{
    match o {
        None => {
            reveal_strlit("null");
        },
        Some(v) => {
            lemma_enc_submission_first(v);
            assert(s[i] == enc_submission(v)[0]) by {
                assert(s.subrange(i, i + enc_opt_submission(o).len() as int)[0] == s[i]);
            }
            lemma_null_mismatch(s, i, s[i]);
            lemma_rt_submission(s, i, v);
        },
    }
}


pub open spec fn enc_opt_assignment_event_detail(o: Option<AssignmentEventDetail>) -> Seq<char> {
    match o {
        None => "null"@,
        Some(v) => enc_assignment_event_detail(v),
    }
}

pub open spec fn parse_opt_assignment_event_detail_at(s: Seq<char>, i: int) -> Option<(Option<AssignmentEventDetailV>, int)> {
    match expect_at(s, i, "null"@) {
        Some(j) => Some((None, j)),
        None => match parse_assignment_event_detail_at(s, i) {
            Some((v, j)) => Some((Some(v), j)),
            None => None,
        },
    }
}

proof fn lemma_rt_opt_assignment_event_detail(s: Seq<char>, i: int, o: Option<AssignmentEventDetail>)
    requires
        0 <= i,
        i + enc_opt_assignment_event_detail(o).len() <= s.len(),
        s.subrange(i, i + enc_opt_assignment_event_detail(o).len() as int) == enc_opt_assignment_event_detail(o),
    ensures
        parse_opt_assignment_event_detail_at(s, i) == Some(
            (
                match o {
                    None => None,
                    Some(v) => Some(v@),
                },
                i + enc_opt_assignment_event_detail(o).len() as int,
            ),
        ),
{
    match o {
        None => {
            reveal_strlit("null");
        },
        Some(v) => {
            lemma_enc_assignment_event_detail_first(v);
            assert(s[i] == enc_assignment_event_detail(v)[0]) by {
                assert(s.subrange(i, i + enc_opt_assignment_event_detail(o).len() as int)[0] == s[i]);
            }
            lemma_null_mismatch(s, i, s[i]);
            lemma_rt_assignment_event_detail(s, i, v);
        },
    }
}


pub open spec fn enc_opt_user(o: Option<User>) -> Seq<char> {
    match o {
        None => "null"@,
        Some(v) => enc_user(v),
    }
}

pub open spec fn parse_opt_user_at(s: Seq<char>, i: int) -> Option<(Option<UserV>, int)> {
    match expect_at(s, i, "null"@) {
        Some(j) => Some((None, j)),
        None => match parse_user_at(s, i) {
            Some((v, j)) => Some((Some(v), j)),
            None => None,
        },
    }
}

proof fn lemma_rt_opt_user(s: Seq<char>, i: int, o: Option<User>)
    requires
        0 <= i,
        i + enc_opt_user(o).len() <= s.len(),
        s.subrange(i, i + enc_opt_user(o).len() as int) == enc_opt_user(o),
    ensures
        parse_opt_user_at(s, i) == Some(
            (
                match o {
                    None => None,
                    Some(v) => Some(v@),
                },
                i + enc_opt_user(o).len() as int,
            ),
        ),
{
    match o {
        None => {
            reveal_strlit("null");
        },
        Some(v) => {
            lemma_enc_user_first(v);
            assert(s[i] == enc_user(v)[0]) by {
                assert(s.subrange(i, i + enc_opt_user(o).len() as int)[0] == s[i]);
            }
            lemma_null_mismatch(s, i, s[i]);
            lemma_rt_user(s, i, v);
        },
    }
}


pub open spec fn enc_opt_enrollment_vec(o: Option<Vec<Enrollment>>) -> Seq<char> {
    match o {
        None => "null"@,
        Some(v) => enc_enrollment_vec(v@),
    }
}

pub open spec fn parse_opt_enrollment_vec_at(s: Seq<char>, i: int) -> Option<
    (Option<Seq<EnrollmentV>>, int),
> {
    match expect_at(s, i, "null"@) {
        Some(j) => Some((None, j)),
        None => match parse_enrollment_vec_at(s, i) {
            Some((v, j)) => Some((Some(v), j)),
            None => None,
        },
    }
}

proof fn lemma_rt_opt_enrollment_vec(s: Seq<char>, i: int, o: Option<Vec<Enrollment>>)
    requires
        0 <= i,
        i + enc_opt_enrollment_vec(o).len() <= s.len(),
        s.subrange(i, i + enc_opt_enrollment_vec(o).len() as int) == enc_opt_enrollment_vec(o),
    ensures
        parse_opt_enrollment_vec_at(s, i) == Some(
            (
                match o {
                    None => None,
                    Some(v) => Some(views_enrollments(v@)),
                },
                i + enc_opt_enrollment_vec(o).len() as int,
            ),
        ),
{
    match o {
        None => {
            reveal_strlit("null");
        },
        Some(v) => {
            assert(s[i] == enc_enrollment_vec(v@)[0]) by {
                assert(s.subrange(i, i + enc_opt_enrollment_vec(o).len() as int)[0] == s[i]);
            }
            assert(enc_enrollment_vec(v@)[0] == '[');
            lemma_null_mismatch(s, i, s[i]);
            lemma_rt_enrollment_vec(s, i, v@);
        },
    }
}

// ─── Vectors of strings ─────────────────────────────────────────────────

pub open spec fn enc_string_vec(xs: Seq<String>) -> Seq<char> {
    enc_vec(xs, |x: String| enc_string(x@))
}

pub open spec fn parse_string_vec_at(s: Seq<char>, i: int) -> Option<(Seq<Seq<char>>, int)> {
    parse_vec_at(s, i, |s2: Seq<char>, i2: int| parse_string_at(s2, i2))
}

proof fn lemma_rt_string_vec(s: Seq<char>, i: int, xs: Seq<String>)
    requires
        0 <= i,
        i + enc_string_vec(xs).len() <= s.len(),
        s.subrange(i, i + enc_string_vec(xs).len() as int) == enc_string_vec(xs),
    ensures
        parse_string_vec_at(s, i) == Some(
            (xs.map_values(|x: String| x@), i + enc_string_vec(xs).len() as int),
        ),
{
    let f = |x: String| enc_string(x@);
    let g = |x: String| x@;
    let pf = |s2: Seq<char>, i2: int| parse_string_at(s2, i2);
    assert forall|m: int| 0 <= m < xs.len() implies (#[trigger] f(xs[m])).len() >= 1 by {
        lemma_enc_string_first(xs[m]@);
    }
    assert forall|m: int| 0 <= m < xs.len() implies (#[trigger] f(xs[m]))[0] != ']' by {
        lemma_enc_string_first(xs[m]@);
    }
    assert forall|ii: int, m: int|
        0 <= m < xs.len() && 0 <= ii && ii + f(xs[m]).len() <= s.len() && s.subrange(
            ii,
            ii + f(xs[m]).len() as int,
        ) == #[trigger] f(xs[m]) implies #[trigger] pf(s, ii) == Some(
        (g(xs[m]), ii + f(xs[m]).len() as int),
    ) by {
        lemma_rt_string(s, ii, xs[m]@);
    }
    lemma_rt_vec(s, i, xs, f, g, pf);
    assert(xs.map_values(g) =~= xs.map_values(|x: String| x@));
}

pub open spec fn enc_opt_string_vec(o: Option<Vec<String>>) -> Seq<char> {
    match o {
        None => "null"@,
        Some(v) => enc_string_vec(v@),
    }
}

pub open spec fn parse_opt_string_vec_at(s: Seq<char>, i: int) -> Option<
    (Option<Seq<Seq<char>>>, int),
> {
    match expect_at(s, i, "null"@) {
        Some(j) => Some((None, j)),
        None => match parse_string_vec_at(s, i) {
            Some((v, j)) => Some((Some(v), j)),
            None => None,
        },
    }
}

proof fn lemma_rt_opt_string_vec(s: Seq<char>, i: int, o: Option<Vec<String>>)
    requires
        0 <= i,
        i + enc_opt_string_vec(o).len() <= s.len(),
        s.subrange(i, i + enc_opt_string_vec(o).len() as int) == enc_opt_string_vec(o),
    ensures
        parse_opt_string_vec_at(s, i) == Some(
            (
                match o {
                    None => None,
                    Some(v) => Some(v@.map_values(|x: String| x@)),
                },
                i + enc_opt_string_vec(o).len() as int,
            ),
        ),
{
    match o {
        None => {
            reveal_strlit("null");
        },
        Some(v) => {
            assert(s[i] == enc_string_vec(v@)[0]) by {
                assert(s.subrange(i, i + enc_opt_string_vec(o).len() as int)[0] == s[i]);
            }
            assert(enc_string_vec(v@)[0] == '[');
            lemma_null_mismatch(s, i, s[i]);
            lemma_rt_string_vec(s, i, v@);
        },
    }
}

// ─── Course groups: (name, assignments) pairs ───────────────────────────

#[verifier::opaque]
pub open spec fn enc_pair(p: (String, Vec<Assignment>)) -> Seq<char> {
    seq!['['] + (enc_string(p.0@) + (seq![','] + (enc_assignment_vec(p.1@) + (seq![']']))))
}

pub open spec fn views_pairs(s: Seq<(String, Vec<Assignment>)>) -> Seq<
    (Seq<char>, Seq<AssignmentV>),
> {
    s.map_values(|p: (String, Vec<Assignment>)| (p.0@, views_assignments(p.1@)))
}

#[verifier::opaque]
pub open spec fn parse_pair_at(s: Seq<char>, i: int) -> Option<
    ((Seq<char>, Seq<AssignmentV>), int),
> {
    if 0 <= i < s.len() && s[i] == '[' {
        match parse_string_at(s, i + 1) {
            None => None,
            Some((name, j)) => if 0 <= j < s.len() && s[j] == ',' {
                match parse_assignment_vec_at(s, j + 1) {
                    None => None,
                    Some((asgns, j2)) => if 0 <= j2 < s.len() && s[j2] == ']' {
                        Some(((name, asgns), j2 + 1))
                    } else {
                        None
                    },
                }
            } else {
                None
            },
        }
    } else {
        None
    }
}

proof fn lemma_enc_pair_first(p: (String, Vec<Assignment>))
    ensures
        enc_pair(p).len() >= 1,
        enc_pair(p)[0] == '[',
{
    reveal(enc_pair);
}

proof fn lemma_rt_pair(s: Seq<char>, i: int, p: (String, Vec<Assignment>))
    requires
        0 <= i,
        i + enc_pair(p).len() <= s.len(),
        s.subrange(i, i + enc_pair(p).len() as int) == enc_pair(p),
    ensures
        parse_pair_at(s, i) == Some(
            ((p.0@, views_assignments(p.1@)), i + enc_pair(p).len() as int),
        ),
{
    reveal(enc_pair);
    reveal(parse_pair_at);
    let q0 = seq!['['];
    let q1 = enc_string(p.0@);
    let q2 = seq![','];
    let q3 = enc_assignment_vec(p.1@);
    let q4 = seq![']'];
    let t4 = q4;
    let t3 = q3 + t4;
    let t2 = q2 + t3;
    let t1 = q1 + t2;
    let t0 = q0 + t1;
    assert(enc_pair(p) == t0);
    let end = i + enc_pair(p).len() as int;
    let c0 = i;
    let c1 = c0 + q0.len() as int;
    let c2 = c1 + q1.len() as int;
    let c3 = c2 + q2.len() as int;
    let c4 = c3 + q3.len() as int;
    assert(s.subrange(c0, end) == t0);
    lemma_split_sub(s, c0, q0, t1);
    lemma_split_sub(s, c1, q1, t2);
    lemma_split_sub(s, c2, q2, t3);
    lemma_split_sub(s, c3, q3, t4);
    assert(s[c0] == '[') by {
        assert(s.subrange(c0, c1)[0] == s[c0]);
    }
    assert(s[c2] == ',') by {
        assert(s.subrange(c2, c3)[0] == s[c2]);
    }
    assert(s[c4] == ']') by {
        assert(s.subrange(c4, end)[0] == s[c4]);
    }
    lemma_rt_string(s, c1, p.0@);
    lemma_rt_assignment_vec(s, c3, p.1@);
    assert(parse_pair_at(s, i) == Some(((p.0@, views_assignments(p.1@)), end)));
}

pub open spec fn enc_pair_vec(xs: Seq<(String, Vec<Assignment>)>) -> Seq<char> {
    enc_vec(xs, |p: (String, Vec<Assignment>)| enc_pair(p))
}

pub open spec fn parse_pair_vec_at(s: Seq<char>, i: int) -> Option<
    (Seq<(Seq<char>, Seq<AssignmentV>)>, int),
> {
    parse_vec_at(s, i, |s2: Seq<char>, i2: int| parse_pair_at(s2, i2))
}

proof fn lemma_rt_pair_vec(s: Seq<char>, i: int, xs: Seq<(String, Vec<Assignment>)>)
    requires
        0 <= i,
        i + enc_pair_vec(xs).len() <= s.len(),
        s.subrange(i, i + enc_pair_vec(xs).len() as int) == enc_pair_vec(xs),
    ensures
        parse_pair_vec_at(s, i) == Some((views_pairs(xs), i + enc_pair_vec(xs).len() as int)),
{
    let f = |p: (String, Vec<Assignment>)| enc_pair(p);
    let g = |p: (String, Vec<Assignment>)| (p.0@, views_assignments(p.1@));
    let pf = |s2: Seq<char>, i2: int| parse_pair_at(s2, i2);
    assert forall|m: int| 0 <= m < xs.len() implies (#[trigger] f(xs[m])).len() >= 1 by {
        lemma_enc_pair_first(xs[m]);
    }
    assert forall|m: int| 0 <= m < xs.len() implies (#[trigger] f(xs[m]))[0] != ']' by {
        lemma_enc_pair_first(xs[m]);
    }
    assert forall|ii: int, m: int|
        0 <= m < xs.len() && 0 <= ii && ii + f(xs[m]).len() <= s.len() && s.subrange(
            ii,
            ii + f(xs[m]).len() as int,
        ) == #[trigger] f(xs[m]) implies #[trigger] pf(s, ii) == Some(
        (g(xs[m]), ii + f(xs[m]).len() as int),
    ) by {
        lemma_rt_pair(s, ii, xs[m]);
    }
    lemma_rt_vec(s, i, xs, f, g, pf);
    assert(xs.map_values(g) =~= views_pairs(xs));
}

/// Ghost image of one `Enrollment` as the cache file reads back.
pub struct EnrollmentV {
    pub enrollment_type: Option<Seq<char>>,
    pub computed_current_score_tenths: Option<u64>,
    pub computed_current_grade: Option<Seq<char>>,
    pub computed_final_score_tenths: Option<u64>,
    pub computed_final_grade: Option<Seq<char>>,
}

impl View for Enrollment {
    type V = EnrollmentV;

    open spec fn view(&self) -> EnrollmentV {
        EnrollmentV {
            enrollment_type: view_opt_string(self.enrollment_type),
            computed_current_score_tenths: self.computed_current_score_tenths,
            computed_current_grade: view_opt_string(self.computed_current_grade),
            computed_final_score_tenths: self.computed_final_score_tenths,
            computed_final_grade: view_opt_string(self.computed_final_grade),
        }
    }
}

pub open spec fn views_enrollments(s: Seq<Enrollment>) -> Seq<EnrollmentV> {
    s.map_values(|e: Enrollment| e@)
}

#[verifier::opaque]
pub open spec fn enc_enrollment(x: Enrollment) -> Seq<char> {
    "{\"enrollment_type\":"@ + (enc_opt_string(x.enrollment_type) + (",\"computed_current_score_tenths\":"@ + (enc_opt_u64(x.computed_current_score_tenths) + (",\"computed_current_grade\":"@ + (enc_opt_string(x.computed_current_grade) + (",\"computed_final_score_tenths\":"@ + (enc_opt_u64(x.computed_final_score_tenths) + (",\"computed_final_grade\":"@ + (enc_opt_string(x.computed_final_grade) + ("}"@))))))))))
}

proof fn lemma_enc_enrollment_first(x: Enrollment)
    ensures
        enc_enrollment(x).len() >= 1,
        enc_enrollment(x)[0] == '{',
{
    reveal(enc_enrollment);
    reveal_strlit("{\"enrollment_type\":");
    assert(enc_enrollment(x)[0] == "{\"enrollment_type\":"@[0]);
}

#[verifier::opaque]
pub open spec fn parse_enrollment_at(s: Seq<char>, i: int) -> Option<(EnrollmentV, int)> {
    match expect_at(s, i, "{\"enrollment_type\":"@) {
        None => None,
        Some(j0) => 
        match parse_opt_string_at(s, j0) {
            None => None,
            Some((v_enrollment_type, j1)) => 
            match expect_at(s, j1, ",\"computed_current_score_tenths\":"@) {
                None => None,
                Some(j2) => 
                match parse_opt_u64_at(s, j2) {
                    None => None,
                    Some((v_computed_current_score_tenths, j3)) => 
                    match expect_at(s, j3, ",\"computed_current_grade\":"@) {
                        None => None,
                        Some(j4) => 
                        match parse_opt_string_at(s, j4) {
                            None => None,
                            Some((v_computed_current_grade, j5)) => 
                            match expect_at(s, j5, ",\"computed_final_score_tenths\":"@) {
                                None => None,
                                Some(j6) => 
                                match parse_opt_u64_at(s, j6) {
                                    None => None,
                                    Some((v_computed_final_score_tenths, j7)) => 
                                    match expect_at(s, j7, ",\"computed_final_grade\":"@) {
                                        None => None,
                                        Some(j8) => 
                                        match parse_opt_string_at(s, j8) {
                                            None => None,
                                            Some((v_computed_final_grade, j9)) => 
                                            match expect_at(s, j9, "}"@) {
                                                None => None,
                                                Some(j10) => 
                                                Some((
                                                    EnrollmentV {
                                                        enrollment_type: v_enrollment_type,
                                                        computed_current_score_tenths: v_computed_current_score_tenths,
                                                        computed_current_grade: v_computed_current_grade,
                                                        computed_final_score_tenths: v_computed_final_score_tenths,
                                                        computed_final_grade: v_computed_final_grade,
                                                    },
                                                    j10,
                                                ))
                                            ,
                                            }
                                        ,
                                        }
                                    ,
                                    }
                                ,
                                }
                            ,
                            }
                        ,
                        }
                    ,
                    }
                ,
                }
            ,
            }
        ,
        }
    ,
    }
}

#[verifier::rlimit(100)]
#[verifier::spinoff_prover]
proof fn lemma_rt_enrollment(s: Seq<char>, i: int, x: Enrollment)
    requires
        0 <= i,
        i + enc_enrollment(x).len() <= s.len(),
        s.subrange(i, i + enc_enrollment(x).len() as int) == enc_enrollment(x),
    ensures
        parse_enrollment_at(s, i) == Some((x@, i + enc_enrollment(x).len() as int)),
{
    reveal(enc_enrollment);
    reveal(parse_enrollment_at);
    reveal_strlit("{\"enrollment_type\":");
    reveal_strlit(",\"computed_current_score_tenths\":");
    reveal_strlit(",\"computed_current_grade\":");
    reveal_strlit(",\"computed_final_score_tenths\":");
    reveal_strlit(",\"computed_final_grade\":");
    reveal_strlit("}");
    let q0 = "{\"enrollment_type\":"@;
    let q1 = enc_opt_string(x.enrollment_type);
    let q2 = ",\"computed_current_score_tenths\":"@;
    let q3 = enc_opt_u64(x.computed_current_score_tenths);
    let q4 = ",\"computed_current_grade\":"@;
    let q5 = enc_opt_string(x.computed_current_grade);
    let q6 = ",\"computed_final_score_tenths\":"@;
    let q7 = enc_opt_u64(x.computed_final_score_tenths);
    let q8 = ",\"computed_final_grade\":"@;
    let q9 = enc_opt_string(x.computed_final_grade);
    let q10 = "}"@;
    let t10 = q10;
    let t9 = q9 + t10;
    let t8 = q8 + t9;
    let t7 = q7 + t8;
    let t6 = q6 + t7;
    let t5 = q5 + t6;
    let t4 = q4 + t5;
    let t3 = q3 + t4;
    let t2 = q2 + t3;
    let t1 = q1 + t2;
    let t0 = q0 + t1;
    assert(enc_enrollment(x) == t0);
    let end = i + enc_enrollment(x).len() as int;
    let c0 = i;
    let c1 = c0 + q0.len() as int;
    let c2 = c1 + q1.len() as int;
    let c3 = c2 + q2.len() as int;
    let c4 = c3 + q3.len() as int;
    let c5 = c4 + q4.len() as int;
    let c6 = c5 + q5.len() as int;
    let c7 = c6 + q6.len() as int;
    let c8 = c7 + q7.len() as int;
    let c9 = c8 + q8.len() as int;
    let c10 = c9 + q9.len() as int;
    let c11 = c10 + q10.len() as int;
    assert(s.subrange(c0, end) == t0);
    lemma_split_sub(s, c0, q0, t1);
    lemma_split_sub(s, c1, q1, t2);
    lemma_rt_opt_string(s, c1, x.enrollment_type);
    lemma_split_sub(s, c2, q2, t3);
    lemma_split_sub(s, c3, q3, t4);
    assert(s[c4] == t4[0]) by {
        assert(s.subrange(c4, end)[0] == s[c4]);
    }
    assert(t4[0] == q4[0]);
    assert(!is_digit(s[c4]));
    lemma_rt_opt_u64(s, c3, x.computed_current_score_tenths);
    lemma_split_sub(s, c4, q4, t5);
    lemma_split_sub(s, c5, q5, t6);
    lemma_rt_opt_string(s, c5, x.computed_current_grade);
    lemma_split_sub(s, c6, q6, t7);
    lemma_split_sub(s, c7, q7, t8);
    assert(s[c8] == t8[0]) by {
        assert(s.subrange(c8, end)[0] == s[c8]);
    }
    assert(t8[0] == q8[0]);
    assert(!is_digit(s[c8]));
    lemma_rt_opt_u64(s, c7, x.computed_final_score_tenths);
    lemma_split_sub(s, c8, q8, t9);
    lemma_split_sub(s, c9, q9, t10);
    lemma_rt_opt_string(s, c9, x.computed_final_grade);
    assert(expect_at(s, c0, q0) == Some(c1));
    assert(expect_at(s, c2, q2) == Some(c3));
    assert(expect_at(s, c4, q4) == Some(c5));
    assert(expect_at(s, c6, q6) == Some(c7));
    assert(expect_at(s, c8, q8) == Some(c9));
    assert(expect_at(s, c10, q10) == Some(c11));
    assert(parse_enrollment_at(s, i) == Some((x@, end)));
}

/// Ghost image of one `Course` as the cache file reads back.
pub struct CourseV {
    pub id: u64,
    pub name: Option<Seq<char>>,
    pub course_code: Option<Seq<char>>,
    pub enrollments: Option<Seq<EnrollmentV>>,
    pub total_students: Option<u64>,
}

impl View for Course {
    type V = CourseV;

    open spec fn view(&self) -> CourseV {
        CourseV {
            id: self.id,
            name: view_opt_string(self.name),
            course_code: view_opt_string(self.course_code),
            enrollments: match self.enrollments {
                Some(v) => Some(views_enrollments(v@)),
                None => None,
            },
            total_students: self.total_students,
        }
    }
}

pub open spec fn views_courses(s: Seq<Course>) -> Seq<CourseV> {
    s.map_values(|e: Course| e@)
}

#[verifier::opaque]
pub open spec fn enc_course(x: Course) -> Seq<char> {
    "{\"id\":"@ + (dec_digits(x.id as nat) + (",\"name\":"@ + (enc_opt_string(x.name) + (",\"course_code\":"@ + (enc_opt_string(x.course_code) + (",\"enrollments\":"@ + (enc_opt_enrollment_vec(x.enrollments) + (",\"total_students\":"@ + (enc_opt_u64(x.total_students) + ("}"@))))))))))
}

proof fn lemma_enc_course_first(x: Course)
    ensures
        enc_course(x).len() >= 1,
        enc_course(x)[0] == '{',
{
    reveal(enc_course);
    reveal_strlit("{\"id\":");
    assert(enc_course(x)[0] == "{\"id\":"@[0]);
}

#[verifier::opaque]
pub open spec fn parse_course_at(s: Seq<char>, i: int) -> Option<(CourseV, int)> {
    match expect_at(s, i, "{\"id\":"@) {
        None => None,
        Some(j0) => 
        match parse_u64_at(s, j0) {
            None => None,
            Some((v_id, j1)) => 
            match expect_at(s, j1, ",\"name\":"@) {
                None => None,
                Some(j2) => 
                match parse_opt_string_at(s, j2) {
                    None => None,
                    Some((v_name, j3)) => 
                    match expect_at(s, j3, ",\"course_code\":"@) {
                        None => None,
                        Some(j4) => 
                        match parse_opt_string_at(s, j4) {
                            None => None,
                            Some((v_course_code, j5)) => 
                            match expect_at(s, j5, ",\"enrollments\":"@) {
                                None => None,
                                Some(j6) => 
                                match parse_opt_enrollment_vec_at(s, j6) {
                                    None => None,
                                    Some((v_enrollments, j7)) => 
                                    match expect_at(s, j7, ",\"total_students\":"@) {
                                        None => None,
                                        Some(j8) => 
                                        match parse_opt_u64_at(s, j8) {
                                            None => None,
                                            Some((v_total_students, j9)) => 
                                            match expect_at(s, j9, "}"@) {
                                                None => None,
                                                Some(j10) => 
                                                Some((
                                                    CourseV {
                                                        id: v_id,
                                                        name: v_name,
                                                        course_code: v_course_code,
                                                        enrollments: v_enrollments,
                                                        total_students: v_total_students,
                                                    },
                                                    j10,
                                                ))
                                            ,
                                            }
                                        ,
                                        }
                                    ,
                                    }
                                ,
                                }
                            ,
                            }
                        ,
                        }
                    ,
                    }
                ,
                }
            ,
            }
        ,
        }
    ,
    }
}

#[verifier::rlimit(100)]
#[verifier::spinoff_prover]
proof fn lemma_rt_course(s: Seq<char>, i: int, x: Course)
    requires
        0 <= i,
        i + enc_course(x).len() <= s.len(),
        s.subrange(i, i + enc_course(x).len() as int) == enc_course(x),
    ensures
        parse_course_at(s, i) == Some((x@, i + enc_course(x).len() as int)),
{
    reveal(enc_course);
    reveal(parse_course_at);
    reveal_strlit("{\"id\":");
    reveal_strlit(",\"name\":");
    reveal_strlit(",\"course_code\":");
    reveal_strlit(",\"enrollments\":");
    reveal_strlit(",\"total_students\":");
    reveal_strlit("}");
    let q0 = "{\"id\":"@;
    let q1 = dec_digits(x.id as nat);
    let q2 = ",\"name\":"@;
    let q3 = enc_opt_string(x.name);
    let q4 = ",\"course_code\":"@;
    let q5 = enc_opt_string(x.course_code);
    let q6 = ",\"enrollments\":"@;
    let q7 = enc_opt_enrollment_vec(x.enrollments);
    let q8 = ",\"total_students\":"@;
    let q9 = enc_opt_u64(x.total_students);
    let q10 = "}"@;
    let t10 = q10;
    let t9 = q9 + t10;
    let t8 = q8 + t9;
    let t7 = q7 + t8;
    let t6 = q6 + t7;
    let t5 = q5 + t6;
    let t4 = q4 + t5;
    let t3 = q3 + t4;
    let t2 = q2 + t3;
    let t1 = q1 + t2;
    let t0 = q0 + t1;
    assert(enc_course(x) == t0);
    let end = i + enc_course(x).len() as int;
    let c0 = i;
    let c1 = c0 + q0.len() as int;
    let c2 = c1 + q1.len() as int;
    let c3 = c2 + q2.len() as int;
    let c4 = c3 + q3.len() as int;
    let c5 = c4 + q4.len() as int;
    let c6 = c5 + q5.len() as int;
    let c7 = c6 + q6.len() as int;
    let c8 = c7 + q7.len() as int;
    let c9 = c8 + q8.len() as int;
    let c10 = c9 + q9.len() as int;
    let c11 = c10 + q10.len() as int;
    assert(s.subrange(c0, end) == t0);
    lemma_split_sub(s, c0, q0, t1);
    lemma_split_sub(s, c1, q1, t2);
    assert(s[c2] == t2[0]) by {
        assert(s.subrange(c2, end)[0] == s[c2]);
    }
    assert(t2[0] == q2[0]);
    assert(!is_digit(s[c2]));
    lemma_rt_u64(s, c1, x.id);
    lemma_split_sub(s, c2, q2, t3);
    lemma_split_sub(s, c3, q3, t4);
    lemma_rt_opt_string(s, c3, x.name);
    lemma_split_sub(s, c4, q4, t5);
    lemma_split_sub(s, c5, q5, t6);
    lemma_rt_opt_string(s, c5, x.course_code);
    lemma_split_sub(s, c6, q6, t7);
    lemma_split_sub(s, c7, q7, t8);
    lemma_rt_opt_enrollment_vec(s, c7, x.enrollments);
    lemma_split_sub(s, c8, q8, t9);
    lemma_split_sub(s, c9, q9, t10);
    assert(s[c10] == t10[0]) by {
        assert(s.subrange(c10, end)[0] == s[c10]);
    }
    assert(t10[0] == q10[0]);
    assert(!is_digit(s[c10]));
    lemma_rt_opt_u64(s, c9, x.total_students);
    assert(expect_at(s, c0, q0) == Some(c1));
    assert(expect_at(s, c2, q2) == Some(c3));
    assert(expect_at(s, c4, q4) == Some(c5));
    assert(expect_at(s, c6, q6) == Some(c7));
    assert(expect_at(s, c8, q8) == Some(c9));
    assert(expect_at(s, c10, q10) == Some(c11));
    assert(parse_course_at(s, i) == Some((x@, end)));
}

/// Ghost image of one `Submission` as the cache file reads back.
pub struct SubmissionV {
    pub id: Option<u64>,
    pub assignment_id: Option<u64>,
    pub score_tenths: Option<u64>,
    pub grade: Option<Seq<char>>,
    pub submitted_at: Option<i64>,
    pub graded_at: Option<i64>,
    pub workflow_state: WorkflowState,
    pub late: Option<bool>,
    pub missing: Option<bool>,
    pub attempt: Option<u64>,
}

impl View for Submission {
    type V = SubmissionV;

    open spec fn view(&self) -> SubmissionV {
        SubmissionV {
            id: self.id,
            assignment_id: self.assignment_id,
            score_tenths: self.score_tenths,
            grade: view_opt_string(self.grade),
            submitted_at: self.submitted_at,
            graded_at: self.graded_at,
            workflow_state: self.workflow_state,
            late: self.late,
            missing: self.missing,
            attempt: self.attempt,
        }
    }
}

pub open spec fn views_submissions(s: Seq<Submission>) -> Seq<SubmissionV> {
    s.map_values(|e: Submission| e@)
}

#[verifier::opaque]
pub open spec fn enc_submission(x: Submission) -> Seq<char> {
    "{\"id\":"@ + (enc_opt_u64(x.id) + (",\"assignment_id\":"@ + (enc_opt_u64(x.assignment_id) + (",\"score_tenths\":"@ + (enc_opt_u64(x.score_tenths) + (",\"grade\":"@ + (enc_opt_string(x.grade) + (",\"submitted_at\":"@ + (enc_opt_i64(x.submitted_at) + (",\"graded_at\":"@ + (enc_opt_i64(x.graded_at) + (",\"workflow_state\":"@ + (enc_state(x.workflow_state) + (",\"late\":"@ + (enc_opt_bool(x.late) + (",\"missing\":"@ + (enc_opt_bool(x.missing) + (",\"attempt\":"@ + (enc_opt_u64(x.attempt) + ("}"@))))))))))))))))))))
}

proof fn lemma_enc_submission_first(x: Submission)
    ensures
        enc_submission(x).len() >= 1,
        enc_submission(x)[0] == '{',
{
    reveal(enc_submission);
    reveal_strlit("{\"id\":");
    assert(enc_submission(x)[0] == "{\"id\":"@[0]);
}

#[verifier::opaque]
pub open spec fn parse_submission_at(s: Seq<char>, i: int) -> Option<(SubmissionV, int)> {
    match expect_at(s, i, "{\"id\":"@) {
        None => None,
        Some(j0) => 
        match parse_opt_u64_at(s, j0) {
            None => None,
            Some((v_id, j1)) => 
            match expect_at(s, j1, ",\"assignment_id\":"@) {
                None => None,
                Some(j2) => 
                match parse_opt_u64_at(s, j2) {
                    None => None,
                    Some((v_assignment_id, j3)) => 
                    match expect_at(s, j3, ",\"score_tenths\":"@) {
                        None => None,
                        Some(j4) => 
                        match parse_opt_u64_at(s, j4) {
                            None => None,
                            Some((v_score_tenths, j5)) => 
                            match expect_at(s, j5, ",\"grade\":"@) {
                                None => None,
                                Some(j6) => 
                                match parse_opt_string_at(s, j6) {
                                    None => None,
                                    Some((v_grade, j7)) => 
                                    match expect_at(s, j7, ",\"submitted_at\":"@) {
                                        None => None,
                                        Some(j8) => 
                                        match parse_opt_i64_at(s, j8) {
                                            None => None,
                                            Some((v_submitted_at, j9)) => 
                                            match expect_at(s, j9, ",\"graded_at\":"@) {
                                                None => None,
                                                Some(j10) => 
                                                match parse_opt_i64_at(s, j10) {
                                                    None => None,
                                                    Some((v_graded_at, j11)) => 
                                                    match expect_at(s, j11, ",\"workflow_state\":"@) {
                                                        None => None,
                                                        Some(j12) => 
                                                        match parse_state_at(s, j12) {
                                                            None => None,
                                                            Some((v_workflow_state, j13)) => 
                                                            match expect_at(s, j13, ",\"late\":"@) {
                                                                None => None,
                                                                Some(j14) => 
                                                                match parse_opt_bool_at(s, j14) {
                                                                    None => None,
                                                                    Some((v_late, j15)) => 
                                                                    match expect_at(s, j15, ",\"missing\":"@) {
                                                                        None => None,
                                                                        Some(j16) => 
                                                                        match parse_opt_bool_at(s, j16) {
                                                                            None => None,
                                                                            Some((v_missing, j17)) => 
                                                                            match expect_at(s, j17, ",\"attempt\":"@) {
                                                                                None => None,
                                                                                Some(j18) => 
                                                                                match parse_opt_u64_at(s, j18) {
                                                                                    None => None,
                                                                                    Some((v_attempt, j19)) => 
                                                                                    match expect_at(s, j19, "}"@) {
                                                                                        None => None,
                                                                                        Some(j20) => 
                                                                                        Some((
                                                                                            SubmissionV {
                                                                                                id: v_id,
                                                                                                assignment_id: v_assignment_id,
                                                                                                score_tenths: v_score_tenths,
                                                                                                grade: v_grade,
                                                                                                submitted_at: v_submitted_at,
                                                                                                graded_at: v_graded_at,
                                                                                                workflow_state: v_workflow_state,
                                                                                                late: v_late,
                                                                                                missing: v_missing,
                                                                                                attempt: v_attempt,
                                                                                            },
                                                                                            j20,
                                                                                        ))
                                                                                    ,
                                                                                    }
                                                                                ,
                                                                                }
                                                                            ,
                                                                            }
                                                                        ,
                                                                        }
                                                                    ,
                                                                    }
                                                                ,
                                                                }
                                                            ,
                                                            }
                                                        ,
                                                        }
                                                    ,
                                                    }
                                                ,
                                                }
                                            ,
                                            }
                                        ,
                                        }
                                    ,
                                    }
                                ,
                                }
                            ,
                            }
                        ,
                        }
                    ,
                    }
                ,
                }
            ,
            }
        ,
        }
    ,
    }
}

#[verifier::rlimit(100)]
#[verifier::spinoff_prover]
proof fn lemma_rt_submission(s: Seq<char>, i: int, x: Submission)
    requires
        0 <= i,
        i + enc_submission(x).len() <= s.len(),
        s.subrange(i, i + enc_submission(x).len() as int) == enc_submission(x),
    ensures
        parse_submission_at(s, i) == Some((x@, i + enc_submission(x).len() as int)),
{
    reveal(enc_submission);
    reveal(parse_submission_at);
    reveal_strlit("{\"id\":");
    reveal_strlit(",\"assignment_id\":");
    reveal_strlit(",\"score_tenths\":");
    reveal_strlit(",\"grade\":");
    reveal_strlit(",\"submitted_at\":");
    reveal_strlit(",\"graded_at\":");
    reveal_strlit(",\"workflow_state\":");
    reveal_strlit(",\"late\":");
    reveal_strlit(",\"missing\":");
    reveal_strlit(",\"attempt\":");
    reveal_strlit("}");
    let q0 = "{\"id\":"@;
    let q1 = enc_opt_u64(x.id);
    let q2 = ",\"assignment_id\":"@;
    let q3 = enc_opt_u64(x.assignment_id);
    let q4 = ",\"score_tenths\":"@;
    let q5 = enc_opt_u64(x.score_tenths);
    let q6 = ",\"grade\":"@;
    let q7 = enc_opt_string(x.grade);
    let q8 = ",\"submitted_at\":"@;
    let q9 = enc_opt_i64(x.submitted_at);
    let q10 = ",\"graded_at\":"@;
    let q11 = enc_opt_i64(x.graded_at);
    let q12 = ",\"workflow_state\":"@;
    let q13 = enc_state(x.workflow_state);
    let q14 = ",\"late\":"@;
    let q15 = enc_opt_bool(x.late);
    let q16 = ",\"missing\":"@;
    let q17 = enc_opt_bool(x.missing);
    let q18 = ",\"attempt\":"@;
    let q19 = enc_opt_u64(x.attempt);
    let q20 = "}"@;
    let t20 = q20;
    let t19 = q19 + t20;
    let t18 = q18 + t19;
    let t17 = q17 + t18;
    let t16 = q16 + t17;
    let t15 = q15 + t16;
    let t14 = q14 + t15;
    let t13 = q13 + t14;
    let t12 = q12 + t13;
    let t11 = q11 + t12;
    let t10 = q10 + t11;
    let t9 = q9 + t10;
    let t8 = q8 + t9;
    let t7 = q7 + t8;
    let t6 = q6 + t7;
    let t5 = q5 + t6;
    let t4 = q4 + t5;
    let t3 = q3 + t4;
    let t2 = q2 + t3;
    let t1 = q1 + t2;
    let t0 = q0 + t1;
    assert(enc_submission(x) == t0);
    let end = i + enc_submission(x).len() as int;
    let c0 = i;
    let c1 = c0 + q0.len() as int;
    let c2 = c1 + q1.len() as int;
    let c3 = c2 + q2.len() as int;
    let c4 = c3 + q3.len() as int;
    let c5 = c4 + q4.len() as int;
    let c6 = c5 + q5.len() as int;
    let c7 = c6 + q6.len() as int;
    let c8 = c7 + q7.len() as int;
    let c9 = c8 + q8.len() as int;
    let c10 = c9 + q9.len() as int;
    let c11 = c10 + q10.len() as int;
    let c12 = c11 + q11.len() as int;
    let c13 = c12 + q12.len() as int;
    let c14 = c13 + q13.len() as int;
    let c15 = c14 + q14.len() as int;
    let c16 = c15 + q15.len() as int;
    let c17 = c16 + q16.len() as int;
    let c18 = c17 + q17.len() as int;
    let c19 = c18 + q18.len() as int;
    let c20 = c19 + q19.len() as int;
    let c21 = c20 + q20.len() as int;
    assert(s.subrange(c0, end) == t0);
    lemma_split_sub(s, c0, q0, t1);
    lemma_split_sub(s, c1, q1, t2);
    assert(s[c2] == t2[0]) by {
        assert(s.subrange(c2, end)[0] == s[c2]);
    }
    assert(t2[0] == q2[0]);
    assert(!is_digit(s[c2]));
    lemma_rt_opt_u64(s, c1, x.id);
    lemma_split_sub(s, c2, q2, t3);
    lemma_split_sub(s, c3, q3, t4);
    assert(s[c4] == t4[0]) by {
        assert(s.subrange(c4, end)[0] == s[c4]);
    }
    assert(t4[0] == q4[0]);
    assert(!is_digit(s[c4]));
    lemma_rt_opt_u64(s, c3, x.assignment_id);
    lemma_split_sub(s, c4, q4, t5);
    lemma_split_sub(s, c5, q5, t6);
    assert(s[c6] == t6[0]) by {
        assert(s.subrange(c6, end)[0] == s[c6]);
    }
    assert(t6[0] == q6[0]);
    assert(!is_digit(s[c6]));
    lemma_rt_opt_u64(s, c5, x.score_tenths);
    lemma_split_sub(s, c6, q6, t7);
    lemma_split_sub(s, c7, q7, t8);
    lemma_rt_opt_string(s, c7, x.grade);
    lemma_split_sub(s, c8, q8, t9);
    lemma_split_sub(s, c9, q9, t10);
    assert(s[c10] == t10[0]) by {
        assert(s.subrange(c10, end)[0] == s[c10]);
    }
    assert(t10[0] == q10[0]);
    assert(!is_digit(s[c10]));
    lemma_rt_opt_i64(s, c9, x.submitted_at);
    lemma_split_sub(s, c10, q10, t11);
    lemma_split_sub(s, c11, q11, t12);
    assert(s[c12] == t12[0]) by {
        assert(s.subrange(c12, end)[0] == s[c12]);
    }
    assert(t12[0] == q12[0]);
    assert(!is_digit(s[c12]));
    lemma_rt_opt_i64(s, c11, x.graded_at);
    lemma_split_sub(s, c12, q12, t13);
    lemma_split_sub(s, c13, q13, t14);
    lemma_rt_state(s, c13, x.workflow_state);
    lemma_split_sub(s, c14, q14, t15);
    lemma_split_sub(s, c15, q15, t16);
    lemma_rt_opt_bool(s, c15, x.late);
    lemma_split_sub(s, c16, q16, t17);
    lemma_split_sub(s, c17, q17, t18);
    lemma_rt_opt_bool(s, c17, x.missing);
    lemma_split_sub(s, c18, q18, t19);
    lemma_split_sub(s, c19, q19, t20);
    assert(s[c20] == t20[0]) by {
        assert(s.subrange(c20, end)[0] == s[c20]);
    }
    assert(t20[0] == q20[0]);
    assert(!is_digit(s[c20]));
    lemma_rt_opt_u64(s, c19, x.attempt);
    assert(expect_at(s, c0, q0) == Some(c1));
    assert(expect_at(s, c2, q2) == Some(c3));
    assert(expect_at(s, c4, q4) == Some(c5));
    assert(expect_at(s, c6, q6) == Some(c7));
    assert(expect_at(s, c8, q8) == Some(c9));
    assert(expect_at(s, c10, q10) == Some(c11));
    assert(expect_at(s, c12, q12) == Some(c13));
    assert(expect_at(s, c14, q14) == Some(c15));
    assert(expect_at(s, c16, q16) == Some(c17));
    assert(expect_at(s, c18, q18) == Some(c19));
    assert(expect_at(s, c20, q20) == Some(c21));
    assert(parse_submission_at(s, i) == Some((x@, end)));
}

/// Ghost image of one `Assignment` as the cache file reads back.
pub struct AssignmentV {
    pub id: u64,
    pub name: Option<Seq<char>>,
    pub due_at: Option<i64>,
    pub lock_at: Option<i64>,
    pub unlock_at: Option<i64>,
    pub points_possible_tenths: Option<u64>,
    pub course_id: Option<u64>,
    pub submission_types: Option<Seq<Seq<char>>>,
    pub submission: Option<SubmissionV>,
}

impl View for Assignment {
    type V = AssignmentV;

    open spec fn view(&self) -> AssignmentV {
        AssignmentV {
            id: self.id,
            name: view_opt_string(self.name),
            due_at: self.due_at,
            lock_at: self.lock_at,
            unlock_at: self.unlock_at,
            points_possible_tenths: self.points_possible_tenths,
            course_id: self.course_id,
            submission_types: match self.submission_types {
                Some(v) => Some(v@.map_values(|x: String| x@)),
                None => None,
            },
            submission: match self.submission {
                Some(v) => Some(v@),
                None => None,
            },
        }
    }
}

pub open spec fn views_assignments(s: Seq<Assignment>) -> Seq<AssignmentV> {
    s.map_values(|e: Assignment| e@)
}

#[verifier::opaque]
pub open spec fn enc_assignment(x: Assignment) -> Seq<char> {
    "{\"id\":"@ + (dec_digits(x.id as nat) + (",\"name\":"@ + (enc_opt_string(x.name) + (",\"due_at\":"@ + (enc_opt_i64(x.due_at) + (",\"lock_at\":"@ + (enc_opt_i64(x.lock_at) + (",\"unlock_at\":"@ + (enc_opt_i64(x.unlock_at) + (",\"points_possible_tenths\":"@ + (enc_opt_u64(x.points_possible_tenths) + (",\"course_id\":"@ + (enc_opt_u64(x.course_id) + (",\"submission_types\":"@ + (enc_opt_string_vec(x.submission_types) + (",\"submission\":"@ + (enc_opt_submission(x.submission) + ("}"@))))))))))))))))))
}

proof fn lemma_enc_assignment_first(x: Assignment)
    ensures
        enc_assignment(x).len() >= 1,
        enc_assignment(x)[0] == '{',
{
    reveal(enc_assignment);
    reveal_strlit("{\"id\":");
    assert(enc_assignment(x)[0] == "{\"id\":"@[0]);
}

#[verifier::opaque]
pub open spec fn parse_assignment_at(s: Seq<char>, i: int) -> Option<(AssignmentV, int)> {
    match expect_at(s, i, "{\"id\":"@) {
        None => None,
        Some(j0) => 
        match parse_u64_at(s, j0) {
            None => None,
            Some((v_id, j1)) => 
            match expect_at(s, j1, ",\"name\":"@) {
                None => None,
                Some(j2) => 
                match parse_opt_string_at(s, j2) {
                    None => None,
                    Some((v_name, j3)) => 
                    match expect_at(s, j3, ",\"due_at\":"@) {
                        None => None,
                        Some(j4) => 
                        match parse_opt_i64_at(s, j4) {
                            None => None,
                            Some((v_due_at, j5)) => 
                            match expect_at(s, j5, ",\"lock_at\":"@) {
                                None => None,
                                Some(j6) => 
                                match parse_opt_i64_at(s, j6) {
                                    None => None,
                                    Some((v_lock_at, j7)) => 
                                    match expect_at(s, j7, ",\"unlock_at\":"@) {
                                        None => None,
                                        Some(j8) => 
                                        match parse_opt_i64_at(s, j8) {
                                            None => None,
                                            Some((v_unlock_at, j9)) => 
                                            match expect_at(s, j9, ",\"points_possible_tenths\":"@) {
                                                None => None,
                                                Some(j10) => 
                                                match parse_opt_u64_at(s, j10) {
                                                    None => None,
                                                    Some((v_points_possible_tenths, j11)) => 
                                                    match expect_at(s, j11, ",\"course_id\":"@) {
                                                        None => None,
                                                        Some(j12) => 
                                                        match parse_opt_u64_at(s, j12) {
                                                            None => None,
                                                            Some((v_course_id, j13)) => 
                                                            match expect_at(s, j13, ",\"submission_types\":"@) {
                                                                None => None,
                                                                Some(j14) => 
                                                                match parse_opt_string_vec_at(s, j14) {
                                                                    None => None,
                                                                    Some((v_submission_types, j15)) => 
                                                                    match expect_at(s, j15, ",\"submission\":"@) {
                                                                        None => None,
                                                                        Some(j16) => 
                                                                        match parse_opt_submission_at(s, j16) {
                                                                            None => None,
                                                                            Some((v_submission, j17)) => 
                                                                            match expect_at(s, j17, "}"@) {
                                                                                None => None,
                                                                                Some(j18) => 
                                                                                Some((
                                                                                    AssignmentV {
                                                                                        id: v_id,
                                                                                        name: v_name,
                                                                                        due_at: v_due_at,
                                                                                        lock_at: v_lock_at,
                                                                                        unlock_at: v_unlock_at,
                                                                                        points_possible_tenths: v_points_possible_tenths,
                                                                                        course_id: v_course_id,
                                                                                        submission_types: v_submission_types,
                                                                                        submission: v_submission,
                                                                                    },
                                                                                    j18,
                                                                                ))
                                                                            ,
                                                                            }
                                                                        ,
                                                                        }
                                                                    ,
                                                                    }
                                                                ,
                                                                }
                                                            ,
                                                            }
                                                        ,
                                                        }
                                                    ,
                                                    }
                                                ,
                                                }
                                            ,
                                            }
                                        ,
                                        }
                                    ,
                                    }
                                ,
                                }
                            ,
                            }
                        ,
                        }
                    ,
                    }
                ,
                }
            ,
            }
        ,
        }
    ,
    }
}

#[verifier::rlimit(100)]
#[verifier::spinoff_prover]
proof fn lemma_rt_assignment(s: Seq<char>, i: int, x: Assignment)
    requires
        0 <= i,
        i + enc_assignment(x).len() <= s.len(),
        s.subrange(i, i + enc_assignment(x).len() as int) == enc_assignment(x),
    ensures
        parse_assignment_at(s, i) == Some((x@, i + enc_assignment(x).len() as int)),
{
    reveal(enc_assignment);
    reveal(parse_assignment_at);
    reveal_strlit("{\"id\":");
    reveal_strlit(",\"name\":");
    reveal_strlit(",\"due_at\":");
    reveal_strlit(",\"lock_at\":");
    reveal_strlit(",\"unlock_at\":");
    reveal_strlit(",\"points_possible_tenths\":");
    reveal_strlit(",\"course_id\":");
    reveal_strlit(",\"submission_types\":");
    reveal_strlit(",\"submission\":");
    reveal_strlit("}");
    let q0 = "{\"id\":"@;
    let q1 = dec_digits(x.id as nat);
    let q2 = ",\"name\":"@;
    let q3 = enc_opt_string(x.name);
    let q4 = ",\"due_at\":"@;
    let q5 = enc_opt_i64(x.due_at);
    let q6 = ",\"lock_at\":"@;
    let q7 = enc_opt_i64(x.lock_at);
    let q8 = ",\"unlock_at\":"@;
    let q9 = enc_opt_i64(x.unlock_at);
    let q10 = ",\"points_possible_tenths\":"@;
    let q11 = enc_opt_u64(x.points_possible_tenths);
    let q12 = ",\"course_id\":"@;
    let q13 = enc_opt_u64(x.course_id);
    let q14 = ",\"submission_types\":"@;
    let q15 = enc_opt_string_vec(x.submission_types);
    let q16 = ",\"submission\":"@;
    let q17 = enc_opt_submission(x.submission);
    let q18 = "}"@;
    let t18 = q18;
    let t17 = q17 + t18;
    let t16 = q16 + t17;
    let t15 = q15 + t16;
    let t14 = q14 + t15;
    let t13 = q13 + t14;
    let t12 = q12 + t13;
    let t11 = q11 + t12;
    let t10 = q10 + t11;
    let t9 = q9 + t10;
    let t8 = q8 + t9;
    let t7 = q7 + t8;
    let t6 = q6 + t7;
    let t5 = q5 + t6;
    let t4 = q4 + t5;
    let t3 = q3 + t4;
    let t2 = q2 + t3;
    let t1 = q1 + t2;
    let t0 = q0 + t1;
    assert(enc_assignment(x) == t0);
    let end = i + enc_assignment(x).len() as int;
    let c0 = i;
    let c1 = c0 + q0.len() as int;
    let c2 = c1 + q1.len() as int;
    let c3 = c2 + q2.len() as int;
    let c4 = c3 + q3.len() as int;
    let c5 = c4 + q4.len() as int;
    let c6 = c5 + q5.len() as int;
    let c7 = c6 + q6.len() as int;
    let c8 = c7 + q7.len() as int;
    let c9 = c8 + q8.len() as int;
    let c10 = c9 + q9.len() as int;
    let c11 = c10 + q10.len() as int;
    let c12 = c11 + q11.len() as int;
    let c13 = c12 + q12.len() as int;
    let c14 = c13 + q13.len() as int;
    let c15 = c14 + q14.len() as int;
    let c16 = c15 + q15.len() as int;
    let c17 = c16 + q16.len() as int;
    let c18 = c17 + q17.len() as int;
    let c19 = c18 + q18.len() as int;
    assert(s.subrange(c0, end) == t0);
    lemma_split_sub(s, c0, q0, t1);
    lemma_split_sub(s, c1, q1, t2);
    assert(s[c2] == t2[0]) by {
        assert(s.subrange(c2, end)[0] == s[c2]);
    }
    assert(t2[0] == q2[0]);
    assert(!is_digit(s[c2]));
    lemma_rt_u64(s, c1, x.id);
    lemma_split_sub(s, c2, q2, t3);
    lemma_split_sub(s, c3, q3, t4);
    lemma_rt_opt_string(s, c3, x.name);
    lemma_split_sub(s, c4, q4, t5);
    lemma_split_sub(s, c5, q5, t6);
    assert(s[c6] == t6[0]) by {
        assert(s.subrange(c6, end)[0] == s[c6]);
    }
    assert(t6[0] == q6[0]);
    assert(!is_digit(s[c6]));
    lemma_rt_opt_i64(s, c5, x.due_at);
    lemma_split_sub(s, c6, q6, t7);
    lemma_split_sub(s, c7, q7, t8);
    assert(s[c8] == t8[0]) by {
        assert(s.subrange(c8, end)[0] == s[c8]);
    }
    assert(t8[0] == q8[0]);
    assert(!is_digit(s[c8]));
    lemma_rt_opt_i64(s, c7, x.lock_at);
    lemma_split_sub(s, c8, q8, t9);
    lemma_split_sub(s, c9, q9, t10);
    assert(s[c10] == t10[0]) by {
        assert(s.subrange(c10, end)[0] == s[c10]);
    }
    assert(t10[0] == q10[0]);
    assert(!is_digit(s[c10]));
    lemma_rt_opt_i64(s, c9, x.unlock_at);
    lemma_split_sub(s, c10, q10, t11);
    lemma_split_sub(s, c11, q11, t12);
    assert(s[c12] == t12[0]) by {
        assert(s.subrange(c12, end)[0] == s[c12]);
    }
    assert(t12[0] == q12[0]);
    assert(!is_digit(s[c12]));
    lemma_rt_opt_u64(s, c11, x.points_possible_tenths);
    lemma_split_sub(s, c12, q12, t13);
    lemma_split_sub(s, c13, q13, t14);
    assert(s[c14] == t14[0]) by {
        assert(s.subrange(c14, end)[0] == s[c14]);
    }
    assert(t14[0] == q14[0]);
    assert(!is_digit(s[c14]));
    lemma_rt_opt_u64(s, c13, x.course_id);
    lemma_split_sub(s, c14, q14, t15);
    lemma_split_sub(s, c15, q15, t16);
    lemma_rt_opt_string_vec(s, c15, x.submission_types);
    lemma_split_sub(s, c16, q16, t17);
    lemma_split_sub(s, c17, q17, t18);
    lemma_rt_opt_submission(s, c17, x.submission);
    assert(expect_at(s, c0, q0) == Some(c1));
    assert(expect_at(s, c2, q2) == Some(c3));
    assert(expect_at(s, c4, q4) == Some(c5));
    assert(expect_at(s, c6, q6) == Some(c7));
    assert(expect_at(s, c8, q8) == Some(c9));
    assert(expect_at(s, c10, q10) == Some(c11));
    assert(expect_at(s, c12, q12) == Some(c13));
    assert(expect_at(s, c14, q14) == Some(c15));
    assert(expect_at(s, c16, q16) == Some(c17));
    assert(expect_at(s, c18, q18) == Some(c19));
    assert(parse_assignment_at(s, i) == Some((x@, end)));
}

/// Ghost image of one `AssignmentEventDetail` as the cache file reads back.
pub struct AssignmentEventDetailV {
    pub id: Option<u64>,
    pub name: Option<Seq<char>>,
    pub due_at: Option<i64>,
    pub points_possible_tenths: Option<u64>,
}

impl View for AssignmentEventDetail {
    type V = AssignmentEventDetailV;

    open spec fn view(&self) -> AssignmentEventDetailV {
        AssignmentEventDetailV {
            id: self.id,
            name: view_opt_string(self.name),
            due_at: self.due_at,
            points_possible_tenths: self.points_possible_tenths,
        }
    }
}

pub open spec fn views_assignment_event_details(s: Seq<AssignmentEventDetail>) -> Seq<AssignmentEventDetailV> {
    s.map_values(|e: AssignmentEventDetail| e@)
}

#[verifier::opaque]
pub open spec fn enc_assignment_event_detail(x: AssignmentEventDetail) -> Seq<char> {
    "{\"id\":"@ + (enc_opt_u64(x.id) + (",\"name\":"@ + (enc_opt_string(x.name) + (",\"due_at\":"@ + (enc_opt_i64(x.due_at) + (",\"points_possible_tenths\":"@ + (enc_opt_u64(x.points_possible_tenths) + ("}"@))))))))
}

proof fn lemma_enc_assignment_event_detail_first(x: AssignmentEventDetail)
    ensures
        enc_assignment_event_detail(x).len() >= 1,
        enc_assignment_event_detail(x)[0] == '{',
{
    reveal(enc_assignment_event_detail);
    reveal_strlit("{\"id\":");
    assert(enc_assignment_event_detail(x)[0] == "{\"id\":"@[0]);
}

#[verifier::opaque]
pub open spec fn parse_assignment_event_detail_at(s: Seq<char>, i: int) -> Option<(AssignmentEventDetailV, int)> {
    match expect_at(s, i, "{\"id\":"@) {
        None => None,
        Some(j0) => 
        match parse_opt_u64_at(s, j0) {
            None => None,
            Some((v_id, j1)) => 
            match expect_at(s, j1, ",\"name\":"@) {
                None => None,
                Some(j2) => 
                match parse_opt_string_at(s, j2) {
                    None => None,
                    Some((v_name, j3)) => 
                    match expect_at(s, j3, ",\"due_at\":"@) {
                        None => None,
                        Some(j4) => 
                        match parse_opt_i64_at(s, j4) {
                            None => None,
                            Some((v_due_at, j5)) => 
                            match expect_at(s, j5, ",\"points_possible_tenths\":"@) {
                                None => None,
                                Some(j6) => 
                                match parse_opt_u64_at(s, j6) {
                                    None => None,
                                    Some((v_points_possible_tenths, j7)) => 
                                    match expect_at(s, j7, "}"@) {
                                        None => None,
                                        Some(j8) => 
                                        Some((
                                            AssignmentEventDetailV {
                                                id: v_id,
                                                name: v_name,
                                                due_at: v_due_at,
                                                points_possible_tenths: v_points_possible_tenths,
                                            },
                                            j8,
                                        ))
                                    ,
                                    }
                                ,
                                }
                            ,
                            }
                        ,
                        }
                    ,
                    }
                ,
                }
            ,
            }
        ,
        }
    ,
    }
}

#[verifier::rlimit(100)]
#[verifier::spinoff_prover]
proof fn lemma_rt_assignment_event_detail(s: Seq<char>, i: int, x: AssignmentEventDetail)
    requires
        0 <= i,
        i + enc_assignment_event_detail(x).len() <= s.len(),
        s.subrange(i, i + enc_assignment_event_detail(x).len() as int) == enc_assignment_event_detail(x),
    ensures
        parse_assignment_event_detail_at(s, i) == Some((x@, i + enc_assignment_event_detail(x).len() as int)),
{
    reveal(enc_assignment_event_detail);
    reveal(parse_assignment_event_detail_at);
    reveal_strlit("{\"id\":");
    reveal_strlit(",\"name\":");
    reveal_strlit(",\"due_at\":");
    reveal_strlit(",\"points_possible_tenths\":");
    reveal_strlit("}");
    let q0 = "{\"id\":"@;
    let q1 = enc_opt_u64(x.id);
    let q2 = ",\"name\":"@;
    let q3 = enc_opt_string(x.name);
    let q4 = ",\"due_at\":"@;
    let q5 = enc_opt_i64(x.due_at);
    let q6 = ",\"points_possible_tenths\":"@;
    let q7 = enc_opt_u64(x.points_possible_tenths);
    let q8 = "}"@;
    let t8 = q8;
    let t7 = q7 + t8;
    let t6 = q6 + t7;
    let t5 = q5 + t6;
    let t4 = q4 + t5;
    let t3 = q3 + t4;
    let t2 = q2 + t3;
    let t1 = q1 + t2;
    let t0 = q0 + t1;
    assert(enc_assignment_event_detail(x) == t0);
    let end = i + enc_assignment_event_detail(x).len() as int;
    let c0 = i;
    let c1 = c0 + q0.len() as int;
    let c2 = c1 + q1.len() as int;
    let c3 = c2 + q2.len() as int;
    let c4 = c3 + q3.len() as int;
    let c5 = c4 + q4.len() as int;
    let c6 = c5 + q5.len() as int;
    let c7 = c6 + q6.len() as int;
    let c8 = c7 + q7.len() as int;
    let c9 = c8 + q8.len() as int;
    assert(s.subrange(c0, end) == t0);
    lemma_split_sub(s, c0, q0, t1);
    lemma_split_sub(s, c1, q1, t2);
    assert(s[c2] == t2[0]) by {
        assert(s.subrange(c2, end)[0] == s[c2]);
    }
    assert(t2[0] == q2[0]);
    assert(!is_digit(s[c2]));
    lemma_rt_opt_u64(s, c1, x.id);
    lemma_split_sub(s, c2, q2, t3);
    lemma_split_sub(s, c3, q3, t4);
    lemma_rt_opt_string(s, c3, x.name);
    lemma_split_sub(s, c4, q4, t5);
    lemma_split_sub(s, c5, q5, t6);
    assert(s[c6] == t6[0]) by {
        assert(s.subrange(c6, end)[0] == s[c6]);
    }
    assert(t6[0] == q6[0]);
    assert(!is_digit(s[c6]));
    lemma_rt_opt_i64(s, c5, x.due_at);
    lemma_split_sub(s, c6, q6, t7);
    lemma_split_sub(s, c7, q7, t8);
    assert(s[c8] == t8[0]) by {
        assert(s.subrange(c8, end)[0] == s[c8]);
    }
    assert(t8[0] == q8[0]);
    assert(!is_digit(s[c8]));
    lemma_rt_opt_u64(s, c7, x.points_possible_tenths);
    assert(expect_at(s, c0, q0) == Some(c1));
    assert(expect_at(s, c2, q2) == Some(c3));
    assert(expect_at(s, c4, q4) == Some(c5));
    assert(expect_at(s, c6, q6) == Some(c7));
    assert(expect_at(s, c8, q8) == Some(c9));
    assert(parse_assignment_event_detail_at(s, i) == Some((x@, end)));
}

/// Ghost image of one `CalendarEvent` as the cache file reads back.
pub struct CalendarEventV {
    pub id: u64,
    pub title: Option<Seq<char>>,
    pub start_at: Option<i64>,
    pub end_at: Option<i64>,
    pub context_code: Option<Seq<char>>,
    pub event_type: Option<Seq<char>>,
    pub assignment: Option<AssignmentEventDetailV>,
}

impl View for CalendarEvent {
    type V = CalendarEventV;

    open spec fn view(&self) -> CalendarEventV {
        CalendarEventV {
            id: self.id,
            title: view_opt_string(self.title),
            start_at: self.start_at,
            end_at: self.end_at,
            context_code: view_opt_string(self.context_code),
            event_type: view_opt_string(self.event_type),
            assignment: match self.assignment {
                Some(v) => Some(v@),
                None => None,
            },
        }
    }
}

pub open spec fn views_calendar_events(s: Seq<CalendarEvent>) -> Seq<CalendarEventV> {
    s.map_values(|e: CalendarEvent| e@)
}

#[verifier::opaque]
pub open spec fn enc_calendar_event(x: CalendarEvent) -> Seq<char> {
    "{\"id\":"@ + (dec_digits(x.id as nat) + (",\"title\":"@ + (enc_opt_string(x.title) + (",\"start_at\":"@ + (enc_opt_i64(x.start_at) + (",\"end_at\":"@ + (enc_opt_i64(x.end_at) + (",\"context_code\":"@ + (enc_opt_string(x.context_code) + (",\"event_type\":"@ + (enc_opt_string(x.event_type) + (",\"assignment\":"@ + (enc_opt_assignment_event_detail(x.assignment) + ("}"@))))))))))))))
}

proof fn lemma_enc_calendar_event_first(x: CalendarEvent)
    ensures
        enc_calendar_event(x).len() >= 1,
        enc_calendar_event(x)[0] == '{',
{
    reveal(enc_calendar_event);
    reveal_strlit("{\"id\":");
    assert(enc_calendar_event(x)[0] == "{\"id\":"@[0]);
}

#[verifier::opaque]
pub open spec fn parse_calendar_event_at(s: Seq<char>, i: int) -> Option<(CalendarEventV, int)> {
    match expect_at(s, i, "{\"id\":"@) {
        None => None,
        Some(j0) => 
        match parse_u64_at(s, j0) {
            None => None,
            Some((v_id, j1)) => 
            match expect_at(s, j1, ",\"title\":"@) {
                None => None,
                Some(j2) => 
                match parse_opt_string_at(s, j2) {
                    None => None,
                    Some((v_title, j3)) => 
                    match expect_at(s, j3, ",\"start_at\":"@) {
                        None => None,
                        Some(j4) => 
                        match parse_opt_i64_at(s, j4) {
                            None => None,
                            Some((v_start_at, j5)) => 
                            match expect_at(s, j5, ",\"end_at\":"@) {
                                None => None,
                                Some(j6) => 
                                match parse_opt_i64_at(s, j6) {
                                    None => None,
                                    Some((v_end_at, j7)) => 
                                    match expect_at(s, j7, ",\"context_code\":"@) {
                                        None => None,
                                        Some(j8) => 
                                        match parse_opt_string_at(s, j8) {
                                            None => None,
                                            Some((v_context_code, j9)) => 
                                            match expect_at(s, j9, ",\"event_type\":"@) {
                                                None => None,
                                                Some(j10) => 
                                                match parse_opt_string_at(s, j10) {
                                                    None => None,
                                                    Some((v_event_type, j11)) => 
                                                    match expect_at(s, j11, ",\"assignment\":"@) {
                                                        None => None,
                                                        Some(j12) => 
                                                        match parse_opt_assignment_event_detail_at(s, j12) {
                                                            None => None,
                                                            Some((v_assignment, j13)) => 
                                                            match expect_at(s, j13, "}"@) {
                                                                None => None,
                                                                Some(j14) => 
                                                                Some((
                                                                    CalendarEventV {
                                                                        id: v_id,
                                                                        title: v_title,
                                                                        start_at: v_start_at,
                                                                        end_at: v_end_at,
                                                                        context_code: v_context_code,
                                                                        event_type: v_event_type,
                                                                        assignment: v_assignment,
                                                                    },
                                                                    j14,
                                                                ))
                                                            ,
                                                            }
                                                        ,
                                                        }
                                                    ,
                                                    }
                                                ,
                                                }
                                            ,
                                            }
                                        ,
                                        }
                                    ,
                                    }
                                ,
                                }
                            ,
                            }
                        ,
                        }
                    ,
                    }
                ,
                }
            ,
            }
        ,
        }
    ,
    }
}

#[verifier::rlimit(100)]
#[verifier::spinoff_prover]
proof fn lemma_rt_calendar_event(s: Seq<char>, i: int, x: CalendarEvent)
    requires
        0 <= i,
        i + enc_calendar_event(x).len() <= s.len(),
        s.subrange(i, i + enc_calendar_event(x).len() as int) == enc_calendar_event(x),
    ensures
        parse_calendar_event_at(s, i) == Some((x@, i + enc_calendar_event(x).len() as int)),
{
    reveal(enc_calendar_event);
    reveal(parse_calendar_event_at);
    reveal_strlit("{\"id\":");
    reveal_strlit(",\"title\":");
    reveal_strlit(",\"start_at\":");
    reveal_strlit(",\"end_at\":");
    reveal_strlit(",\"context_code\":");
    reveal_strlit(",\"event_type\":");
    reveal_strlit(",\"assignment\":");
    reveal_strlit("}");
    let q0 = "{\"id\":"@;
    let q1 = dec_digits(x.id as nat);
    let q2 = ",\"title\":"@;
    let q3 = enc_opt_string(x.title);
    let q4 = ",\"start_at\":"@;
    let q5 = enc_opt_i64(x.start_at);
    let q6 = ",\"end_at\":"@;
    let q7 = enc_opt_i64(x.end_at);
    let q8 = ",\"context_code\":"@;
    let q9 = enc_opt_string(x.context_code);
    let q10 = ",\"event_type\":"@;
    let q11 = enc_opt_string(x.event_type);
    let q12 = ",\"assignment\":"@;
    let q13 = enc_opt_assignment_event_detail(x.assignment);
    let q14 = "}"@;
    let t14 = q14;
    let t13 = q13 + t14;
    let t12 = q12 + t13;
    let t11 = q11 + t12;
    let t10 = q10 + t11;
    let t9 = q9 + t10;
    let t8 = q8 + t9;
    let t7 = q7 + t8;
    let t6 = q6 + t7;
    let t5 = q5 + t6;
    let t4 = q4 + t5;
    let t3 = q3 + t4;
    let t2 = q2 + t3;
    let t1 = q1 + t2;
    let t0 = q0 + t1;
    assert(enc_calendar_event(x) == t0);
    let end = i + enc_calendar_event(x).len() as int;
    let c0 = i;
    let c1 = c0 + q0.len() as int;
    let c2 = c1 + q1.len() as int;
    let c3 = c2 + q2.len() as int;
    let c4 = c3 + q3.len() as int;
    let c5 = c4 + q4.len() as int;
    let c6 = c5 + q5.len() as int;
    let c7 = c6 + q6.len() as int;
    let c8 = c7 + q7.len() as int;
    let c9 = c8 + q8.len() as int;
    let c10 = c9 + q9.len() as int;
    let c11 = c10 + q10.len() as int;
    let c12 = c11 + q11.len() as int;
    let c13 = c12 + q12.len() as int;
    let c14 = c13 + q13.len() as int;
    let c15 = c14 + q14.len() as int;
    assert(s.subrange(c0, end) == t0);
    lemma_split_sub(s, c0, q0, t1);
    lemma_split_sub(s, c1, q1, t2);
    assert(s[c2] == t2[0]) by {
        assert(s.subrange(c2, end)[0] == s[c2]);
    }
    assert(t2[0] == q2[0]);
    assert(!is_digit(s[c2]));
    lemma_rt_u64(s, c1, x.id);
    lemma_split_sub(s, c2, q2, t3);
    lemma_split_sub(s, c3, q3, t4);
    lemma_rt_opt_string(s, c3, x.title);
    lemma_split_sub(s, c4, q4, t5);
    lemma_split_sub(s, c5, q5, t6);
    assert(s[c6] == t6[0]) by {
        assert(s.subrange(c6, end)[0] == s[c6]);
    }
    assert(t6[0] == q6[0]);
    assert(!is_digit(s[c6]));
    lemma_rt_opt_i64(s, c5, x.start_at);
    lemma_split_sub(s, c6, q6, t7);
    lemma_split_sub(s, c7, q7, t8);
    assert(s[c8] == t8[0]) by {
        assert(s.subrange(c8, end)[0] == s[c8]);
    }
    assert(t8[0] == q8[0]);
    assert(!is_digit(s[c8]));
    lemma_rt_opt_i64(s, c7, x.end_at);
    lemma_split_sub(s, c8, q8, t9);
    lemma_split_sub(s, c9, q9, t10);
    lemma_rt_opt_string(s, c9, x.context_code);
    lemma_split_sub(s, c10, q10, t11);
    lemma_split_sub(s, c11, q11, t12);
    lemma_rt_opt_string(s, c11, x.event_type);
    lemma_split_sub(s, c12, q12, t13);
    lemma_split_sub(s, c13, q13, t14);
    lemma_rt_opt_assignment_event_detail(s, c13, x.assignment);
    assert(expect_at(s, c0, q0) == Some(c1));
    assert(expect_at(s, c2, q2) == Some(c3));
    assert(expect_at(s, c4, q4) == Some(c5));
    assert(expect_at(s, c6, q6) == Some(c7));
    assert(expect_at(s, c8, q8) == Some(c9));
    assert(expect_at(s, c10, q10) == Some(c11));
    assert(expect_at(s, c12, q12) == Some(c13));
    assert(expect_at(s, c14, q14) == Some(c15));
    assert(parse_calendar_event_at(s, i) == Some((x@, end)));
}

/// Ghost image of one `DiscussionTopic` as the cache file reads back.
pub struct DiscussionTopicV {
    pub id: u64,
    pub title: Option<Seq<char>>,
    pub message: Option<Seq<char>>,
    pub posted_at: Option<i64>,
    pub user_name: Option<Seq<char>>,
    pub context_code: Option<Seq<char>>,
}

impl View for DiscussionTopic {
    type V = DiscussionTopicV;

    open spec fn view(&self) -> DiscussionTopicV {
        DiscussionTopicV {
            id: self.id,
            title: view_opt_string(self.title),
            message: view_opt_string(self.message),
            posted_at: self.posted_at,
            user_name: view_opt_string(self.user_name),
            context_code: view_opt_string(self.context_code),
        }
    }
}

pub open spec fn views_discussion_topics(s: Seq<DiscussionTopic>) -> Seq<DiscussionTopicV> {
    s.map_values(|e: DiscussionTopic| e@)
}

#[verifier::opaque]
pub open spec fn enc_discussion_topic(x: DiscussionTopic) -> Seq<char> {
    "{\"id\":"@ + (dec_digits(x.id as nat) + (",\"title\":"@ + (enc_opt_string(x.title) + (",\"message\":"@ + (enc_opt_string(x.message) + (",\"posted_at\":"@ + (enc_opt_i64(x.posted_at) + (",\"user_name\":"@ + (enc_opt_string(x.user_name) + (",\"context_code\":"@ + (enc_opt_string(x.context_code) + ("}"@))))))))))))
}

proof fn lemma_enc_discussion_topic_first(x: DiscussionTopic)
    ensures
        enc_discussion_topic(x).len() >= 1,
        enc_discussion_topic(x)[0] == '{',
{
    reveal(enc_discussion_topic);
    reveal_strlit("{\"id\":");
    assert(enc_discussion_topic(x)[0] == "{\"id\":"@[0]);
}

#[verifier::opaque]
pub open spec fn parse_discussion_topic_at(s: Seq<char>, i: int) -> Option<(DiscussionTopicV, int)> {
    match expect_at(s, i, "{\"id\":"@) {
        None => None,
        Some(j0) => 
        match parse_u64_at(s, j0) {
            None => None,
            Some((v_id, j1)) => 
            match expect_at(s, j1, ",\"title\":"@) {
                None => None,
                Some(j2) => 
                match parse_opt_string_at(s, j2) {
                    None => None,
                    Some((v_title, j3)) => 
                    match expect_at(s, j3, ",\"message\":"@) {
                        None => None,
                        Some(j4) => 
                        match parse_opt_string_at(s, j4) {
                            None => None,
                            Some((v_message, j5)) => 
                            match expect_at(s, j5, ",\"posted_at\":"@) {
                                None => None,
                                Some(j6) => 
                                match parse_opt_i64_at(s, j6) {
                                    None => None,
                                    Some((v_posted_at, j7)) => 
                                    match expect_at(s, j7, ",\"user_name\":"@) {
                                        None => None,
                                        Some(j8) => 
                                        match parse_opt_string_at(s, j8) {
                                            None => None,
                                            Some((v_user_name, j9)) => 
                                            match expect_at(s, j9, ",\"context_code\":"@) {
                                                None => None,
                                                Some(j10) => 
                                                match parse_opt_string_at(s, j10) {
                                                    None => None,
                                                    Some((v_context_code, j11)) => 
                                                    match expect_at(s, j11, "}"@) {
                                                        None => None,
                                                        Some(j12) => 
                                                        Some((
                                                            DiscussionTopicV {
                                                                id: v_id,
                                                                title: v_title,
                                                                message: v_message,
                                                                posted_at: v_posted_at,
                                                                user_name: v_user_name,
                                                                context_code: v_context_code,
                                                            },
                                                            j12,
                                                        ))
                                                    ,
                                                    }
                                                ,
                                                }
                                            ,
                                            }
                                        ,
                                        }
                                    ,
                                    }
                                ,
                                }
                            ,
                            }
                        ,
                        }
                    ,
                    }
                ,
                }
            ,
            }
        ,
        }
    ,
    }
}

#[verifier::rlimit(100)]
#[verifier::spinoff_prover]
proof fn lemma_rt_discussion_topic(s: Seq<char>, i: int, x: DiscussionTopic)
    requires
        0 <= i,
        i + enc_discussion_topic(x).len() <= s.len(),
        s.subrange(i, i + enc_discussion_topic(x).len() as int) == enc_discussion_topic(x),
    ensures
        parse_discussion_topic_at(s, i) == Some((x@, i + enc_discussion_topic(x).len() as int)),
{
    reveal(enc_discussion_topic);
    reveal(parse_discussion_topic_at);
    reveal_strlit("{\"id\":");
    reveal_strlit(",\"title\":");
    reveal_strlit(",\"message\":");
    reveal_strlit(",\"posted_at\":");
    reveal_strlit(",\"user_name\":");
    reveal_strlit(",\"context_code\":");
    reveal_strlit("}");
    let q0 = "{\"id\":"@;
    let q1 = dec_digits(x.id as nat);
    let q2 = ",\"title\":"@;
    let q3 = enc_opt_string(x.title);
    let q4 = ",\"message\":"@;
    let q5 = enc_opt_string(x.message);
    let q6 = ",\"posted_at\":"@;
    let q7 = enc_opt_i64(x.posted_at);
    let q8 = ",\"user_name\":"@;
    let q9 = enc_opt_string(x.user_name);
    let q10 = ",\"context_code\":"@;
    let q11 = enc_opt_string(x.context_code);
    let q12 = "}"@;
    let t12 = q12;
    let t11 = q11 + t12;
    let t10 = q10 + t11;
    let t9 = q9 + t10;
    let t8 = q8 + t9;
    let t7 = q7 + t8;
    let t6 = q6 + t7;
    let t5 = q5 + t6;
    let t4 = q4 + t5;
    let t3 = q3 + t4;
    let t2 = q2 + t3;
    let t1 = q1 + t2;
    let t0 = q0 + t1;
    assert(enc_discussion_topic(x) == t0);
    let end = i + enc_discussion_topic(x).len() as int;
    let c0 = i;
    let c1 = c0 + q0.len() as int;
    let c2 = c1 + q1.len() as int;
    let c3 = c2 + q2.len() as int;
    let c4 = c3 + q3.len() as int;
    let c5 = c4 + q4.len() as int;
    let c6 = c5 + q5.len() as int;
    let c7 = c6 + q6.len() as int;
    let c8 = c7 + q7.len() as int;
    let c9 = c8 + q8.len() as int;
    let c10 = c9 + q9.len() as int;
    let c11 = c10 + q10.len() as int;
    let c12 = c11 + q11.len() as int;
    let c13 = c12 + q12.len() as int;
    assert(s.subrange(c0, end) == t0);
    lemma_split_sub(s, c0, q0, t1);
    lemma_split_sub(s, c1, q1, t2);
    assert(s[c2] == t2[0]) by {
        assert(s.subrange(c2, end)[0] == s[c2]);
    }
    assert(t2[0] == q2[0]);
    assert(!is_digit(s[c2]));
    lemma_rt_u64(s, c1, x.id);
    lemma_split_sub(s, c2, q2, t3);
    lemma_split_sub(s, c3, q3, t4);
    lemma_rt_opt_string(s, c3, x.title);
    lemma_split_sub(s, c4, q4, t5);
    lemma_split_sub(s, c5, q5, t6);
    lemma_rt_opt_string(s, c5, x.message);
    lemma_split_sub(s, c6, q6, t7);
    lemma_split_sub(s, c7, q7, t8);
    assert(s[c8] == t8[0]) by {
        assert(s.subrange(c8, end)[0] == s[c8]);
    }
    assert(t8[0] == q8[0]);
    assert(!is_digit(s[c8]));
    lemma_rt_opt_i64(s, c7, x.posted_at);
    lemma_split_sub(s, c8, q8, t9);
    lemma_split_sub(s, c9, q9, t10);
    lemma_rt_opt_string(s, c9, x.user_name);
    lemma_split_sub(s, c10, q10, t11);
    lemma_split_sub(s, c11, q11, t12);
    lemma_rt_opt_string(s, c11, x.context_code);
    assert(expect_at(s, c0, q0) == Some(c1));
    assert(expect_at(s, c2, q2) == Some(c3));
    assert(expect_at(s, c4, q4) == Some(c5));
    assert(expect_at(s, c6, q6) == Some(c7));
    assert(expect_at(s, c8, q8) == Some(c9));
    assert(expect_at(s, c10, q10) == Some(c11));
    assert(expect_at(s, c12, q12) == Some(c13));
    assert(parse_discussion_topic_at(s, i) == Some((x@, end)));
}

/// Ghost image of one `User` as the cache file reads back.
pub struct UserV {
    pub id: u64,
    pub name: Option<Seq<char>>,
    pub short_name: Option<Seq<char>>,
    pub login_id: Option<Seq<char>>,
    pub email: Option<Seq<char>>,
    pub avatar_url: Option<Seq<char>>,
}

impl View for User {
    type V = UserV;

    open spec fn view(&self) -> UserV {
        UserV {
            id: self.id,
            name: view_opt_string(self.name),
            short_name: view_opt_string(self.short_name),
            login_id: view_opt_string(self.login_id),
            email: view_opt_string(self.email),
            avatar_url: view_opt_string(self.avatar_url),
        }
    }
}

pub open spec fn views_users(s: Seq<User>) -> Seq<UserV> {
    s.map_values(|e: User| e@)
}

#[verifier::opaque]
pub open spec fn enc_user(x: User) -> Seq<char> {
    "{\"id\":"@ + (dec_digits(x.id as nat) + (",\"name\":"@ + (enc_opt_string(x.name) + (",\"short_name\":"@ + (enc_opt_string(x.short_name) + (",\"login_id\":"@ + (enc_opt_string(x.login_id) + (",\"email\":"@ + (enc_opt_string(x.email) + (",\"avatar_url\":"@ + (enc_opt_string(x.avatar_url) + ("}"@))))))))))))
}

proof fn lemma_enc_user_first(x: User)
    ensures
        enc_user(x).len() >= 1,
        enc_user(x)[0] == '{',
{
    reveal(enc_user);
    reveal_strlit("{\"id\":");
    assert(enc_user(x)[0] == "{\"id\":"@[0]);
}

#[verifier::opaque]
pub open spec fn parse_user_at(s: Seq<char>, i: int) -> Option<(UserV, int)> {
    match expect_at(s, i, "{\"id\":"@) {
        None => None,
        Some(j0) => 
        match parse_u64_at(s, j0) {
            None => None,
            Some((v_id, j1)) => 
            match expect_at(s, j1, ",\"name\":"@) {
                None => None,
                Some(j2) => 
                match parse_opt_string_at(s, j2) {
                    None => None,
                    Some((v_name, j3)) => 
                    match expect_at(s, j3, ",\"short_name\":"@) {
                        None => None,
                        Some(j4) => 
                        match parse_opt_string_at(s, j4) {
                            None => None,
                            Some((v_short_name, j5)) => 
                            match expect_at(s, j5, ",\"login_id\":"@) {
                                None => None,
                                Some(j6) => 
                                match parse_opt_string_at(s, j6) {
                                    None => None,
                                    Some((v_login_id, j7)) => 
                                    match expect_at(s, j7, ",\"email\":"@) {
                                        None => None,
                                        Some(j8) => 
                                        match parse_opt_string_at(s, j8) {
                                            None => None,
                                            Some((v_email, j9)) => 
                                            match expect_at(s, j9, ",\"avatar_url\":"@) {
                                                None => None,
                                                Some(j10) => 
                                                match parse_opt_string_at(s, j10) {
                                                    None => None,
                                                    Some((v_avatar_url, j11)) => 
                                                    match expect_at(s, j11, "}"@) {
                                                        None => None,
                                                        Some(j12) => 
                                                        Some((
                                                            UserV {
                                                                id: v_id,
                                                                name: v_name,
                                                                short_name: v_short_name,
                                                                login_id: v_login_id,
                                                                email: v_email,
                                                                avatar_url: v_avatar_url,
                                                            },
                                                            j12,
                                                        ))
                                                    ,
                                                    }
                                                ,
                                                }
                                            ,
                                            }
                                        ,
                                        }
                                    ,
                                    }
                                ,
                                }
                            ,
                            }
                        ,
                        }
                    ,
                    }
                ,
                }
            ,
            }
        ,
        }
    ,
    }
}

#[verifier::rlimit(100)]
#[verifier::spinoff_prover]
proof fn lemma_rt_user(s: Seq<char>, i: int, x: User)
    requires
        0 <= i,
        i + enc_user(x).len() <= s.len(),
        s.subrange(i, i + enc_user(x).len() as int) == enc_user(x),
    ensures
        parse_user_at(s, i) == Some((x@, i + enc_user(x).len() as int)),
{
    reveal(enc_user);
    reveal(parse_user_at);
    reveal_strlit("{\"id\":");
    reveal_strlit(",\"name\":");
    reveal_strlit(",\"short_name\":");
    reveal_strlit(",\"login_id\":");
    reveal_strlit(",\"email\":");
    reveal_strlit(",\"avatar_url\":");
    reveal_strlit("}");
    let q0 = "{\"id\":"@;
    let q1 = dec_digits(x.id as nat);
    let q2 = ",\"name\":"@;
    let q3 = enc_opt_string(x.name);
    let q4 = ",\"short_name\":"@;
    let q5 = enc_opt_string(x.short_name);
    let q6 = ",\"login_id\":"@;
    let q7 = enc_opt_string(x.login_id);
    let q8 = ",\"email\":"@;
    let q9 = enc_opt_string(x.email);
    let q10 = ",\"avatar_url\":"@;
    let q11 = enc_opt_string(x.avatar_url);
    let q12 = "}"@;
    let t12 = q12;
    let t11 = q11 + t12;
    let t10 = q10 + t11;
    let t9 = q9 + t10;
    let t8 = q8 + t9;
    let t7 = q7 + t8;
    let t6 = q6 + t7;
    let t5 = q5 + t6;
    let t4 = q4 + t5;
    let t3 = q3 + t4;
    let t2 = q2 + t3;
    let t1 = q1 + t2;
    let t0 = q0 + t1;
    assert(enc_user(x) == t0);
    let end = i + enc_user(x).len() as int;
    let c0 = i;
    let c1 = c0 + q0.len() as int;
    let c2 = c1 + q1.len() as int;
    let c3 = c2 + q2.len() as int;
    let c4 = c3 + q3.len() as int;
    let c5 = c4 + q4.len() as int;
    let c6 = c5 + q5.len() as int;
    let c7 = c6 + q6.len() as int;
    let c8 = c7 + q7.len() as int;
    let c9 = c8 + q8.len() as int;
    let c10 = c9 + q9.len() as int;
    let c11 = c10 + q10.len() as int;
    let c12 = c11 + q11.len() as int;
    let c13 = c12 + q12.len() as int;
    assert(s.subrange(c0, end) == t0);
    lemma_split_sub(s, c0, q0, t1);
    lemma_split_sub(s, c1, q1, t2);
    assert(s[c2] == t2[0]) by {
        assert(s.subrange(c2, end)[0] == s[c2]);
    }
    assert(t2[0] == q2[0]);
    assert(!is_digit(s[c2]));
    lemma_rt_u64(s, c1, x.id);
    lemma_split_sub(s, c2, q2, t3);
    lemma_split_sub(s, c3, q3, t4);
    lemma_rt_opt_string(s, c3, x.name);
    lemma_split_sub(s, c4, q4, t5);
    lemma_split_sub(s, c5, q5, t6);
    lemma_rt_opt_string(s, c5, x.short_name);
    lemma_split_sub(s, c6, q6, t7);
    lemma_split_sub(s, c7, q7, t8);
    lemma_rt_opt_string(s, c7, x.login_id);
    lemma_split_sub(s, c8, q8, t9);
    lemma_split_sub(s, c9, q9, t10);
    lemma_rt_opt_string(s, c9, x.email);
    lemma_split_sub(s, c10, q10, t11);
    lemma_split_sub(s, c11, q11, t12);
    lemma_rt_opt_string(s, c11, x.avatar_url);
    assert(expect_at(s, c0, q0) == Some(c1));
    assert(expect_at(s, c2, q2) == Some(c3));
    assert(expect_at(s, c4, q4) == Some(c5));
    assert(expect_at(s, c6, q6) == Some(c7));
    assert(expect_at(s, c8, q8) == Some(c9));
    assert(expect_at(s, c10, q10) == Some(c11));
    assert(expect_at(s, c12, q12) == Some(c13));
    assert(parse_user_at(s, i) == Some((x@, end)));
}

/// Ghost image of one `CacheData` as the cache file reads back.
pub struct CacheDataV {
    pub cached_at: i64,
    pub user: Option<UserV>,
    pub courses: Seq<CourseV>,
    pub assignments: Seq<(Seq<char>, Seq<AssignmentV>)>,
    pub calendar_events: Seq<CalendarEventV>,
    pub announcements: Seq<DiscussionTopicV>,
}

impl View for CacheData {
    type V = CacheDataV;

    open spec fn view(&self) -> CacheDataV {
        CacheDataV {
            cached_at: self.cached_at,
            user: match self.user {
                Some(v) => Some(v@),
                None => None,
            },
            courses: views_courses(self.courses@),
            assignments: views_pairs(self.assignments@),
            calendar_events: views_calendar_events(self.calendar_events@),
            announcements: views_discussion_topics(self.announcements@),
        }
    }
}

pub open spec fn views_cache_datas(s: Seq<CacheData>) -> Seq<CacheDataV> {
    s.map_values(|e: CacheData| e@)
}

#[verifier::opaque]
pub open spec fn enc_cache_data(x: CacheData) -> Seq<char> {
    "{\"cached_at\":"@ + (enc_i64(x.cached_at) + (",\"user\":"@ + (enc_opt_user(x.user) + (",\"courses\":"@ + (enc_course_vec(x.courses@) + (",\"assignments\":"@ + (enc_pair_vec(x.assignments@) + (",\"calendar_events\":"@ + (enc_calendar_event_vec(x.calendar_events@) + (",\"announcements\":"@ + (enc_discussion_topic_vec(x.announcements@) + ("}"@))))))))))))
}

proof fn lemma_enc_cache_data_first(x: CacheData)
    ensures
        enc_cache_data(x).len() >= 1,
        enc_cache_data(x)[0] == '{',
{
    reveal(enc_cache_data);
    reveal_strlit("{\"cached_at\":");
    assert(enc_cache_data(x)[0] == "{\"cached_at\":"@[0]);
}

#[verifier::opaque]
pub open spec fn parse_cache_data_at(s: Seq<char>, i: int) -> Option<(CacheDataV, int)> {
    match expect_at(s, i, "{\"cached_at\":"@) {
        None => None,
        Some(j0) => 
        match parse_i64_at(s, j0) {
            None => None,
            Some((v_cached_at, j1)) => 
            match expect_at(s, j1, ",\"user\":"@) {
                None => None,
                Some(j2) => 
                match parse_opt_user_at(s, j2) {
                    None => None,
                    Some((v_user, j3)) => 
                    match expect_at(s, j3, ",\"courses\":"@) {
                        None => None,
                        Some(j4) => 
                        match parse_course_vec_at(s, j4) {
                            None => None,
                            Some((v_courses, j5)) => 
                            match expect_at(s, j5, ",\"assignments\":"@) {
                                None => None,
                                Some(j6) => 
                                match parse_pair_vec_at(s, j6) {
                                    None => None,
                                    Some((v_assignments, j7)) => 
                                    match expect_at(s, j7, ",\"calendar_events\":"@) {
                                        None => None,
                                        Some(j8) => 
                                        match parse_calendar_event_vec_at(s, j8) {
                                            None => None,
                                            Some((v_calendar_events, j9)) => 
                                            match expect_at(s, j9, ",\"announcements\":"@) {
                                                None => None,
                                                Some(j10) => 
                                                match parse_discussion_topic_vec_at(s, j10) {
                                                    None => None,
                                                    Some((v_announcements, j11)) => 
                                                    match expect_at(s, j11, "}"@) {
                                                        None => None,
                                                        Some(j12) => 
                                                        Some((
                                                            CacheDataV {
                                                                cached_at: v_cached_at,
                                                                user: v_user,
                                                                courses: v_courses,
                                                                assignments: v_assignments,
                                                                calendar_events: v_calendar_events,
                                                                announcements: v_announcements,
                                                            },
                                                            j12,
                                                        ))
                                                    ,
                                                    }
                                                ,
                                                }
                                            ,
                                            }
                                        ,
                                        }
                                    ,
                                    }
                                ,
                                }
                            ,
                            }
                        ,
                        }
                    ,
                    }
                ,
                }
            ,
            }
        ,
        }
    ,
    }
}

#[verifier::rlimit(100)]
#[verifier::spinoff_prover]
proof fn lemma_rt_cache_data(s: Seq<char>, i: int, x: CacheData)
    requires
        0 <= i,
        i + enc_cache_data(x).len() <= s.len(),
        s.subrange(i, i + enc_cache_data(x).len() as int) == enc_cache_data(x),
    ensures
        parse_cache_data_at(s, i) == Some((x@, i + enc_cache_data(x).len() as int)),
{
    reveal(enc_cache_data);
    reveal(parse_cache_data_at);
    reveal_strlit("{\"cached_at\":");
    reveal_strlit(",\"user\":");
    reveal_strlit(",\"courses\":");
    reveal_strlit(",\"assignments\":");
    reveal_strlit(",\"calendar_events\":");
    reveal_strlit(",\"announcements\":");
    reveal_strlit("}");
    let q0 = "{\"cached_at\":"@;
    let q1 = enc_i64(x.cached_at);
    let q2 = ",\"user\":"@;
    let q3 = enc_opt_user(x.user);
    let q4 = ",\"courses\":"@;
    let q5 = enc_course_vec(x.courses@);
    let q6 = ",\"assignments\":"@;
    let q7 = enc_pair_vec(x.assignments@);
    let q8 = ",\"calendar_events\":"@;
    let q9 = enc_calendar_event_vec(x.calendar_events@);
    let q10 = ",\"announcements\":"@;
    let q11 = enc_discussion_topic_vec(x.announcements@);
    let q12 = "}"@;
    let t12 = q12;
    let t11 = q11 + t12;
    let t10 = q10 + t11;
    let t9 = q9 + t10;
    let t8 = q8 + t9;
    let t7 = q7 + t8;
    let t6 = q6 + t7;
    let t5 = q5 + t6;
    let t4 = q4 + t5;
    let t3 = q3 + t4;
    let t2 = q2 + t3;
    let t1 = q1 + t2;
    let t0 = q0 + t1;
    assert(enc_cache_data(x) == t0);
    let end = i + enc_cache_data(x).len() as int;
    let c0 = i;
    let c1 = c0 + q0.len() as int;
    let c2 = c1 + q1.len() as int;
    let c3 = c2 + q2.len() as int;
    let c4 = c3 + q3.len() as int;
    let c5 = c4 + q4.len() as int;
    let c6 = c5 + q5.len() as int;
    let c7 = c6 + q6.len() as int;
    let c8 = c7 + q7.len() as int;
    let c9 = c8 + q8.len() as int;
    let c10 = c9 + q9.len() as int;
    let c11 = c10 + q10.len() as int;
    let c12 = c11 + q11.len() as int;
    let c13 = c12 + q12.len() as int;
    assert(s.subrange(c0, end) == t0);
    lemma_split_sub(s, c0, q0, t1);
    lemma_split_sub(s, c1, q1, t2);
    assert(s[c2] == t2[0]) by {
        assert(s.subrange(c2, end)[0] == s[c2]);
    }
    assert(t2[0] == q2[0]);
    assert(!is_digit(s[c2]));
    lemma_rt_i64(s, c1, x.cached_at);
    lemma_split_sub(s, c2, q2, t3);
    lemma_split_sub(s, c3, q3, t4);
    lemma_rt_opt_user(s, c3, x.user);
    lemma_split_sub(s, c4, q4, t5);
    lemma_split_sub(s, c5, q5, t6);
    lemma_rt_course_vec(s, c5, x.courses@);
    lemma_split_sub(s, c6, q6, t7);
    lemma_split_sub(s, c7, q7, t8);
    lemma_rt_pair_vec(s, c7, x.assignments@);
    lemma_split_sub(s, c8, q8, t9);
    lemma_split_sub(s, c9, q9, t10);
    lemma_rt_calendar_event_vec(s, c9, x.calendar_events@);
    lemma_split_sub(s, c10, q10, t11);
    lemma_split_sub(s, c11, q11, t12);
    lemma_rt_discussion_topic_vec(s, c11, x.announcements@);
    assert(expect_at(s, c0, q0) == Some(c1));
    assert(expect_at(s, c2, q2) == Some(c3));
    assert(expect_at(s, c4, q4) == Some(c5));
    assert(expect_at(s, c6, q6) == Some(c7));
    assert(expect_at(s, c8, q8) == Some(c9));
    assert(expect_at(s, c10, q10) == Some(c11));
    assert(expect_at(s, c12, q12) == Some(c13));
    assert(parse_cache_data_at(s, i) == Some((x@, end)));
}

// ─── Writing the format ─────────────────────────────────────────────────

fn append_u64(out: &mut String, n: u64)
    ensures
        final(out)@ == old(out)@ + dec_digits(n as nat),
{
    let s = crate::strutil::u64_to_string(n);
    out.append(s.as_str());
}

fn append_i64(out: &mut String, n: i64)
    ensures
        final(out)@ == old(out)@ + enc_i64(n),
{
    let ghost start = out@;
    if n < 0 {
        push_char(out, '-');
        let m: u64 = if n == i64::MIN {
            9223372036854775808u64
        } else {
            (-n) as u64
        };
        proof {
            assert(m as int == -(n as int));
        }
        let s = crate::strutil::u64_to_string(m);
        out.append(s.as_str());
        proof {
            assert(out@ =~= start + enc_i64(n));
        }
    } else {
        let s = crate::strutil::u64_to_string(n as u64);
        out.append(s.as_str());
    }
}

fn append_bool(out: &mut String, b: bool)
    ensures
        final(out)@ == old(out)@ + enc_bool(b),
{
    if b {
        out.append("true");
    } else {
        out.append("false");
    }
}

proof fn lemma_esc_chars_push(t: Seq<char>, c: char)
    ensures
        esc_chars(t.push(c)) == esc_chars(t) + esc(c),
    decreases t.len(),
{
    if t.len() == 0 {
        assert(t.push(c)[0] == c);
        assert(t.push(c).drop_first() =~= Seq::<char>::empty());
        assert(esc_chars(Seq::<char>::empty()) == Seq::<char>::empty());
        assert(esc_chars(t) == Seq::<char>::empty());
        assert(esc_chars(t.push(c)) == esc(t.push(c)[0]) + esc_chars(t.push(c).drop_first()));
        assert(esc(c) + Seq::<char>::empty() =~= esc(c));
        assert(Seq::<char>::empty() + esc(c) =~= esc(c));
    } else {
        lemma_esc_chars_push(t.drop_first(), c);
        assert(t.push(c)[0] == t[0]);
        assert(t.push(c).drop_first() =~= t.drop_first().push(c));
        assert(esc(t[0]) + (esc_chars(t.drop_first()) + esc(c)) =~= (esc(t[0]) + esc_chars(
            t.drop_first(),
        )) + esc(c));
    }
}

fn append_string(out: &mut String, x: &str)
    ensures
        final(out)@ == old(out)@ + enc_string(x@),
{
    let ghost start = out@;
    push_char(out, '"');
    let n: usize = x.unicode_len();
    let mut i: usize = 0;
    proof {
        assert(esc_chars(x@.take(0)) =~= Seq::<char>::empty());
        assert(out@ =~= start + seq!['"'] + esc_chars(x@.take(0)));
    }
    while i < n
        invariant
            i <= n == x@.len(),
            out@ == start + seq!['"'] + esc_chars(x@.take(i as int)),
        decreases n - i,
    {
        let c = x.get_char(i);
        if c == '"' {
            push_char(out, '\\');
            push_char(out, '"');
        } else if c == '\\' {
            push_char(out, '\\');
            push_char(out, '\\');
        } else if c == '\n' {
            push_char(out, '\\');
            push_char(out, 'n');
        } else if c == '\r' {
            push_char(out, '\\');
            push_char(out, 'r');
        } else if c == '\t' {
            push_char(out, '\\');
            push_char(out, 't');
        } else {
            push_char(out, c);
        }
        i = i + 1;
        proof {
            lemma_esc_chars_push(x@.take(i - 1), x@[i - 1]);
            assert(x@.take(i as int) =~= x@.take(i - 1).push(x@[i - 1]));
            assert(out@ =~= start + seq!['"'] + esc_chars(x@.take(i as int)));
        }
    }
    push_char(out, '"');
    proof {
        assert(x@.take(n as int) =~= x@);
        assert(out@ =~= start + enc_string(x@));
    }
}

fn append_opt_u64(out: &mut String, o: Option<u64>)
    ensures
        final(out)@ == old(out)@ + enc_opt_u64(o),
{
    match o {
        None => out.append("null"),
        Some(n) => append_u64(out, n),
    }
}

fn append_opt_i64(out: &mut String, o: Option<i64>)
    ensures
        final(out)@ == old(out)@ + enc_opt_i64(o),
{
    match o {
        None => out.append("null"),
        Some(n) => append_i64(out, n),
    }
}

fn append_opt_bool(out: &mut String, o: Option<bool>)
    ensures
        final(out)@ == old(out)@ + enc_opt_bool(o),
{
    match o {
        None => out.append("null"),
        Some(b) => append_bool(out, b),
    }
}

fn append_opt_string(out: &mut String, o: &Option<String>)
    ensures
        final(out)@ == old(out)@ + enc_opt_string(*o),
{
    match o {
        None => out.append("null"),
        Some(x) => append_string(out, x.as_str()),
    }
}

fn append_state(out: &mut String, x: WorkflowState)
    ensures
        final(out)@ == old(out)@ + enc_state(x),
{
    match x {
        WorkflowState::Unsubmitted => out.append("\"unsubmitted\""),
        WorkflowState::Submitted => out.append("\"submitted\""),
        WorkflowState::Graded => out.append("\"graded\""),
    }
}

// ─── Reading the format: scalars ────────────────────────────────────────

/// Position just past `lit`, when the text carries exactly it at `i`.
fn expect_lit(v: &Vec<char>, i: usize, lit: &str) -> (r: Option<usize>)
    ensures
        r is None <==> expect_at(v@, i as int, lit@) is None,
        r matches Some(j) ==> expect_at(v@, i as int, lit@) == Some(j as int) && i < j <= v@.len()
            || (lit@.len() == 0 && j == i),
{
    let n: usize = lit.unicode_len();
    let vlen = v.len();
    if i > vlen || n > vlen - i {
        proof {
            assert(i + lit@.len() > v@.len());
        }
        return None;
    }
    let mut k: usize = 0;
    while k < n
        invariant
            k <= n == lit@.len(),
            i + n <= vlen,
            vlen == v@.len(),
            forall|p: int| 0 <= p < k ==> v@[i + p] == lit@[p],
        decreases n - k,
    {
        if v[i + k] != lit.get_char(k) {
            proof {
                if v@.subrange(i as int, i + lit@.len()) == lit@ {
                    assert(v@.subrange(i as int, i + lit@.len())[k as int] == v@[i + k]);
                }
            }
            return None;
        }
        k = k + 1;
    }
    proof {
        assert(v@.subrange(i as int, i + lit@.len()) =~= lit@);
    }
    Some(i + n)
}

fn parse_u64_exec(v: &Vec<char>, i: usize) -> (r: Option<(u64, usize)>)
    requires
        i <= v@.len(),
    ensures
        r is None <==> parse_u64_at(v@, i as int) is None,
        r matches Some((n, j)) ==> parse_u64_at(v@, i as int) == Some((n, j as int)) && i < j
            <= v@.len(),
{
    let mut j: usize = i;
    while j < v.len() && digit_of(v[j]).is_some()
        invariant
            i <= j <= v@.len(),
            forall|k: int| i <= k < j ==> is_digit(v@[k]),
        decreases v@.len() - j,
    {
        j = j + 1;
    }
    proof {
        lemma_digits_end_exact(v@, i as int, j as int);
    }
    if j == i {
        return None;
    }
    match parse_digits(v, i, j) {
        Some(val) => Some((val, j)),
        None => None,
    }
}

fn parse_i64_exec(v: &Vec<char>, i: usize) -> (r: Option<(i64, usize)>)
    requires
        i <= v@.len(),
    ensures
        r is None <==> parse_i64_at(v@, i as int) is None,
        r matches Some((n, j)) ==> parse_i64_at(v@, i as int) == Some((n, j as int)) && i < j
            <= v@.len(),
{
    if i < v.len() && v[i] == '-' {
        match parse_u64_exec(v, i + 1) {
            Some((m, j)) => {
                if 0 < m && m <= 9223372036854775808u64 {
                    let val: i64 = if m == 9223372036854775808u64 {
                        i64::MIN
                    } else {
                        -(m as i64)
                    };
                    proof {
                        assert(val as int == -(m as int));
                    }
                    Some((val, j))
                } else {
                    None
                }
            },
            None => None,
        }
    } else {
        match parse_u64_exec(v, i) {
            Some((m, j)) => {
                if m <= i64::MAX as u64 {
                    Some((m as i64, j))
                } else {
                    None
                }
            },
            None => None,
        }
    }
}

fn parse_bool_exec(v: &Vec<char>, i: usize) -> (r: Option<(bool, usize)>)
    ensures
        r is None <==> parse_bool_at(v@, i as int) is None,
        r matches Some((b, j)) ==> parse_bool_at(v@, i as int) == Some((b, j as int)) && i < j
            <= v@.len(),
{
    proof {
        reveal_strlit("true");
        reveal_strlit("false");
    }
    match expect_lit(v, i, "true") {
        Some(j) => Some((true, j)),
        None => match expect_lit(v, i, "false") {
            Some(j) => Some((false, j)),
            None => None,
        },
    }
}

fn parse_string_exec(v: &Vec<char>, i: usize) -> (r: Option<(String, usize)>)
    ensures
        r is None <==> parse_string_at(v@, i as int) is None,
        r matches Some((x, j)) ==> parse_string_at(v@, i as int) == Some((x@, j as int)) && i < j
            <= v@.len(),
{
    if !(i < v.len() && v[i] == '"') {
        return None;
    }
    let mut cur: usize = i + 1;
    let mut acc = String::new();
    loop
        invariant
            i + 1 <= cur <= v@.len(),
            i < v@.len(),
            v@[i as int] == '"',
            parse_strchars(v@, (i + 1) as int) == (match parse_strchars(v@, cur as int) {
                Some((t, j)) => Some((acc@ + t, j)),
                None => None::<(Seq<char>, int)>,
            }),
        decreases v@.len() - cur,
    {
        if cur >= v.len() {
            return None;
        }
        let c = v[cur];
        if c == '"' {
            proof {
                assert(acc@ + Seq::<char>::empty() =~= acc@);
            }
            return Some((acc, cur + 1));
        } else if c == '\\' {
            if cur + 1 >= v.len() {
                return None;
            }
            let e = v[cur + 1];
            let u: Option<char> = if e == '"' {
                Some('"')
            } else if e == '\\' {
                Some('\\')
            } else if e == 'n' {
                Some('\n')
            } else if e == 'r' {
                Some('\r')
            } else if e == 't' {
                Some('\t')
            } else {
                None
            };
            match u {
                Some(uc) => {
                    let ghost prev = acc@;
                    push_char(&mut acc, uc);
                    proof {
                        assert forall|t: Seq<char>| prev + (seq![uc] + t) =~= acc@ + t by {
                            assert(prev + (seq![uc] + t) =~= prev.push(uc) + t);
                        }
                    }
                    cur = cur + 2;
                },
                None => {
                    return None;
                },
            }
        } else {
            let ghost prev = acc@;
            push_char(&mut acc, c);
            proof {
                assert forall|t: Seq<char>| prev + (seq![c] + t) =~= acc@ + t by {
                    assert(prev + (seq![c] + t) =~= prev.push(c) + t);
                }
            }
            cur = cur + 1;
        }
    }
}

fn parse_opt_u64_exec(v: &Vec<char>, i: usize) -> (r: Option<(Option<u64>, usize)>)
    requires
        i <= v@.len(),
    ensures
        r is None <==> parse_opt_u64_at(v@, i as int) is None,
        r matches Some((o, j)) ==> parse_opt_u64_at(v@, i as int) == Some((o, j as int)) && i < j
            <= v@.len(),
{
    proof {
        reveal_strlit("null");
    }
    match expect_lit(v, i, "null") {
        Some(j) => Some((None, j)),
        None => match parse_u64_exec(v, i) {
            Some((n, j)) => Some((Some(n), j)),
            None => None,
        },
    }
}

fn parse_opt_i64_exec(v: &Vec<char>, i: usize) -> (r: Option<(Option<i64>, usize)>)
    requires
        i <= v@.len(),
    ensures
        r is None <==> parse_opt_i64_at(v@, i as int) is None,
        r matches Some((o, j)) ==> parse_opt_i64_at(v@, i as int) == Some((o, j as int)) && i < j
            <= v@.len(),
{
    proof {
        reveal_strlit("null");
    }
    match expect_lit(v, i, "null") {
        Some(j) => Some((None, j)),
        None => match parse_i64_exec(v, i) {
            Some((n, j)) => Some((Some(n), j)),
            None => None,
        },
    }
}

fn parse_opt_bool_exec(v: &Vec<char>, i: usize) -> (r: Option<(Option<bool>, usize)>)
    ensures
        r is None <==> parse_opt_bool_at(v@, i as int) is None,
        r matches Some((o, j)) ==> parse_opt_bool_at(v@, i as int) == Some((o, j as int)) && i < j
            <= v@.len(),
{
    proof {
        reveal_strlit("null");
    }
    match expect_lit(v, i, "null") {
        Some(j) => Some((None, j)),
        None => match parse_bool_exec(v, i) {
            Some((b, j)) => Some((Some(b), j)),
            None => None,
        },
    }
}

fn parse_opt_string_exec(v: &Vec<char>, i: usize) -> (r: Option<(Option<String>, usize)>)
    ensures
        r is None <==> parse_opt_string_at(v@, i as int) is None,
        r matches Some((o, j)) ==> parse_opt_string_at(v@, i as int) == Some(
            (view_opt_string(o), j as int),
        ) && i < j <= v@.len(),
{
    proof {
        reveal_strlit("null");
    }
    match expect_lit(v, i, "null") {
        Some(j) => Some((None, j)),
        None => match parse_string_exec(v, i) {
            Some((x, j)) => Some((Some(x), j)),
            None => None,
        },
    }
}

fn parse_state_exec(v: &Vec<char>, i: usize) -> (r: Option<(WorkflowState, usize)>)
    ensures
        r is None <==> parse_state_at(v@, i as int) is None,
        r matches Some((x, j)) ==> parse_state_at(v@, i as int) == Some((x, j as int)) && i < j
            <= v@.len(),
{
    proof {
        reveal_strlit("\"unsubmitted\"");
        reveal_strlit("\"submitted\"");
        reveal_strlit("\"graded\"");
    }
    match expect_lit(v, i, "\"unsubmitted\"") {
        Some(j) => Some((WorkflowState::Unsubmitted, j)),
        None => match expect_lit(v, i, "\"submitted\"") {
            Some(j) => Some((WorkflowState::Submitted, j)),
            None => match expect_lit(v, i, "\"graded\"") {
                Some(j) => Some((WorkflowState::Graded, j)),
                None => None,
            },
        },
    }
}

#[verifier::rlimit(100)]
#[verifier::spinoff_prover]
fn enc_enrollment_write(x: &Enrollment, out: &mut String)
    ensures
        final(out)@ == old(out)@ + enc_enrollment(*x),
{
    let ghost a0 = out@;
    out.append("{\"enrollment_type\":");
    let ghost a1 = out@;
    append_opt_string(out, &x.enrollment_type);
    let ghost a2 = out@;
    out.append(",\"computed_current_score_tenths\":");
    let ghost a3 = out@;
    append_opt_u64(out, x.computed_current_score_tenths);
    let ghost a4 = out@;
    out.append(",\"computed_current_grade\":");
    let ghost a5 = out@;
    append_opt_string(out, &x.computed_current_grade);
    let ghost a6 = out@;
    out.append(",\"computed_final_score_tenths\":");
    let ghost a7 = out@;
    append_opt_u64(out, x.computed_final_score_tenths);
    let ghost a8 = out@;
    out.append(",\"computed_final_grade\":");
    let ghost a9 = out@;
    append_opt_string(out, &x.computed_final_grade);
    let ghost a10 = out@;
    out.append("}");
    let ghost a11 = out@;
    proof {
        reveal(enc_enrollment);
        let q0 = "{\"enrollment_type\":"@;
        let q1 = enc_opt_string(x.enrollment_type);
        let q2 = ",\"computed_current_score_tenths\":"@;
        let q3 = enc_opt_u64(x.computed_current_score_tenths);
        let q4 = ",\"computed_current_grade\":"@;
        let q5 = enc_opt_string(x.computed_current_grade);
        let q6 = ",\"computed_final_score_tenths\":"@;
        let q7 = enc_opt_u64(x.computed_final_score_tenths);
        let q8 = ",\"computed_final_grade\":"@;
        let q9 = enc_opt_string(x.computed_final_grade);
        let q10 = "}"@;
        let t10 = q10;
        let t9 = q9 + t10;
        let t8 = q8 + t9;
        let t7 = q7 + t8;
        let t6 = q6 + t7;
        let t5 = q5 + t6;
        let t4 = q4 + t5;
        let t3 = q3 + t4;
        let t2 = q2 + t3;
        let t1 = q1 + t2;
        let t0 = q0 + t1;
        assert(a11 == a10 + t10);
        vstd::seq_lib::lemma_concat_associative(a9, q9, t10);
        assert(a9 + t9 == a11);
        vstd::seq_lib::lemma_concat_associative(a8, q8, t9);
        assert(a8 + t8 == a11);
        vstd::seq_lib::lemma_concat_associative(a7, q7, t8);
        assert(a7 + t7 == a11);
        vstd::seq_lib::lemma_concat_associative(a6, q6, t7);
        assert(a6 + t6 == a11);
        vstd::seq_lib::lemma_concat_associative(a5, q5, t6);
        assert(a5 + t5 == a11);
        vstd::seq_lib::lemma_concat_associative(a4, q4, t5);
        assert(a4 + t4 == a11);
        vstd::seq_lib::lemma_concat_associative(a3, q3, t4);
        assert(a3 + t3 == a11);
        vstd::seq_lib::lemma_concat_associative(a2, q2, t3);
        assert(a2 + t2 == a11);
        vstd::seq_lib::lemma_concat_associative(a1, q1, t2);
        assert(a1 + t1 == a11);
        vstd::seq_lib::lemma_concat_associative(a0, q0, t1);
        assert(a0 + t0 == a11);
        assert(out@ == a0 + enc_enrollment(*x));
    }
}

fn parse_enrollment_exec(v: &Vec<char>, i: usize) -> (r: Option<(Enrollment, usize)>)
    requires
        i <= v@.len(),
    ensures
        r is None <==> parse_enrollment_at(v@, i as int) is None,
        r matches Some((x, j)) ==> parse_enrollment_at(v@, i as int) == Some((x@, j as int)) && i
            < j <= v@.len(),
{
    proof {
        reveal(parse_enrollment_at);
        reveal_strlit("{\"enrollment_type\":");
        reveal_strlit(",\"computed_current_score_tenths\":");
        reveal_strlit(",\"computed_current_grade\":");
        reveal_strlit(",\"computed_final_score_tenths\":");
        reveal_strlit(",\"computed_final_grade\":");
        reveal_strlit("}");
    }
    let j0 = match expect_lit(v, i, "{\"enrollment_type\":") {
        Some(j) => j,
        None => {
            return None;
        },
    };
    let (f_enrollment_type, j1) = match parse_opt_string_exec(v, j0) {
        Some(p) => p,
        None => {
            return None;
        },
    };
    let j2 = match expect_lit(v, j1, ",\"computed_current_score_tenths\":") {
        Some(j) => j,
        None => {
            return None;
        },
    };
    let (f_computed_current_score_tenths, j3) = match parse_opt_u64_exec(v, j2) {
        Some(p) => p,
        None => {
            return None;
        },
    };
    let j4 = match expect_lit(v, j3, ",\"computed_current_grade\":") {
        Some(j) => j,
        None => {
            return None;
        },
    };
    let (f_computed_current_grade, j5) = match parse_opt_string_exec(v, j4) {
        Some(p) => p,
        None => {
            return None;
        },
    };
    let j6 = match expect_lit(v, j5, ",\"computed_final_score_tenths\":") {
        Some(j) => j,
        None => {
            return None;
        },
    };
    let (f_computed_final_score_tenths, j7) = match parse_opt_u64_exec(v, j6) {
        Some(p) => p,
        None => {
            return None;
        },
    };
    let j8 = match expect_lit(v, j7, ",\"computed_final_grade\":") {
        Some(j) => j,
        None => {
            return None;
        },
    };
    let (f_computed_final_grade, j9) = match parse_opt_string_exec(v, j8) {
        Some(p) => p,
        None => {
            return None;
        },
    };
    let j10 = match expect_lit(v, j9, "}") {
        Some(j) => j,
        None => {
            return None;
        },
    };
    let x = Enrollment {
        enrollment_type: f_enrollment_type,
        computed_current_score_tenths: f_computed_current_score_tenths,
        computed_current_grade: f_computed_current_grade,
        computed_final_score_tenths: f_computed_final_score_tenths,
        computed_final_grade: f_computed_final_grade,
    };
    proof {
        assert(parse_enrollment_at(v@, i as int) == Some((x@, j10 as int)));
    }
    Some((x, j10))
}

#[verifier::rlimit(100)]
#[verifier::spinoff_prover]
fn enc_course_write(x: &Course, out: &mut String)
    ensures
        final(out)@ == old(out)@ + enc_course(*x),
{
    let ghost a0 = out@;
    out.append("{\"id\":");
    let ghost a1 = out@;
    append_u64(out, x.id);
    let ghost a2 = out@;
    out.append(",\"name\":");
    let ghost a3 = out@;
    append_opt_string(out, &x.name);
    let ghost a4 = out@;
    out.append(",\"course_code\":");
    let ghost a5 = out@;
    append_opt_string(out, &x.course_code);
    let ghost a6 = out@;
    out.append(",\"enrollments\":");
    let ghost a7 = out@;
    enc_opt_enrollment_vec_write(&x.enrollments, out);
    let ghost a8 = out@;
    out.append(",\"total_students\":");
    let ghost a9 = out@;
    append_opt_u64(out, x.total_students);
    let ghost a10 = out@;
    out.append("}");
    let ghost a11 = out@;
    proof {
        reveal(enc_course);
        let q0 = "{\"id\":"@;
        let q1 = dec_digits(x.id as nat);
        let q2 = ",\"name\":"@;
        let q3 = enc_opt_string(x.name);
        let q4 = ",\"course_code\":"@;
        let q5 = enc_opt_string(x.course_code);
        let q6 = ",\"enrollments\":"@;
        let q7 = enc_opt_enrollment_vec(x.enrollments);
        let q8 = ",\"total_students\":"@;
        let q9 = enc_opt_u64(x.total_students);
        let q10 = "}"@;
        let t10 = q10;
        let t9 = q9 + t10;
        let t8 = q8 + t9;
        let t7 = q7 + t8;
        let t6 = q6 + t7;
        let t5 = q5 + t6;
        let t4 = q4 + t5;
        let t3 = q3 + t4;
        let t2 = q2 + t3;
        let t1 = q1 + t2;
        let t0 = q0 + t1;
        assert(a11 == a10 + t10);
        vstd::seq_lib::lemma_concat_associative(a9, q9, t10);
        assert(a9 + t9 == a11);
        vstd::seq_lib::lemma_concat_associative(a8, q8, t9);
        assert(a8 + t8 == a11);
        vstd::seq_lib::lemma_concat_associative(a7, q7, t8);
        assert(a7 + t7 == a11);
        vstd::seq_lib::lemma_concat_associative(a6, q6, t7);
        assert(a6 + t6 == a11);
        vstd::seq_lib::lemma_concat_associative(a5, q5, t6);
        assert(a5 + t5 == a11);
        vstd::seq_lib::lemma_concat_associative(a4, q4, t5);
        assert(a4 + t4 == a11);
        vstd::seq_lib::lemma_concat_associative(a3, q3, t4);
        assert(a3 + t3 == a11);
        vstd::seq_lib::lemma_concat_associative(a2, q2, t3);
        assert(a2 + t2 == a11);
        vstd::seq_lib::lemma_concat_associative(a1, q1, t2);
        assert(a1 + t1 == a11);
        vstd::seq_lib::lemma_concat_associative(a0, q0, t1);
        assert(a0 + t0 == a11);
        assert(out@ == a0 + enc_course(*x));
    }
}

fn parse_course_exec(v: &Vec<char>, i: usize) -> (r: Option<(Course, usize)>)
    requires
        i <= v@.len(),
    ensures
        r is None <==> parse_course_at(v@, i as int) is None,
        r matches Some((x, j)) ==> parse_course_at(v@, i as int) == Some((x@, j as int)) && i
            < j <= v@.len(),
{
    proof {
        reveal(parse_course_at);
        reveal_strlit("{\"id\":");
        reveal_strlit(",\"name\":");
        reveal_strlit(",\"course_code\":");
        reveal_strlit(",\"enrollments\":");
        reveal_strlit(",\"total_students\":");
        reveal_strlit("}");
    }
    let j0 = match expect_lit(v, i, "{\"id\":") {
        Some(j) => j,
        None => {
            return None;
        },
    };
    let (f_id, j1) = match parse_u64_exec(v, j0) {
        Some(p) => p,
        None => {
            return None;
        },
    };
    let j2 = match expect_lit(v, j1, ",\"name\":") {
        Some(j) => j,
        None => {
            return None;
        },
    };
    let (f_name, j3) = match parse_opt_string_exec(v, j2) {
        Some(p) => p,
        None => {
            return None;
        },
    };
    let j4 = match expect_lit(v, j3, ",\"course_code\":") {
        Some(j) => j,
        None => {
            return None;
        },
    };
    let (f_course_code, j5) = match parse_opt_string_exec(v, j4) {
        Some(p) => p,
        None => {
            return None;
        },
    };
    let j6 = match expect_lit(v, j5, ",\"enrollments\":") {
        Some(j) => j,
        None => {
            return None;
        },
    };
    let (f_enrollments, j7) = match parse_opt_enrollment_vec_exec(v, j6) {
        Some(p) => p,
        None => {
            return None;
        },
    };
    let j8 = match expect_lit(v, j7, ",\"total_students\":") {
        Some(j) => j,
        None => {
            return None;
        },
    };
    let (f_total_students, j9) = match parse_opt_u64_exec(v, j8) {
        Some(p) => p,
        None => {
            return None;
        },
    };
    let j10 = match expect_lit(v, j9, "}") {
        Some(j) => j,
        None => {
            return None;
        },
    };
    let x = Course {
        id: f_id,
        name: f_name,
        course_code: f_course_code,
        enrollments: f_enrollments,
        total_students: f_total_students,
    };
    proof {
        assert(parse_course_at(v@, i as int) == Some((x@, j10 as int)));
    }
    Some((x, j10))
}

#[verifier::rlimit(100)]
#[verifier::spinoff_prover]
fn enc_submission_write(x: &Submission, out: &mut String)
    ensures
        final(out)@ == old(out)@ + enc_submission(*x),
{
    let ghost a0 = out@;
    out.append("{\"id\":");
    let ghost a1 = out@;
    append_opt_u64(out, x.id);
    let ghost a2 = out@;
    out.append(",\"assignment_id\":");
    let ghost a3 = out@;
    append_opt_u64(out, x.assignment_id);
    let ghost a4 = out@;
    out.append(",\"score_tenths\":");
    let ghost a5 = out@;
    append_opt_u64(out, x.score_tenths);
    let ghost a6 = out@;
    out.append(",\"grade\":");
    let ghost a7 = out@;
    append_opt_string(out, &x.grade);
    let ghost a8 = out@;
    out.append(",\"submitted_at\":");
    let ghost a9 = out@;
    append_opt_i64(out, x.submitted_at);
    let ghost a10 = out@;
    out.append(",\"graded_at\":");
    let ghost a11 = out@;
    append_opt_i64(out, x.graded_at);
    let ghost a12 = out@;
    out.append(",\"workflow_state\":");
    let ghost a13 = out@;
    append_state(out, x.workflow_state);
    let ghost a14 = out@;
    out.append(",\"late\":");
    let ghost a15 = out@;
    append_opt_bool(out, x.late);
    let ghost a16 = out@;
    out.append(",\"missing\":");
    let ghost a17 = out@;
    append_opt_bool(out, x.missing);
    let ghost a18 = out@;
    out.append(",\"attempt\":");
    let ghost a19 = out@;
    append_opt_u64(out, x.attempt);
    let ghost a20 = out@;
    out.append("}");
    let ghost a21 = out@;
    proof {
        reveal(enc_submission);
        let q0 = "{\"id\":"@;
        let q1 = enc_opt_u64(x.id);
        let q2 = ",\"assignment_id\":"@;
        let q3 = enc_opt_u64(x.assignment_id);
        let q4 = ",\"score_tenths\":"@;
        let q5 = enc_opt_u64(x.score_tenths);
        let q6 = ",\"grade\":"@;
        let q7 = enc_opt_string(x.grade);
        let q8 = ",\"submitted_at\":"@;
        let q9 = enc_opt_i64(x.submitted_at);
        let q10 = ",\"graded_at\":"@;
        let q11 = enc_opt_i64(x.graded_at);
        let q12 = ",\"workflow_state\":"@;
        let q13 = enc_state(x.workflow_state);
        let q14 = ",\"late\":"@;
        let q15 = enc_opt_bool(x.late);
        let q16 = ",\"missing\":"@;
        let q17 = enc_opt_bool(x.missing);
        let q18 = ",\"attempt\":"@;
        let q19 = enc_opt_u64(x.attempt);
        let q20 = "}"@;
        let t20 = q20;
        let t19 = q19 + t20;
        let t18 = q18 + t19;
        let t17 = q17 + t18;
        let t16 = q16 + t17;
        let t15 = q15 + t16;
        let t14 = q14 + t15;
        let t13 = q13 + t14;
        let t12 = q12 + t13;
        let t11 = q11 + t12;
        let t10 = q10 + t11;
        let t9 = q9 + t10;
        let t8 = q8 + t9;
        let t7 = q7 + t8;
        let t6 = q6 + t7;
        let t5 = q5 + t6;
        let t4 = q4 + t5;
        let t3 = q3 + t4;
        let t2 = q2 + t3;
        let t1 = q1 + t2;
        let t0 = q0 + t1;
        assert(a21 == a20 + t20);
        vstd::seq_lib::lemma_concat_associative(a19, q19, t20);
        assert(a19 + t19 == a21);
        vstd::seq_lib::lemma_concat_associative(a18, q18, t19);
        assert(a18 + t18 == a21);
        vstd::seq_lib::lemma_concat_associative(a17, q17, t18);
        assert(a17 + t17 == a21);
        vstd::seq_lib::lemma_concat_associative(a16, q16, t17);
        assert(a16 + t16 == a21);
        vstd::seq_lib::lemma_concat_associative(a15, q15, t16);
        assert(a15 + t15 == a21);
        vstd::seq_lib::lemma_concat_associative(a14, q14, t15);
        assert(a14 + t14 == a21);
        vstd::seq_lib::lemma_concat_associative(a13, q13, t14);
        assert(a13 + t13 == a21);
        vstd::seq_lib::lemma_concat_associative(a12, q12, t13);
        assert(a12 + t12 == a21);
        vstd::seq_lib::lemma_concat_associative(a11, q11, t12);
        assert(a11 + t11 == a21);
        vstd::seq_lib::lemma_concat_associative(a10, q10, t11);
        assert(a10 + t10 == a21);
        vstd::seq_lib::lemma_concat_associative(a9, q9, t10);
        assert(a9 + t9 == a21);
        vstd::seq_lib::lemma_concat_associative(a8, q8, t9);
        assert(a8 + t8 == a21);
        vstd::seq_lib::lemma_concat_associative(a7, q7, t8);
        assert(a7 + t7 == a21);
        vstd::seq_lib::lemma_concat_associative(a6, q6, t7);
        assert(a6 + t6 == a21);
        vstd::seq_lib::lemma_concat_associative(a5, q5, t6);
        assert(a5 + t5 == a21);
        vstd::seq_lib::lemma_concat_associative(a4, q4, t5);
        assert(a4 + t4 == a21);
        vstd::seq_lib::lemma_concat_associative(a3, q3, t4);
        assert(a3 + t3 == a21);
        vstd::seq_lib::lemma_concat_associative(a2, q2, t3);
        assert(a2 + t2 == a21);
        vstd::seq_lib::lemma_concat_associative(a1, q1, t2);
        assert(a1 + t1 == a21);
        vstd::seq_lib::lemma_concat_associative(a0, q0, t1);
        assert(a0 + t0 == a21);
        assert(out@ == a0 + enc_submission(*x));
    }
}

fn parse_submission_exec(v: &Vec<char>, i: usize) -> (r: Option<(Submission, usize)>)
    requires
        i <= v@.len(),
    ensures
        r is None <==> parse_submission_at(v@, i as int) is None,
        r matches Some((x, j)) ==> parse_submission_at(v@, i as int) == Some((x@, j as int)) && i
            < j <= v@.len(),
{
    proof {
        reveal(parse_submission_at);
        reveal_strlit("{\"id\":");
        reveal_strlit(",\"assignment_id\":");
        reveal_strlit(",\"score_tenths\":");
        reveal_strlit(",\"grade\":");
        reveal_strlit(",\"submitted_at\":");
        reveal_strlit(",\"graded_at\":");
        reveal_strlit(",\"workflow_state\":");
        reveal_strlit(",\"late\":");
        reveal_strlit(",\"missing\":");
        reveal_strlit(",\"attempt\":");
        reveal_strlit("}");
    }
    let j0 = match expect_lit(v, i, "{\"id\":") {
        Some(j) => j,
        None => {
            return None;
        },
    };
    let (f_id, j1) = match parse_opt_u64_exec(v, j0) {
        Some(p) => p,
        None => {
            return None;
        },
    };
    let j2 = match expect_lit(v, j1, ",\"assignment_id\":") {
        Some(j) => j,
        None => {
            return None;
        },
    };
    let (f_assignment_id, j3) = match parse_opt_u64_exec(v, j2) {
        Some(p) => p,
        None => {
            return None;
        },
    };
    let j4 = match expect_lit(v, j3, ",\"score_tenths\":") {
        Some(j) => j,
        None => {
            return None;
        },
    };
    let (f_score_tenths, j5) = match parse_opt_u64_exec(v, j4) {
        Some(p) => p,
        None => {
            return None;
        },
    };
    let j6 = match expect_lit(v, j5, ",\"grade\":") {
        Some(j) => j,
        None => {
            return None;
        },
    };
    let (f_grade, j7) = match parse_opt_string_exec(v, j6) {
        Some(p) => p,
        None => {
            return None;
        },
    };
    let j8 = match expect_lit(v, j7, ",\"submitted_at\":") {
        Some(j) => j,
        None => {
            return None;
        },
    };
    let (f_submitted_at, j9) = match parse_opt_i64_exec(v, j8) {
        Some(p) => p,
        None => {
            return None;
        },
    };
    let j10 = match expect_lit(v, j9, ",\"graded_at\":") {
        Some(j) => j,
        None => {
            return None;
        },
    };
    let (f_graded_at, j11) = match parse_opt_i64_exec(v, j10) {
        Some(p) => p,
        None => {
            return None;
        },
    };
    let j12 = match expect_lit(v, j11, ",\"workflow_state\":") {
        Some(j) => j,
        None => {
            return None;
        },
    };
    let (f_workflow_state, j13) = match parse_state_exec(v, j12) {
        Some(p) => p,
        None => {
            return None;
        },
    };
    let j14 = match expect_lit(v, j13, ",\"late\":") {
        Some(j) => j,
        None => {
            return None;
        },
    };
    let (f_late, j15) = match parse_opt_bool_exec(v, j14) {
        Some(p) => p,
        None => {
            return None;
        },
    };
    let j16 = match expect_lit(v, j15, ",\"missing\":") {
        Some(j) => j,
        None => {
            return None;
        },
    };
    let (f_missing, j17) = match parse_opt_bool_exec(v, j16) {
        Some(p) => p,
        None => {
            return None;
        },
    };
    let j18 = match expect_lit(v, j17, ",\"attempt\":") {
        Some(j) => j,
        None => {
            return None;
        },
    };
    let (f_attempt, j19) = match parse_opt_u64_exec(v, j18) {
        Some(p) => p,
        None => {
            return None;
        },
    };
    let j20 = match expect_lit(v, j19, "}") {
        Some(j) => j,
        None => {
            return None;
        },
    };
    let x = Submission {
        id: f_id,
        assignment_id: f_assignment_id,
        score_tenths: f_score_tenths,
        grade: f_grade,
        submitted_at: f_submitted_at,
        graded_at: f_graded_at,
        workflow_state: f_workflow_state,
        late: f_late,
        missing: f_missing,
        attempt: f_attempt,
    };
    proof {
        assert(parse_submission_at(v@, i as int) == Some((x@, j20 as int)));
    }
    Some((x, j20))
}

#[verifier::rlimit(100)]
#[verifier::spinoff_prover]
fn enc_assignment_write(x: &Assignment, out: &mut String)
    ensures
        final(out)@ == old(out)@ + enc_assignment(*x),
{
    let ghost a0 = out@;
    out.append("{\"id\":");
    let ghost a1 = out@;
    append_u64(out, x.id);
    let ghost a2 = out@;
    out.append(",\"name\":");
    let ghost a3 = out@;
    append_opt_string(out, &x.name);
    let ghost a4 = out@;
    out.append(",\"due_at\":");
    let ghost a5 = out@;
    append_opt_i64(out, x.due_at);
    let ghost a6 = out@;
    out.append(",\"lock_at\":");
    let ghost a7 = out@;
    append_opt_i64(out, x.lock_at);
    let ghost a8 = out@;
    out.append(",\"unlock_at\":");
    let ghost a9 = out@;
    append_opt_i64(out, x.unlock_at);
    let ghost a10 = out@;
    out.append(",\"points_possible_tenths\":");
    let ghost a11 = out@;
    append_opt_u64(out, x.points_possible_tenths);
    let ghost a12 = out@;
    out.append(",\"course_id\":");
    let ghost a13 = out@;
    append_opt_u64(out, x.course_id);
    let ghost a14 = out@;
    out.append(",\"submission_types\":");
    let ghost a15 = out@;
    enc_opt_string_vec_write(&x.submission_types, out);
    let ghost a16 = out@;
    out.append(",\"submission\":");
    let ghost a17 = out@;
    enc_opt_submission_write(&x.submission, out);
    let ghost a18 = out@;
    out.append("}");
    let ghost a19 = out@;
    proof {
        reveal(enc_assignment);
        let q0 = "{\"id\":"@;
        let q1 = dec_digits(x.id as nat);
        let q2 = ",\"name\":"@;
        let q3 = enc_opt_string(x.name);
        let q4 = ",\"due_at\":"@;
        let q5 = enc_opt_i64(x.due_at);
        let q6 = ",\"lock_at\":"@;
        let q7 = enc_opt_i64(x.lock_at);
        let q8 = ",\"unlock_at\":"@;
        let q9 = enc_opt_i64(x.unlock_at);
        let q10 = ",\"points_possible_tenths\":"@;
        let q11 = enc_opt_u64(x.points_possible_tenths);
        let q12 = ",\"course_id\":"@;
        let q13 = enc_opt_u64(x.course_id);
        let q14 = ",\"submission_types\":"@;
        let q15 = enc_opt_string_vec(x.submission_types);
        let q16 = ",\"submission\":"@;
        let q17 = enc_opt_submission(x.submission);
        let q18 = "}"@;
        let t18 = q18;
        let t17 = q17 + t18;
        let t16 = q16 + t17;
        let t15 = q15 + t16;
        let t14 = q14 + t15;
        let t13 = q13 + t14;
        let t12 = q12 + t13;
        let t11 = q11 + t12;
        let t10 = q10 + t11;
        let t9 = q9 + t10;
        let t8 = q8 + t9;
        let t7 = q7 + t8;
        let t6 = q6 + t7;
        let t5 = q5 + t6;
        let t4 = q4 + t5;
        let t3 = q3 + t4;
        let t2 = q2 + t3;
        let t1 = q1 + t2;
        let t0 = q0 + t1;
        assert(a19 == a18 + t18);
        vstd::seq_lib::lemma_concat_associative(a17, q17, t18);
        assert(a17 + t17 == a19);
        vstd::seq_lib::lemma_concat_associative(a16, q16, t17);
        assert(a16 + t16 == a19);
        vstd::seq_lib::lemma_concat_associative(a15, q15, t16);
        assert(a15 + t15 == a19);
        vstd::seq_lib::lemma_concat_associative(a14, q14, t15);
        assert(a14 + t14 == a19);
        vstd::seq_lib::lemma_concat_associative(a13, q13, t14);
        assert(a13 + t13 == a19);
        vstd::seq_lib::lemma_concat_associative(a12, q12, t13);
        assert(a12 + t12 == a19);
        vstd::seq_lib::lemma_concat_associative(a11, q11, t12);
        assert(a11 + t11 == a19);
        vstd::seq_lib::lemma_concat_associative(a10, q10, t11);
        assert(a10 + t10 == a19);
        vstd::seq_lib::lemma_concat_associative(a9, q9, t10);
        assert(a9 + t9 == a19);
        vstd::seq_lib::lemma_concat_associative(a8, q8, t9);
        assert(a8 + t8 == a19);
        vstd::seq_lib::lemma_concat_associative(a7, q7, t8);
        assert(a7 + t7 == a19);
        vstd::seq_lib::lemma_concat_associative(a6, q6, t7);
        assert(a6 + t6 == a19);
        vstd::seq_lib::lemma_concat_associative(a5, q5, t6);
        assert(a5 + t5 == a19);
        vstd::seq_lib::lemma_concat_associative(a4, q4, t5);
        assert(a4 + t4 == a19);
        vstd::seq_lib::lemma_concat_associative(a3, q3, t4);
        assert(a3 + t3 == a19);
        vstd::seq_lib::lemma_concat_associative(a2, q2, t3);
        assert(a2 + t2 == a19);
        vstd::seq_lib::lemma_concat_associative(a1, q1, t2);
        assert(a1 + t1 == a19);
        vstd::seq_lib::lemma_concat_associative(a0, q0, t1);
        assert(a0 + t0 == a19);
        assert(out@ == a0 + enc_assignment(*x));
    }
}

fn parse_assignment_exec(v: &Vec<char>, i: usize) -> (r: Option<(Assignment, usize)>)
    requires
        i <= v@.len(),
    ensures
        r is None <==> parse_assignment_at(v@, i as int) is None,
        r matches Some((x, j)) ==> parse_assignment_at(v@, i as int) == Some((x@, j as int)) && i
            < j <= v@.len(),
{
    proof {
        reveal(parse_assignment_at);
        reveal_strlit("{\"id\":");
        reveal_strlit(",\"name\":");
        reveal_strlit(",\"due_at\":");
        reveal_strlit(",\"lock_at\":");
        reveal_strlit(",\"unlock_at\":");
        reveal_strlit(",\"points_possible_tenths\":");
        reveal_strlit(",\"course_id\":");
        reveal_strlit(",\"submission_types\":");
        reveal_strlit(",\"submission\":");
        reveal_strlit("}");
    }
    let j0 = match expect_lit(v, i, "{\"id\":") {
        Some(j) => j,
        None => {
            return None;
        },
    };
    let (f_id, j1) = match parse_u64_exec(v, j0) {
        Some(p) => p,
        None => {
            return None;
        },
    };
    let j2 = match expect_lit(v, j1, ",\"name\":") {
        Some(j) => j,
        None => {
            return None;
        },
    };
    let (f_name, j3) = match parse_opt_string_exec(v, j2) {
        Some(p) => p,
        None => {
            return None;
        },
    };
    let j4 = match expect_lit(v, j3, ",\"due_at\":") {
        Some(j) => j,
        None => {
            return None;
        },
    };
    let (f_due_at, j5) = match parse_opt_i64_exec(v, j4) {
        Some(p) => p,
        None => {
            return None;
        },
    };
    let j6 = match expect_lit(v, j5, ",\"lock_at\":") {
        Some(j) => j,
        None => {
            return None;
        },
    };
    let (f_lock_at, j7) = match parse_opt_i64_exec(v, j6) {
        Some(p) => p,
        None => {
            return None;
        },
    };
    let j8 = match expect_lit(v, j7, ",\"unlock_at\":") {
        Some(j) => j,
        None => {
            return None;
        },
    };
    let (f_unlock_at, j9) = match parse_opt_i64_exec(v, j8) {
        Some(p) => p,
        None => {
            return None;
        },
    };
    let j10 = match expect_lit(v, j9, ",\"points_possible_tenths\":") {
        Some(j) => j,
        None => {
            return None;
        },
    };
    let (f_points_possible_tenths, j11) = match parse_opt_u64_exec(v, j10) {
        Some(p) => p,
        None => {
            return None;
        },
    };
    let j12 = match expect_lit(v, j11, ",\"course_id\":") {
        Some(j) => j,
        None => {
            return None;
        },
    };
    let (f_course_id, j13) = match parse_opt_u64_exec(v, j12) {
        Some(p) => p,
        None => {
            return None;
        },
    };
    let j14 = match expect_lit(v, j13, ",\"submission_types\":") {
        Some(j) => j,
        None => {
            return None;
        },
    };
    let (f_submission_types, j15) = match parse_opt_string_vec_exec(v, j14) {
        Some(p) => p,
        None => {
            return None;
        },
    };
    let j16 = match expect_lit(v, j15, ",\"submission\":") {
        Some(j) => j,
        None => {
            return None;
        },
    };
    let (f_submission, j17) = match parse_opt_submission_exec(v, j16) {
        Some(p) => p,
        None => {
            return None;
        },
    };
    let j18 = match expect_lit(v, j17, "}") {
        Some(j) => j,
        None => {
            return None;
        },
    };
    let x = Assignment {
        id: f_id,
        name: f_name,
        due_at: f_due_at,
        lock_at: f_lock_at,
        unlock_at: f_unlock_at,
        points_possible_tenths: f_points_possible_tenths,
        course_id: f_course_id,
        submission_types: f_submission_types,
        submission: f_submission,
    };
    proof {
        assert(parse_assignment_at(v@, i as int) == Some((x@, j18 as int)));
    }
    Some((x, j18))
}

#[verifier::rlimit(100)]
#[verifier::spinoff_prover]
fn enc_assignment_event_detail_write(x: &AssignmentEventDetail, out: &mut String)
    ensures
        final(out)@ == old(out)@ + enc_assignment_event_detail(*x),
{
    let ghost a0 = out@;
    out.append("{\"id\":");
    let ghost a1 = out@;
    append_opt_u64(out, x.id);
    let ghost a2 = out@;
    out.append(",\"name\":");
    let ghost a3 = out@;
    append_opt_string(out, &x.name);
    let ghost a4 = out@;
    out.append(",\"due_at\":");
    let ghost a5 = out@;
    append_opt_i64(out, x.due_at);
    let ghost a6 = out@;
    out.append(",\"points_possible_tenths\":");
    let ghost a7 = out@;
    append_opt_u64(out, x.points_possible_tenths);
    let ghost a8 = out@;
    out.append("}");
    let ghost a9 = out@;
    proof {
        reveal(enc_assignment_event_detail);
        let q0 = "{\"id\":"@;
        let q1 = enc_opt_u64(x.id);
        let q2 = ",\"name\":"@;
        let q3 = enc_opt_string(x.name);
        let q4 = ",\"due_at\":"@;
        let q5 = enc_opt_i64(x.due_at);
        let q6 = ",\"points_possible_tenths\":"@;
        let q7 = enc_opt_u64(x.points_possible_tenths);
        let q8 = "}"@;
        let t8 = q8;
        let t7 = q7 + t8;
        let t6 = q6 + t7;
        let t5 = q5 + t6;
        let t4 = q4 + t5;
        let t3 = q3 + t4;
        let t2 = q2 + t3;
        let t1 = q1 + t2;
        let t0 = q0 + t1;
        assert(a9 == a8 + t8);
        vstd::seq_lib::lemma_concat_associative(a7, q7, t8);
        assert(a7 + t7 == a9);
        vstd::seq_lib::lemma_concat_associative(a6, q6, t7);
        assert(a6 + t6 == a9);
        vstd::seq_lib::lemma_concat_associative(a5, q5, t6);
        assert(a5 + t5 == a9);
        vstd::seq_lib::lemma_concat_associative(a4, q4, t5);
        assert(a4 + t4 == a9);
        vstd::seq_lib::lemma_concat_associative(a3, q3, t4);
        assert(a3 + t3 == a9);
        vstd::seq_lib::lemma_concat_associative(a2, q2, t3);
        assert(a2 + t2 == a9);
        vstd::seq_lib::lemma_concat_associative(a1, q1, t2);
        assert(a1 + t1 == a9);
        vstd::seq_lib::lemma_concat_associative(a0, q0, t1);
        assert(a0 + t0 == a9);
        assert(out@ == a0 + enc_assignment_event_detail(*x));
    }
}

fn parse_assignment_event_detail_exec(v: &Vec<char>, i: usize) -> (r: Option<(AssignmentEventDetail, usize)>)
    requires
        i <= v@.len(),
    ensures
        r is None <==> parse_assignment_event_detail_at(v@, i as int) is None,
        r matches Some((x, j)) ==> parse_assignment_event_detail_at(v@, i as int) == Some((x@, j as int)) && i
            < j <= v@.len(),
{
    proof {
        reveal(parse_assignment_event_detail_at);
        reveal_strlit("{\"id\":");
        reveal_strlit(",\"name\":");
        reveal_strlit(",\"due_at\":");
        reveal_strlit(",\"points_possible_tenths\":");
        reveal_strlit("}");
    }
    let j0 = match expect_lit(v, i, "{\"id\":") {
        Some(j) => j,
        None => {
            return None;
        },
    };
    let (f_id, j1) = match parse_opt_u64_exec(v, j0) {
        Some(p) => p,
        None => {
            return None;
        },
    };
    let j2 = match expect_lit(v, j1, ",\"name\":") {
        Some(j) => j,
        None => {
            return None;
        },
    };
    let (f_name, j3) = match parse_opt_string_exec(v, j2) {
        Some(p) => p,
        None => {
            return None;
        },
    };
    let j4 = match expect_lit(v, j3, ",\"due_at\":") {
        Some(j) => j,
        None => {
            return None;
        },
    };
    let (f_due_at, j5) = match parse_opt_i64_exec(v, j4) {
        Some(p) => p,
        None => {
            return None;
        },
    };
    let j6 = match expect_lit(v, j5, ",\"points_possible_tenths\":") {
        Some(j) => j,
        None => {
            return None;
        },
    };
    let (f_points_possible_tenths, j7) = match parse_opt_u64_exec(v, j6) {
        Some(p) => p,
        None => {
            return None;
        },
    };
    let j8 = match expect_lit(v, j7, "}") {
        Some(j) => j,
        None => {
            return None;
        },
    };
    let x = AssignmentEventDetail {
        id: f_id,
        name: f_name,
        due_at: f_due_at,
        points_possible_tenths: f_points_possible_tenths,
    };
    proof {
        assert(parse_assignment_event_detail_at(v@, i as int) == Some((x@, j8 as int)));
    }
    Some((x, j8))
}

#[verifier::rlimit(100)]
#[verifier::spinoff_prover]
fn enc_calendar_event_write(x: &CalendarEvent, out: &mut String)
    ensures
        final(out)@ == old(out)@ + enc_calendar_event(*x),
{
    let ghost a0 = out@;
    out.append("{\"id\":");
    let ghost a1 = out@;
    append_u64(out, x.id);
    let ghost a2 = out@;
    out.append(",\"title\":");
    let ghost a3 = out@;
    append_opt_string(out, &x.title);
    let ghost a4 = out@;
    out.append(",\"start_at\":");
    let ghost a5 = out@;
    append_opt_i64(out, x.start_at);
    let ghost a6 = out@;
    out.append(",\"end_at\":");
    let ghost a7 = out@;
    append_opt_i64(out, x.end_at);
    let ghost a8 = out@;
    out.append(",\"context_code\":");
    let ghost a9 = out@;
    append_opt_string(out, &x.context_code);
    let ghost a10 = out@;
    out.append(",\"event_type\":");
    let ghost a11 = out@;
    append_opt_string(out, &x.event_type);
    let ghost a12 = out@;
    out.append(",\"assignment\":");
    let ghost a13 = out@;
    enc_opt_assignment_event_detail_write(&x.assignment, out);
    let ghost a14 = out@;
    out.append("}");
    let ghost a15 = out@;
    proof {
        reveal(enc_calendar_event);
        let q0 = "{\"id\":"@;
        let q1 = dec_digits(x.id as nat);
        let q2 = ",\"title\":"@;
        let q3 = enc_opt_string(x.title);
        let q4 = ",\"start_at\":"@;
        let q5 = enc_opt_i64(x.start_at);
        let q6 = ",\"end_at\":"@;
        let q7 = enc_opt_i64(x.end_at);
        let q8 = ",\"context_code\":"@;
        let q9 = enc_opt_string(x.context_code);
        let q10 = ",\"event_type\":"@;
        let q11 = enc_opt_string(x.event_type);
        let q12 = ",\"assignment\":"@;
        let q13 = enc_opt_assignment_event_detail(x.assignment);
        let q14 = "}"@;
        let t14 = q14;
        let t13 = q13 + t14;
        let t12 = q12 + t13;
        let t11 = q11 + t12;
        let t10 = q10 + t11;
        let t9 = q9 + t10;
        let t8 = q8 + t9;
        let t7 = q7 + t8;
        let t6 = q6 + t7;
        let t5 = q5 + t6;
        let t4 = q4 + t5;
        let t3 = q3 + t4;
        let t2 = q2 + t3;
        let t1 = q1 + t2;
        let t0 = q0 + t1;
        assert(a15 == a14 + t14);
        vstd::seq_lib::lemma_concat_associative(a13, q13, t14);
        assert(a13 + t13 == a15);
        vstd::seq_lib::lemma_concat_associative(a12, q12, t13);
        assert(a12 + t12 == a15);
        vstd::seq_lib::lemma_concat_associative(a11, q11, t12);
        assert(a11 + t11 == a15);
        vstd::seq_lib::lemma_concat_associative(a10, q10, t11);
        assert(a10 + t10 == a15);
        vstd::seq_lib::lemma_concat_associative(a9, q9, t10);
        assert(a9 + t9 == a15);
        vstd::seq_lib::lemma_concat_associative(a8, q8, t9);
        assert(a8 + t8 == a15);
        vstd::seq_lib::lemma_concat_associative(a7, q7, t8);
        assert(a7 + t7 == a15);
        vstd::seq_lib::lemma_concat_associative(a6, q6, t7);
        assert(a6 + t6 == a15);
        vstd::seq_lib::lemma_concat_associative(a5, q5, t6);
        assert(a5 + t5 == a15);
        vstd::seq_lib::lemma_concat_associative(a4, q4, t5);
        assert(a4 + t4 == a15);
        vstd::seq_lib::lemma_concat_associative(a3, q3, t4);
        assert(a3 + t3 == a15);
        vstd::seq_lib::lemma_concat_associative(a2, q2, t3);
        assert(a2 + t2 == a15);
        vstd::seq_lib::lemma_concat_associative(a1, q1, t2);
        assert(a1 + t1 == a15);
        vstd::seq_lib::lemma_concat_associative(a0, q0, t1);
        assert(a0 + t0 == a15);
        assert(out@ == a0 + enc_calendar_event(*x));
    }
}

fn parse_calendar_event_exec(v: &Vec<char>, i: usize) -> (r: Option<(CalendarEvent, usize)>)
    requires
        i <= v@.len(),
    ensures
        r is None <==> parse_calendar_event_at(v@, i as int) is None,
        r matches Some((x, j)) ==> parse_calendar_event_at(v@, i as int) == Some((x@, j as int)) && i
            < j <= v@.len(),
{
    proof {
        reveal(parse_calendar_event_at);
        reveal_strlit("{\"id\":");
        reveal_strlit(",\"title\":");
        reveal_strlit(",\"start_at\":");
        reveal_strlit(",\"end_at\":");
        reveal_strlit(",\"context_code\":");
        reveal_strlit(",\"event_type\":");
        reveal_strlit(",\"assignment\":");
        reveal_strlit("}");
    }
    let j0 = match expect_lit(v, i, "{\"id\":") {
        Some(j) => j,
        None => {
            return None;
        },
    };
    let (f_id, j1) = match parse_u64_exec(v, j0) {
        Some(p) => p,
        None => {
            return None;
        },
    };
    let j2 = match expect_lit(v, j1, ",\"title\":") {
        Some(j) => j,
        None => {
            return None;
        },
    };
    let (f_title, j3) = match parse_opt_string_exec(v, j2) {
        Some(p) => p,
        None => {
            return None;
        },
    };
    let j4 = match expect_lit(v, j3, ",\"start_at\":") {
        Some(j) => j,
        None => {
            return None;
        },
    };
    let (f_start_at, j5) = match parse_opt_i64_exec(v, j4) {
        Some(p) => p,
        None => {
            return None;
        },
    };
    let j6 = match expect_lit(v, j5, ",\"end_at\":") {
        Some(j) => j,
        None => {
            return None;
        },
    };
    let (f_end_at, j7) = match parse_opt_i64_exec(v, j6) {
        Some(p) => p,
        None => {
            return None;
        },
    };
    let j8 = match expect_lit(v, j7, ",\"context_code\":") {
        Some(j) => j,
        None => {
            return None;
        },
    };
    let (f_context_code, j9) = match parse_opt_string_exec(v, j8) {
        Some(p) => p,
        None => {
            return None;
        },
    };
    let j10 = match expect_lit(v, j9, ",\"event_type\":") {
        Some(j) => j,
        None => {
            return None;
        },
    };
    let (f_event_type, j11) = match parse_opt_string_exec(v, j10) {
        Some(p) => p,
        None => {
            return None;
        },
    };
    let j12 = match expect_lit(v, j11, ",\"assignment\":") {
        Some(j) => j,
        None => {
            return None;
        },
    };
    let (f_assignment, j13) = match parse_opt_assignment_event_detail_exec(v, j12) {
        Some(p) => p,
        None => {
            return None;
        },
    };
    let j14 = match expect_lit(v, j13, "}") {
        Some(j) => j,
        None => {
            return None;
        },
    };
    let x = CalendarEvent {
        id: f_id,
        title: f_title,
        start_at: f_start_at,
        end_at: f_end_at,
        context_code: f_context_code,
        event_type: f_event_type,
        assignment: f_assignment,
    };
    proof {
        assert(parse_calendar_event_at(v@, i as int) == Some((x@, j14 as int)));
    }
    Some((x, j14))
}

#[verifier::rlimit(100)]
#[verifier::spinoff_prover]
fn enc_discussion_topic_write(x: &DiscussionTopic, out: &mut String)
    ensures
        final(out)@ == old(out)@ + enc_discussion_topic(*x),
{
    let ghost a0 = out@;
    out.append("{\"id\":");
    let ghost a1 = out@;
    append_u64(out, x.id);
    let ghost a2 = out@;
    out.append(",\"title\":");
    let ghost a3 = out@;
    append_opt_string(out, &x.title);
    let ghost a4 = out@;
    out.append(",\"message\":");
    let ghost a5 = out@;
    append_opt_string(out, &x.message);
    let ghost a6 = out@;
    out.append(",\"posted_at\":");
    let ghost a7 = out@;
    append_opt_i64(out, x.posted_at);
    let ghost a8 = out@;
    out.append(",\"user_name\":");
    let ghost a9 = out@;
    append_opt_string(out, &x.user_name);
    let ghost a10 = out@;
    out.append(",\"context_code\":");
    let ghost a11 = out@;
    append_opt_string(out, &x.context_code);
    let ghost a12 = out@;
    out.append("}");
    let ghost a13 = out@;
    proof {
        reveal(enc_discussion_topic);
        let q0 = "{\"id\":"@;
        let q1 = dec_digits(x.id as nat);
        let q2 = ",\"title\":"@;
        let q3 = enc_opt_string(x.title);
        let q4 = ",\"message\":"@;
        let q5 = enc_opt_string(x.message);
        let q6 = ",\"posted_at\":"@;
        let q7 = enc_opt_i64(x.posted_at);
        let q8 = ",\"user_name\":"@;
        let q9 = enc_opt_string(x.user_name);
        let q10 = ",\"context_code\":"@;
        let q11 = enc_opt_string(x.context_code);
        let q12 = "}"@;
        let t12 = q12;
        let t11 = q11 + t12;
        let t10 = q10 + t11;
        let t9 = q9 + t10;
        let t8 = q8 + t9;
        let t7 = q7 + t8;
        let t6 = q6 + t7;
        let t5 = q5 + t6;
        let t4 = q4 + t5;
        let t3 = q3 + t4;
        let t2 = q2 + t3;
        let t1 = q1 + t2;
        let t0 = q0 + t1;
        assert(a13 == a12 + t12);
        vstd::seq_lib::lemma_concat_associative(a11, q11, t12);
        assert(a11 + t11 == a13);
        vstd::seq_lib::lemma_concat_associative(a10, q10, t11);
        assert(a10 + t10 == a13);
        vstd::seq_lib::lemma_concat_associative(a9, q9, t10);
        assert(a9 + t9 == a13);
        vstd::seq_lib::lemma_concat_associative(a8, q8, t9);
        assert(a8 + t8 == a13);
        vstd::seq_lib::lemma_concat_associative(a7, q7, t8);
        assert(a7 + t7 == a13);
        vstd::seq_lib::lemma_concat_associative(a6, q6, t7);
        assert(a6 + t6 == a13);
        vstd::seq_lib::lemma_concat_associative(a5, q5, t6);
        assert(a5 + t5 == a13);
        vstd::seq_lib::lemma_concat_associative(a4, q4, t5);
        assert(a4 + t4 == a13);
        vstd::seq_lib::lemma_concat_associative(a3, q3, t4);
        assert(a3 + t3 == a13);
        vstd::seq_lib::lemma_concat_associative(a2, q2, t3);
        assert(a2 + t2 == a13);
        vstd::seq_lib::lemma_concat_associative(a1, q1, t2);
        assert(a1 + t1 == a13);
        vstd::seq_lib::lemma_concat_associative(a0, q0, t1);
        assert(a0 + t0 == a13);
        assert(out@ == a0 + enc_discussion_topic(*x));
    }
}

fn parse_discussion_topic_exec(v: &Vec<char>, i: usize) -> (r: Option<(DiscussionTopic, usize)>)
    requires
        i <= v@.len(),
    ensures
        r is None <==> parse_discussion_topic_at(v@, i as int) is None,
        r matches Some((x, j)) ==> parse_discussion_topic_at(v@, i as int) == Some((x@, j as int)) && i
            < j <= v@.len(),
{
    proof {
        reveal(parse_discussion_topic_at);
        reveal_strlit("{\"id\":");
        reveal_strlit(",\"title\":");
        reveal_strlit(",\"message\":");
        reveal_strlit(",\"posted_at\":");
        reveal_strlit(",\"user_name\":");
        reveal_strlit(",\"context_code\":");
        reveal_strlit("}");
    }
    let j0 = match expect_lit(v, i, "{\"id\":") {
        Some(j) => j,
        None => {
            return None;
        },
    };
    let (f_id, j1) = match parse_u64_exec(v, j0) {
        Some(p) => p,
        None => {
            return None;
        },
    };
    let j2 = match expect_lit(v, j1, ",\"title\":") {
        Some(j) => j,
        None => {
            return None;
        },
    };
    let (f_title, j3) = match parse_opt_string_exec(v, j2) {
        Some(p) => p,
        None => {
            return None;
        },
    };
    let j4 = match expect_lit(v, j3, ",\"message\":") {
        Some(j) => j,
        None => {
            return None;
        },
    };
    let (f_message, j5) = match parse_opt_string_exec(v, j4) {
        Some(p) => p,
        None => {
            return None;
        },
    };
    let j6 = match expect_lit(v, j5, ",\"posted_at\":") {
        Some(j) => j,
        None => {
            return None;
        },
    };
    let (f_posted_at, j7) = match parse_opt_i64_exec(v, j6) {
        Some(p) => p,
        None => {
            return None;
        },
    };
    let j8 = match expect_lit(v, j7, ",\"user_name\":") {
        Some(j) => j,
        None => {
            return None;
        },
    };
    let (f_user_name, j9) = match parse_opt_string_exec(v, j8) {
        Some(p) => p,
        None => {
            return None;
        },
    };
    let j10 = match expect_lit(v, j9, ",\"context_code\":") {
        Some(j) => j,
        None => {
            return None;
        },
    };
    let (f_context_code, j11) = match parse_opt_string_exec(v, j10) {
        Some(p) => p,
        None => {
            return None;
        },
    };
    let j12 = match expect_lit(v, j11, "}") {
        Some(j) => j,
        None => {
            return None;
        },
    };
    let x = DiscussionTopic {
        id: f_id,
        title: f_title,
        message: f_message,
        posted_at: f_posted_at,
        user_name: f_user_name,
        context_code: f_context_code,
    };
    proof {
        assert(parse_discussion_topic_at(v@, i as int) == Some((x@, j12 as int)));
    }
    Some((x, j12))
}

#[verifier::rlimit(100)]
#[verifier::spinoff_prover]
fn enc_user_write(x: &User, out: &mut String)
    ensures
        final(out)@ == old(out)@ + enc_user(*x),
{
    let ghost a0 = out@;
    out.append("{\"id\":");
    let ghost a1 = out@;
    append_u64(out, x.id);
    let ghost a2 = out@;
    out.append(",\"name\":");
    let ghost a3 = out@;
    append_opt_string(out, &x.name);
    let ghost a4 = out@;
    out.append(",\"short_name\":");
    let ghost a5 = out@;
    append_opt_string(out, &x.short_name);
    let ghost a6 = out@;
    out.append(",\"login_id\":");
    let ghost a7 = out@;
    append_opt_string(out, &x.login_id);
    let ghost a8 = out@;
    out.append(",\"email\":");
    let ghost a9 = out@;
    append_opt_string(out, &x.email);
    let ghost a10 = out@;
    out.append(",\"avatar_url\":");
    let ghost a11 = out@;
    append_opt_string(out, &x.avatar_url);
    let ghost a12 = out@;
    out.append("}");
    let ghost a13 = out@;
    proof {
        reveal(enc_user);
        let q0 = "{\"id\":"@;
        let q1 = dec_digits(x.id as nat);
        let q2 = ",\"name\":"@;
        let q3 = enc_opt_string(x.name);
        let q4 = ",\"short_name\":"@;
        let q5 = enc_opt_string(x.short_name);
        let q6 = ",\"login_id\":"@;
        let q7 = enc_opt_string(x.login_id);
        let q8 = ",\"email\":"@;
        let q9 = enc_opt_string(x.email);
        let q10 = ",\"avatar_url\":"@;
        let q11 = enc_opt_string(x.avatar_url);
        let q12 = "}"@;
        let t12 = q12;
        let t11 = q11 + t12;
        let t10 = q10 + t11;
        let t9 = q9 + t10;
        let t8 = q8 + t9;
        let t7 = q7 + t8;
        let t6 = q6 + t7;
        let t5 = q5 + t6;
        let t4 = q4 + t5;
        let t3 = q3 + t4;
        let t2 = q2 + t3;
        let t1 = q1 + t2;
        let t0 = q0 + t1;
        assert(a13 == a12 + t12);
        vstd::seq_lib::lemma_concat_associative(a11, q11, t12);
        assert(a11 + t11 == a13);
        vstd::seq_lib::lemma_concat_associative(a10, q10, t11);
        assert(a10 + t10 == a13);
        vstd::seq_lib::lemma_concat_associative(a9, q9, t10);
        assert(a9 + t9 == a13);
        vstd::seq_lib::lemma_concat_associative(a8, q8, t9);
        assert(a8 + t8 == a13);
        vstd::seq_lib::lemma_concat_associative(a7, q7, t8);
        assert(a7 + t7 == a13);
        vstd::seq_lib::lemma_concat_associative(a6, q6, t7);
        assert(a6 + t6 == a13);
        vstd::seq_lib::lemma_concat_associative(a5, q5, t6);
        assert(a5 + t5 == a13);
        vstd::seq_lib::lemma_concat_associative(a4, q4, t5);
        assert(a4 + t4 == a13);
        vstd::seq_lib::lemma_concat_associative(a3, q3, t4);
        assert(a3 + t3 == a13);
        vstd::seq_lib::lemma_concat_associative(a2, q2, t3);
        assert(a2 + t2 == a13);
        vstd::seq_lib::lemma_concat_associative(a1, q1, t2);
        assert(a1 + t1 == a13);
        vstd::seq_lib::lemma_concat_associative(a0, q0, t1);
        assert(a0 + t0 == a13);
        assert(out@ == a0 + enc_user(*x));
    }
}

fn parse_user_exec(v: &Vec<char>, i: usize) -> (r: Option<(User, usize)>)
    requires
        i <= v@.len(),
    ensures
        r is None <==> parse_user_at(v@, i as int) is None,
        r matches Some((x, j)) ==> parse_user_at(v@, i as int) == Some((x@, j as int)) && i
            < j <= v@.len(),
{
    proof {
        reveal(parse_user_at);
        reveal_strlit("{\"id\":");
        reveal_strlit(",\"name\":");
        reveal_strlit(",\"short_name\":");
        reveal_strlit(",\"login_id\":");
        reveal_strlit(",\"email\":");
        reveal_strlit(",\"avatar_url\":");
        reveal_strlit("}");
    }
    let j0 = match expect_lit(v, i, "{\"id\":") {
        Some(j) => j,
        None => {
            return None;
        },
    };
    let (f_id, j1) = match parse_u64_exec(v, j0) {
        Some(p) => p,
        None => {
            return None;
        },
    };
    let j2 = match expect_lit(v, j1, ",\"name\":") {
        Some(j) => j,
        None => {
            return None;
        },
    };
    let (f_name, j3) = match parse_opt_string_exec(v, j2) {
        Some(p) => p,
        None => {
            return None;
        },
    };
    let j4 = match expect_lit(v, j3, ",\"short_name\":") {
        Some(j) => j,
        None => {
            return None;
        },
    };
    let (f_short_name, j5) = match parse_opt_string_exec(v, j4) {
        Some(p) => p,
        None => {
            return None;
        },
    };
    let j6 = match expect_lit(v, j5, ",\"login_id\":") {
        Some(j) => j,
        None => {
            return None;
        },
    };
    let (f_login_id, j7) = match parse_opt_string_exec(v, j6) {
        Some(p) => p,
        None => {
            return None;
        },
    };
    let j8 = match expect_lit(v, j7, ",\"email\":") {
        Some(j) => j,
        None => {
            return None;
        },
    };
    let (f_email, j9) = match parse_opt_string_exec(v, j8) {
        Some(p) => p,
        None => {
            return None;
        },
    };
    let j10 = match expect_lit(v, j9, ",\"avatar_url\":") {
        Some(j) => j,
        None => {
            return None;
        },
    };
    let (f_avatar_url, j11) = match parse_opt_string_exec(v, j10) {
        Some(p) => p,
        None => {
            return None;
        },
    };
    let j12 = match expect_lit(v, j11, "}") {
        Some(j) => j,
        None => {
            return None;
        },
    };
    let x = User {
        id: f_id,
        name: f_name,
        short_name: f_short_name,
        login_id: f_login_id,
        email: f_email,
        avatar_url: f_avatar_url,
    };
    proof {
        assert(parse_user_at(v@, i as int) == Some((x@, j12 as int)));
    }
    Some((x, j12))
}

#[verifier::rlimit(100)]
#[verifier::spinoff_prover]
fn enc_cache_data_write(x: &CacheData, out: &mut String)
    ensures
        final(out)@ == old(out)@ + enc_cache_data(*x),
{
    let ghost a0 = out@;
    out.append("{\"cached_at\":");
    let ghost a1 = out@;
    append_i64(out, x.cached_at);
    let ghost a2 = out@;
    out.append(",\"user\":");
    let ghost a3 = out@;
    enc_opt_user_write(&x.user, out);
    let ghost a4 = out@;
    out.append(",\"courses\":");
    let ghost a5 = out@;
    enc_course_vec_write(&x.courses, out);
    let ghost a6 = out@;
    out.append(",\"assignments\":");
    let ghost a7 = out@;
    enc_pair_vec_write(&x.assignments, out);
    let ghost a8 = out@;
    out.append(",\"calendar_events\":");
    let ghost a9 = out@;
    enc_calendar_event_vec_write(&x.calendar_events, out);
    let ghost a10 = out@;
    out.append(",\"announcements\":");
    let ghost a11 = out@;
    enc_discussion_topic_vec_write(&x.announcements, out);
    let ghost a12 = out@;
    out.append("}");
    let ghost a13 = out@;
    proof {
        reveal(enc_cache_data);
        let q0 = "{\"cached_at\":"@;
        let q1 = enc_i64(x.cached_at);
        let q2 = ",\"user\":"@;
        let q3 = enc_opt_user(x.user);
        let q4 = ",\"courses\":"@;
        let q5 = enc_course_vec(x.courses@);
        let q6 = ",\"assignments\":"@;
        let q7 = enc_pair_vec(x.assignments@);
        let q8 = ",\"calendar_events\":"@;
        let q9 = enc_calendar_event_vec(x.calendar_events@);
        let q10 = ",\"announcements\":"@;
        let q11 = enc_discussion_topic_vec(x.announcements@);
        let q12 = "}"@;
        let t12 = q12;
        let t11 = q11 + t12;
        let t10 = q10 + t11;
        let t9 = q9 + t10;
        let t8 = q8 + t9;
        let t7 = q7 + t8;
        let t6 = q6 + t7;
        let t5 = q5 + t6;
        let t4 = q4 + t5;
        let t3 = q3 + t4;
        let t2 = q2 + t3;
        let t1 = q1 + t2;
        let t0 = q0 + t1;
        assert(a13 == a12 + t12);
        vstd::seq_lib::lemma_concat_associative(a11, q11, t12);
        assert(a11 + t11 == a13);
        vstd::seq_lib::lemma_concat_associative(a10, q10, t11);
        assert(a10 + t10 == a13);
        vstd::seq_lib::lemma_concat_associative(a9, q9, t10);
        assert(a9 + t9 == a13);
        vstd::seq_lib::lemma_concat_associative(a8, q8, t9);
        assert(a8 + t8 == a13);
        vstd::seq_lib::lemma_concat_associative(a7, q7, t8);
        assert(a7 + t7 == a13);
        vstd::seq_lib::lemma_concat_associative(a6, q6, t7);
        assert(a6 + t6 == a13);
        vstd::seq_lib::lemma_concat_associative(a5, q5, t6);
        assert(a5 + t5 == a13);
        vstd::seq_lib::lemma_concat_associative(a4, q4, t5);
        assert(a4 + t4 == a13);
        vstd::seq_lib::lemma_concat_associative(a3, q3, t4);
        assert(a3 + t3 == a13);
        vstd::seq_lib::lemma_concat_associative(a2, q2, t3);
        assert(a2 + t2 == a13);
        vstd::seq_lib::lemma_concat_associative(a1, q1, t2);
        assert(a1 + t1 == a13);
        vstd::seq_lib::lemma_concat_associative(a0, q0, t1);
        assert(a0 + t0 == a13);
        assert(out@ == a0 + enc_cache_data(*x));
    }
}

fn parse_cache_data_exec(v: &Vec<char>, i: usize) -> (r: Option<(CacheData, usize)>)
    requires
        i <= v@.len(),
    ensures
        r is None <==> parse_cache_data_at(v@, i as int) is None,
        r matches Some((x, j)) ==> parse_cache_data_at(v@, i as int) == Some((x@, j as int)) && i
            < j <= v@.len(),
{
    proof {
        reveal(parse_cache_data_at);
        reveal_strlit("{\"cached_at\":");
        reveal_strlit(",\"user\":");
        reveal_strlit(",\"courses\":");
        reveal_strlit(",\"assignments\":");
        reveal_strlit(",\"calendar_events\":");
        reveal_strlit(",\"announcements\":");
        reveal_strlit("}");
    }
    let j0 = match expect_lit(v, i, "{\"cached_at\":") {
        Some(j) => j,
        None => {
            return None;
        },
    };
    let (f_cached_at, j1) = match parse_i64_exec(v, j0) {
        Some(p) => p,
        None => {
            return None;
        },
    };
    let j2 = match expect_lit(v, j1, ",\"user\":") {
        Some(j) => j,
        None => {
            return None;
        },
    };
    let (f_user, j3) = match parse_opt_user_exec(v, j2) {
        Some(p) => p,
        None => {
            return None;
        },
    };
    let j4 = match expect_lit(v, j3, ",\"courses\":") {
        Some(j) => j,
        None => {
            return None;
        },
    };
    let (f_courses, j5) = match parse_course_vec_exec(v, j4) {
        Some(p) => p,
        None => {
            return None;
        },
    };
    let j6 = match expect_lit(v, j5, ",\"assignments\":") {
        Some(j) => j,
        None => {
            return None;
        },
    };
    let (f_assignments, j7) = match parse_pair_vec_exec(v, j6) {
        Some(p) => p,
        None => {
            return None;
        },
    };
    let j8 = match expect_lit(v, j7, ",\"calendar_events\":") {
        Some(j) => j,
        None => {
            return None;
        },
    };
    let (f_calendar_events, j9) = match parse_calendar_event_vec_exec(v, j8) {
        Some(p) => p,
        None => {
            return None;
        },
    };
    let j10 = match expect_lit(v, j9, ",\"announcements\":") {
        Some(j) => j,
        None => {
            return None;
        },
    };
    let (f_announcements, j11) = match parse_discussion_topic_vec_exec(v, j10) {
        Some(p) => p,
        None => {
            return None;
        },
    };
    let j12 = match expect_lit(v, j11, "}") {
        Some(j) => j,
        None => {
            return None;
        },
    };
    let x = CacheData {
        cached_at: f_cached_at,
        user: f_user,
        courses: f_courses,
        assignments: f_assignments,
        calendar_events: f_calendar_events,
        announcements: f_announcements,
    };
    proof {
        assert(parse_cache_data_at(v@, i as int) == Some((x@, j12 as int)));
    }
    Some((x, j12))
}

#[verifier::rlimit(100)]
#[verifier::spinoff_prover]
fn enc_enrollment_vec_write(xs: &Vec<Enrollment>, out: &mut String)
    ensures
        final(out)@ == old(out)@ + enc_enrollment_vec(xs@),
{
    let ghost start = out@;
    let ghost f = |e: Enrollment| enc_enrollment(e);
    push_char(out, '[');
    if xs.len() == 0 {
        push_char(out, ']');
        proof {
            assert(out@ =~= start + enc_enrollment_vec(xs@));
        }
        return;
    }
    enc_enrollment_write(&xs[0], out);
    let mut k: usize = 1;
    proof {
        assert(start + enc_enrollment_vec(xs@) =~= out@ + enc_list_from(xs@, 1, f) + seq![']']);
    }
    while k < xs.len()
        invariant
            1 <= k <= xs@.len(),
            f == |e: Enrollment| enc_enrollment(e),
            start + enc_enrollment_vec(xs@) == out@ + enc_list_from(xs@, k as int, f) + seq![']'],
        decreases xs@.len() - k,
    {
        let ghost before = out@;
        push_char(out, ',');
        enc_enrollment_write(&xs[k], out);
        k = k + 1;
        proof {
            assert(enc_list_from(xs@, k - 1, f) == seq![','] + f(xs@[k - 1]) + enc_list_from(
                xs@,
                k as int,
                f,
            ));
            assert(before + enc_list_from(xs@, k - 1, f) + seq![']'] =~= out@
                + enc_list_from(xs@, k as int, f) + seq![']']);
        }
    }
    push_char(out, ']');
    proof {
        assert(enc_list_from(xs@, xs@.len() as int, f) == Seq::<char>::empty());
        assert(out@ =~= start + enc_enrollment_vec(xs@));
    }
}

fn parse_enrollment_vec_exec(v: &Vec<char>, i: usize) -> (r: Option<(Vec<Enrollment>, usize)>)
    requires
        i <= v@.len(),
    ensures
        r is None <==> parse_enrollment_vec_at(v@, i as int) is None,
        r matches Some((xs, j)) ==> parse_enrollment_vec_at(v@, i as int) == Some(
            (views_enrollments(xs@), j as int),
        ) && i < j <= v@.len(),
{
    if !(i < v.len() && i + 1 < v.len() && v[i] == '[') {
        return None;
    }
    if v[i + 1] == ']' {
        let out: Vec<Enrollment> = Vec::new();
        proof {
            assert(views_enrollments(out@) =~= Seq::<EnrollmentV>::empty());
        }
        return Some((out, i + 2));
    }
    let mut out: Vec<Enrollment> = Vec::new();
    let mut cur: usize = i + 1;
    loop
        invariant
            i + 1 <= cur <= v@.len(),
            i + 1 < v@.len(),
            v@[i as int] == '[',
            v@[i + 1] != ']',
            parse_items(v@, (i + 1) as int, |s2: Seq<char>, i2: int| parse_enrollment_at(s2, i2)) == (
            match parse_items(v@, cur as int, |s2: Seq<char>, i2: int| parse_enrollment_at(s2, i2)) {
                Some((t, jj)) => Some((views_enrollments(out@) + t, jj)),
                None => None::<(Seq<EnrollmentV>, int)>,
            }),
        decreases v@.len() - cur,
    {
        let (x, j) = match parse_enrollment_exec(v, cur) {
            Some(p) => p,
            None => {
                return None;
            },
        };
        let ghost prev = out@;
        let ghost xv: EnrollmentV = x@;
        out.push(x);
        proof {
            assert(views_enrollments(out@) =~= views_enrollments(prev).push(xv));
        }
        if j < v.len() && v[j] == ',' {
            proof {
                assert(parse_items(v@, cur as int, |s2: Seq<char>, i2: int| parse_enrollment_at(s2, i2))
                    == (match parse_items(
                    v@,
                    (j + 1) as int,
                    |s2: Seq<char>, i2: int| parse_enrollment_at(s2, i2),
                ) {
                    Some((t, jj)) => Some((seq![xv] + t, jj)),
                    None => None::<(Seq<EnrollmentV>, int)>,
                }));
                assert forall|t: Seq<EnrollmentV>| views_enrollments(prev) + (seq![xv] + t) =~= views_enrollments(out@)
                    + t by {
                    assert(views_enrollments(prev) + (seq![xv] + t) =~= views_enrollments(prev).push(xv) + t);
                }
            }
            cur = j + 1;
        } else if j < v.len() && v[j] == ']' {
            proof {
                assert(parse_items(v@, cur as int, |s2: Seq<char>, i2: int| parse_enrollment_at(s2, i2))
                    == Some((seq![xv], (j + 1) as int)));
                assert(views_enrollments(prev) + seq![xv] =~= views_enrollments(out@));
            }
            return Some((out, j + 1));
        } else {
            proof {
                assert(parse_items(v@, cur as int, |s2: Seq<char>, i2: int| parse_enrollment_at(s2, i2))
                    is None);
            }
            return None;
        }
    }
}

#[verifier::rlimit(100)]
#[verifier::spinoff_prover]
fn enc_course_vec_write(xs: &Vec<Course>, out: &mut String)
    ensures
        final(out)@ == old(out)@ + enc_course_vec(xs@),
{
    let ghost start = out@;
    let ghost f = |e: Course| enc_course(e);
    push_char(out, '[');
    if xs.len() == 0 {
        push_char(out, ']');
        proof {
            assert(out@ =~= start + enc_course_vec(xs@));
        }
        return;
    }
    enc_course_write(&xs[0], out);
    let mut k: usize = 1;
    proof {
        assert(start + enc_course_vec(xs@) =~= out@ + enc_list_from(xs@, 1, f) + seq![']']);
    }
    while k < xs.len()
        invariant
            1 <= k <= xs@.len(),
            f == |e: Course| enc_course(e),
            start + enc_course_vec(xs@) == out@ + enc_list_from(xs@, k as int, f) + seq![']'],
        decreases xs@.len() - k,
    {
        let ghost before = out@;
        push_char(out, ',');
        enc_course_write(&xs[k], out);
        k = k + 1;
        proof {
            assert(enc_list_from(xs@, k - 1, f) == seq![','] + f(xs@[k - 1]) + enc_list_from(
                xs@,
                k as int,
                f,
            ));
            assert(before + enc_list_from(xs@, k - 1, f) + seq![']'] =~= out@
                + enc_list_from(xs@, k as int, f) + seq![']']);
        }
    }
    push_char(out, ']');
    proof {
        assert(enc_list_from(xs@, xs@.len() as int, f) == Seq::<char>::empty());
        assert(out@ =~= start + enc_course_vec(xs@));
    }
}

fn parse_course_vec_exec(v: &Vec<char>, i: usize) -> (r: Option<(Vec<Course>, usize)>)
    requires
        i <= v@.len(),
    ensures
        r is None <==> parse_course_vec_at(v@, i as int) is None,
        r matches Some((xs, j)) ==> parse_course_vec_at(v@, i as int) == Some(
            (views_courses(xs@), j as int),
        ) && i < j <= v@.len(),
{
    if !(i < v.len() && i + 1 < v.len() && v[i] == '[') {
        return None;
    }
    if v[i + 1] == ']' {
        let out: Vec<Course> = Vec::new();
        proof {
            assert(views_courses(out@) =~= Seq::<CourseV>::empty());
        }
        return Some((out, i + 2));
    }
    let mut out: Vec<Course> = Vec::new();
    let mut cur: usize = i + 1;
    loop
        invariant
            i + 1 <= cur <= v@.len(),
            i + 1 < v@.len(),
            v@[i as int] == '[',
            v@[i + 1] != ']',
            parse_items(v@, (i + 1) as int, |s2: Seq<char>, i2: int| parse_course_at(s2, i2)) == (
            match parse_items(v@, cur as int, |s2: Seq<char>, i2: int| parse_course_at(s2, i2)) {
                Some((t, jj)) => Some((views_courses(out@) + t, jj)),
                None => None::<(Seq<CourseV>, int)>,
            }),
        decreases v@.len() - cur,
    {
        let (x, j) = match parse_course_exec(v, cur) {
            Some(p) => p,
            None => {
                return None;
            },
        };
        let ghost prev = out@;
        let ghost xv: CourseV = x@;
        out.push(x);
        proof {
            assert(views_courses(out@) =~= views_courses(prev).push(xv));
        }
        if j < v.len() && v[j] == ',' {
            proof {
                assert(parse_items(v@, cur as int, |s2: Seq<char>, i2: int| parse_course_at(s2, i2))
                    == (match parse_items(
                    v@,
                    (j + 1) as int,
                    |s2: Seq<char>, i2: int| parse_course_at(s2, i2),
                ) {
                    Some((t, jj)) => Some((seq![xv] + t, jj)),
                    None => None::<(Seq<CourseV>, int)>,
                }));
                assert forall|t: Seq<CourseV>| views_courses(prev) + (seq![xv] + t) =~= views_courses(out@)
                    + t by {
                    assert(views_courses(prev) + (seq![xv] + t) =~= views_courses(prev).push(xv) + t);
                }
            }
            cur = j + 1;
        } else if j < v.len() && v[j] == ']' {
            proof {
                assert(parse_items(v@, cur as int, |s2: Seq<char>, i2: int| parse_course_at(s2, i2))
                    == Some((seq![xv], (j + 1) as int)));
                assert(views_courses(prev) + seq![xv] =~= views_courses(out@));
            }
            return Some((out, j + 1));
        } else {
            proof {
                assert(parse_items(v@, cur as int, |s2: Seq<char>, i2: int| parse_course_at(s2, i2))
                    is None);
            }
            return None;
        }
    }
}

#[verifier::rlimit(100)]
#[verifier::spinoff_prover]
fn enc_assignment_vec_write(xs: &Vec<Assignment>, out: &mut String)
    ensures
        final(out)@ == old(out)@ + enc_assignment_vec(xs@),
{
    let ghost start = out@;
    let ghost f = |e: Assignment| enc_assignment(e);
    push_char(out, '[');
    if xs.len() == 0 {
        push_char(out, ']');
        proof {
            assert(out@ =~= start + enc_assignment_vec(xs@));
        }
        return;
    }
    enc_assignment_write(&xs[0], out);
    let mut k: usize = 1;
    proof {
        assert(start + enc_assignment_vec(xs@) =~= out@ + enc_list_from(xs@, 1, f) + seq![']']);
    }
    while k < xs.len()
        invariant
            1 <= k <= xs@.len(),
            f == |e: Assignment| enc_assignment(e),
            start + enc_assignment_vec(xs@) == out@ + enc_list_from(xs@, k as int, f) + seq![']'],
        decreases xs@.len() - k,
    {
        let ghost before = out@;
        push_char(out, ',');
        enc_assignment_write(&xs[k], out);
        k = k + 1;
        proof {
            assert(enc_list_from(xs@, k - 1, f) == seq![','] + f(xs@[k - 1]) + enc_list_from(
                xs@,
                k as int,
                f,
            ));
            assert(before + enc_list_from(xs@, k - 1, f) + seq![']'] =~= out@
                + enc_list_from(xs@, k as int, f) + seq![']']);
        }
    }
    push_char(out, ']');
    proof {
        assert(enc_list_from(xs@, xs@.len() as int, f) == Seq::<char>::empty());
        assert(out@ =~= start + enc_assignment_vec(xs@));
    }
}

fn parse_assignment_vec_exec(v: &Vec<char>, i: usize) -> (r: Option<(Vec<Assignment>, usize)>)
    requires
        i <= v@.len(),
    ensures
        r is None <==> parse_assignment_vec_at(v@, i as int) is None,
        r matches Some((xs, j)) ==> parse_assignment_vec_at(v@, i as int) == Some(
            (views_assignments(xs@), j as int),
        ) && i < j <= v@.len(),
{
    if !(i < v.len() && i + 1 < v.len() && v[i] == '[') {
        return None;
    }
    if v[i + 1] == ']' {
        let out: Vec<Assignment> = Vec::new();
        proof {
            assert(views_assignments(out@) =~= Seq::<AssignmentV>::empty());
        }
        return Some((out, i + 2));
    }
    let mut out: Vec<Assignment> = Vec::new();
    let mut cur: usize = i + 1;
    loop
        invariant
            i + 1 <= cur <= v@.len(),
            i + 1 < v@.len(),
            v@[i as int] == '[',
            v@[i + 1] != ']',
            parse_items(v@, (i + 1) as int, |s2: Seq<char>, i2: int| parse_assignment_at(s2, i2)) == (
            match parse_items(v@, cur as int, |s2: Seq<char>, i2: int| parse_assignment_at(s2, i2)) {
                Some((t, jj)) => Some((views_assignments(out@) + t, jj)),
                None => None::<(Seq<AssignmentV>, int)>,
            }),
        decreases v@.len() - cur,
    {
        let (x, j) = match parse_assignment_exec(v, cur) {
            Some(p) => p,
            None => {
                return None;
            },
        };
        let ghost prev = out@;
        let ghost xv: AssignmentV = x@;
        out.push(x);
        proof {
            assert(views_assignments(out@) =~= views_assignments(prev).push(xv));
        }
        if j < v.len() && v[j] == ',' {
            proof {
                assert(parse_items(v@, cur as int, |s2: Seq<char>, i2: int| parse_assignment_at(s2, i2))
                    == (match parse_items(
                    v@,
                    (j + 1) as int,
                    |s2: Seq<char>, i2: int| parse_assignment_at(s2, i2),
                ) {
                    Some((t, jj)) => Some((seq![xv] + t, jj)),
                    None => None::<(Seq<AssignmentV>, int)>,
                }));
                assert forall|t: Seq<AssignmentV>| views_assignments(prev) + (seq![xv] + t) =~= views_assignments(out@)
                    + t by {
                    assert(views_assignments(prev) + (seq![xv] + t) =~= views_assignments(prev).push(xv) + t);
                }
            }
            cur = j + 1;
        } else if j < v.len() && v[j] == ']' {
            proof {
                assert(parse_items(v@, cur as int, |s2: Seq<char>, i2: int| parse_assignment_at(s2, i2))
                    == Some((seq![xv], (j + 1) as int)));
                assert(views_assignments(prev) + seq![xv] =~= views_assignments(out@));
            }
            return Some((out, j + 1));
        } else {
            proof {
                assert(parse_items(v@, cur as int, |s2: Seq<char>, i2: int| parse_assignment_at(s2, i2))
                    is None);
            }
            return None;
        }
    }
}

#[verifier::rlimit(100)]
#[verifier::spinoff_prover]
fn enc_calendar_event_vec_write(xs: &Vec<CalendarEvent>, out: &mut String)
    ensures
        final(out)@ == old(out)@ + enc_calendar_event_vec(xs@),
{
    let ghost start = out@;
    let ghost f = |e: CalendarEvent| enc_calendar_event(e);
    push_char(out, '[');
    if xs.len() == 0 {
        push_char(out, ']');
        proof {
            assert(out@ =~= start + enc_calendar_event_vec(xs@));
        }
        return;
    }
    enc_calendar_event_write(&xs[0], out);
    let mut k: usize = 1;
    proof {
        assert(start + enc_calendar_event_vec(xs@) =~= out@ + enc_list_from(xs@, 1, f) + seq![']']);
    }
    while k < xs.len()
        invariant
            1 <= k <= xs@.len(),
            f == |e: CalendarEvent| enc_calendar_event(e),
            start + enc_calendar_event_vec(xs@) == out@ + enc_list_from(xs@, k as int, f) + seq![']'],
        decreases xs@.len() - k,
    {
        let ghost before = out@;
        push_char(out, ',');
        enc_calendar_event_write(&xs[k], out);
        k = k + 1;
        proof {
            assert(enc_list_from(xs@, k - 1, f) == seq![','] + f(xs@[k - 1]) + enc_list_from(
                xs@,
                k as int,
                f,
            ));
            assert(before + enc_list_from(xs@, k - 1, f) + seq![']'] =~= out@
                + enc_list_from(xs@, k as int, f) + seq![']']);
        }
    }
    push_char(out, ']');
    proof {
        assert(enc_list_from(xs@, xs@.len() as int, f) == Seq::<char>::empty());
        assert(out@ =~= start + enc_calendar_event_vec(xs@));
    }
}

fn parse_calendar_event_vec_exec(v: &Vec<char>, i: usize) -> (r: Option<(Vec<CalendarEvent>, usize)>)
    requires
        i <= v@.len(),
    ensures
        r is None <==> parse_calendar_event_vec_at(v@, i as int) is None,
        r matches Some((xs, j)) ==> parse_calendar_event_vec_at(v@, i as int) == Some(
            (views_calendar_events(xs@), j as int),
        ) && i < j <= v@.len(),
{
    if !(i < v.len() && i + 1 < v.len() && v[i] == '[') {
        return None;
    }
    if v[i + 1] == ']' {
        let out: Vec<CalendarEvent> = Vec::new();
        proof {
            assert(views_calendar_events(out@) =~= Seq::<CalendarEventV>::empty());
        }
        return Some((out, i + 2));
    }
    let mut out: Vec<CalendarEvent> = Vec::new();
    let mut cur: usize = i + 1;
    loop
        invariant
            i + 1 <= cur <= v@.len(),
            i + 1 < v@.len(),
            v@[i as int] == '[',
            v@[i + 1] != ']',
            parse_items(v@, (i + 1) as int, |s2: Seq<char>, i2: int| parse_calendar_event_at(s2, i2)) == (
            match parse_items(v@, cur as int, |s2: Seq<char>, i2: int| parse_calendar_event_at(s2, i2)) {
                Some((t, jj)) => Some((views_calendar_events(out@) + t, jj)),
                None => None::<(Seq<CalendarEventV>, int)>,
            }),
        decreases v@.len() - cur,
    {
        let (x, j) = match parse_calendar_event_exec(v, cur) {
            Some(p) => p,
            None => {
                return None;
            },
        };
        let ghost prev = out@;
        let ghost xv: CalendarEventV = x@;
        out.push(x);
        proof {
            assert(views_calendar_events(out@) =~= views_calendar_events(prev).push(xv));
        }
        if j < v.len() && v[j] == ',' {
            proof {
                assert(parse_items(v@, cur as int, |s2: Seq<char>, i2: int| parse_calendar_event_at(s2, i2))
                    == (match parse_items(
                    v@,
                    (j + 1) as int,
                    |s2: Seq<char>, i2: int| parse_calendar_event_at(s2, i2),
                ) {
                    Some((t, jj)) => Some((seq![xv] + t, jj)),
                    None => None::<(Seq<CalendarEventV>, int)>,
                }));
                assert forall|t: Seq<CalendarEventV>| views_calendar_events(prev) + (seq![xv] + t) =~= views_calendar_events(out@)
                    + t by {
                    assert(views_calendar_events(prev) + (seq![xv] + t) =~= views_calendar_events(prev).push(xv) + t);
                }
            }
            cur = j + 1;
        } else if j < v.len() && v[j] == ']' {
            proof {
                assert(parse_items(v@, cur as int, |s2: Seq<char>, i2: int| parse_calendar_event_at(s2, i2))
                    == Some((seq![xv], (j + 1) as int)));
                assert(views_calendar_events(prev) + seq![xv] =~= views_calendar_events(out@));
            }
            return Some((out, j + 1));
        } else {
            proof {
                assert(parse_items(v@, cur as int, |s2: Seq<char>, i2: int| parse_calendar_event_at(s2, i2))
                    is None);
            }
            return None;
        }
    }
}

#[verifier::rlimit(100)]
#[verifier::spinoff_prover]
fn enc_discussion_topic_vec_write(xs: &Vec<DiscussionTopic>, out: &mut String)
    ensures
        final(out)@ == old(out)@ + enc_discussion_topic_vec(xs@),
{
    let ghost start = out@;
    let ghost f = |e: DiscussionTopic| enc_discussion_topic(e);
    push_char(out, '[');
    if xs.len() == 0 {
        push_char(out, ']');
        proof {
            assert(out@ =~= start + enc_discussion_topic_vec(xs@));
        }
        return;
    }
    enc_discussion_topic_write(&xs[0], out);
    let mut k: usize = 1;
    proof {
        assert(start + enc_discussion_topic_vec(xs@) =~= out@ + enc_list_from(xs@, 1, f) + seq![']']);
    }
    while k < xs.len()
        invariant
            1 <= k <= xs@.len(),
            f == |e: DiscussionTopic| enc_discussion_topic(e),
            start + enc_discussion_topic_vec(xs@) == out@ + enc_list_from(xs@, k as int, f) + seq![']'],
        decreases xs@.len() - k,
    {
        let ghost before = out@;
        push_char(out, ',');
        enc_discussion_topic_write(&xs[k], out);
        k = k + 1;
        proof {
            assert(enc_list_from(xs@, k - 1, f) == seq![','] + f(xs@[k - 1]) + enc_list_from(
                xs@,
                k as int,
                f,
            ));
            assert(before + enc_list_from(xs@, k - 1, f) + seq![']'] =~= out@
                + enc_list_from(xs@, k as int, f) + seq![']']);
        }
    }
    push_char(out, ']');
    proof {
        assert(enc_list_from(xs@, xs@.len() as int, f) == Seq::<char>::empty());
        assert(out@ =~= start + enc_discussion_topic_vec(xs@));
    }
}

fn parse_discussion_topic_vec_exec(v: &Vec<char>, i: usize) -> (r: Option<(Vec<DiscussionTopic>, usize)>)
    requires
        i <= v@.len(),
    ensures
        r is None <==> parse_discussion_topic_vec_at(v@, i as int) is None,
        r matches Some((xs, j)) ==> parse_discussion_topic_vec_at(v@, i as int) == Some(
            (views_discussion_topics(xs@), j as int),
        ) && i < j <= v@.len(),
{
    if !(i < v.len() && i + 1 < v.len() && v[i] == '[') {
        return None;
    }
    if v[i + 1] == ']' {
        let out: Vec<DiscussionTopic> = Vec::new();
        proof {
            assert(views_discussion_topics(out@) =~= Seq::<DiscussionTopicV>::empty());
        }
        return Some((out, i + 2));
    }
    let mut out: Vec<DiscussionTopic> = Vec::new();
    let mut cur: usize = i + 1;
    loop
        invariant
            i + 1 <= cur <= v@.len(),
            i + 1 < v@.len(),
            v@[i as int] == '[',
            v@[i + 1] != ']',
            parse_items(v@, (i + 1) as int, |s2: Seq<char>, i2: int| parse_discussion_topic_at(s2, i2)) == (
            match parse_items(v@, cur as int, |s2: Seq<char>, i2: int| parse_discussion_topic_at(s2, i2)) {
                Some((t, jj)) => Some((views_discussion_topics(out@) + t, jj)),
                None => None::<(Seq<DiscussionTopicV>, int)>,
            }),
        decreases v@.len() - cur,
    {
        let (x, j) = match parse_discussion_topic_exec(v, cur) {
            Some(p) => p,
            None => {
                return None;
            },
        };
        let ghost prev = out@;
        let ghost xv: DiscussionTopicV = x@;
        out.push(x);
        proof {
            assert(views_discussion_topics(out@) =~= views_discussion_topics(prev).push(xv));
        }
        if j < v.len() && v[j] == ',' {
            proof {
                assert(parse_items(v@, cur as int, |s2: Seq<char>, i2: int| parse_discussion_topic_at(s2, i2))
                    == (match parse_items(
                    v@,
                    (j + 1) as int,
                    |s2: Seq<char>, i2: int| parse_discussion_topic_at(s2, i2),
                ) {
                    Some((t, jj)) => Some((seq![xv] + t, jj)),
                    None => None::<(Seq<DiscussionTopicV>, int)>,
                }));
                assert forall|t: Seq<DiscussionTopicV>| views_discussion_topics(prev) + (seq![xv] + t) =~= views_discussion_topics(out@)
                    + t by {
                    assert(views_discussion_topics(prev) + (seq![xv] + t) =~= views_discussion_topics(prev).push(xv) + t);
                }
            }
            cur = j + 1;
        } else if j < v.len() && v[j] == ']' {
            proof {
                assert(parse_items(v@, cur as int, |s2: Seq<char>, i2: int| parse_discussion_topic_at(s2, i2))
                    == Some((seq![xv], (j + 1) as int)));
                assert(views_discussion_topics(prev) + seq![xv] =~= views_discussion_topics(out@));
            }
            return Some((out, j + 1));
        } else {
            proof {
                assert(parse_items(v@, cur as int, |s2: Seq<char>, i2: int| parse_discussion_topic_at(s2, i2))
                    is None);
            }
            return None;
        }
    }
}

#[verifier::rlimit(100)]
#[verifier::spinoff_prover]
fn enc_string_vec_write(xs: &Vec<String>, out: &mut String)
    ensures
        final(out)@ == old(out)@ + enc_string_vec(xs@),
{
    let ghost start = out@;
    let ghost f = |q: String| enc_string(q@);
    push_char(out, '[');
    if xs.len() == 0 {
        push_char(out, ']');
        proof {
            assert(out@ =~= start + enc_string_vec(xs@));
        }
        return;
    }
    append_string(out, xs[0].as_str());
    let mut k: usize = 1;
    proof {
        assert(start + enc_string_vec(xs@) =~= out@ + enc_list_from(xs@, 1, f) + seq![']']);
    }
    while k < xs.len()
        invariant
            1 <= k <= xs@.len(),
            f == |q: String| enc_string(q@),
            start + enc_string_vec(xs@) == out@ + enc_list_from(xs@, k as int, f) + seq![']'],
        decreases xs@.len() - k,
    {
        let ghost before = out@;
        push_char(out, ',');
        append_string(out, xs[k].as_str());
        k = k + 1;
        proof {
            assert(enc_list_from(xs@, k - 1, f) == seq![','] + f(xs@[k - 1]) + enc_list_from(
                xs@,
                k as int,
                f,
            ));
            assert(before + enc_list_from(xs@, k - 1, f) + seq![']'] =~= out@
                + enc_list_from(xs@, k as int, f) + seq![']']);
        }
    }
    push_char(out, ']');
    proof {
        assert(enc_list_from(xs@, xs@.len() as int, f) == Seq::<char>::empty());
        assert(out@ =~= start + enc_string_vec(xs@));
    }
}

fn parse_string_vec_exec(v: &Vec<char>, i: usize) -> (r: Option<(Vec<String>, usize)>)
    requires
        i <= v@.len(),
    ensures
        r is None <==> parse_string_vec_at(v@, i as int) is None,
        r matches Some((xs, j)) ==> parse_string_vec_at(v@, i as int) == Some(
            (xs@.map_values(|q: String| q@), j as int),
        ) && i < j <= v@.len(),
{
    if !(i < v.len() && i + 1 < v.len() && v[i] == '[') {
        return None;
    }
    if v[i + 1] == ']' {
        let out: Vec<String> = Vec::new();
        proof {
            assert(out@.map_values(|q: String| q@) =~= Seq::<Seq<char>>::empty());
        }
        return Some((out, i + 2));
    }
    let mut out: Vec<String> = Vec::new();
    let mut cur: usize = i + 1;
    loop
        invariant
            i + 1 <= cur <= v@.len(),
            i + 1 < v@.len(),
            v@[i as int] == '[',
            v@[i + 1] != ']',
            parse_items(v@, (i + 1) as int, |s2: Seq<char>, i2: int| parse_string_at(s2, i2)) == (
            match parse_items(v@, cur as int, |s2: Seq<char>, i2: int| parse_string_at(s2, i2)) {
                Some((t, jj)) => Some((out@.map_values(|q: String| q@) + t, jj)),
                None => None::<(Seq<Seq<char>>, int)>,
            }),
        decreases v@.len() - cur,
    {
        let (x, j) = match parse_string_exec(v, cur) {
            Some(p) => p,
            None => {
                return None;
            },
        };
        let ghost prev = out@;
        let ghost xv: Seq<char> = x@;
        out.push(x);
        proof {
            assert(out@.map_values(|q: String| q@) =~= prev.map_values(|q: String| q@).push(xv));
        }
        if j < v.len() && v[j] == ',' {
            proof {
                assert(parse_items(v@, cur as int, |s2: Seq<char>, i2: int| parse_string_at(s2, i2))
                    == (match parse_items(
                    v@,
                    (j + 1) as int,
                    |s2: Seq<char>, i2: int| parse_string_at(s2, i2),
                ) {
                    Some((t, jj)) => Some((seq![xv] + t, jj)),
                    None => None::<(Seq<Seq<char>>, int)>,
                }));
                assert forall|t: Seq<Seq<char>>| prev.map_values(|q: String| q@) + (seq![xv] + t) =~= out@.map_values(|q: String| q@)
                    + t by {
                    assert(prev.map_values(|q: String| q@) + (seq![xv] + t) =~= prev.map_values(|q: String| q@).push(xv) + t);
                }
            }
            cur = j + 1;
        } else if j < v.len() && v[j] == ']' {
            proof {
                assert(parse_items(v@, cur as int, |s2: Seq<char>, i2: int| parse_string_at(s2, i2))
                    == Some((seq![xv], (j + 1) as int)));
                assert(prev.map_values(|q: String| q@) + seq![xv] =~= out@.map_values(|q: String| q@));
            }
            return Some((out, j + 1));
        } else {
            proof {
                assert(parse_items(v@, cur as int, |s2: Seq<char>, i2: int| parse_string_at(s2, i2))
                    is None);
            }
            return None;
        }
    }
}

#[verifier::rlimit(100)]
#[verifier::spinoff_prover]
fn enc_pair_vec_write(xs: &Vec<(String, Vec<Assignment>)>, out: &mut String)
    ensures
        final(out)@ == old(out)@ + enc_pair_vec(xs@),
{
    let ghost start = out@;
    let ghost f = |p: (String, Vec<Assignment>)| enc_pair(p);
    push_char(out, '[');
    if xs.len() == 0 {
        push_char(out, ']');
        proof {
            assert(out@ =~= start + enc_pair_vec(xs@));
        }
        return;
    }
    enc_pair_write(&xs[0], out);
    let mut k: usize = 1;
    proof {
        assert(start + enc_pair_vec(xs@) =~= out@ + enc_list_from(xs@, 1, f) + seq![']']);
    }
    while k < xs.len()
        invariant
            1 <= k <= xs@.len(),
            f == |p: (String, Vec<Assignment>)| enc_pair(p),
            start + enc_pair_vec(xs@) == out@ + enc_list_from(xs@, k as int, f) + seq![']'],
        decreases xs@.len() - k,
    {
        let ghost before = out@;
        push_char(out, ',');
        enc_pair_write(&xs[k], out);
        k = k + 1;
        proof {
            assert(enc_list_from(xs@, k - 1, f) == seq![','] + f(xs@[k - 1]) + enc_list_from(
                xs@,
                k as int,
                f,
            ));
            assert(before + enc_list_from(xs@, k - 1, f) + seq![']'] =~= out@
                + enc_list_from(xs@, k as int, f) + seq![']']);
        }
    }
    push_char(out, ']');
    proof {
        assert(enc_list_from(xs@, xs@.len() as int, f) == Seq::<char>::empty());
        assert(out@ =~= start + enc_pair_vec(xs@));
    }
}

fn parse_pair_vec_exec(v: &Vec<char>, i: usize) -> (r: Option<(Vec<(String, Vec<Assignment>)>, usize)>)
    requires
        i <= v@.len(),
    ensures
        r is None <==> parse_pair_vec_at(v@, i as int) is None,
        r matches Some((xs, j)) ==> parse_pair_vec_at(v@, i as int) == Some(
            (views_pairs(xs@), j as int),
        ) && i < j <= v@.len(),
{
    if !(i < v.len() && i + 1 < v.len() && v[i] == '[') {
        return None;
    }
    if v[i + 1] == ']' {
        let out: Vec<(String, Vec<Assignment>)> = Vec::new();
        proof {
            assert(views_pairs(out@) =~= Seq::<(Seq<char>, Seq<AssignmentV>)>::empty());
        }
        return Some((out, i + 2));
    }
    let mut out: Vec<(String, Vec<Assignment>)> = Vec::new();
    let mut cur: usize = i + 1;
    loop
        invariant
            i + 1 <= cur <= v@.len(),
            i + 1 < v@.len(),
            v@[i as int] == '[',
            v@[i + 1] != ']',
            parse_items(v@, (i + 1) as int, |s2: Seq<char>, i2: int| parse_pair_at(s2, i2)) == (
            match parse_items(v@, cur as int, |s2: Seq<char>, i2: int| parse_pair_at(s2, i2)) {
                Some((t, jj)) => Some((views_pairs(out@) + t, jj)),
                None => None::<(Seq<(Seq<char>, Seq<AssignmentV>)>, int)>,
            }),
        decreases v@.len() - cur,
    {
        let (x, j) = match parse_pair_exec(v, cur) {
            Some(p) => p,
            None => {
                return None;
            },
        };
        let ghost prev = out@;
        let ghost xv: (Seq<char>, Seq<AssignmentV>) = (x.0@, views_assignments(x.1@));
        out.push(x);
        proof {
            assert(views_pairs(out@) =~= views_pairs(prev).push(xv));
        }
        if j < v.len() && v[j] == ',' {
            proof {
                assert(parse_items(v@, cur as int, |s2: Seq<char>, i2: int| parse_pair_at(s2, i2))
                    == (match parse_items(
                    v@,
                    (j + 1) as int,
                    |s2: Seq<char>, i2: int| parse_pair_at(s2, i2),
                ) {
                    Some((t, jj)) => Some((seq![xv] + t, jj)),
                    None => None::<(Seq<(Seq<char>, Seq<AssignmentV>)>, int)>,
                }));
                assert forall|t: Seq<(Seq<char>, Seq<AssignmentV>)>| views_pairs(prev) + (seq![xv] + t) =~= views_pairs(out@)
                    + t by {
                    assert(views_pairs(prev) + (seq![xv] + t) =~= views_pairs(prev).push(xv) + t);
                }
            }
            cur = j + 1;
        } else if j < v.len() && v[j] == ']' {
            proof {
                assert(parse_items(v@, cur as int, |s2: Seq<char>, i2: int| parse_pair_at(s2, i2))
                    == Some((seq![xv], (j + 1) as int)));
                assert(views_pairs(prev) + seq![xv] =~= views_pairs(out@));
            }
            return Some((out, j + 1));
        } else {
            proof {
                assert(parse_items(v@, cur as int, |s2: Seq<char>, i2: int| parse_pair_at(s2, i2))
                    is None);
            }
            return None;
        }
    }
}

#[verifier::rlimit(100)]
#[verifier::spinoff_prover]
fn enc_opt_submission_write(o: &Option<Submission>, out: &mut String)
    ensures
        final(out)@ == old(out)@ + enc_opt_submission(*o),
{
    match o {
        None => out.append("null"),
        Some(x) => enc_submission_write(x, out),
    }
}

fn parse_opt_submission_exec(v: &Vec<char>, i: usize) -> (r: Option<(Option<Submission>, usize)>)
    requires
        i <= v@.len(),
    ensures
        r is None <==> parse_opt_submission_at(v@, i as int) is None,
        r matches Some((o, j)) ==> parse_opt_submission_at(v@, i as int) == Some((
            match o {
                Some(x) => Some(x@),
                None => None,
            },
            j as int,
        )) && i < j <= v@.len(),
{
    proof {
        reveal_strlit("null");
    }
    match expect_lit(v, i, "null") {
        Some(j) => Some((None, j)),
        None => match parse_submission_exec(v, i) {
            Some((x, j)) => Some((Some(x), j)),
            None => None,
        },
    }
}

#[verifier::rlimit(100)]
#[verifier::spinoff_prover]
fn enc_opt_assignment_event_detail_write(o: &Option<AssignmentEventDetail>, out: &mut String)
    ensures
        final(out)@ == old(out)@ + enc_opt_assignment_event_detail(*o),
{
    match o {
        None => out.append("null"),
        Some(x) => enc_assignment_event_detail_write(x, out),
    }
}

fn parse_opt_assignment_event_detail_exec(v: &Vec<char>, i: usize) -> (r: Option<(Option<AssignmentEventDetail>, usize)>)
    requires
        i <= v@.len(),
    ensures
        r is None <==> parse_opt_assignment_event_detail_at(v@, i as int) is None,
        r matches Some((o, j)) ==> parse_opt_assignment_event_detail_at(v@, i as int) == Some((
            match o {
                Some(x) => Some(x@),
                None => None,
            },
            j as int,
        )) && i < j <= v@.len(),
{
    proof {
        reveal_strlit("null");
    }
    match expect_lit(v, i, "null") {
        Some(j) => Some((None, j)),
        None => match parse_assignment_event_detail_exec(v, i) {
            Some((x, j)) => Some((Some(x), j)),
            None => None,
        },
    }
}

#[verifier::rlimit(100)]
#[verifier::spinoff_prover]
fn enc_opt_user_write(o: &Option<User>, out: &mut String)
    ensures
        final(out)@ == old(out)@ + enc_opt_user(*o),
{
    match o {
        None => out.append("null"),
        Some(x) => enc_user_write(x, out),
    }
}

fn parse_opt_user_exec(v: &Vec<char>, i: usize) -> (r: Option<(Option<User>, usize)>)
    requires
        i <= v@.len(),
    ensures
        r is None <==> parse_opt_user_at(v@, i as int) is None,
        r matches Some((o, j)) ==> parse_opt_user_at(v@, i as int) == Some((
            match o {
                Some(x) => Some(x@),
                None => None,
            },
            j as int,
        )) && i < j <= v@.len(),
{
    proof {
        reveal_strlit("null");
    }
    match expect_lit(v, i, "null") {
        Some(j) => Some((None, j)),
        None => match parse_user_exec(v, i) {
            Some((x, j)) => Some((Some(x), j)),
            None => None,
        },
    }
}

#[verifier::rlimit(100)]
#[verifier::spinoff_prover]
fn enc_opt_enrollment_vec_write(o: &Option<Vec<Enrollment>>, out: &mut String)
    ensures
        final(out)@ == old(out)@ + enc_opt_enrollment_vec(*o),
{
    match o {
        None => out.append("null"),
        Some(x) => enc_enrollment_vec_write(x, out),
    }
}

fn parse_opt_enrollment_vec_exec(v: &Vec<char>, i: usize) -> (r: Option<(Option<Vec<Enrollment>>, usize)>)
    requires
        i <= v@.len(),
    ensures
        r is None <==> parse_opt_enrollment_vec_at(v@, i as int) is None,
        r matches Some((o, j)) ==> parse_opt_enrollment_vec_at(v@, i as int) == Some((
            match o {
                Some(x) => Some(views_enrollments(x@)),
                None => None,
            },
            j as int,
        )) && i < j <= v@.len(),
{
    proof {
        reveal_strlit("null");
    }
    match expect_lit(v, i, "null") {
        Some(j) => Some((None, j)),
        None => match parse_enrollment_vec_exec(v, i) {
            Some((x, j)) => Some((Some(x), j)),
            None => None,
        },
    }
}

#[verifier::rlimit(100)]
#[verifier::spinoff_prover]
fn enc_opt_string_vec_write(o: &Option<Vec<String>>, out: &mut String)
    ensures
        final(out)@ == old(out)@ + enc_opt_string_vec(*o),
{
    match o {
        None => out.append("null"),
        Some(x) => enc_string_vec_write(x, out),
    }
}

fn parse_opt_string_vec_exec(v: &Vec<char>, i: usize) -> (r: Option<(Option<Vec<String>>, usize)>)
    requires
        i <= v@.len(),
    ensures
        r is None <==> parse_opt_string_vec_at(v@, i as int) is None,
        r matches Some((o, j)) ==> parse_opt_string_vec_at(v@, i as int) == Some((
            match o {
                Some(x) => Some(x@.map_values(|q: String| q@)),
                None => None,
            },
            j as int,
        )) && i < j <= v@.len(),
{
    proof {
        reveal_strlit("null");
    }
    match expect_lit(v, i, "null") {
        Some(j) => Some((None, j)),
        None => match parse_string_vec_exec(v, i) {
            Some((x, j)) => Some((Some(x), j)),
            None => None,
        },
    }
}

#[verifier::rlimit(100)]
#[verifier::spinoff_prover]
fn enc_pair_write(p: &(String, Vec<Assignment>), out: &mut String)
    ensures
        final(out)@ == old(out)@ + enc_pair(*p),
{
    let ghost start = out@;
    push_char(out, '[');
    append_string(out, p.0.as_str());
    push_char(out, ',');
    enc_assignment_vec_write(&p.1, out);
    push_char(out, ']');
    proof {
        reveal(enc_pair);
        assert(out@ =~= start + enc_pair(*p));
    }
}

fn parse_pair_exec(v: &Vec<char>, i: usize) -> (r: Option<((String, Vec<Assignment>), usize)>)
    requires
        i <= v@.len(),
    ensures
        r is None <==> parse_pair_at(v@, i as int) is None,
        r matches Some((x, j)) ==> parse_pair_at(v@, i as int) == Some(
            ((x.0@, views_assignments(x.1@)), j as int),
        ) && i < j <= v@.len(),
{
    proof {
        reveal(parse_pair_at);
    }
    if !(i < v.len() && v[i] == '[') {
        return None;
    }
    let (name, j1) = match parse_string_exec(v, i + 1) {
        Some(p) => p,
        None => {
            return None;
        },
    };
    if !(j1 < v.len() && v[j1] == ',') {
        return None;
    }
    let (asgns, j2) = match parse_assignment_vec_exec(v, j1 + 1) {
        Some(p) => p,
        None => {
            return None;
        },
    };
    if !(j2 < v.len() && v[j2] == ']') {
        return None;
    }
    Some(((name, asgns), j2 + 1))
}

// ─── The cache file as text ─────────────────────────────────────────────

/// Write a snapshot as the cache file's one canonical JSON document.
pub fn save_cache_string(data: &CacheData) -> (r: String)
    ensures
        r@ == enc_cache_data(*data),
{
    let mut out = String::new();
    enc_cache_data_write(data, &mut out);
    proof {
        assert(Seq::<char>::empty() + enc_cache_data(*data) =~= enc_cache_data(*data));
    }
    out
}

/// Read a snapshot back from the cache file's text. Only the canonical
/// form is accepted, whole; anything else reads as no cache at all.
pub fn load_cache_string(s: &str) -> (r: Option<CacheData>)
    ensures
        r is Some <==> {
            let p = parse_cache_data_at(s@, 0);
            p is Some && (p->0).1 == s@.len() as int
        },
        r matches Some(c) ==> parse_cache_data_at(s@, 0) == Some((c@, s@.len() as int)),
{
    let v = crate::strutil::str_chars(s);
    match parse_cache_data_exec(&v, 0) {
        Some((c, j)) => {
            if j == v.len() {
                Some(c)
            } else {
                None
            }
        },
        None => None,
    }
}

/// Saving a snapshot and loading it back yields a snapshot equal in all
/// fields: the written text parses back to exactly the snapshot written.
pub proof fn lemma_cache_round_trip(data: CacheData)
    ensures
        parse_cache_data_at(enc_cache_data(data), 0) == Some(
            (data@, enc_cache_data(data).len() as int),
        ),
{
    let s = enc_cache_data(data);
    assert(s.subrange(0, s.len() as int) =~= s);
    lemma_rt_cache_data(s, 0, data);
}

} // verus!