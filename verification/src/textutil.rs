//! Plain-text rendering of announcement bodies: HTML tags dropped and the
//! common entities decoded.

use vstd::prelude::*;

use crate::strutil::{chars_to_string, str_chars};

verus! {

/// Tag removal, character by character: `<` opens a tag, `>` closes it
/// and leaves one space, text outside tags stands as it is.
pub open spec fn strip_tags_from(s: Seq<char>, in_tag: bool) -> Seq<char>
    decreases s.len(),
{
    if s.len() == 0 {
        Seq::empty()
    } else {
        let c = s[0];
        if c == '<' {
            strip_tags_from(s.drop_first(), true)
        } else if c == '>' {
            seq![' '] + strip_tags_from(s.drop_first(), false)
        } else if !in_tag {
            seq![c] + strip_tags_from(s.drop_first(), in_tag)
        } else {
            strip_tags_from(s.drop_first(), in_tag)
        }
    }
}

/// Every non-overlapping occurrence of `from` replaced by `to`, scanning
/// left to right.
pub open spec fn replace_all(s: Seq<char>, from: Seq<char>, to: Seq<char>) -> Seq<char>
    decreases s.len(),
{
    if from.len() == 0 || s.len() < from.len() {
        s
    } else if s.take(from.len() as int) == from {
        to + replace_all(s.skip(from.len() as int), from, to)
    } else {
        seq![s[0]] + replace_all(s.drop_first(), from, to)
    }
}

/// What stripping leaves of a marked-up announcement body: tags removed,
/// then the common entities decoded, in this order.
pub open spec fn strip_html_text(s: Seq<char>) -> Seq<char> {
    let t0 = strip_tags_from(s, false);
    let t1 = replace_all(t0, "&amp;"@, "&"@);
    let t2 = replace_all(t1, "&lt;"@, "<"@);
    let t3 = replace_all(t2, "&gt;"@, ">"@);
    let t4 = replace_all(t3, "&nbsp;"@, " "@);
    let t5 = replace_all(t4, "&#39;"@, "'"@);
    replace_all(t5, "&quot;"@, "\""@)
}

fn strip_tags_exec(v: &Vec<char>) -> (r: Vec<char>)
    ensures
        r@ == strip_tags_from(v@, false),
{
    let mut out: Vec<char> = Vec::new();
    let mut in_tag = false;
    let mut i: usize = 0;
    proof {
        assert(v@.skip(0) =~= v@);
        assert(out@ + strip_tags_from(v@.skip(0), false) =~= strip_tags_from(v@, false));
    }
    while i < v.len()
        invariant
            i <= v@.len(),
            strip_tags_from(v@, false) == out@ + strip_tags_from(v@.skip(i as int), in_tag),
        decreases v@.len() - i,
    {
        let c = v[i];
        proof {
            assert(v@.skip(i as int)[0] == v@[i as int]);
            assert(v@.skip(i as int).drop_first() =~= v@.skip(i + 1));
        }
        let ghost prev = out@;
        if c == '<' {
            in_tag = true;
        } else if c == '>' {
            out.push(' ');
            in_tag = false;
            proof {
                assert(prev + (seq![' '] + strip_tags_from(v@.skip(i + 1), false)) =~= out@
                    + strip_tags_from(v@.skip(i + 1), false));
            }
        } else if !in_tag {
            out.push(c);
            proof {
                assert(prev + (seq![c] + strip_tags_from(v@.skip(i + 1), in_tag)) =~= out@
                    + strip_tags_from(v@.skip(i + 1), in_tag));
            }
        }
        i = i + 1;
    }
    proof {
        assert(v@.skip(v@.len() as int) =~= Seq::<char>::empty());
        assert(out@ + Seq::<char>::empty() =~= out@);
    }
    out
}

/// Whether `v[i..i + w.len()]` spells exactly `w`.
fn window_is(v: &Vec<char>, i: usize, w: &Vec<char>) -> (r: bool)
    requires
        i + w@.len() <= v@.len(),
    ensures
        r == (v@.subrange(i as int, i + w@.len()) == w@),
{
    let m = w.len();
    let vlen = v.len();
    let mut k: usize = 0;
    while k < m
        invariant
            k <= m == w@.len(),
            i + m <= vlen,
            vlen == v@.len(),
            forall|p: int| 0 <= p < k ==> v@[i + p] == w@[p],
        decreases m - k,
    {
        if v[i + k] != w[k] {
            proof {
                if v@.subrange(i as int, i + w@.len()) == w@ {
                    assert(v@.subrange(i as int, i + w@.len())[k as int] == v@[i + k]);
                }
            }
            return false;
        }
        k = k + 1;
    }
    proof {
        assert(v@.subrange(i as int, i + w@.len()) =~= w@);
    }
    true
}

fn replace_all_exec(v: &Vec<char>, from: &Vec<char>, to: &Vec<char>) -> (r: Vec<char>)
    requires
        from@.len() > 0,
    ensures
        r@ == replace_all(v@, from@, to@),
{
    let m = from.len();
    let mut out: Vec<char> = Vec::new();
    let mut i: usize = 0;
    proof {
        assert(v@.skip(0) =~= v@);
        assert(out@ + replace_all(v@.skip(0), from@, to@) =~= replace_all(v@, from@, to@));
    }
    while i < v.len()
        invariant
            i <= v@.len(),
            m == from@.len(),
            from@.len() > 0,
            replace_all(v@, from@, to@) == out@ + replace_all(v@.skip(i as int), from@, to@),
        decreases v@.len() - i,
    {
        let ghost prev = out@;
        let remaining = v.len() - i;
        if remaining >= m && window_is(v, i, from) {
            proof {
                assert(v@.skip(i as int).take(m as int) =~= v@.subrange(i as int, i + m));
                assert(v@.skip(i as int).skip(m as int) =~= v@.skip(i + m));
            }
            let mut k: usize = 0;
            while k < to.len()
                invariant
                    k <= to@.len(),
                    out@ == prev + to@.take(k as int),
                decreases to@.len() - k,
            {
                out.push(to[k]);
                k = k + 1;
                proof {
                    assert(prev + to@.take(k - 1) + seq![to@[k - 1]] =~= prev + to@.take(
                        k as int,
                    ));
                }
            }
            proof {
                assert(to@.take(to@.len() as int) =~= to@);
                assert(prev + (to@ + replace_all(v@.skip(i + m), from@, to@)) =~= out@
                    + replace_all(v@.skip(i + m), from@, to@));
            }
            i = i + m;
        } else {
            proof {
                assert(v@.skip(i as int)[0] == v@[i as int]);
                assert(v@.skip(i as int).drop_first() =~= v@.skip(i + 1));
                if v@.skip(i as int).len() >= from@.len() {
                    assert(v@.skip(i as int).take(m as int) =~= v@.subrange(i as int, i + m));
                }
            }
            out.push(v[i]);
            proof {
                assert(prev + (seq![v@[i as int]] + replace_all(v@.skip(i + 1), from@, to@))
                    =~= out@ + replace_all(v@.skip(i + 1), from@, to@));
            }
            i = i + 1;
        }
    }
    proof {
        assert(v@.skip(v@.len() as int) =~= Seq::<char>::empty());
        assert(out@ + Seq::<char>::empty() =~= out@);
    }
    out
}

/// Drop HTML tags from an announcement body and decode the common
/// entities, leaving plain text.
pub fn strip_html(input: &str) -> (r: String)
    ensures
        r@ == strip_html_text(input@),
{
    proof {
        reveal_strlit("&amp;");
        reveal_strlit("&lt;");
        reveal_strlit("&gt;");
        reveal_strlit("&nbsp;");
        reveal_strlit("&#39;");
        reveal_strlit("&quot;");
        reveal_strlit("&");
        reveal_strlit("<");
        reveal_strlit(">");
        reveal_strlit(" ");
        reveal_strlit("'");
        reveal_strlit("\"");
    }
    let s = str_chars(input);
    let t0 = strip_tags_exec(&s);
    let t1 = replace_all_exec(&t0, &str_chars("&amp;"), &str_chars("&"));
    let t2 = replace_all_exec(&t1, &str_chars("&lt;"), &str_chars("<"));
    let t3 = replace_all_exec(&t2, &str_chars("&gt;"), &str_chars(">"));
    let t4 = replace_all_exec(&t3, &str_chars("&nbsp;"), &str_chars(" "));
    let t5 = replace_all_exec(&t4, &str_chars("&#39;"), &str_chars("'"));
    let t6 = replace_all_exec(&t5, &str_chars("&quot;"), &str_chars("\""));
    chars_to_string(&t6)
}

} // verus!
