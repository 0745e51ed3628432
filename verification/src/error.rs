//! Error taxonomy of the remote API, and the interpretation of HTTP
//! response statuses into it.

use vstd::prelude::*;

verus! {

/// What a failed call against the remote API means. `RateLimited` carries
/// the announced wait in milliseconds (1000 when the server names none).
#[derive(Debug, Clone, PartialEq)]
pub enum CanvasError {
    /// 401: the bearer token was not accepted.
    Unauthorized,
    /// 403: the token lacks the permission.
    Forbidden,
    /// 429: asked to come back after `retry_after_millis` milliseconds.
    RateLimited { retry_after_millis: u64 },
    /// Any other 4xx/5xx, with the response body.
    Api { status: u16, message: String },
    /// The transport failed before any status arrived.
    Network { message: String },
    /// A local failure: file access, a malformed URL, a bad response shape.
    Other { message: String },
}

/// The one-line text of an error, as the status bar shows it.
pub open spec fn error_text(e: CanvasError) -> Seq<char> {
    match e {
        CanvasError::Unauthorized => "Unauthorized - check your API token"@,
        CanvasError::Forbidden => "Forbidden - insufficient permissions"@,
        CanvasError::RateLimited { retry_after_millis } => "Rate limited - retry after "@
            + crate::strutil::tenths_fixed1((retry_after_millis / 100) as nat) + "s"@,
        CanvasError::Api { status, message } => "HTTP "@ + crate::strutil::dec_digits(
            status as nat,
        ) + ": "@ + message@,
        CanvasError::Network { message } => "Network error: "@ + message@,
        CanvasError::Other { message } => message@,
    }
}

impl CanvasError {
    /// One line of text describing the error. The rate-limit wait prints
    /// in seconds at one decimal place, truncated.
    pub fn describe(&self) -> (r: String)
        ensures
            r@ == error_text(*self),
    {
        match self {
            CanvasError::Unauthorized => String::from_str("Unauthorized - check your API token"),
            CanvasError::Forbidden => String::from_str("Forbidden - insufficient permissions"),
            CanvasError::RateLimited { retry_after_millis } => {
                let mut r = String::from_str("Rate limited - retry after ");
                let secs = crate::strutil::fmt_tenths_fixed1(*retry_after_millis / 100);
                r.append(secs.as_str());
                r.append("s");
                proof {
                    assert(r@ =~= error_text(*self));
                }
                r
            },
            CanvasError::Api { status, message } => {
                let mut r = String::from_str("HTTP ");
                let st = crate::strutil::u64_to_string(*status as u64);
                r.append(st.as_str());
                r.append(": ");
                r.append(message.as_str());
                proof {
                    assert(r@ =~= error_text(*self));
                }
                r
            },
            CanvasError::Network { message } => {
                let mut r = String::from_str("Network error: ");
                r.append(message.as_str());
                proof {
                    assert(r@ =~= error_text(*self));
                }
                r
            },
            CanvasError::Other { message } => message.clone(),
        }
    }
}

// ─── Parsing the retry-after header ─────────────────────────────────────

pub open spec fn is_digit(c: char) -> bool {
    c == '0' || c == '1' || c == '2' || c == '3' || c == '4' || c == '5' || c == '6' || c == '7'
        || c == '8' || c == '9'
}

pub open spec fn digit_val(c: char) -> nat {
    if c == '0' {
        0
    } else if c == '1' {
        1
    } else if c == '2' {
        2
    } else if c == '3' {
        3
    } else if c == '4' {
        4
    } else if c == '5' {
        5
    } else if c == '6' {
        6
    } else if c == '7' {
        7
    } else if c == '8' {
        8
    } else {
        9
    }
}

pub open spec fn all_digits(s: Seq<char>) -> bool {
    forall|i: int| 0 <= i < s.len() ==> is_digit(s[i])
}

/// The number a digit string spells.
pub open spec fn digits_val(s: Seq<char>) -> nat
    decreases s.len(),
{
    if s.len() == 0 {
        0
    } else {
        digits_val(s.drop_last()) * 10 + digit_val(s.last())
    }
}

/// Index of the first `.`, or the length when absent.
pub open spec fn dot_index(s: Seq<char>) -> nat {
    crate::pagination::first_index_of(s, '.')
}

/// A decimal of the shape `digits` or `digits.digits*`: at least one
/// integer digit, an optional fraction, nothing else.
pub open spec fn is_decimal(s: Seq<char>) -> bool {
    let i = dot_index(s);
    if i < s.len() {
        i > 0 && all_digits(s.take(i as int)) && all_digits(s.skip(i + 1 as int))
    } else {
        s.len() > 0 && all_digits(s)
    }
}

/// The milliseconds a fraction's digits contribute: the first three
/// places, further places truncated.
pub open spec fn frac_millis(s: Seq<char>) -> nat {
    let d0: nat = if s.len() > 0 {
        digit_val(s[0])
    } else {
        0
    };
    let d1: nat = if s.len() > 1 {
        digit_val(s[1])
    } else {
        0
    };
    let d2: nat = if s.len() > 2 {
        digit_val(s[2])
    } else {
        0
    };
    d0 * 100 + d1 * 10 + d2
}

/// The value of a decimal string in milliseconds.
pub open spec fn decimal_millis(s: Seq<char>) -> nat {
    let i = dot_index(s);
    if i < s.len() {
        digits_val(s.take(i as int)) * 1000 + frac_millis(s.skip(i + 1 as int))
    } else {
        digits_val(s) * 1000
    }
}

/// What a retry-after header value parses to: the announced seconds in
/// milliseconds, truncated past the third decimal place; nothing when the
/// value is not a plain decimal or does not fit.
pub open spec fn retry_after_millis_of(s: Seq<char>) -> Option<u64> {
    if is_decimal(s) && decimal_millis(s) <= u64::MAX {
        Some(decimal_millis(s) as u64)
    } else {
        None
    }
}

/// The wait a rate-limited response carries: the parsed header value, or
/// 1000 milliseconds when the header is absent or unparsable.
pub open spec fn retry_after_or_default(h: Option<Seq<char>>) -> u64 {
    match h {
        None => 1000,
        Some(s) => match retry_after_millis_of(s) {
            Some(m) => m,
            None => 1000,
        },
    }
}

pub(crate) fn digit_of(c: char) -> (r: Option<u64>)
    ensures
        r is Some <==> is_digit(c),
        r is Some ==> r->0 == digit_val(c) && r->0 < 10,
{
    match c {
        '0' => Some(0),
        '1' => Some(1),
        '2' => Some(2),
        '3' => Some(3),
        '4' => Some(4),
        '5' => Some(5),
        '6' => Some(6),
        '7' => Some(7),
        '8' => Some(8),
        '9' => Some(9),
        _ => None,
    }
}

proof fn lemma_digits_val_step(s: Seq<char>, k: int)
    requires
        0 <= k < s.len(),
    ensures
        digits_val(s.take(k + 1)) == digits_val(s.take(k)) * 10 + digit_val(s[k]),
{
    assert(s.take(k + 1).drop_last() =~= s.take(k));
    assert(s.take(k + 1).last() == s[k]);
}

/// A longer digit string never spells a smaller number.
proof fn lemma_digits_val_prefix(s: Seq<char>, k: int)
    requires
        0 <= k <= s.len(),
    ensures
        digits_val(s.take(k)) <= digits_val(s),
    decreases s.len() - k,
{
    if k == s.len() {
        assert(s.take(k) =~= s);
    } else {
        lemma_digits_val_step(s, k);
        lemma_digits_val_prefix(s, k + 1);
    }
}

/// Parse a digit string `v[lo..hi]` as a number, reporting `None` exactly
/// when a character is not a digit or the value does not fit.
pub(crate) fn parse_digits(v: &Vec<char>, lo: usize, hi: usize) -> (r: Option<u64>)
    requires
        lo <= hi <= v@.len(),
    ensures
        ({
            let s = v@.subrange(lo as int, hi as int);
            if all_digits(s) && digits_val(s) <= u64::MAX {
                r == Some(digits_val(s) as u64)
            } else {
                r is None
            }
        }),
{
    let ghost s = v@.subrange(lo as int, hi as int);
    let mut acc: u64 = 0;
    let mut k: usize = lo;
    while k < hi
        invariant
            lo <= k <= hi <= v@.len(),
            s == v@.subrange(lo as int, hi as int),
            all_digits(s.take(k - lo)),
            acc == digits_val(s.take(k - lo)),
        decreases hi - k,
    {
        let d = match digit_of(v[k]) {
            Some(d) => d,
            None => {
                proof {
                    assert(s[k - lo] == v@[k as int]);
                    assert(!is_digit(s[k - lo]));
                }
                return None;
            },
        };
        proof {
            assert(s[k - lo] == v@[k as int]);
            lemma_digits_val_step(s, k - lo);
            assert(s.take(k - lo + 1).drop_last() =~= s.take(k - lo));
        }
        if acc > (u64::MAX - d) / 10 {
            proof {
                assert(digits_val(s.take(k - lo + 1)) == acc * 10 + digit_val(s[k - lo]));
                assert(acc * 10 + d > u64::MAX) by (nonlinear_arith)
                    requires
                        acc > (u64::MAX - d) / 10,
                        d < 10,
                ;
                lemma_digits_val_prefix(s, k - lo + 1);
            }
            return None;
        }
        proof {
            assert(acc * 10 + d <= u64::MAX) by (nonlinear_arith)
                requires
                    acc <= (u64::MAX - d) / 10,
                    d < 10,
            ;
            assert(all_digits(s.take(k - lo + 1))) by {
                assert(forall|i: int|
                    0 <= i < k - lo ==> #[trigger] s.take(k - lo + 1)[i] == s.take(k - lo)[i]);
                assert(s.take(k - lo + 1)[k - lo] == s[k - lo]);
            }
        }
        acc = acc * 10 + d;
        k = k + 1;
    }
    proof {
        assert(s.take(k - lo) =~= s);
    }
    Some(acc)
}

/// Parse a retry-after header value: a plain decimal number of seconds,
/// yielded in milliseconds.
pub fn parse_retry_after(h: &str) -> (r: Option<u64>)
    ensures
        r == retry_after_millis_of(h@),
{
    let v = crate::strutil::str_chars(h);
    let n = v.len();
    let dot = crate::pagination::first_index_of_exec(&v, '.');
    proof {
        assert(v@.subrange(0, n as int) =~= v@);
    }
    if dot == n {
        if n == 0 {
            return None;
        }
        let iv = match parse_digits(&v, 0, n) {
            Some(x) => x,
            None => {
                return None;
            },
        };
        proof {
            assert(decimal_millis(h@) == digits_val(v@) * 1000);
        }
        if iv > u64::MAX / 1000 {
            proof {
                assert(iv * 1000 > u64::MAX) by (nonlinear_arith)
                    requires
                        iv > u64::MAX / 1000,
                ;
            }
            return None;
        }
        proof {
            assert(iv * 1000 <= u64::MAX) by (nonlinear_arith)
                requires
                    iv <= u64::MAX / 1000,
            ;
        }
        Some(iv * 1000)
    } else {
        if dot == 0 {
            return None;
        }
        let iv = match parse_digits(&v, 0, dot) {
            Some(x) => x,
            None => {
                proof {
                    assert(v@.subrange(0, dot as int) == v@.take(dot as int));
                }
                return None;
            },
        };
        proof {
            assert(v@.subrange(0, dot as int) == v@.take(dot as int));
        }
        // the fraction must be digits throughout; its first three places count
        let ghost frac = v@.skip(dot + 1);
        let mut fm: u64 = 0;
        let mut k: usize = dot + 1;
        // check every fraction digit
        while k < n
            invariant
                dot + 1 <= k <= n == v@.len(),
                v@ == h@,
                dot < n,
                dot as nat == crate::pagination::first_index_of(v@, '.'),
                frac == v@.skip(dot + 1),
                all_digits(frac.take(k - dot - 1)),
            decreases n - k,
        {
            if digit_of(v[k]).is_none() {
                proof {
                    assert(frac[k - dot - 1] == v@[k as int]);
                    assert(!all_digits(frac));
                    assert(!is_decimal(h@));
                }
                return None;
            }
            proof {
                assert(frac[k - dot - 1] == v@[k as int]);
                assert(forall|i: int|
                    0 <= i < k - dot - 1 ==> #[trigger] frac.take(k - dot)[i] == frac.take(
                    k - dot - 1)[i]);
                assert(frac.take(k - dot)[k - dot - 1] == frac[k - dot - 1]);
            }
            k = k + 1;
        }
        proof {
            assert(frac.take(n - dot - 1) =~= frac);
        }
        let d0: u64 = if n - dot > 1 {
            match digit_of(v[dot + 1]) {
                Some(d) => d,
                None => 0,
            }
        } else {
            0
        };
        let d1: u64 = if n - dot > 2 {
            match digit_of(v[dot + 2]) {
                Some(d) => d,
                None => 0,
            }
        } else {
            0
        };
        let d2: u64 = if n - dot > 3 {
            match digit_of(v[dot + 3]) {
                Some(d) => d,
                None => 0,
            }
        } else {
            0
        };
        fm = d0 * 100 + d1 * 10 + d2;
        proof {
            assert(fm == frac_millis(frac)) by {
                if dot + 1 < n {
                    assert(frac[0] == v@[dot + 1]);
                }
                if dot + 2 < n {
                    assert(frac[1] == v@[dot + 2]);
                }
                if dot + 3 < n {
                    assert(frac[2] == v@[dot + 3]);
                }
            }
            assert(decimal_millis(h@) == digits_val(v@.take(dot as int)) * 1000 + frac_millis(
                frac,
            ));
        }
        if iv > (u64::MAX - fm) / 1000 {
            proof {
                assert(iv * 1000 + fm > u64::MAX) by (nonlinear_arith)
                    requires
                        iv > (u64::MAX - fm) / 1000,
                        fm <= 999,
                ;
            }
            return None;
        }
        proof {
            assert(iv * 1000 + fm <= u64::MAX) by (nonlinear_arith)
                requires
                    iv <= (u64::MAX - fm) / 1000,
                    fm <= 999,
            ;
        }
        Some(iv * 1000 + fm)
    }
}

// ─── Status interpretation ──────────────────────────────────────────────

/// The characters of an optional header value.
pub open spec fn view_opt_str(o: Option<&str>) -> Option<Seq<char>> {
    match o {
        Some(s) => Some(s@),
        None => None,
    }
}

/// Interpret an HTTP response status: 401 is `Unauthorized`, 403 is
/// `Forbidden`, 429 is `RateLimited` with the retry-after header's wait,
/// any other 4xx/5xx is `Api` carrying the status and the response body,
/// and everything else passes.
pub fn check_status(status: u16, retry_after: Option<&str>, body: String) -> (r: Result<
    (),
    CanvasError,
>)
    ensures
        r is Ok <==> !(400 <= status < 600),
        status == 401 ==> r == Result::<(), CanvasError>::Err(CanvasError::Unauthorized),
        status == 403 ==> r == Result::<(), CanvasError>::Err(CanvasError::Forbidden),
        status == 429 ==> r == Result::<(), CanvasError>::Err(
            CanvasError::RateLimited {
                retry_after_millis: retry_after_or_default(view_opt_str(retry_after)),
            },
        ),
        400 <= status < 600 && status != 401 && status != 403 && status != 429 ==> r
            == Result::<(), CanvasError>::Err(CanvasError::Api { status, message: body }),
{
    if status == 401 {
        Err(CanvasError::Unauthorized)
    } else if status == 403 {
        Err(CanvasError::Forbidden)
    } else if status == 429 {
        let millis = match retry_after {
            None => 1000,
            Some(h) => match parse_retry_after(h) {
                Some(m) => m,
                None => 1000,
            },
        };
        Err(CanvasError::RateLimited { retry_after_millis: millis })
    } else if 400 <= status && status < 600 {
        Err(CanvasError::Api { status, message: body })
    } else {
        Ok(())
    }
}

} // verus!
