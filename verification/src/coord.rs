//! Coordinate token grammar.
//!
//! A vertex coordinate token is kept exactly when it matches the numeric
//! grammar that the standard library's single-precision `FromStr` parser
//! accepts: an optional sign, then either `inf`, `infinity` or `nan` in any
//! letter case, or a mantissa (digits with an optional fraction part, at
//! least one digit overall) followed by an optional exponent part
//! (`e`/`E`, an optional sign, one or more digits).

use crate::numbers::{all_digits, is_digit_char};
use vstd::prelude::*;

verus! {

/// The unit token appended as the homogeneous `w` component when a vertex
/// line carries exactly three coordinates.
pub open spec fn unit_token() -> Seq<char> {
    "1.0"@
}

pub(crate) fn make_unit_token() -> (r: String)
    ensures
        r@ == unit_token(),
{
    "1.0".to_owned()
}

pub open spec fn spec_strip_sign(s: Seq<char>) -> Seq<char> {
    if s.len() >= 1 && (s[0] == '+' || s[0] == '-') {
        s.drop_first()
    } else {
        s
    }
}

/// Code point of `c` with ASCII upper-case letters folded to lower case.
pub open spec fn lower_code(c: char) -> int {
    if 'A' <= c && c <= 'Z' {
        c as int + 32
    } else {
        c as int
    }
}

/// `s` equals the (lower-case) word `w` up to ASCII letter case.
pub open spec fn ci_matches(s: Seq<char>, w: Seq<char>) -> bool {
    s.len() == w.len() && (forall|i: int| 0 <= i < s.len() ==> lower_code(s[i]) == w[i] as int)
}

/// First index at or after `from` that does not carry a digit.
pub open spec fn digit_prefix_end(s: Seq<char>, from: int) -> int
    decreases s.len() - from,
{
    if 0 <= from && from < s.len() && is_digit_char(s[from]) {
        digit_prefix_end(s, from + 1)
    } else {
        from
    }
}

pub proof fn lemma_digit_prefix_end(s: Seq<char>, from: int)
    requires
        0 <= from <= s.len(),
    ensures
        from <= digit_prefix_end(s, from) <= s.len(),
        forall|j: int| from <= j < digit_prefix_end(s, from) ==> is_digit_char(s[j]),
        digit_prefix_end(s, from) < s.len() ==> !is_digit_char(s[digit_prefix_end(s, from)]),
    decreases s.len() - from,
{
    if from < s.len() && is_digit_char(s[from]) {
        lemma_digit_prefix_end(s, from + 1);
    }
}

/// The exponent tail after `e`/`E`: an optional sign, then one or more
/// digits.
pub open spec fn is_exp_tail(t: Seq<char>) -> bool {
    let u = spec_strip_sign(t);
    u.len() >= 1 && all_digits(u)
}

pub open spec fn is_exp_at(b: Seq<char>, k: int) -> bool {
    0 <= k < b.len() && (b[k] == 'e' || b[k] == 'E') && is_exp_tail(b.skip(k + 1))
}

/// An unsigned numeric token: digits with an optional fraction part (at
/// least one digit overall), then an optional exponent part.
pub open spec fn is_number_token(b: Seq<char>) -> bool {
    let d1 = digit_prefix_end(b, 0);
    if d1 == b.len() {
        d1 >= 1
    } else if b[d1] == '.' {
        let d2 = digit_prefix_end(b, d1 + 1);
        let digits = d1 + (d2 - d1 - 1);
        if d2 == b.len() {
            digits >= 1
        } else {
            digits >= 1 && is_exp_at(b, d2)
        }
    } else {
        d1 >= 1 && is_exp_at(b, d1)
    }
}

/// Whether a token is accepted as a vertex coordinate.
pub open spec fn spec_is_coord(s: Seq<char>) -> bool {
    let b = spec_strip_sign(s);
    ci_matches(b, "inf"@) || ci_matches(b, "infinity"@) || ci_matches(b, "nan"@)
        || is_number_token(b)
}

/// Code point of the character at `i`, upper-case letters folded.
fn lower_code_at(s: &str, i: usize) -> (r: u32)
    requires
        i < s@.len(),
    ensures
        r as int == lower_code(s@[i as int]),
{
    let c = s.get_char(i) as u32;
    if 65 <= c && c <= 90 {
        c + 32
    } else {
        c
    }
}

/// Compare `s[from..]` with the lower-case word `w`, folding letter case.
fn matches_word_ci(s: &str, from: usize, w: &str) -> (r: bool)
    requires
        from <= s@.len(),
    ensures
        r == ci_matches(s@.skip(from as int), w@),
{
    let n = s.unicode_len();
    let m = w.unicode_len();
    if n - from != m {
        return false;
    }
    let mut i: usize = 0;
    while i < m
        invariant
            0 <= i <= m,
            n == s@.len(),
            m == w@.len(),
            from + m == n,
            forall|j: int| 0 <= j < i ==> lower_code(s@[from + j]) == w@[j] as int,
        decreases m - i,
    {
        let cl = lower_code_at(s, from + i);
        let wc = w.get_char(i) as u32;
        if cl != wc {
            proof {
                assert(s@.skip(from as int)[i as int] == s@[from + i as int]);
            }
            return false;
        }
        i += 1;
    }
    proof {
        assert forall|j: int| 0 <= j < m implies lower_code(s@.skip(from as int)[j]) == w@[j]
            as int by {
            assert(s@.skip(from as int)[j] == s@[from + j]);
        }
    }
    true
}

/// First index at or after `from` that does not carry a digit.
fn scan_digits(s: &str, from: usize) -> (r: usize)
    requires
        from <= s@.len(),
    ensures
        r == digit_prefix_end(s@, from as int),
        from <= r <= s@.len(),
{
    let n = s.unicode_len();
    let mut i: usize = from;
    while i < n
        invariant
            from <= i <= n,
            n == s@.len(),
            digit_prefix_end(s@, from as int) == digit_prefix_end(s@, i as int),
        decreases n - i,
    {
        let c = s.get_char(i) as u32;
        if c < 48 || c > 57 {
            proof {
                assert(!is_digit_char(s@[i as int]));
            }
            return i;
        }
        proof {
            assert(is_digit_char(s@[i as int]));
        }
        i += 1;
    }
    i
}

/// The exponent part check, at the `e`/`E` candidate position `k`.
fn exp_at(s: &str, sgn: usize, k: usize) -> (r: bool)
    requires
        sgn <= k < s@.len(),
    ensures
        r == is_exp_at(s@.skip(sgn as int), k - sgn),
{
    let ghost b = s@.skip(sgn as int);
    proof {
        assert(b[k - sgn] == s@[k as int]);
    }
    let c = s.get_char(k);
    if c != 'e' && c != 'E' {
        return false;
    }
    let n = s.unicode_len();
    let e0 = k + 1;
    let es: usize = if e0 < n {
        let ce = s.get_char(e0);
        if ce == '+' || ce == '-' {
            e0 + 1
        } else {
            e0
        }
    } else {
        e0
    };
    let d3 = scan_digits(s, es);
    let r = d3 == n && d3 > es;
    proof {
        let t = b.skip(k - sgn + 1);
        assert(t =~= s@.skip(e0 as int));
        let u = spec_strip_sign(t);
        if e0 < n && (s@[e0 as int] == '+' || s@[e0 as int] == '-') {
            assert(t[0] == s@[e0 as int]);
            assert(u =~= s@.skip(es as int));
        } else {
            if t.len() >= 1 {
                assert(t[0] == s@[e0 as int]);
            }
            assert(u =~= s@.skip(es as int));
        }
        lemma_digit_prefix_end(s@, es as int);
        if r {
            assert forall|j: int| 0 <= j < u.len() implies is_digit_char(u[j]) by {
                assert(u[j] == s@[es + j]);
            }
            assert(is_exp_tail(t));
        } else {
            if u.len() >= 1 && all_digits(u) {
                assert(es < n);
                if d3 < n {
                    assert(u[d3 - es] == s@[d3 as int]);
                    assert(is_digit_char(s@[d3 as int]));
                    assert(false);
                }
            }
            assert(!is_exp_tail(t));
        }
    }
    r
}

/// Whether `s` is accepted as a vertex coordinate token.
pub fn is_coord_token(s: &str) -> (r: bool)
    ensures
        r == spec_is_coord(s@),
{
    let n = s.unicode_len();
    let sgn: usize = if n >= 1 {
        let c0 = s.get_char(0);
        if c0 == '+' || c0 == '-' {
            1
        } else {
            0
        }
    } else {
        0
    };
    let ghost b = spec_strip_sign(s@);
    proof {
        assert(b =~= s@.skip(sgn as int));
    }
    if matches_word_ci(s, sgn, "inf") || matches_word_ci(s, sgn, "infinity")
        || matches_word_ci(s, sgn, "nan") {
        return true;
    }
    let d1 = scan_digits(s, sgn);
    proof {
        lemma_dpe_shift(s@, sgn as int, sgn as int);
        lemma_digit_prefix_end(b, 0);
    }
    if d1 == n {
        return d1 - sgn >= 1;
    }
    proof {
        assert(b[d1 - sgn] == s@[d1 as int]);
    }
    let c1 = s.get_char(d1);
    if c1 == '.' {
        let d2 = scan_digits(s, d1 + 1);
        proof {
            lemma_dpe_shift(s@, sgn as int, d1 + 1 as int);
        }
        let digits = (d1 - sgn) + (d2 - d1 - 1);
        if d2 == n {
            return digits >= 1;
        }
        if digits == 0 {
            return false;
        }
        exp_at(s, sgn, d2)
    } else {
        if d1 - sgn == 0 {
            return false;
        }
        exp_at(s, sgn, d1)
    }
}

/// Scanning for digits commutes with dropping a prefix.
proof fn lemma_dpe_shift(s: Seq<char>, sgn: int, from: int)
    requires
        0 <= sgn <= from <= s.len(),
    ensures
        digit_prefix_end(s, from) - sgn == digit_prefix_end(s.skip(sgn), from - sgn),
    decreases s.len() - from,
{
    let b = s.skip(sgn);
    if from < s.len() {
        assert(b[from - sgn] == s[from]);
        if is_digit_char(s[from]) {
            lemma_dpe_shift(s, sgn, from + 1);
        }
    }
}

} // verus!
