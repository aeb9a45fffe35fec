//! Verified base-ten integer parsing, matching the standard library's
//! `FromStr` behaviour for unsigned and signed 32-bit integers: one optional
//! sign, then one or more digits, rejected on any other character and on
//! overflow.

use vstd::prelude::*;

verus! {

pub open spec fn is_digit_char(c: char) -> bool {
    '0' <= c && c <= '9'
}

pub open spec fn all_digits(s: Seq<char>) -> bool {
    forall|i: int| 0 <= i < s.len() ==> is_digit_char(s[i])
}

pub open spec fn digit_val(c: char) -> int {
    c as int - '0' as int
}

/// Value of a digit string read in base ten.
pub open spec fn digits_val(s: Seq<char>) -> int
    decreases s.len(),
{
    if s.len() == 0 {
        0
    } else {
        digits_val(s.drop_last()) * 10 + digit_val(s.last())
    }
}

pub proof fn lemma_digits_val_nonneg(s: Seq<char>)
    requires
        all_digits(s),
    ensures
        digits_val(s) >= 0,
    decreases s.len(),
{
    if s.len() > 0 {
        lemma_digits_val_nonneg(s.drop_last());
    }
}

/// What parsing `s` as an unsigned 32-bit integer yields.
pub open spec fn spec_parse_u32(s: Seq<char>) -> Option<u32> {
    let body = if s.len() >= 1 && s[0] == '+' {
        s.drop_first()
    } else {
        s
    };
    if body.len() >= 1 && all_digits(body) && digits_val(body) <= u32::MAX {
        Some(digits_val(body) as u32)
    } else {
        None
    }
}

/// What parsing `s` as a signed 32-bit integer yields.
pub open spec fn spec_parse_i32(s: Seq<char>) -> Option<i32> {
    if s.len() >= 1 && s[0] == '-' {
        let body = s.drop_first();
        if body.len() >= 1 && all_digits(body) && digits_val(body) <= 0x8000_0000 {
            Some((-digits_val(body)) as i32)
        } else {
            None
        }
    } else {
        let body = if s.len() >= 1 && s[0] == '+' {
            s.drop_first()
        } else {
            s
        };
        if body.len() >= 1 && all_digits(body) && digits_val(body) <= i32::MAX {
            Some(digits_val(body) as i32)
        } else {
            None
        }
    }
}

/// Read the digit string `s[from..]` in base ten, refusing values above
/// `cap`, empty strings, and non-digit characters.
fn parse_digits(s: &str, from: usize, cap: u32) -> (r: Option<u32>)
    requires
        from <= s@.len(),
    ensures
        ({
            let body = s@.skip(from as int);
            r == (if body.len() >= 1 && all_digits(body) && digits_val(body) <= cap {
                Some(digits_val(body) as u32)
            } else {
                None::<u32>
            })
        }),
{
    let n = s.unicode_len();
    if from == n {
        return None;
    }
    let mut i: usize = from;
    let mut val: u64 = 0;
    let mut over: bool = false;
    proof {
        assert(s@.subrange(from as int, from as int) =~= Seq::<char>::empty());
    }
    while i < n
        invariant
            from <= i <= n,
            n == s@.len(),
            forall|j: int| from <= j < i ==> is_digit_char(s@[j]),
            !over ==> val == digits_val(s@.subrange(from as int, i as int)) && val <= cap,
            over ==> digits_val(s@.subrange(from as int, i as int)) > cap,
        decreases n - i,
    {
        let c = s.get_char(i);
        let code = c as u32;
        if code < 48 || code > 57 {
            proof {
                assert(!is_digit_char(s@[i as int]));
                assert(s@.skip(from as int)[i - from] == s@[i as int]);
                assert(!all_digits(s@.skip(from as int)));
            }
            return None;
        }
        let d: u64 = (code - 48) as u64;
        proof {
            let pre = s@.subrange(from as int, i as int);
            let cur = s@.subrange(from as int, i + 1 as int);
            assert(cur.drop_last() =~= pre);
            assert(cur.last() == s@[i as int]);
            assert(is_digit_char(s@[i as int]));
            assert(digit_val(s@[i as int]) == d);
            assert(digits_val(cur) == digits_val(pre) * 10 + d);
        }
        if over {
            proof {
                let pre = s@.subrange(from as int, i as int);
                assert(digits_val(pre) * 10 + d > cap);
            }
        } else {
            let next: u64 = val * 10 + d;
            if next > cap as u64 {
                over = true;
            } else {
                val = next;
            }
        }
        i += 1;
    }
    proof {
        assert(s@.subrange(from as int, n as int) =~= s@.skip(from as int));
    }
    if over {
        None
    } else {
        Some(val as u32)
    }
}

/// Parse an unsigned 32-bit integer, as `FromStr` does.
pub fn parse_u32_str(s: &str) -> (r: Option<u32>)
    ensures
        r == spec_parse_u32(s@),
{
    let n = s.unicode_len();
    let from: usize = if n >= 1 && s.get_char(0) == '+' {
        1
    } else {
        0
    };
    let r = parse_digits(s, from, u32::MAX);
    proof {
        if n >= 1 && s@[0] == '+' {
            assert(s@.skip(1) =~= s@.drop_first());
        } else {
            assert(s@.skip(0) =~= s@);
        }
        if r is Some {
            lemma_digits_val_nonneg(s@.skip(from as int));
        }
    }
    r
}

/// Parse a signed 32-bit integer, as `FromStr` does.
pub fn parse_i32_str(s: &str) -> (r: Option<i32>)
    ensures
        r == spec_parse_i32(s@),
{
    let n = s.unicode_len();
    if n >= 1 && s.get_char(0) == '-' {
        proof {
            assert(s@.skip(1) =~= s@.drop_first());
        }
        match parse_digits(s, 1, 0x8000_0000) {
            Some(mag) => {
                proof {
                    lemma_digits_val_nonneg(s@.skip(1));
                }
                let v: i64 = -(mag as i64);
                Some(v as i32)
            },
            None => None,
        }
    } else {
        let from: usize = if n >= 1 && s.get_char(0) == '+' {
            1
        } else {
            0
        };
        let r = parse_digits(s, from, 0x7FFF_FFFF);
        proof {
            if n >= 1 && s@[0] == '+' {
                assert(s@.skip(1) =~= s@.drop_first());
            } else {
                assert(s@.skip(0) =~= s@);
            }
            if r is Some {
                lemma_digits_val_nonneg(s@.skip(from as int));
            }
        }
        match r {
            Some(mag) => Some(mag as i32),
            None => None,
        }
    }
}

} // verus!
