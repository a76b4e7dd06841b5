//! Numeric-literal parsing.
//!
//! A literal is an optional sign, an optional radix prefix (`0x`, `0o`,
//! `0b`, written in lower case, detected before the digits), and a
//! non-empty run of digits of that radix.  The sign, when a prefix is
//! present, stands after the prefix, as the underlying radix parser of
//! the standard library reads it.  A literal whose value does not fit a
//! signed 32-bit integer is malformed.

use vstd::prelude::*;
use vstd::slice::{slice_subrange, slice_to_vec};
use crate::err::{AsmError, SpecAsmError, res_view};
use crate::text::chars_of;

verus! {

/// The value of a digit in the given radix: `0`-`9`, then `a`-`f` or
/// `A`-`F` for ten to fifteen, accepted only below the radix.
pub open spec fn spec_digit_in_radix(c: char, radix: u32) -> Option<u32> {
    let raw: Option<u32> = if '0' <= c && c <= '9' {
        Some((c as u32 - '0' as u32) as u32)
    } else if 'a' <= c && c <= 'f' {
        Some((c as u32 - 'a' as u32 + 10) as u32)
    } else if 'A' <= c && c <= 'F' {
        Some((c as u32 - 'A' as u32 + 10) as u32)
    } else {
        None
    };
    match raw {
        Some(d) => if d < radix {
            Some(d)
        } else {
            None
        },
        None => None,
    }
}

/// Every character of `s` is a digit of the radix.
pub open spec fn spec_all_digits(s: Seq<char>, radix: u32) -> bool {
    forall|i: int| 0 <= i < s.len() ==> spec_digit_in_radix(s[i], radix) is Some
}

/// The value of one digit, defaulting to zero so that
/// [`spec_digits_val`] stays total.
pub open spec fn spec_digit_or_zero(c: char, radix: u32) -> u32 {
    match spec_digit_in_radix(c, radix) {
        Some(d) => d,
        None => 0u32,
    }
}

/// The unsigned value of a digit run, most significant digit first.
pub open spec fn spec_digits_val(s: Seq<char>, radix: u32) -> int
    decreases s.len(),
{
    if s.len() == 0 {
        0
    } else {
        spec_digits_val(s.drop_last(), radix) * radix + spec_digit_or_zero(s.last(), radix)
    }
}

/// A digit run never has a negative value.
pub proof fn lemma_digits_val_nonneg(s: Seq<char>, radix: u32)
    ensures
        spec_digits_val(s, radix) >= 0,
    decreases s.len(),
{
    if s.len() > 0 {
        lemma_digits_val_nonneg(s.drop_last(), radix);
        let p = spec_digits_val(s.drop_last(), radix);
        assert(p * radix >= 0) by (nonlinear_arith)
            requires
                p >= 0,
                radix >= 0,
        ;
    }
}

/// The signed value of a digit run with an optional leading `-` or `+`,
/// in the given radix; `None` when no digit follows the sign, when a
/// character is no digit of the radix, or when the value falls outside
/// the signed 32-bit range.
pub open spec fn spec_parse_radix(s: Seq<char>, radix: u32) -> Option<int> {
    let signed = s.len() > 0 && (s[0] == '-' || s[0] == '+');
    let neg = s.len() > 0 && s[0] == '-';
    let ds = if signed {
        s.skip(1)
    } else {
        s
    };
    if ds.len() > 0 && spec_all_digits(ds, radix) {
        let m = spec_digits_val(ds, radix);
        let v = if neg {
            -m
        } else {
            m
        };
        if -0x8000_0000 <= v <= 0x7fff_ffff {
            Some(v)
        } else {
            None
        }
    } else {
        None
    }
}

/// The value of a numeric literal: a `0x`, `0o` or `0b` prefix selects
/// radix 16, 8 or 2 for the rest; anything else is read as decimal.
pub open spec fn spec_parse_literal(s: Seq<char>) -> Option<int> {
    if s.len() >= 2 && s[0] == '0' && s[1] == 'x' {
        spec_parse_radix(s.skip(2), 16)
    } else if s.len() >= 2 && s[0] == '0' && s[1] == 'o' {
        spec_parse_radix(s.skip(2), 8)
    } else if s.len() >= 2 && s[0] == '0' && s[1] == 'b' {
        spec_parse_radix(s.skip(2), 2)
    } else {
        spec_parse_radix(s, 10)
    }
}

/// What literal parsing returns: the value, or `MalformedLiteral`
/// carrying the offending token.
pub open spec fn spec_parse_number(s: Seq<char>) -> Result<i32, SpecAsmError> {
    match spec_parse_literal(s) {
        Some(v) => Ok(v as i32),
        None => Err(SpecAsmError::MalformedLiteral(s)),
    }
}

fn digit_in_radix(c: char, radix: u32) -> (r: Option<u32>)
    ensures
        r == spec_digit_in_radix(c, radix),
{
    let raw: Option<u32> = if '0' <= c && c <= '9' {
        Some(c as u32 - '0' as u32)
    } else if 'a' <= c && c <= 'f' {
        Some(c as u32 - 'a' as u32 + 10)
    } else if 'A' <= c && c <= 'F' {
        Some(c as u32 - 'A' as u32 + 10)
    } else {
        None
    };
    match raw {
        Some(d) => if d < radix {
            Some(d)
        } else {
            None
        },
        None => None,
    }
}

/// Parses an optionally signed digit run in the given radix.
fn parse_radix(s: &[char], radix: u32) -> (r: Option<i32>)
    requires
        2 <= radix <= 16,
    ensures
        r is Some <==> spec_parse_radix(s@, radix) is Some,
        r matches Some(v) ==> spec_parse_radix(s@, radix) == Some(v as int),
{
    let neg = s.len() > 0 && s[0] == '-';
    let start: usize = if s.len() > 0 && (s[0] == '-' || s[0] == '+') {
        1
    } else {
        0
    };
    if start >= s.len() {
        return None;
    }
    let ghost ds = s@.skip(start as int);
    proof {
        if start == 0 {
            assert(ds =~= s@);
        }
    }
    let mut i: usize = start;
    let mut acc: u64 = 0;
    let mut too_big: bool = false;
    while i < s.len()
        invariant
            2 <= radix <= 16,
            start <= i <= s.len(),
            start < s@.len(),
            start == (if s@.len() > 0 && (s@[0] == '-' || s@[0] == '+') {
                1int
            } else {
                0int
            }),
            neg == (s@.len() > 0 && s@[0] == '-'),
            ds == s@.skip(start as int),
            start == 0 ==> ds == s@,
            spec_all_digits(s@.subrange(start as int, i as int), radix),
            !too_big ==> acc == spec_digits_val(s@.subrange(start as int, i as int), radix)
                && acc <= 0x8000_0000,
            too_big ==> spec_digits_val(s@.subrange(start as int, i as int), radix) > 0x8000_0000,
        decreases s.len() - i,
    {
        let ghost prefix = s@.subrange(start as int, i as int);
        let ghost prefix1 = s@.subrange(start as int, i as int + 1);
        proof {
            assert(prefix1.drop_last() =~= prefix);
            assert(prefix1.last() == s@[i as int]);
        }
        match digit_in_radix(s[i], radix) {
            None => {
                proof {
                    let j = i as int - start as int;
                    assert(ds[j] == s@[i as int]);
                    assert(spec_digit_in_radix(ds[j], radix) is None);
                    assert(!spec_all_digits(ds, radix));
                }
                return None;
            },
            Some(d) => {
                proof {
                    assert(spec_digits_val(prefix1, radix) == spec_digits_val(prefix, radix)
                        * radix + d);
                    assert(forall|j: int| 0 <= j < prefix1.len() ==> prefix1[j] == prefix1[j]);
                }
                if !too_big {
                    proof {
                        assert(acc * radix + d <= 0x8_0000_0000u64 * 16 + 16) by (nonlinear_arith)
                            requires
                                acc <= 0x1_0000_0000u64,
                                radix <= 16,
                                d <= 16,
                        ;
                    }
                    let next: u64 = acc * (radix as u64) + (d as u64);
                    if next > 0x8000_0000 {
                        too_big = true;
                    } else {
                        acc = next;
                    }
                } else {
                    proof {
                        let p = spec_digits_val(prefix, radix);
                        assert(p * radix + d > 0x8000_0000) by (nonlinear_arith)
                            requires
                                p > 0x8000_0000,
                                radix >= 2,
                                d >= 0,
                        ;
                    }
                }
                proof {
                    assert(spec_all_digits(prefix1, radix)) by {
                        assert(forall|j: int| 0 <= j < prefix.len() ==> prefix1[j] == prefix[j]);
                        assert(spec_digit_in_radix(prefix1[prefix1.len() - 1], radix) is Some);
                    }
                }
            },
        }
        i = i + 1;
    }
    proof {
        assert(s@.subrange(start as int, s@.len() as int) =~= ds);
        lemma_digits_val_nonneg(ds, radix);
    }
    if too_big {
        None
    } else {
        if neg {
            if acc >= 0x8000_0000 {
                Some(i32::MIN)
            } else {
                Some(-(acc as i32))
            }
        } else {
            if acc <= 0x7fff_ffff {
                Some(acc as i32)
            } else {
                None
            }
        }
    }
}

/// Parses a numeric literal token.  Succeeds exactly when
/// [`spec_parse_literal`] gives a value; on any other token it returns
/// `MalformedLiteral` carrying that token.
pub fn parse_number_chars(s: &[char]) -> (r: Result<i32, AsmError>)
    ensures
        res_view(r) == spec_parse_number(s@),
{
    let parsed: Option<i32> = if s.len() >= 2 && s[0] == '0' && s[1] == 'x' {
        parse_radix(slice_subrange(s, 2, s.len()), 16)
    } else if s.len() >= 2 && s[0] == '0' && s[1] == 'o' {
        parse_radix(slice_subrange(s, 2, s.len()), 8)
    } else if s.len() >= 2 && s[0] == '0' && s[1] == 'b' {
        parse_radix(slice_subrange(s, 2, s.len()), 2)
    } else {
        parse_radix(s, 10)
    };
    proof {
        assert(s@.subrange(2, s@.len() as int) =~= s@.skip(2));
    }
    match parsed {
        Some(v) => Ok(v),
        None => Err(AsmError::MalformedLiteral(slice_to_vec(s))),
    }
}

/// Parses a numeric literal given as a string slice.
pub fn parse_number(s: &str) -> (r: Result<i32, AsmError>)
    ensures
        res_view(r) == spec_parse_number(s@),
{
    let chars = chars_of(s);
    parse_number_chars(chars.as_slice())
}

} // verus!
