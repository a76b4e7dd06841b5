//! Register-name resolution.
//!
//! A register operand is either the raw numeric form `x0`..`x31` or one
//! of the standard ABI aliases (`zero`, `ra`, `sp`, `gp`, `tp`,
//! `t0`..`t6`, `s0`..`s11`/`fp`, `a0`..`a7`).  Matching is
//! case-sensitive and exact: no leading zeros, no surrounding
//! whitespace.  Every accepted name maps to exactly one index in
//! [0, 31]; anything else is an `UnknownRegister` error.

use vstd::prelude::*;
use vstd::slice::{slice_subrange, slice_to_vec};
use crate::err::{AsmError, SpecAsmError, res_view};
use crate::text::chars_of;

verus! {

/// The value of a decimal digit, or `None` for any other character.
pub open spec fn spec_digit(c: char) -> Option<u32> {
    if '0' <= c && c <= '9' {
        Some((c as u32 - '0' as u32) as u32)
    } else {
        None
    }
}

/// A register name's numeric suffix: one digit, or two digits without a
/// leading zero.  Longer suffixes never name a register in [0, 31].
pub open spec fn spec_reg_suffix(s: Seq<char>) -> Option<u32> {
    if s.len() == 1 {
        spec_digit(s[0])
    } else if s.len() == 2 {
        match (spec_digit(s[0]), spec_digit(s[1])) {
            (Some(a), Some(b)) => if 1 <= a {
                Some((10 * a + b) as u32)
            } else {
                None
            },
            _ => None,
        }
    } else {
        None
    }
}

/// The 5-bit index a register mnemonic resolves to, or `None` for an
/// unknown name.
pub open spec fn spec_reg_index(s: Seq<char>) -> Option<u32> {
    if s.len() == 4 && s[0] == 'z' && s[1] == 'e' && s[2] == 'r' && s[3] == 'o' {
        Some(0u32)
    } else if s.len() == 2 && s[0] == 'r' && s[1] == 'a' {
        Some(1u32)
    } else if s.len() == 2 && s[0] == 's' && s[1] == 'p' {
        Some(2u32)
    } else if s.len() == 2 && s[0] == 'g' && s[1] == 'p' {
        Some(3u32)
    } else if s.len() == 2 && s[0] == 't' && s[1] == 'p' {
        Some(4u32)
    } else if s.len() == 2 && s[0] == 'f' && s[1] == 'p' {
        Some(8u32)
    } else if s.len() >= 1 && s[0] == 'x' {
        match spec_reg_suffix(s.skip(1)) {
            Some(n) => if n <= 31 {
                Some(n)
            } else {
                None
            },
            None => None,
        }
    } else if s.len() >= 1 && s[0] == 't' {
        match spec_reg_suffix(s.skip(1)) {
            Some(n) => if n <= 2 {
                Some((5 + n) as u32)
            } else if n <= 6 {
                Some((25 + n) as u32)
            } else {
                None
            },
            None => None,
        }
    } else if s.len() >= 1 && s[0] == 's' {
        match spec_reg_suffix(s.skip(1)) {
            Some(n) => if n <= 1 {
                Some((8 + n) as u32)
            } else if n <= 11 {
                Some((16 + n) as u32)
            } else {
                None
            },
            None => None,
        }
    } else if s.len() >= 1 && s[0] == 'a' {
        match spec_reg_suffix(s.skip(1)) {
            Some(n) => if n <= 7 {
                Some((10 + n) as u32)
            } else {
                None
            },
            None => None,
        }
    } else {
        None
    }
}

/// What register resolution returns: the index, or `UnknownRegister`
/// carrying the offending token.
pub open spec fn spec_reg_num(s: Seq<char>) -> Result<u32, SpecAsmError> {
    match spec_reg_index(s) {
        Some(n) => Ok(n),
        None => Err(SpecAsmError::UnknownRegister(s)),
    }
}

fn digit_of(c: char) -> (r: Option<u32>)
    ensures
        r == spec_digit(c),
{
    if '0' <= c && c <= '9' {
        Some(c as u32 - '0' as u32)
    } else {
        None
    }
}

fn reg_suffix(s: &[char]) -> (r: Option<u32>)
    ensures
        r == spec_reg_suffix(s@),
{
    if s.len() == 1 {
        digit_of(s[0])
    } else if s.len() == 2 {
        match (digit_of(s[0]), digit_of(s[1])) {
            (Some(a), Some(b)) => if 1 <= a {
                Some(10 * a + b)
            } else {
                None
            },
            _ => None,
        }
    } else {
        None
    }
}

/// Resolves a register token to its 5-bit index.  Succeeds exactly on
/// the names [`spec_reg_index`] accepts; on any other token it returns
/// `UnknownRegister` carrying that token.
pub fn reg_num(s: &[char]) -> (r: Result<u32, AsmError>)
    ensures
        res_view(r) == spec_reg_num(s@),
        r matches Ok(n) ==> n < 32,
{
    proof {
        lemma_reg_index_bound(s@);
    }
    if s.len() == 4 && s[0] == 'z' && s[1] == 'e' && s[2] == 'r' && s[3] == 'o' {
        Ok(0)
    } else if s.len() == 2 && s[0] == 'r' && s[1] == 'a' {
        Ok(1)
    } else if s.len() == 2 && s[0] == 's' && s[1] == 'p' {
        Ok(2)
    } else if s.len() == 2 && s[0] == 'g' && s[1] == 'p' {
        Ok(3)
    } else if s.len() == 2 && s[0] == 't' && s[1] == 'p' {
        Ok(4)
    } else if s.len() == 2 && s[0] == 'f' && s[1] == 'p' {
        Ok(8)
    } else if s.len() >= 1 && s[0] == 'x' {
        match reg_suffix(slice_subrange(s, 1, s.len())) {
            Some(n) => if n <= 31 {
                Ok(n)
            } else {
                Err(AsmError::UnknownRegister(slice_to_vec(s)))
            },
            None => Err(AsmError::UnknownRegister(slice_to_vec(s))),
        }
    } else if s.len() >= 1 && s[0] == 't' {
        match reg_suffix(slice_subrange(s, 1, s.len())) {
            Some(n) => if n <= 2 {
                Ok(5 + n)
            } else if n <= 6 {
                Ok(25 + n)
            } else {
                Err(AsmError::UnknownRegister(slice_to_vec(s)))
            },
            None => Err(AsmError::UnknownRegister(slice_to_vec(s))),
        }
    } else if s.len() >= 1 && s[0] == 's' {
        match reg_suffix(slice_subrange(s, 1, s.len())) {
            Some(n) => if n <= 1 {
                Ok(8 + n)
            } else if n <= 11 {
                Ok(16 + n)
            } else {
                Err(AsmError::UnknownRegister(slice_to_vec(s)))
            },
            None => Err(AsmError::UnknownRegister(slice_to_vec(s))),
        }
    } else if s.len() >= 1 && s[0] == 'a' {
        match reg_suffix(slice_subrange(s, 1, s.len())) {
            Some(n) => if n <= 7 {
                Ok(10 + n)
            } else {
                Err(AsmError::UnknownRegister(slice_to_vec(s)))
            },
            None => Err(AsmError::UnknownRegister(slice_to_vec(s))),
        }
    } else {
        Err(AsmError::UnknownRegister(slice_to_vec(s)))
    }
}

/// A resolved register index always fits the 5-bit field.
pub proof fn lemma_reg_index_bound(s: Seq<char>)
    ensures
        spec_reg_index(s) matches Some(n) ==> n < 32,
{
}

/// Resolves a register mnemonic given as a string slice.
pub fn reg_name_to_num(reg_name: &str) -> (r: Result<u32, AsmError>)
    ensures
        res_view(r) == spec_reg_num(reg_name@),
        r matches Ok(n) ==> n < 32,
{
    let chars = chars_of(reg_name);
    reg_num(chars.as_slice())
}

} // verus!
