//! Rendering an encoded word as eight lowercase hexadecimal digits,
//! the form both output modes print.

use vstd::prelude::*;

verus! {

/// The lowercase hexadecimal digit of a value below sixteen.
pub open spec fn spec_hex_digit(v: u32) -> char {
    if v < 10 {
        ((('0' as u8) + (v as u8)) as u8) as char
    } else {
        ((('a' as u8) + ((v - 10) as u8)) as u8) as char
    }
}

/// The eight hex digits of a 32-bit word, most significant first.
pub open spec fn spec_word_hex(w: u32) -> Seq<char> {
    Seq::new(8, |i: int| spec_hex_digit((w >> ((28 - 4 * i) as u32)) & 0xF))
}

fn hex_digit(v: u32) -> (c: char)
    requires
        v < 16,
    ensures
        c == spec_hex_digit(v),
{
    if v < 10 {
        (('0' as u8) + (v as u8)) as char
    } else {
        (('a' as u8) + ((v - 10) as u8)) as char
    }
}

/// Renders a word as its eight lowercase hex digits, most significant
/// first.
pub fn word_to_hex(w: u32) -> (v: Vec<char>)
    ensures
        v@ == spec_word_hex(w),
{
    let mut v: Vec<char> = Vec::new();
    let mut i: usize = 0;
    while i < 8
        invariant
            i <= 8,
            v@.len() == i,
            forall|j: int| 0 <= j < i ==> v@[j] == spec_word_hex(w)[j],
        decreases 8 - i,
    {
        let shift: u32 = 28 - 4 * (i as u32);
        let d = (w >> shift) & 0xF;
        proof {
            assert((w >> shift) & 0xF < 16) by (bit_vector);
        }
        v.push(hex_digit(d));
        i = i + 1;
    }
    proof {
        assert(v@ =~= spec_word_hex(w));
    }
    v
}

/// One body line of the initialization listing: the word's hex digits,
/// terminated by `;` on the last line and by `,` on every other.
pub open spec fn spec_coe_line(w: u32, last: bool) -> Seq<char> {
    spec_word_hex(w).push(
        if last {
            ';'
        } else {
            ','
        },
    )
}

/// Renders the body of an initialization listing: one line per word in
/// program order, comma-terminated but for the final semicolon.
pub fn coe_lines(words: &Vec<u32>) -> (v: Vec<Vec<char>>)
    ensures
        v@.len() == words@.len(),
        forall|i: int|
            0 <= i < words@.len() ==> v@[i]@ == spec_coe_line(
                words@[i],
                i == words@.len() - 1,
            ),
{
    let n = words.len();
    let mut v: Vec<Vec<char>> = Vec::new();
    let mut i: usize = 0;
    while i < n
        invariant
            i <= n,
            n == words@.len(),
            v@.len() == i,
            forall|j: int|
                0 <= j < i ==> v@[j]@ == spec_coe_line(words@[j], j == words@.len() - 1),
        decreases n - i,
    {
        let mut line = word_to_hex(words[i]);
        if i + 1 == n {
            line.push(';');
        } else {
            line.push(',');
        }
        v.push(line);
        i = i + 1;
    }
    v
}

} // verus!
