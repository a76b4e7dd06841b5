//! The instruction table and the mnemonic dispatcher.
//!
//! Each base-ISA mnemonic maps to a small record: its format, its
//! opcode, and its fixed funct3/funct7 constants.  One generic
//! dispatcher per format consults the record, resolves the register
//! operands it needs, and hands the fields to the format encoder.
//!
//! The shift-immediate mnemonics (`slli`, `srli`, `srai`) constrain the
//! immediate to a 5-bit shift amount; `srai` additionally folds the
//! arithmetic-shift discriminator (bit 10 of the 12-bit I-immediate)
//! into the immediate operand rather than treating it as a separate
//! funct7 field.

use vstd::prelude::*;
use vstd::slice::slice_to_vec;
use crate::encode::{
    spec_r_word, spec_i_word, spec_s_word, spec_b_word, spec_u_word, spec_j_word, encode_r_type,
    encode_i_type, encode_s_type, encode_b_type, encode_u_type, encode_j_type,
};
use crate::err::{AsmError, SpecAsmError, res_view};
use crate::registers::{spec_reg_index, reg_num};
use crate::text::chars_of;

verus! {

/// One of the six RV32I instruction formats.
pub enum InstrFormat {
    R,
    I,
    S,
    B,
    U,
    J,
}

/// How an I-format immediate is prepared before packing: taken as
/// given, masked to a 5-bit shift amount, or masked and marked with the
/// arithmetic-shift discriminator bit.
pub enum ShiftKind {
    NoShift,
    Logical,
    Arith,
}

/// An instruction table record: the fixed constants one mnemonic
/// encodes with.
pub struct InstrInfo {
    pub format: InstrFormat,
    pub opcode: u32,
    pub funct3: u32,
    pub funct7: u32,
    pub shift: ShiftKind,
}

/// The record of an R-format mnemonic; the shared opcode is 0110011.
pub open spec fn r_info(funct7: u32, funct3: u32) -> InstrInfo {
    InstrInfo {
        format: InstrFormat::R,
        opcode: 0b0110011,
        funct3: funct3,
        funct7: funct7,
        shift: ShiftKind::NoShift,
    }
}

/// The record of an I-format mnemonic with an unconstrained immediate.
pub open spec fn i_info(opcode: u32, funct3: u32) -> InstrInfo {
    InstrInfo {
        format: InstrFormat::I,
        opcode: opcode,
        funct3: funct3,
        funct7: 0,
        shift: ShiftKind::NoShift,
    }
}

/// The record of a shift-immediate mnemonic; the shared opcode is 0010011.
pub open spec fn shift_info(funct3: u32, shift: ShiftKind) -> InstrInfo {
    InstrInfo {
        format: InstrFormat::I,
        opcode: 0b0010011,
        funct3: funct3,
        funct7: 0,
        shift: shift,
    }
}

/// The record of a store mnemonic; the shared opcode is 0100011.
pub open spec fn s_info(funct3: u32) -> InstrInfo {
    InstrInfo {
        format: InstrFormat::S,
        opcode: 0b0100011,
        funct3: funct3,
        funct7: 0,
        shift: ShiftKind::NoShift,
    }
}

/// The record of a branch mnemonic; the shared opcode is 1100011.
pub open spec fn b_info(funct3: u32) -> InstrInfo {
    InstrInfo {
        format: InstrFormat::B,
        opcode: 0b1100011,
        funct3: funct3,
        funct7: 0,
        shift: ShiftKind::NoShift,
    }
}

/// The record of a U-format mnemonic.
pub open spec fn u_info(opcode: u32) -> InstrInfo {
    InstrInfo {
        format: InstrFormat::U,
        opcode: opcode,
        funct3: 0,
        funct7: 0,
        shift: ShiftKind::NoShift,
    }
}

/// The record of the one J-format mnemonic, `jal`.
pub open spec fn j_info() -> InstrInfo {
    InstrInfo {
        format: InstrFormat::J,
        opcode: 0b1101111,
        funct3: 0,
        funct7: 0,
        shift: ShiftKind::NoShift,
    }
}

/// `s` is the one-character word `a`.
pub open spec fn is1(s: Seq<char>, a: char) -> bool {
    s.len() == 1 && s[0] == a
}

/// `s` is the two-character word `ab`.
pub open spec fn is2(s: Seq<char>, a: char, b: char) -> bool {
    s.len() == 2 && s[0] == a && s[1] == b
}

/// `s` is the three-character word `abc`.
pub open spec fn is3(s: Seq<char>, a: char, b: char, c: char) -> bool {
    s.len() == 3 && s[0] == a && s[1] == b && s[2] == c
}

/// `s` is the four-character word `abcd`.
pub open spec fn is4(s: Seq<char>, a: char, b: char, c: char, d: char) -> bool {
    s.len() == 4 && s[0] == a && s[1] == b && s[2] == c && s[3] == d
}

/// `s` is the five-character word `abcde`.
pub open spec fn is5(s: Seq<char>, a: char, b: char, c: char, d: char, e: char) -> bool {
    s.len() == 5 && s[0] == a && s[1] == b && s[2] == c && s[3] == d && s[4] == e
}

/// The instruction table: the record a mnemonic encodes with, or
/// `None` for a mnemonic outside the base set.
pub open spec fn spec_instr_info(m: Seq<char>) -> Option<InstrInfo> {
    if is3(m, 'a', 'd', 'd') {
        Some(r_info(0b0000000, 0b000))
    } else if is3(m, 's', 'u', 'b') {
        Some(r_info(0b0100000, 0b000))
    } else if is3(m, 'a', 'n', 'd') {
        Some(r_info(0b0000000, 0b111))
    } else if is2(m, 'o', 'r') {
        Some(r_info(0b0000000, 0b110))
    } else if is3(m, 'x', 'o', 'r') {
        Some(r_info(0b0000000, 0b100))
    } else if is3(m, 's', 'l', 'l') {
        Some(r_info(0b0000000, 0b001))
    } else if is3(m, 's', 'r', 'l') {
        Some(r_info(0b0000000, 0b101))
    } else if is3(m, 's', 'r', 'a') {
        Some(r_info(0b0100000, 0b101))
    } else if is3(m, 's', 'l', 't') {
        Some(r_info(0b0000000, 0b010))
    } else if is4(m, 's', 'l', 't', 'u') {
        Some(r_info(0b0000000, 0b011))
    } else if is4(m, 'a', 'd', 'd', 'i') {
        Some(i_info(0b0010011, 0b000))
    } else if is4(m, 'a', 'n', 'd', 'i') {
        Some(i_info(0b0010011, 0b111))
    } else if is3(m, 'o', 'r', 'i') {
        Some(i_info(0b0010011, 0b110))
    } else if is4(m, 'x', 'o', 'r', 'i') {
        Some(i_info(0b0010011, 0b100))
    } else if is4(m, 's', 'l', 'l', 'i') {
        Some(shift_info(0b001, ShiftKind::Logical))
    } else if is4(m, 's', 'r', 'l', 'i') {
        Some(shift_info(0b101, ShiftKind::Logical))
    } else if is4(m, 's', 'r', 'a', 'i') {
        Some(shift_info(0b101, ShiftKind::Arith))
    } else if is4(m, 's', 'l', 't', 'i') {
        Some(i_info(0b0010011, 0b010))
    } else if is5(m, 's', 'l', 't', 'i', 'u') {
        Some(i_info(0b0010011, 0b011))
    } else if is2(m, 'l', 'b') {
        Some(i_info(0b0000011, 0b000))
    } else if is3(m, 'l', 'b', 'u') {
        Some(i_info(0b0000011, 0b100))
    } else if is2(m, 'l', 'h') {
        Some(i_info(0b0000011, 0b001))
    } else if is3(m, 'l', 'h', 'u') {
        Some(i_info(0b0000011, 0b101))
    } else if is2(m, 'l', 'w') {
        Some(i_info(0b0000011, 0b010))
    } else if is4(m, 'j', 'a', 'l', 'r') {
        Some(i_info(0b1100111, 0b000))
    } else if is2(m, 's', 'b') {
        Some(s_info(0b000))
    } else if is2(m, 's', 'h') {
        Some(s_info(0b001))
    } else if is2(m, 's', 'w') {
        Some(s_info(0b010))
    } else if is3(m, 'b', 'e', 'q') {
        Some(b_info(0b000))
    } else if is3(m, 'b', 'n', 'e') {
        Some(b_info(0b001))
    } else if is3(m, 'b', 'l', 't') {
        Some(b_info(0b100))
    } else if is4(m, 'b', 'l', 't', 'u') {
        Some(b_info(0b110))
    } else if is3(m, 'b', 'g', 'e') {
        Some(b_info(0b101))
    } else if is4(m, 'b', 'g', 'e', 'u') {
        Some(b_info(0b111))
    } else if is3(m, 'l', 'u', 'i') {
        Some(u_info(0b0110111))
    } else if is5(m, 'a', 'u', 'i', 'p', 'c') {
        Some(u_info(0b0010111))
    } else if is3(m, 'j', 'a', 'l') {
        Some(j_info())
    } else {
        None
    }
}

/// The I-format immediate a record actually packs: as given, masked to
/// a 5-bit shift amount, or masked with the arithmetic discriminator
/// bit folded in.
pub open spec fn spec_effective_imm(shift: ShiftKind, imm: i32) -> i32 {
    match shift {
        ShiftKind::NoShift => imm,
        ShiftKind::Logical => imm & 0x1F,
        ShiftKind::Arith => (imm & 0x1F) | 0x400,
    }
}

/// The word a mnemonic with fully resolved operands encodes to, or the
/// first error met: an unknown mnemonic, then the register operands in
/// the order the format packs them (rs2 before rs1 before rd).
pub open spec fn spec_encode_instruction(
    m: Seq<char>,
    rd: Seq<char>,
    rs1: Seq<char>,
    rs2: Seq<char>,
    imm: i32,
) -> Result<u32, SpecAsmError> {
    match spec_instr_info(m) {
        None => Err(SpecAsmError::UnknownOpcode(m)),
        Some(info) => match info.format {
            InstrFormat::R => match spec_reg_index(rs2) {
                None => Err(SpecAsmError::UnknownRegister(rs2)),
                Some(r2) => match spec_reg_index(rs1) {
                    None => Err(SpecAsmError::UnknownRegister(rs1)),
                    Some(r1) => match spec_reg_index(rd) {
                        None => Err(SpecAsmError::UnknownRegister(rd)),
                        Some(rdn) => Ok(
                            spec_r_word(info.funct7, r2, r1, info.funct3, rdn, info.opcode),
                        ),
                    },
                },
            },
            InstrFormat::I => match spec_reg_index(rs1) {
                None => Err(SpecAsmError::UnknownRegister(rs1)),
                Some(r1) => match spec_reg_index(rd) {
                    None => Err(SpecAsmError::UnknownRegister(rd)),
                    Some(rdn) => Ok(
                        spec_i_word(
                            spec_effective_imm(info.shift, imm),
                            r1,
                            info.funct3,
                            rdn,
                            info.opcode,
                        ),
                    ),
                },
            },
            InstrFormat::S => match spec_reg_index(rs2) {
                None => Err(SpecAsmError::UnknownRegister(rs2)),
                Some(r2) => match spec_reg_index(rs1) {
                    None => Err(SpecAsmError::UnknownRegister(rs1)),
                    Some(r1) => Ok(spec_s_word(imm, r2, r1, info.funct3, info.opcode)),
                },
            },
            InstrFormat::B => match spec_reg_index(rs2) {
                None => Err(SpecAsmError::UnknownRegister(rs2)),
                Some(r2) => match spec_reg_index(rs1) {
                    None => Err(SpecAsmError::UnknownRegister(rs1)),
                    Some(r1) => Ok(spec_b_word(imm, r2, r1, info.funct3, info.opcode)),
                },
            },
            InstrFormat::U => match spec_reg_index(rd) {
                None => Err(SpecAsmError::UnknownRegister(rd)),
                Some(rdn) => Ok(spec_u_word(imm, rdn, info.opcode)),
            },
            InstrFormat::J => match spec_reg_index(rd) {
                None => Err(SpecAsmError::UnknownRegister(rd)),
                Some(rdn) => Ok(spec_j_word(imm, rdn, info.opcode)),
            },
        },
    }
}

pub(crate) fn ceq1(s: &[char], a: char) -> (r: bool)
    ensures
        r == is1(s@, a),
{
    s.len() == 1 && s[0] == a
}

pub(crate) fn ceq2(s: &[char], a: char, b: char) -> (r: bool)
    ensures
        r == is2(s@, a, b),
{
    s.len() == 2 && s[0] == a && s[1] == b
}

pub(crate) fn ceq3(s: &[char], a: char, b: char, c: char) -> (r: bool)
    ensures
        r == is3(s@, a, b, c),
{
    s.len() == 3 && s[0] == a && s[1] == b && s[2] == c
}

pub(crate) fn ceq4(s: &[char], a: char, b: char, c: char, d: char) -> (r: bool)
    ensures
        r == is4(s@, a, b, c, d),
{
    s.len() == 4 && s[0] == a && s[1] == b && s[2] == c && s[3] == d
}

pub(crate) fn ceq5(s: &[char], a: char, b: char, c: char, d: char, e: char) -> (r: bool)
    ensures
        r == is5(s@, a, b, c, d, e),
{
    s.len() == 5 && s[0] == a && s[1] == b && s[2] == c && s[3] == d && s[4] == e
}

/// Looks a mnemonic up in the instruction table.
pub fn instr_info(m: &[char]) -> (r: Option<InstrInfo>)
    ensures
        r == spec_instr_info(m@),
{
    if ceq3(m, 'a', 'd', 'd') {
        Some(InstrInfo {
            format: InstrFormat::R,
            opcode: 0b0110011,
            funct3: 0b000,
            funct7: 0b0000000,
            shift: ShiftKind::NoShift,
        })
    } else if ceq3(m, 's', 'u', 'b') {
        Some(InstrInfo {
            format: InstrFormat::R,
            opcode: 0b0110011,
            funct3: 0b000,
            funct7: 0b0100000,
            shift: ShiftKind::NoShift,
        })
    } else if ceq3(m, 'a', 'n', 'd') {
        Some(InstrInfo {
            format: InstrFormat::R,
            opcode: 0b0110011,
            funct3: 0b111,
            funct7: 0b0000000,
            shift: ShiftKind::NoShift,
        })
    } else if ceq2(m, 'o', 'r') {
        Some(InstrInfo {
            format: InstrFormat::R,
            opcode: 0b0110011,
            funct3: 0b110,
            funct7: 0b0000000,
            shift: ShiftKind::NoShift,
        })
    } else if ceq3(m, 'x', 'o', 'r') {
        Some(InstrInfo {
            format: InstrFormat::R,
            opcode: 0b0110011,
            funct3: 0b100,
            funct7: 0b0000000,
            shift: ShiftKind::NoShift,
        })
    } else if ceq3(m, 's', 'l', 'l') {
        Some(InstrInfo {
            format: InstrFormat::R,
            opcode: 0b0110011,
            funct3: 0b001,
            funct7: 0b0000000,
            shift: ShiftKind::NoShift,
        })
    } else if ceq3(m, 's', 'r', 'l') {
        Some(InstrInfo {
            format: InstrFormat::R,
            opcode: 0b0110011,
            funct3: 0b101,
            funct7: 0b0000000,
            shift: ShiftKind::NoShift,
        })
    } else if ceq3(m, 's', 'r', 'a') {
        Some(InstrInfo {
            format: InstrFormat::R,
            opcode: 0b0110011,
            funct3: 0b101,
            funct7: 0b0100000,
            shift: ShiftKind::NoShift,
        })
    } else if ceq3(m, 's', 'l', 't') {
        Some(InstrInfo {
            format: InstrFormat::R,
            opcode: 0b0110011,
            funct3: 0b010,
            funct7: 0b0000000,
            shift: ShiftKind::NoShift,
        })
    } else if ceq4(m, 's', 'l', 't', 'u') {
        Some(InstrInfo {
            format: InstrFormat::R,
            opcode: 0b0110011,
            funct3: 0b011,
            funct7: 0b0000000,
            shift: ShiftKind::NoShift,
        })
    } else if ceq4(m, 'a', 'd', 'd', 'i') {
        Some(InstrInfo {
            format: InstrFormat::I,
            opcode: 0b0010011,
            funct3: 0b000,
            funct7: 0,
            shift: ShiftKind::NoShift,
        })
    } else if ceq4(m, 'a', 'n', 'd', 'i') {
        Some(InstrInfo {
            format: InstrFormat::I,
            opcode: 0b0010011,
            funct3: 0b111,
            funct7: 0,
            shift: ShiftKind::NoShift,
        })
    } else if ceq3(m, 'o', 'r', 'i') {
        Some(InstrInfo {
            format: InstrFormat::I,
            opcode: 0b0010011,
            funct3: 0b110,
            funct7: 0,
            shift: ShiftKind::NoShift,
        })
    } else if ceq4(m, 'x', 'o', 'r', 'i') {
        Some(InstrInfo {
            format: InstrFormat::I,
            opcode: 0b0010011,
            funct3: 0b100,
            funct7: 0,
            shift: ShiftKind::NoShift,
        })
    } else if ceq4(m, 's', 'l', 'l', 'i') {
        Some(InstrInfo {
            format: InstrFormat::I,
            opcode: 0b0010011,
            funct3: 0b001,
            funct7: 0,
            shift: ShiftKind::Logical,
        })
    } else if ceq4(m, 's', 'r', 'l', 'i') {
        Some(InstrInfo {
            format: InstrFormat::I,
            opcode: 0b0010011,
            funct3: 0b101,
            funct7: 0,
            shift: ShiftKind::Logical,
        })
    } else if ceq4(m, 's', 'r', 'a', 'i') {
        Some(InstrInfo {
            format: InstrFormat::I,
            opcode: 0b0010011,
            funct3: 0b101,
            funct7: 0,
            shift: ShiftKind::Arith,
        })
    } else if ceq4(m, 's', 'l', 't', 'i') {
        Some(InstrInfo {
            format: InstrFormat::I,
            opcode: 0b0010011,
            funct3: 0b010,
            funct7: 0,
            shift: ShiftKind::NoShift,
        })
    } else if ceq5(m, 's', 'l', 't', 'i', 'u') {
        Some(InstrInfo {
            format: InstrFormat::I,
            opcode: 0b0010011,
            funct3: 0b011,
            funct7: 0,
            shift: ShiftKind::NoShift,
        })
    } else if ceq2(m, 'l', 'b') {
        Some(InstrInfo {
            format: InstrFormat::I,
            opcode: 0b0000011,
            funct3: 0b000,
            funct7: 0,
            shift: ShiftKind::NoShift,
        })
    } else if ceq3(m, 'l', 'b', 'u') {
        Some(InstrInfo {
            format: InstrFormat::I,
            opcode: 0b0000011,
            funct3: 0b100,
            funct7: 0,
            shift: ShiftKind::NoShift,
        })
    } else if ceq2(m, 'l', 'h') {
        Some(InstrInfo {
            format: InstrFormat::I,
            opcode: 0b0000011,
            funct3: 0b001,
            funct7: 0,
            shift: ShiftKind::NoShift,
        })
    } else if ceq3(m, 'l', 'h', 'u') {
        Some(InstrInfo {
            format: InstrFormat::I,
            opcode: 0b0000011,
            funct3: 0b101,
            funct7: 0,
            shift: ShiftKind::NoShift,
        })
    } else if ceq2(m, 'l', 'w') {
        Some(InstrInfo {
            format: InstrFormat::I,
            opcode: 0b0000011,
            funct3: 0b010,
            funct7: 0,
            shift: ShiftKind::NoShift,
        })
    } else if ceq4(m, 'j', 'a', 'l', 'r') {
        Some(InstrInfo {
            format: InstrFormat::I,
            opcode: 0b1100111,
            funct3: 0b000,
            funct7: 0,
            shift: ShiftKind::NoShift,
        })
    } else if ceq2(m, 's', 'b') {
        Some(InstrInfo {
            format: InstrFormat::S,
            opcode: 0b0100011,
            funct3: 0b000,
            funct7: 0,
            shift: ShiftKind::NoShift,
        })
    } else if ceq2(m, 's', 'h') {
        Some(InstrInfo {
            format: InstrFormat::S,
            opcode: 0b0100011,
            funct3: 0b001,
            funct7: 0,
            shift: ShiftKind::NoShift,
        })
    } else if ceq2(m, 's', 'w') {
        Some(InstrInfo {
            format: InstrFormat::S,
            opcode: 0b0100011,
            funct3: 0b010,
            funct7: 0,
            shift: ShiftKind::NoShift,
        })
    } else if ceq3(m, 'b', 'e', 'q') {
        Some(InstrInfo {
            format: InstrFormat::B,
            opcode: 0b1100011,
            funct3: 0b000,
            funct7: 0,
            shift: ShiftKind::NoShift,
        })
    } else if ceq3(m, 'b', 'n', 'e') {
        Some(InstrInfo {
            format: InstrFormat::B,
            opcode: 0b1100011,
            funct3: 0b001,
            funct7: 0,
            shift: ShiftKind::NoShift,
        })
    } else if ceq3(m, 'b', 'l', 't') {
        Some(InstrInfo {
            format: InstrFormat::B,
            opcode: 0b1100011,
            funct3: 0b100,
            funct7: 0,
            shift: ShiftKind::NoShift,
        })
    } else if ceq4(m, 'b', 'l', 't', 'u') {
        Some(InstrInfo {
            format: InstrFormat::B,
            opcode: 0b1100011,
            funct3: 0b110,
            funct7: 0,
            shift: ShiftKind::NoShift,
        })
    } else if ceq3(m, 'b', 'g', 'e') {
        Some(InstrInfo {
            format: InstrFormat::B,
            opcode: 0b1100011,
            funct3: 0b101,
            funct7: 0,
            shift: ShiftKind::NoShift,
        })
    } else if ceq4(m, 'b', 'g', 'e', 'u') {
        Some(InstrInfo {
            format: InstrFormat::B,
            opcode: 0b1100011,
            funct3: 0b111,
            funct7: 0,
            shift: ShiftKind::NoShift,
        })
    } else if ceq3(m, 'l', 'u', 'i') {
        Some(InstrInfo {
            format: InstrFormat::U,
            opcode: 0b0110111,
            funct3: 0,
            funct7: 0,
            shift: ShiftKind::NoShift,
        })
    } else if ceq5(m, 'a', 'u', 'i', 'p', 'c') {
        Some(InstrInfo {
            format: InstrFormat::U,
            opcode: 0b0010111,
            funct3: 0,
            funct7: 0,
            shift: ShiftKind::NoShift,
        })
    } else if ceq3(m, 'j', 'a', 'l') {
        Some(InstrInfo {
            format: InstrFormat::J,
            opcode: 0b1101111,
            funct3: 0,
            funct7: 0,
            shift: ShiftKind::NoShift,
        })
    } else {
        None
    }
}

/// Encodes one instruction from its mnemonic, register tokens and
/// immediate.  Dispatches on the mnemonic to the format encoder with
/// that mnemonic's fixed constants; fails with `UnknownOpcode` for a
/// mnemonic outside the table and with `UnknownRegister` for an
/// unresolvable register operand, in the order the format packs them.
pub fn encode_instruction_chars(
    m: &[char],
    rd: &[char],
    rs1: &[char],
    rs2: &[char],
    imm: i32,
) -> (r: Result<u32, AsmError>)
    ensures
        res_view(r) == spec_encode_instruction(m@, rd@, rs1@, rs2@, imm),
{
    let info = match instr_info(m) {
        None => {
            return Err(AsmError::UnknownOpcode(slice_to_vec(m)));
        },
        Some(info) => info,
    };
    match info.format {
        InstrFormat::R => {
            let r2 = match reg_num(rs2) {
                Err(e) => {
                    return Err(e);
                },
                Ok(n) => n,
            };
            let r1 = match reg_num(rs1) {
                Err(e) => {
                    return Err(e);
                },
                Ok(n) => n,
            };
            let rdn = match reg_num(rd) {
                Err(e) => {
                    return Err(e);
                },
                Ok(n) => n,
            };
            Ok(encode_r_type(info.funct7, r2, r1, info.funct3, rdn, info.opcode))
        },
        InstrFormat::I => {
            let r1 = match reg_num(rs1) {
                Err(e) => {
                    return Err(e);
                },
                Ok(n) => n,
            };
            let rdn = match reg_num(rd) {
                Err(e) => {
                    return Err(e);
                },
                Ok(n) => n,
            };
            let eff: i32 = match info.shift {
                ShiftKind::NoShift => imm,
                ShiftKind::Logical => imm & 0x1F,
                ShiftKind::Arith => (imm & 0x1F) | 0x400,
            };
            Ok(encode_i_type(eff, r1, info.funct3, rdn, info.opcode))
        },
        InstrFormat::S => {
            let r2 = match reg_num(rs2) {
                Err(e) => {
                    return Err(e);
                },
                Ok(n) => n,
            };
            let r1 = match reg_num(rs1) {
                Err(e) => {
                    return Err(e);
                },
                Ok(n) => n,
            };
            Ok(encode_s_type(imm, r2, r1, info.funct3, info.opcode))
        },
        InstrFormat::B => {
            let r2 = match reg_num(rs2) {
                Err(e) => {
                    return Err(e);
                },
                Ok(n) => n,
            };
            let r1 = match reg_num(rs1) {
                Err(e) => {
                    return Err(e);
                },
                Ok(n) => n,
            };
            Ok(encode_b_type(imm, r2, r1, info.funct3, info.opcode))
        },
        InstrFormat::U => {
            let rdn = match reg_num(rd) {
                Err(e) => {
                    return Err(e);
                },
                Ok(n) => n,
            };
            Ok(encode_u_type(imm, rdn, info.opcode))
        },
        InstrFormat::J => {
            let rdn = match reg_num(rd) {
                Err(e) => {
                    return Err(e);
                },
                Ok(n) => n,
            };
            Ok(encode_j_type(imm, rdn, info.opcode))
        },
    }
}

/// The 3-register arithmetic mnemonics are injective over their
/// (funct7, funct3, opcode) triples: no two distinct mnemonics among
/// `add`, `sub`, `and`, `or`, `xor`, `sll`, `srl`, `sra`, `slt`,
/// `sltu` share all three constants.
pub proof fn lemma_rtype_triples_injective(m1: Seq<char>, m2: Seq<char>)
    requires
        crate::assembler::spec_is_rtype_mn(m1),
        crate::assembler::spec_is_rtype_mn(m2),
        m1 != m2,
    ensures
        spec_instr_info(m1) is Some,
        spec_instr_info(m2) is Some,
        ({
            let i1 = spec_instr_info(m1)->0;
            let i2 = spec_instr_info(m2)->0;
            i1.funct7 != i2.funct7 || i1.funct3 != i2.funct3 || i1.opcode != i2.opcode
        }),
{
    if is3(m1, 'a', 'd', 'd') && is3(m2, 'a', 'd', 'd') {
        assert(m1 =~= m2);
    }
    if is3(m1, 's', 'u', 'b') && is3(m2, 's', 'u', 'b') {
        assert(m1 =~= m2);
    }
    if is3(m1, 'a', 'n', 'd') && is3(m2, 'a', 'n', 'd') {
        assert(m1 =~= m2);
    }
    if is2(m1, 'o', 'r') && is2(m2, 'o', 'r') {
        assert(m1 =~= m2);
    }
    if is3(m1, 'x', 'o', 'r') && is3(m2, 'x', 'o', 'r') {
        assert(m1 =~= m2);
    }
    if is3(m1, 's', 'l', 'l') && is3(m2, 's', 'l', 'l') {
        assert(m1 =~= m2);
    }
    if is3(m1, 's', 'r', 'l') && is3(m2, 's', 'r', 'l') {
        assert(m1 =~= m2);
    }
    if is3(m1, 's', 'r', 'a') && is3(m2, 's', 'r', 'a') {
        assert(m1 =~= m2);
    }
    if is3(m1, 's', 'l', 't') && is3(m2, 's', 'l', 't') {
        assert(m1 =~= m2);
    }
    if is4(m1, 's', 'l', 't', 'u') && is4(m2, 's', 'l', 't', 'u') {
        assert(m1 =~= m2);
    }
}

/// Encodes one instruction from string-slice operands.
pub fn encode_instruction(opcode: &str, rd: &str, rs1: &str, rs2: &str, imm: i32) -> (r: Result<
    u32,
    AsmError,
>)
    ensures
        res_view(r) == spec_encode_instruction(opcode@, rd@, rs1@, rs2@, imm),
{
    let m = chars_of(opcode);
    let rdc = chars_of(rd);
    let rs1c = chars_of(rs1);
    let rs2c = chars_of(rs2);
    encode_instruction_chars(m.as_slice(), rdc.as_slice(), rs1c.as_slice(), rs2c.as_slice(), imm)
}

} // verus!
