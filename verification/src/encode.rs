//! The six RV32I instruction-format encoders.
//!
//! Each encoder is a pure bit-packing transform: it masks its immediate
//! to the field width and distributes the operand fields over a 32-bit
//! word according to the RISC-V base-ISA bit layout.  Encoders never
//! fail; operand validation happens upstream.

use vstd::prelude::*;

verus! {

/// The R-format word: funct7(7) rs2(5) rs1(5) funct3(3) rd(5) opcode(7).
pub open spec fn spec_r_word(funct7: u32, rs2: u32, rs1: u32, funct3: u32, rd: u32, opcode: u32) -> u32 {
    (funct7 << 25) | (rs2 << 20) | (rs1 << 15) | (funct3 << 12) | (rd << 7) | opcode
}

/// The I-format word: imm[11:0](12) rs1(5) funct3(3) rd(5) opcode(7).
pub open spec fn spec_i_word(imm: i32, rs1: u32, funct3: u32, rd: u32, opcode: u32) -> u32 {
    (((imm & 0xFFF) as u32) << 20) | (rs1 << 15) | (funct3 << 12) | (rd << 7) | opcode
}

/// The S-format word: imm[11:5](7) rs2(5) rs1(5) funct3(3) imm[4:0](5) opcode(7).
pub open spec fn spec_s_word(imm: i32, rs2: u32, rs1: u32, funct3: u32, opcode: u32) -> u32 {
    ((((imm & 0xFFF) as u32) >> 5) << 25) | (rs2 << 20) | (rs1 << 15) | (funct3 << 12)
        | ((((imm & 0xFFF) as u32) & 0x1F) << 7) | opcode
}

/// The B-format word: imm[12](1) imm[10:5](6) rs2(5) rs1(5) funct3(3)
/// imm[4:1](4) imm[11](1) opcode(7).  Bit 0 of the immediate is
/// implicitly zero: branch offsets are expected to be even.
pub open spec fn spec_b_word(imm: i32, rs2: u32, rs1: u32, funct3: u32, opcode: u32) -> u32 {
    ((((imm & 0x1FFE) as u32) >> 12) << 31) | (((((imm & 0x1FFE) as u32) >> 5) & 0x3F) << 25)
        | (rs2 << 20) | (rs1 << 15) | (funct3 << 12)
        | (((((imm & 0x1FFE) as u32) >> 1) & 0xF) << 8)
        | (((((imm & 0x1FFE) as u32) >> 11) & 0x1) << 7) | opcode
}

/// The U-format word: imm[31:12](20) rd(5) opcode(7).
pub open spec fn spec_u_word(imm: i32, rd: u32, opcode: u32) -> u32 {
    (((imm & 0xFFFFF) as u32) << 12) | (rd << 7) | opcode
}

/// The J-format word: imm[20](1) imm[10:1](10) imm[11](1) imm[19:12](8)
/// rd(5) opcode(7).  Bit 0 of the immediate is implicitly zero.
pub open spec fn spec_j_word(imm: i32, rd: u32, opcode: u32) -> u32 {
    ((((imm & 0x1FFFFE) as u32) >> 20) << 31) | (((((imm & 0x1FFFFE) as u32) >> 1) & 0x3FF) << 21)
        | (((((imm & 0x1FFFFE) as u32) >> 11) & 0x1) << 20)
        | (((((imm & 0x1FFFFE) as u32) >> 12) & 0xFF) << 12) | (rd << 7) | opcode
}

/// The opcode field of a word: its low 7 bits.
pub open spec fn spec_field_opcode(w: u32) -> u32 {
    w & 0x7F
}

/// The rd field of a word: bits 11..7.
pub open spec fn spec_field_rd(w: u32) -> u32 {
    (w >> 7) & 0x1F
}

/// The funct3 field of a word: bits 14..12.
pub open spec fn spec_field_funct3(w: u32) -> u32 {
    (w >> 12) & 0x7
}

/// The rs1 field of a word: bits 19..15.
pub open spec fn spec_field_rs1(w: u32) -> u32 {
    (w >> 15) & 0x1F
}

/// The rs2 field of a word: bits 24..20.
pub open spec fn spec_field_rs2(w: u32) -> u32 {
    (w >> 20) & 0x1F
}

/// The funct7 field of a word: its top 7 bits.
pub open spec fn spec_field_funct7(w: u32) -> u32 {
    w >> 25
}

/// The 13-bit branch immediate scattered in a B-format word, gathered
/// back with its implicit zero bit 0.
pub open spec fn spec_b_imm_bits(w: u32) -> u32 {
    (((w >> 31) & 1) << 12) | (((w >> 7) & 1) << 11) | (((w >> 25) & 0x3F) << 5) | (((w >> 8)
        & 0xF) << 1)
}

/// The branch displacement a B-format word denotes: its gathered
/// 13-bit immediate, sign-extended.
pub open spec fn spec_b_imm_decode(w: u32) -> i32 {
    let b = spec_b_imm_bits(w);
    if b >= 0x1000 {
        (b - 0x2000) as i32
    } else {
        b as i32
    }
}

/// Round trip of the R format: the standard field extraction recovers
/// every operand an R-format word was packed from.
pub proof fn lemma_r_word_round_trip(
    funct7: u32,
    rs2: u32,
    rs1: u32,
    funct3: u32,
    rd: u32,
    opcode: u32,
)
    requires
        funct7 < 0x80,
        rs2 < 32,
        rs1 < 32,
        funct3 < 8,
        rd < 32,
        opcode < 0x80,
    ensures
        spec_field_funct7(spec_r_word(funct7, rs2, rs1, funct3, rd, opcode)) == funct7,
        spec_field_rs2(spec_r_word(funct7, rs2, rs1, funct3, rd, opcode)) == rs2,
        spec_field_rs1(spec_r_word(funct7, rs2, rs1, funct3, rd, opcode)) == rs1,
        spec_field_funct3(spec_r_word(funct7, rs2, rs1, funct3, rd, opcode)) == funct3,
        spec_field_rd(spec_r_word(funct7, rs2, rs1, funct3, rd, opcode)) == rd,
        spec_field_opcode(spec_r_word(funct7, rs2, rs1, funct3, rd, opcode)) == opcode,
{
    assert(spec_field_funct7(spec_r_word(funct7, rs2, rs1, funct3, rd, opcode)) == funct7
        && spec_field_rs2(spec_r_word(funct7, rs2, rs1, funct3, rd, opcode)) == rs2
        && spec_field_rs1(spec_r_word(funct7, rs2, rs1, funct3, rd, opcode)) == rs1
        && spec_field_funct3(spec_r_word(funct7, rs2, rs1, funct3, rd, opcode)) == funct3
        && spec_field_rd(spec_r_word(funct7, rs2, rs1, funct3, rd, opcode)) == rd
        && spec_field_opcode(spec_r_word(funct7, rs2, rs1, funct3, rd, opcode)) == opcode)
        by (bit_vector)
        requires
            funct7 < 0x80,
            rs2 < 32,
            rs1 < 32,
            funct3 < 8,
            rd < 32,
            opcode < 0x80,
    ;
}

/// Round trip of the B-format immediate: a word-aligned displacement
/// in the 13-bit signed range, packed and then gathered and
/// sign-extended by the reference decode, comes back exactly.
pub proof fn lemma_b_imm_round_trip(imm: i32, rs2: u32, rs1: u32, funct3: u32, opcode: u32)
    requires
        -4096 <= imm <= 4094,
        imm % 2 == 0,
        rs2 < 32,
        rs1 < 32,
        funct3 < 8,
        opcode < 0x80,
    ensures
        spec_b_imm_decode(spec_b_word(imm, rs2, rs1, funct3, opcode)) == imm,
{
    assert(spec_b_imm_decode(spec_b_word(imm, rs2, rs1, funct3, opcode)) == imm) by (bit_vector)
        requires
            -4096 <= imm <= 4094,
            imm % 2 == 0,
            rs2 < 32,
            rs1 < 32,
            funct3 < 8,
            opcode < 0x80,
    ;
}

/// Packs an R-format instruction word.
pub fn encode_r_type(funct7: u32, rs2: u32, rs1: u32, funct3: u32, rd: u32, opcode: u32) -> (w: u32)
    ensures
        w == spec_r_word(funct7, rs2, rs1, funct3, rd, opcode),
{
    (funct7 << 25) | (rs2 << 20) | (rs1 << 15) | (funct3 << 12) | (rd << 7) | opcode
}

/// Packs an I-format instruction word; the immediate is masked to 12 bits.
pub fn encode_i_type(imm: i32, rs1: u32, funct3: u32, rd: u32, opcode: u32) -> (w: u32)
    ensures
        w == spec_i_word(imm, rs1, funct3, rd, opcode),
{
    let masked: i32 = imm & 0xFFF;
    assert(0 <= imm & 0xFFF < 0x1000i32) by (bit_vector);
    let imm_num: u32 = masked as u32;
    (imm_num << 20) | (rs1 << 15) | (funct3 << 12) | (rd << 7) | opcode
}

/// Packs an S-format instruction word; the immediate is masked to 12 bits
/// and split over the two store-offset fields.
pub fn encode_s_type(imm: i32, rs2: u32, rs1: u32, funct3: u32, opcode: u32) -> (w: u32)
    ensures
        w == spec_s_word(imm, rs2, rs1, funct3, opcode),
{
    let masked: i32 = imm & 0xFFF;
    assert(0 <= imm & 0xFFF < 0x1000i32) by (bit_vector);
    let imm_num: u32 = masked as u32;
    ((imm_num >> 5) << 25) | (rs2 << 20) | (rs1 << 15) | (funct3 << 12) | ((imm_num & 0x1F) << 7)
        | opcode
}

/// Packs a B-format instruction word; the immediate is masked to bits
/// 12..1 of a 13-bit branch displacement.
pub fn encode_b_type(imm: i32, rs2: u32, rs1: u32, funct3: u32, opcode: u32) -> (w: u32)
    ensures
        w == spec_b_word(imm, rs2, rs1, funct3, opcode),
{
    let masked: i32 = imm & 0x1FFE;
    assert(0 <= imm & 0x1FFE < 0x2000i32) by (bit_vector);
    let imm_num: u32 = masked as u32;
    ((imm_num >> 12) << 31) | (((imm_num >> 5) & 0x3F) << 25) | (rs2 << 20) | (rs1 << 15)
        | (funct3 << 12) | (((imm_num >> 1) & 0xF) << 8) | (((imm_num >> 11) & 0x1) << 7) | opcode
}

/// Packs a U-format instruction word; the immediate is masked to 20 bits.
pub fn encode_u_type(imm: i32, rd: u32, opcode: u32) -> (w: u32)
    ensures
        w == spec_u_word(imm, rd, opcode),
{
    let masked: i32 = imm & 0xFFFFF;
    assert(0 <= imm & 0xFFFFF < 0x100000i32) by (bit_vector);
    let imm_num: u32 = masked as u32;
    (imm_num << 12) | (rd << 7) | opcode
}

/// Packs a J-format instruction word; the immediate is masked to bits
/// 20..1 of a 21-bit jump displacement.
pub fn encode_j_type(imm: i32, rd: u32, opcode: u32) -> (w: u32)
    ensures
        w == spec_j_word(imm, rd, opcode),
{
    let masked: i32 = imm & 0x1FFFFE;
    assert(0 <= imm & 0x1FFFFE < 0x200000i32) by (bit_vector);
    let imm_num: u32 = masked as u32;
    ((imm_num >> 20) << 31) | (((imm_num >> 1) & 0x3FF) << 21) | (((imm_num >> 11) & 0x1) << 20)
        | (((imm_num >> 12) & 0xFF) << 12) | (rd << 7) | opcode
}

} // verus!
