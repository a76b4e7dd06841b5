use rv32_asm::encode::{
    encode_b_type, encode_i_type, encode_j_type, encode_r_type, encode_s_type, encode_u_type,
};
use rv32_asm::err::AsmError;
use rv32_asm::hex::word_to_hex;
use rv32_asm::table::encode_instruction;
use rv32_asm::hex::coe_lines;

fn cv(s: &str) -> Vec<char> {
    s.chars().collect()
}

#[test]
fn r_type_packing() {
    // add a0, a1, a2
    assert_eq!(encode_r_type(0, 12, 11, 0, 10, 0b0110011), 0x00C58533);
    // sub a0, a1, a2
    assert_eq!(encode_r_type(0b0100000, 12, 11, 0, 10, 0b0110011), 0x40C58533);
}

#[test]
fn i_type_packing() {
    // addi a0, x0, 5
    assert_eq!(encode_i_type(5, 0, 0, 10, 0b0010011), 0x00500513);
    // negative immediate is truncated to 12 bits: addi a0, a0, -1
    assert_eq!(encode_i_type(-1, 10, 0, 10, 0b0010011), 0xFFF50513);
}

#[test]
fn s_type_packing() {
    // sw a0, 4(sp)
    assert_eq!(encode_s_type(4, 10, 2, 0b010, 0b0100011), 0x00A12223);
    // sw with an offset using both halves: sw a0, -4(sp)
    assert_eq!(encode_s_type(-4, 10, 2, 0b010, 0b0100011), 0xFEA12E23);
}

#[test]
fn b_type_packing() {
    // beq a0, a1, -8
    assert_eq!(encode_b_type(-8, 11, 10, 0, 0b1100011), 0xFEB50CE3);
    // beq x0, x0, +8
    assert_eq!(encode_b_type(8, 0, 0, 0, 0b1100011), 0x00000463);
}

#[test]
fn u_type_packing() {
    // lui a0, 0x12345
    assert_eq!(encode_u_type(0x12345, 10, 0b0110111), 0x12345537);
}

#[test]
fn j_type_packing() {
    // jal x0, -8
    assert_eq!(encode_j_type(-8, 0, 0b1101111), 0xFF9FF06F);
    // jal ra, +16
    assert_eq!(encode_j_type(16, 1, 0b1101111), 0x010000EF);
}

#[test]
fn instruction_table_arithmetic() {
    assert_eq!(encode_instruction("add", "a0", "a1", "a2", -1), Ok(0x00C58533));
    assert_eq!(encode_instruction("sub", "a0", "a1", "a2", -1), Ok(0x40C58533));
    assert_eq!(encode_instruction("and", "a0", "a1", "a2", -1), Ok(0x00C5F533));
    assert_eq!(encode_instruction("or", "a0", "a1", "a2", -1), Ok(0x00C5E533));
    assert_eq!(encode_instruction("xor", "a0", "a1", "a2", -1), Ok(0x00C5C533));
    assert_eq!(encode_instruction("sll", "a0", "a1", "a2", -1), Ok(0x00C59533));
    assert_eq!(encode_instruction("srl", "a0", "a1", "a2", -1), Ok(0x00C5D533));
    assert_eq!(encode_instruction("sra", "a0", "a1", "a2", -1), Ok(0x40C5D533));
    assert_eq!(encode_instruction("slt", "a0", "a1", "a2", -1), Ok(0x00C5A533));
    assert_eq!(encode_instruction("sltu", "a0", "a1", "a2", -1), Ok(0x00C5B533));
}

#[test]
fn instruction_table_immediates() {
    assert_eq!(encode_instruction("addi", "a0", "x0", "x0", 5), Ok(0x00500513));
    assert_eq!(encode_instruction("andi", "a0", "a1", "x0", 15), Ok(0x00F5F513));
    assert_eq!(encode_instruction("ori", "a0", "a1", "x0", 15), Ok(0x00F5E513));
    assert_eq!(encode_instruction("xori", "a0", "a1", "x0", -1), Ok(0xFFF5C513));
    assert_eq!(encode_instruction("slti", "a0", "a1", "x0", -5), Ok(0xFFB5A513));
    assert_eq!(encode_instruction("sltiu", "a0", "a1", "x0", 5), Ok(0x0055B513));
}

#[test]
fn shift_immediates() {
    // slli a0, a1, 3
    assert_eq!(encode_instruction("slli", "a0", "a1", "x0", 3), Ok(0x00359513));
    // srli a0, a1, 3
    assert_eq!(encode_instruction("srli", "a0", "a1", "x0", 3), Ok(0x0035D513));
    // srai a0, a1, 3: the arithmetic discriminator bit is folded into the immediate
    assert_eq!(encode_instruction("srai", "a0", "a1", "x0", 3), Ok(0x4035D513));
    // the shift amount is masked to five bits
    assert_eq!(
        encode_instruction("slli", "a0", "a1", "x0", 33),
        encode_instruction("slli", "a0", "a1", "x0", 1)
    );
    assert_eq!(
        encode_instruction("srai", "a0", "a1", "x0", 35),
        encode_instruction("srai", "a0", "a1", "x0", 3)
    );
}

#[test]
fn loads_and_stores() {
    // lw a0, 8(sp) resolved operands
    assert_eq!(encode_instruction("lw", "a0", "sp", "x0", 8), Ok(0x00812503));
    assert_eq!(encode_instruction("lb", "a0", "sp", "x0", 0), Ok(0x00010503));
    assert_eq!(encode_instruction("lbu", "a0", "sp", "x0", 0), Ok(0x00014503));
    assert_eq!(encode_instruction("lh", "a0", "sp", "x0", 0), Ok(0x00011503));
    assert_eq!(encode_instruction("lhu", "a0", "sp", "x0", 0), Ok(0x00015503));
    assert_eq!(encode_instruction("sw", "x0", "sp", "a0", 4), Ok(0x00A12223));
    assert_eq!(encode_instruction("sb", "x0", "sp", "a0", 4), Ok(0x00A10223));
    assert_eq!(encode_instruction("sh", "x0", "sp", "a0", 4), Ok(0x00A11223));
}

#[test]
fn jumps_and_upper() {
    assert_eq!(encode_instruction("jalr", "ra", "a0", "x0", 0), Ok(0x000500E7));
    assert_eq!(encode_instruction("lui", "a0", "x0", "x0", 0x12345), Ok(0x12345537));
    assert_eq!(encode_instruction("auipc", "a0", "x0", "x0", 1), Ok(0x00001517));
    assert_eq!(encode_instruction("jal", "x0", "x0", "x0", -8), Ok(0xFF9FF06F));
}

#[test]
fn branches() {
    assert_eq!(encode_instruction("beq", "x0", "a0", "a1", -8), Ok(0xFEB50CE3));
    assert_eq!(encode_instruction("bne", "x0", "a0", "a1", -8), Ok(0xFEB51CE3));
    assert_eq!(encode_instruction("blt", "x0", "a0", "a1", -8), Ok(0xFEB54CE3));
    assert_eq!(encode_instruction("bltu", "x0", "a0", "a1", -8), Ok(0xFEB56CE3));
    assert_eq!(encode_instruction("bge", "x0", "a0", "a1", -8), Ok(0xFEB55CE3));
    assert_eq!(encode_instruction("bgeu", "x0", "a0", "a1", -8), Ok(0xFEB57CE3));
}

#[test]
fn unknown_opcode() {
    assert_eq!(
        encode_instruction("nop", "x0", "x0", "x0", 0),
        Err(AsmError::UnknownOpcode(cv("nop")))
    );
}

#[test]
fn unknown_register_in_pack_order() {
    // The R format resolves rs2 first, then rs1, then rd.
    assert_eq!(
        encode_instruction("add", "q1", "q2", "q3", -1),
        Err(AsmError::UnknownRegister(cv("q3")))
    );
    assert_eq!(
        encode_instruction("add", "q1", "q2", "a2", -1),
        Err(AsmError::UnknownRegister(cv("q2")))
    );
    assert_eq!(
        encode_instruction("add", "q1", "a1", "a2", -1),
        Err(AsmError::UnknownRegister(cv("q1")))
    );
    // The I format resolves rs1 first, then rd; rs2 is never read.
    assert_eq!(
        encode_instruction("addi", "q1", "q2", "q3", 0),
        Err(AsmError::UnknownRegister(cv("q2")))
    );
}

#[test]
fn coe_body_lines() {
    let lines = coe_lines(&vec![0x00500513, 0x00A505B3, 0xFEB50CE3]);
    assert_eq!(lines[0], cv("00500513,"));
    assert_eq!(lines[1], cv("00a505b3,"));
    assert_eq!(lines[2], cv("feb50ce3;"));
    // two equal words: only the final line carries the semicolon
    let twice = coe_lines(&vec![5, 5]);
    assert_eq!(twice[0], cv("00000005,"));
    assert_eq!(twice[1], cv("00000005;"));
}

#[test]
fn hex_rendering() {
    assert_eq!(word_to_hex(0xFEB50CE3), cv("feb50ce3"));
    assert_eq!(word_to_hex(0), cv("00000000"));
    assert_eq!(word_to_hex(0x00C58533), cv("00c58533"));
    assert_eq!(word_to_hex(0xFFFFFFFF), cv("ffffffff"));
}
