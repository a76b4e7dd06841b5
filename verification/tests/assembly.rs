use rv32_asm::assembler::assemble;
use rv32_asm::err::AsmError;

fn cv(s: &str) -> Vec<char> {
    s.chars().collect()
}

#[test]
fn end_to_end_backward_branch() {
    let src = "start:\naddi a0, x0, 5\nadd a1, a0, a0\nbeq a0, a1, start\n";
    assert_eq!(assemble(src), Ok(vec![0x00500513, 0x00A505B3, 0xFEB50CE3]));
}

#[test]
fn li_equals_addi() {
    let a = assemble("li t0, 100").unwrap();
    let b = assemble("addi t0, x0, 100").unwrap();
    assert_eq!(a, b);
    assert_eq!(a, vec![0x06400293]);
}

#[test]
fn store_offset_syntax() {
    assert_eq!(assemble("sw a0, 4(sp)"), Ok(vec![0x00A12223]));
}

#[test]
fn load_offset_syntax() {
    assert_eq!(assemble("lw a0, 8(sp)"), Ok(vec![0x00812503]));
    assert_eq!(assemble("jalr ra, 0(a0)"), Ok(vec![0x000500E7]));
}

#[test]
fn missing_operand_is_shape_error() {
    assert_eq!(
        assemble("add a0,a1"),
        Err(AsmError::UnsupportedOperandShape(cv("add a0,a1")))
    );
}

#[test]
fn labels_with_blank_and_label_only_lines() {
    let src = "# a program\n\nfirst:\nsecond:\naddi x1, x0, 1\nloop:\naddi x2, x0, 2\nbeq x0, x0, loop\nj first\n";
    assert_eq!(
        assemble(src),
        Ok(vec![0x00100093, 0x00200113, 0xFE000EE3, 0xFF5FF06F])
    );
}

#[test]
fn forward_reference() {
    let src = "beq x0, x0, done\naddi x1, x0, 1\ndone:\naddi x2, x0, 2\n";
    // done sits at address 8; the branch at 0 jumps forward by 8.
    assert_eq!(assemble(src), Ok(vec![0x00000463, 0x00100093, 0x00200113]));
}

#[test]
fn jal_one_and_two_operand_forms() {
    // bare jal links through ra
    let a = assemble("top:\njal top").unwrap();
    let b = assemble("top:\njal ra, top").unwrap();
    assert_eq!(a, b);
    // j links through x0
    let c = assemble("top:\nj top").unwrap();
    let d = assemble("top:\njal x0, top").unwrap();
    assert_eq!(c, d);
}

#[test]
fn pseudo_expansions() {
    assert_eq!(assemble("mv a0, a1"), Ok(vec![0x00058533]));
    assert_eq!(assemble("not a0, a1"), Ok(vec![0xFFF5C513]));
    assert_eq!(assemble("neg a0, a1"), Ok(vec![0x40B00533]));
}

#[test]
fn upper_immediates() {
    assert_eq!(assemble("lui a0, 0x12345"), Ok(vec![0x12345537]));
    assert_eq!(assemble("auipc a0, 1"), Ok(vec![0x00001517]));
}

#[test]
fn mnemonics_lowered_registers_not() {
    assert_eq!(assemble("ADDI a0, x0, 5"), assemble("addi a0, x0, 5"));
    assert_eq!(
        assemble("addi A0, x0, 5"),
        Err(AsmError::UnknownRegister(cv("A0")))
    );
}

#[test]
fn comments_and_whitespace() {
    let src = "  addi a0, x0, 5   # load five\n\t\n# nothing here\n";
    assert_eq!(assemble(src), Ok(vec![0x00500513]));
}

#[test]
fn label_names_are_trimmed() {
    let src = "  loop  :\nbeq x0, x0, loop\n";
    assert_eq!(assemble(src), Ok(vec![0x00000063]));
}

#[test]
fn undefined_label() {
    assert_eq!(
        assemble("beq x0, x0, nowhere"),
        Err(AsmError::UndefinedLabel(cv("nowhere")))
    );
    assert_eq!(
        assemble("j nowhere"),
        Err(AsmError::UndefinedLabel(cv("nowhere")))
    );
}

#[test]
fn malformed_literal_in_line() {
    assert_eq!(
        assemble("addi x1, x0, zz"),
        Err(AsmError::MalformedLiteral(cv("zz")))
    );
    assert_eq!(assemble("li t0, 0x"), Err(AsmError::MalformedLiteral(cv("0x"))));
}

#[test]
fn unknown_register_in_line() {
    assert_eq!(
        assemble("add a0, a1, qq"),
        Err(AsmError::UnknownRegister(cv("qq")))
    );
}

#[test]
fn shape_errors() {
    assert_eq!(
        assemble("frobnicate a0, a1, a2"),
        Err(AsmError::UnsupportedOperandShape(cv("frobnicate a0, a1, a2")))
    );
    assert_eq!(
        assemble("nop"),
        Err(AsmError::UnsupportedOperandShape(cv("nop")))
    );
    assert_eq!(
        assemble("lw a0, 4"),
        Err(AsmError::UnsupportedOperandShape(cv("lw a0, 4")))
    );
    assert_eq!(
        assemble("add a0, a1, a2, a3"),
        Err(AsmError::UnsupportedOperandShape(cv("add a0, a1, a2, a3")))
    );
}

#[test]
fn shape_error_carries_raw_line() {
    let src = "addi x1, x0, 1\nbogus line here extra # trailing\n";
    assert_eq!(
        assemble(src),
        Err(AsmError::UnsupportedOperandShape(cv("bogus line here extra # trailing")))
    );
}

#[test]
fn first_error_wins() {
    let src = "addi x1, x0, zz\nadd a0, a1, qq\n";
    assert_eq!(assemble(src), Err(AsmError::MalformedLiteral(cv("zz"))));
}

#[test]
fn empty_source() {
    assert_eq!(assemble(""), Ok(vec![]));
    assert_eq!(assemble("\n\n# only comments\n"), Ok(vec![]));
}

#[test]
fn duplicate_label_keeps_later_address() {
    let src = "l:\naddi x1, x0, 1\nl:\nbeq x0, x0, l\n";
    // the second declaration of l sits at address 4, as does the branch
    assert_eq!(assemble(src), Ok(vec![0x00100093, 0x00000063]));
}

#[test]
fn missing_close_paren_is_accepted() {
    // the register part runs to the first `)` or the end of the token
    assert_eq!(assemble("lw a0, 8(sp"), assemble("lw a0, 8(sp)"));
}

#[test]
fn radix_literals_in_lines() {
    assert_eq!(assemble("addi a0, x0, 0b101"), assemble("addi a0, x0, 5"));
    assert_eq!(assemble("addi a0, x0, 0o17"), assemble("addi a0, x0, 15"));
    assert_eq!(assemble("addi a0, x0, 0x1F"), assemble("addi a0, x0, 31"));
}

#[test]
fn two_labels_same_address() {
    let a = assemble("first:\nsecond:\naddi x1, x0, 1\nbeq x0, x0, first\n").unwrap();
    let b = assemble("first:\nsecond:\naddi x1, x0, 1\nbeq x0, x0, second\n").unwrap();
    assert_eq!(a, b);
}

#[test]
fn forward_jal() {
    let src = "jal skip\naddi x1, x0, 1\nskip:\naddi x2, x0, 2\n";
    // skip sits at address 8; jal at 0 links through ra with displacement +8.
    assert_eq!(assemble(src), Ok(vec![0x008000EF, 0x00100093, 0x00200113]));
}

#[test]
fn crlf_line_endings() {
    let src = "addi a0, x0, 5\r\nadd a1, a0, a0\r\n";
    assert_eq!(assemble(src), Ok(vec![0x00500513, 0x00A505B3]));
}
