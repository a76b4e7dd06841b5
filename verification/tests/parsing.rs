use rv32_asm::err::AsmError;
use rv32_asm::literals::parse_number;
use rv32_asm::registers::reg_name_to_num;

fn cv(s: &str) -> Vec<char> {
    s.chars().collect()
}

#[test]
fn literal_hex() {
    assert_eq!(parse_number("0x1F"), Ok(31));
}

#[test]
fn literal_binary() {
    assert_eq!(parse_number("0b101"), Ok(5));
}

#[test]
fn literal_octal() {
    assert_eq!(parse_number("0o17"), Ok(15));
}

#[test]
fn literal_negative_decimal() {
    assert_eq!(parse_number("-4"), Ok(-4));
}

#[test]
fn literal_decimal() {
    assert_eq!(parse_number("10"), Ok(10));
}

#[test]
fn literal_sign_after_prefix() {
    assert_eq!(parse_number("0x-10"), Ok(-16));
    assert_eq!(parse_number("0x+10"), Ok(16));
}

#[test]
fn literal_extremes() {
    assert_eq!(parse_number("2147483647"), Ok(i32::MAX));
    assert_eq!(parse_number("-2147483648"), Ok(i32::MIN));
    assert_eq!(parse_number("0x7fffffff"), Ok(i32::MAX));
    assert_eq!(parse_number("0x-80000000"), Ok(i32::MIN));
}

#[test]
fn literal_overflow_rejected() {
    assert_eq!(parse_number("2147483648"), Err(AsmError::MalformedLiteral(cv("2147483648"))));
    assert_eq!(
        parse_number("-2147483649"),
        Err(AsmError::MalformedLiteral(cv("-2147483649")))
    );
    assert_eq!(
        parse_number("99999999999999999999"),
        Err(AsmError::MalformedLiteral(cv("99999999999999999999")))
    );
}

#[test]
fn literal_malformed() {
    assert_eq!(parse_number(""), Err(AsmError::MalformedLiteral(cv(""))));
    assert_eq!(parse_number("0x"), Err(AsmError::MalformedLiteral(cv("0x"))));
    assert_eq!(parse_number("zz"), Err(AsmError::MalformedLiteral(cv("zz"))));
    assert_eq!(parse_number("12x"), Err(AsmError::MalformedLiteral(cv("12x"))));
    assert_eq!(parse_number("-"), Err(AsmError::MalformedLiteral(cv("-"))));
    assert_eq!(parse_number("0b2"), Err(AsmError::MalformedLiteral(cv("0b2"))));
    assert_eq!(parse_number("0o8"), Err(AsmError::MalformedLiteral(cv("0o8"))));
    assert_eq!(parse_number("1 2"), Err(AsmError::MalformedLiteral(cv("1 2"))));
}

#[test]
fn literal_prefix_case_sensitive() {
    assert_eq!(parse_number("0X1F"), Err(AsmError::MalformedLiteral(cv("0X1F"))));
}

#[test]
fn literal_hex_digit_cases() {
    assert_eq!(parse_number("0xAb"), Ok(0xAB));
    assert_eq!(parse_number("0xff"), Ok(255));
}

#[test]
fn registers_numeric_form() {
    for n in 0..32u32 {
        let name = format!("x{}", n);
        assert_eq!(reg_name_to_num(&name), Ok(n), "register {}", name);
    }
}

#[test]
fn registers_abi_aliases() {
    let table: Vec<(&str, u32)> = vec![
        ("zero", 0),
        ("ra", 1),
        ("sp", 2),
        ("gp", 3),
        ("tp", 4),
        ("t0", 5),
        ("t1", 6),
        ("t2", 7),
        ("s0", 8),
        ("fp", 8),
        ("s1", 9),
        ("a0", 10),
        ("a1", 11),
        ("a2", 12),
        ("a3", 13),
        ("a4", 14),
        ("a5", 15),
        ("a6", 16),
        ("a7", 17),
        ("s2", 18),
        ("s3", 19),
        ("s4", 20),
        ("s5", 21),
        ("s6", 22),
        ("s7", 23),
        ("s8", 24),
        ("s9", 25),
        ("s10", 26),
        ("s11", 27),
        ("t3", 28),
        ("t4", 29),
        ("t5", 30),
        ("t6", 31),
    ];
    for (name, num) in table {
        assert_eq!(reg_name_to_num(name), Ok(num), "register {}", name);
    }
}

#[test]
fn registers_unknown() {
    for bad in ["x32", "x01", "x00", "q", "a8", "s12", "t7", "", "X0", "sp ", "x-1", "a 0"] {
        assert_eq!(
            reg_name_to_num(bad),
            Err(AsmError::UnknownRegister(cv(bad))),
            "token {:?}",
            bad
        );
    }
}
