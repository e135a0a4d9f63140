use sopt_lang::helpers::{make_instruction_number, replace_first, replace_last};
use sopt_lang::instructions::{immediate, register, ParseError};

fn text(s: &str) -> Option<String> {
    Some(s.to_string())
}

#[test]
fn register_texts_name_their_number() {
    for n in 0u8..=5 {
        let t = format!("reg{}", n);
        assert_eq!(register(&text(&t), false, 0, 5, false), Ok(n));
        assert_eq!(register(&text(&t), true, 0, 5, false), Ok(n));
    }
    for n in 1u8..=5 {
        let t = format!("reg{}", n);
        assert_eq!(register(&text(&t), false, 1, 5, true), Ok(n));
    }
}

#[test]
fn register_errors() {
    assert_eq!(register(&text("reg0"), false, 0, 5, true), Err(ParseError::CannotWriteIntoReg0));
    assert_eq!(register(&text("reg0"), false, 0, 5, false), Ok(0));
    assert_eq!(register(&None, false, 0, 5, false), Err(ParseError::MissingReg1));
    assert_eq!(register(&text(""), true, 0, 5, false), Err(ParseError::MissingReg2));
    assert_eq!(
        register(&text("reg6"), false, 0, 5, false),
        Err(ParseError::UnsupportedReg1("reg6".to_string(), 0, 5))
    );
    assert_eq!(
        register(&text("regx"), true, 0, 5, false),
        Err(ParseError::UnsupportedReg2("regx".to_string(), 0, 5))
    );
    assert_eq!(
        register(&text("reg00"), false, 1, 5, true),
        Err(ParseError::UnsupportedReg1("reg00".to_string(), 1, 5))
    );
    assert_eq!(
        register(&text("reg999999999999"), false, 0, 5, false),
        Err(ParseError::UnsupportedReg1("reg999999999999".to_string(), 0, 5))
    );
}

#[test]
fn register_prefix_is_taken_off_repeatedly() {
    assert_eq!(register(&text("regreg3"), false, 0, 5, false), Ok(3));
    assert_eq!(register(&text("4"), false, 0, 5, false), Ok(4));
    assert_eq!(register(&text("reg+2"), false, 0, 5, false), Ok(2));
}

#[test]
fn immediate_texts() {
    assert_eq!(immediate(&text("0"), false, 65535), Ok(0));
    assert_eq!(immediate(&text("100"), false, 65535), Ok(100));
    assert_eq!(immediate(&text("65535"), false, 65535), Ok(65535));
    assert_eq!(immediate(&text("+7"), false, 65535), Ok(7));
    assert_eq!(immediate(&text("007"), false, 65535), Ok(7));
    for v in [1u32, 9, 10, 255, 256, 4096, 65534] {
        assert_eq!(immediate(&text(&v.to_string()), false, 65535), Ok(v));
    }
}

#[test]
fn immediate_errors() {
    assert_eq!(
        immediate(&text("65536"), false, 65535),
        Err(ParseError::UnsupportedImm1("65536".to_string(), 65535))
    );
    assert_eq!(
        immediate(&text("abc"), false, 65535),
        Err(ParseError::UnsupportedImm1("abc".to_string(), 65535))
    );
    assert_eq!(
        immediate(&text("-1"), false, 65535),
        Err(ParseError::UnsupportedImm1("-1".to_string(), 65535))
    );
    assert_eq!(
        immediate(&text("99999999999999999999"), false, 65535),
        Err(ParseError::UnsupportedImm1("99999999999999999999".to_string(), 65535))
    );
    assert_eq!(immediate(&text("+"), true, 255), Err(ParseError::UnsupportedImm2("+".to_string(), 255)));
    assert_eq!(immediate(&text("256"), true, 255), Err(ParseError::UnsupportedImm2("256".to_string(), 255)));
    assert_eq!(immediate(&text(""), false, 65535), Err(ParseError::MissingImm1));
    assert_eq!(immediate(&None, true, 255), Err(ParseError::MissingImm2));
}

#[test]
fn instruction_numbers() {
    assert_eq!(make_instruction_number(0), Some("00".to_string()));
    assert_eq!(make_instruction_number(5), Some("05".to_string()));
    assert_eq!(make_instruction_number(42), Some("42".to_string()));
    assert_eq!(make_instruction_number(99), Some("99".to_string()));
    assert_eq!(make_instruction_number(100), None);
    assert_eq!(make_instruction_number(255), None);
}

#[test]
fn replacing_first_and_last() {
    assert_eq!(replace_first("a-b-a", "a", "X"), "X-b-a");
    assert_eq!(replace_last("a-b-a", "a", "X"), "a-b-X");
    assert_eq!(replace_first("a-b-a", "c", "X"), "a-b-a");
    assert_eq!(replace_last("a-b-a", "c", "X"), "a-b-a");
    assert_eq!(replace_first("ab", "abc", "X"), "ab");
    assert_eq!(replace_first("ab", "", "X"), "Xab");
    assert_eq!(replace_last("ab", "", "X"), "abX");
    assert_eq!(replace_first("5, 5", "5", "[5]"), "[5], 5");
    assert_eq!(replace_last("5, 5", "5", "[5]"), "5, [5]");
    assert_eq!(replace_first("äöü", "ö", "o"), "äoü");
}

#[test]
fn error_descriptions() {
    assert_eq!(ParseError::RegexDoesNotMatch.description(), "regex does not match");
    assert_eq!(ParseError::CannotWriteIntoReg0.description(), "can not write into reg0");
    assert_eq!(ParseError::MissingReg1.description(), "missing reg1 argument");
    assert_eq!(ParseError::MissingReg2.description(), "missing reg2 argument");
    assert_eq!(ParseError::MissingImm1.description(), "missing imm1 argument");
    assert_eq!(ParseError::MissingImm2.description(), "missing imm2 argument");
    assert_eq!(
        ParseError::UnsupportedReg1("x".to_string(), 1, 5).description(),
        "unsupported reg number (supported: 1-5)"
    );
    assert_eq!(
        ParseError::UnsupportedReg2("x".to_string(), 0, 5).description(),
        "unsupported reg number (supported: 0-5)"
    );
    assert_eq!(
        ParseError::UnsupportedImm1("x".to_string(), 65535).description(),
        "unsupported imm number (supported: 0-65535)"
    );
    assert_eq!(
        ParseError::UnsupportedImm2("x".to_string(), 255).description(),
        "unsupported imm number (supported: 0-255)"
    );
}
