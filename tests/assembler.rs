use sopt_lang::assembler::{assemble, assemble_line, LineError};
use sopt_lang::instructions::{build_error, compose_error, ParseError};
use sopt_lang::patterns::PatternTable;

fn table() -> PatternTable {
    PatternTable::new().unwrap()
}

fn line(raw: &str) -> Result<String, LineError> {
    assemble_line(raw, &table())
}

fn invalid(e: ParseError, n: u8) -> Result<String, LineError> {
    Err(LineError::Invalid(e, n))
}

/// Takes out the red and reset escape sequences, where the terminal settings put them in.
fn plain(s: &str) -> String {
    s.replace("\u{1b}[31m", "").replace("\u{1b}[0m", "")
}

#[test]
fn add_round_trip_shape() {
    assert_eq!(line("ADD(reg2,reg4,256)"), Ok("01 24 01 00 ; ADD(reg2,reg4,256)".to_string()));
}

#[test]
fn nop_with_any_whitespace() {
    assert_eq!(line("NOP"), Ok("69 00 00 00 ; NOP".to_string()));
    assert_eq!(line("  NOP  "), Ok("69 00 00 00 ;   NOP  ".to_string()));
    assert_eq!(line("\tN O P ; idle"), Ok("69 00 00 00 ; \tN O P ; idle".to_string()));
}

#[test]
fn every_writing_family_refuses_reg0() {
    let cases = [
        ("ADD(reg0,reg1,1)", 1),
        ("reg0-=reg1+1", 2),
        ("MUL(reg0,reg1,1)", 3),
        ("reg0=reg1+1", 7),
        ("LOAD(reg0,reg1,1)", 5),
        ("STORE(reg0,1,reg1)", 6),
        ("reg0[low]=1", 20),
        ("SETIMMHIGH(reg0,1)", 21),
    ];
    for (raw, n) in cases {
        assert_eq!(line(raw), invalid(ParseError::CannotWriteIntoReg0, n), "{}", raw);
    }
}

#[test]
fn load_and_store_of_one_transfer() {
    assert_eq!(line("LOAD(reg1,reg2,100)"), Ok("05 12 00 64 ; LOAD(reg1,reg2,100)".to_string()));
    assert_eq!(line("STORE(reg1,100,reg2)"), Ok("06 21 00 64 ; STORE(reg1,100,reg2)".to_string()));
    assert_eq!(line("LOAD(reg0,reg2,100)"), invalid(ParseError::CannotWriteIntoReg0, 5));
    assert_eq!(line("STORE(reg0,100,reg2)"), invalid(ParseError::CannotWriteIntoReg0, 6));
}

#[test]
fn operator_and_call_forms_agree() {
    let expected = "01 12 00 64";
    for raw in ["reg1+=reg2+100", "ADD(reg1,reg2,100)", "ADDreg1,reg2,100", "reg1 += reg2 + 100"] {
        assert_eq!(line(raw), Ok(format!("{} ; {}", expected, raw)));
    }
    assert_eq!(line("if(reg1==reg2)pc+=5"), Ok("10 12 00 05 ; if(reg1==reg2)pc+=5".to_string()));
    assert_eq!(line("JUMP(reg1,reg2,5)"), Ok("10 12 00 05 ; JUMP(reg1,reg2,5)".to_string()));
}

#[test]
fn each_family_in_order() {
    let cases = [
        ("reg1-=reg2+3", "02 12 00 03"),
        ("reg1*=reg2+3", "03 12 00 03"),
        ("reg1=reg2+3", "07 12 00 03"),
        ("if(reg1==reg2)pc-=3", "11 12 00 03"),
        ("if(reg1<reg2)pc+=3", "12 12 00 03"),
        ("if(reg1<reg2)pc-=3", "13 12 00 03"),
        ("if(reg1!=reg2)pc+=3", "14 12 00 03"),
        ("if(reg1!=reg2)pc-=3", "15 12 00 03"),
        ("REVNEQJUMP(reg3,reg4,3)", "15 34 00 03"),
        ("reg1[low]=3", "20 10 00 03"),
        ("reg1[high]=65535", "21 10 FF FF"),
        ("SETIMMLOW(reg5,1)", "20 50 00 01"),
        ("BOMB(4660)", "50 12 34 00"),
        ("BOMB7", "50 00 07 00"),
        ("TELEPORT(1,255)", "42 00 01 FF"),
    ];
    for (raw, enc) in cases {
        assert_eq!(line(raw), Ok(format!("{} ; {}", enc, raw)), "{}", raw);
    }
}

#[test]
fn error_variants_through_lines() {
    assert_eq!(line("ADD(,reg2,3)"), invalid(ParseError::MissingReg1, 1));
    assert_eq!(line("ADD(reg1,,3)"), invalid(ParseError::MissingReg2, 1));
    assert_eq!(line("ADD(reg1,reg2,)"), invalid(ParseError::MissingImm1, 1));
    assert_eq!(line("TELEPORT(5,)"), invalid(ParseError::MissingImm2, 42));
    assert_eq!(line("JUMP(reg6,reg1,1)"), invalid(ParseError::UnsupportedReg1("reg6".to_string(), 0, 5), 10));
    assert_eq!(line("ADD(reg1,reg7,1)"), invalid(ParseError::UnsupportedReg2("reg7".to_string(), 0, 5), 1));
    assert_eq!(line("BOMB(70000)"), invalid(ParseError::UnsupportedImm1("70000".to_string(), 65535), 50));
    assert_eq!(line("TELEPORT(1,256)"), invalid(ParseError::UnsupportedImm2("256".to_string(), 255), 42));
    assert_eq!(line("SETIMMLOW(reg6,1)"), invalid(ParseError::UnsupportedReg1("reg6".to_string(), 1, 5), 20));
}

#[test]
fn reg0_is_reported_before_reg9() {
    assert_eq!(line("ADD(reg0,reg9,10)"), invalid(ParseError::CannotWriteIntoReg0, 1));
    let report = compose_error(&ParseError::CannotWriteIntoReg0, "1. ADD(reg0,reg9,10)", 1, "[reg0]", "PROBLEM");
    assert_eq!(
        report,
        "in your program on line:\n\n1. ADD([reg0],reg9,10)\n\nproblem: PROBLEM\ninstruction found: 01"
    );
    let built = build_error(ParseError::CannotWriteIntoReg0, "1. ADD(reg0,reg9,10) ; reg0".to_string(), &1);
    assert_eq!(
        plain(&built),
        "in your program on line:\n\n1. ADD(reg0,reg9,10) ; reg0\n\nproblem: can not write into reg0\ninstruction found: 01"
    );
}

#[test]
fn second_operand_errors_mark_the_last_occurrence() {
    let e = ParseError::UnsupportedReg2("reg7".to_string(), 0, 5);
    let report = compose_error(&e, "3. ADD(reg7,reg7,1)", 1, "<reg7>", "P");
    assert_eq!(report, "in your program on line:\n\n3. ADD(reg7,<reg7>,1)\n\nproblem: P\ninstruction found: 01");
    let e = ParseError::UnsupportedImm1("9".to_string(), 255);
    let report = compose_error(&e, "4. TELEPORT(9,9)", 42, "<9>", "P");
    assert_eq!(report, "in your program on line:\n\n4. TELEPORT(<9>,9)\n\nproblem: P\ninstruction found: 42");
    let report = compose_error(&ParseError::MissingImm1, "5. BOMB()", 50, "unused", "P");
    assert_eq!(report, "in your program on line:\n\n5. BOMB()\n\nproblem: P\ninstruction found: 50");
}

#[test]
fn blank_and_comment_lines() {
    assert_eq!(line(""), Ok(String::new()));
    assert_eq!(line("   \t "), Ok(String::new()));
    assert_eq!(line("; just a note"), Ok("; just a note".to_string()));
    assert_eq!(line("   ;x"), Ok("   ;x".to_string()));
    assert_eq!(assemble("\n; c\n", &table()), Ok("\n; c\n\n".to_string()));
}

#[test]
fn whole_text() {
    let input = "ADD(reg1,reg2,3) ; first\n\nNOP\n; end";
    assert_eq!(
        assemble(input, &table()),
        Ok("01 12 00 03 ; ADD(reg1,reg2,3) ; first\n\n69 00 00 00 ; NOP\n; end\n".to_string())
    );
}

#[test]
fn unknown_instruction_aborts_the_run() {
    assert_eq!(line("FOO"), Err(LineError::UnknownInstruction));
    let r = assemble("ADD(reg1,reg2,3)\nFOO\nNOP", &table());
    let message = plain(&r.unwrap_err());
    assert_eq!(message, "in your program on line:\n\n2. FOO\n\nproblem: unknown instruction");
}

#[test]
fn invalid_operand_aborts_the_run() {
    let r = assemble("NOP\nNOP\nADD(reg1,reg2,70000)", &table());
    let message = plain(&r.unwrap_err());
    assert_eq!(
        message,
        "in your program on line:\n\n3. ADD(reg1,reg2,70000)\n\nproblem: unsupported imm number (supported: 0-65535)\ninstruction found: 01"
    );
}
