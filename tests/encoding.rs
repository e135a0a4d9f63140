use sopt_lang::bomb::Bomb;
use sopt_lang::instructions::{Instruction, ParseError};
use sopt_lang::jumps::Jump;
use sopt_lang::mem_manipulation::MemManipulation;
use sopt_lang::patterns::PatternTable;
use sopt_lang::reg_manipulation::RegManipulation;
use sopt_lang::set_imms::SetImm;
use sopt_lang::teleport::Teleport;

#[test]
fn reg_manipulation_encoding() {
    let add = RegManipulation { instruction_number: 1, reg1: 2, reg2: 4, imm1: 256 };
    assert_eq!(add.encode(), "01 24 01 00");
    let mov = RegManipulation { instruction_number: 7, reg1: 5, reg2: 0, imm1: 65535 };
    assert_eq!(mov.encode(), "07 50 FF FF");
}

#[test]
fn other_encodings() {
    assert_eq!(Jump { instruction_number: 10, reg1: 1, reg2: 2, imm1: 5 }.encode(), "10 12 00 05");
    assert_eq!(SetImm { instruction_number: 20, reg1: 3, imm1: 10 }.encode(), "20 30 00 0A");
    assert_eq!(Teleport { instruction_number: 42, imm1: 0x1234, imm2: 0xAB }.encode(), "42 12 34 AB");
    assert_eq!(Bomb { instruction_number: 50, imm1: 65535 }.encode(), "50 FF FF 00");
    let load = MemManipulation { instruction_number: 5, reg1: 1, reg2: 2, imm1: 100, load: true };
    let store = MemManipulation { instruction_number: 6, reg1: 1, reg2: 2, imm1: 100, load: false };
    assert_eq!(load.encode(), "05 12 00 64");
    assert_eq!(store.encode(), "06 21 00 64");
}

#[test]
fn pattern_captures() {
    let table = PatternTable::new().unwrap();
    assert_eq!(table.len(), 16);
    let call = &table.family(0)[1];
    let groups = call.captures("ADD(reg1,reg2,3)").unwrap();
    assert_eq!(
        groups,
        vec![
            Some("ADD(reg1,reg2,3)".to_string()),
            Some("reg1".to_string()),
            Some("reg2".to_string()),
            Some("3".to_string())
        ]
    );
    assert_eq!(call.captures("SUB(reg1,reg2,3)"), None);
}

#[test]
fn parse_through_patterns() {
    let table = PatternTable::new().unwrap();
    let jump = Jump::parse("JUMP(reg1,reg2,7)", &table.family(6)[1], 10).unwrap();
    assert_eq!((jump.instruction_number, jump.reg1, jump.reg2, jump.imm1), (10, 1, 2, 7));
    assert!(matches!(
        Jump::parse("NOTAJUMP", &table.family(6)[1], 10),
        Err(ParseError::RegexDoesNotMatch)
    ));
    let store = MemManipulation::parse("STORE(reg3,9,reg4)", &table.family(5)[0], 6, false).unwrap();
    assert_eq!((store.reg1, store.reg2, store.imm1, store.load), (3, 4, 9, false));
    assert_eq!(store.encode(), "06 43 00 09");
    let tp = Teleport::parse("TELEPORT(300,7)", &table.family(15)[0], 42).unwrap();
    assert_eq!(tp.encode(), "42 01 2C 07");
}
