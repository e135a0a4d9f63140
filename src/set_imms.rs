use vstd::prelude::*;
use crate::helpers::{digit_char, imm16_text, make_digit, make_instruction_number, opcode_text, push_char, push_imm16};
use crate::instructions::{immediate, immediate_spec, register, register_spec, Instruction, ParseError, ParseErrorView};
use crate::patterns::{capture, group_at, Pattern};

verus! {

/// Sets the low or the high half of a register to an immediate.
pub struct SetImm {
    pub instruction_number: u8,
    pub reg1: u8,
    pub imm1: u32,
}

impl Instruction for SetImm {
    /// The target from group 1, in `1..=5`; the immediate from group 2.
    open spec fn parse_spec(g: Seq<Option<Seq<char>>>, instruction_number: u8) -> Result<SetImm, ParseErrorView> {
        match register_spec(group_at(g, 1), false, 1, 5, true) {
            Err(e) => Err(e),
            Ok(reg1) => match immediate_spec(group_at(g, 2), false, 65535) {
                Err(e) => Err(e),
                Ok(imm1) => Ok(SetImm { instruction_number, reg1, imm1 }),
            },
        }
    }

    open spec fn wf(&self) -> bool {
        self.instruction_number <= 99 && self.reg1 <= 5 && self.imm1 <= 65535
    }

    /// `NN A0 HH LL`
    open spec fn text(&self) -> Seq<char> {
        opcode_text(self.instruction_number as nat) + seq![' ', digit_char(self.reg1 as nat), '0', ' ']
            + imm16_text(self.imm1 as nat)
    }

    fn parse(instruction: &str, pattern: &Pattern, instruction_number: u8) -> (r: Result<SetImm, ParseError>) {
        let groups = match pattern.captures(instruction) {
            Some(g) => g,
            None => return Err(ParseError::RegexDoesNotMatch),
        };
        let reg1 = register(&capture(&groups, 1), false, 1, 5, true)?;
        let imm1 = immediate(&capture(&groups, 2), false, 65535)?;
        Ok(SetImm { instruction_number, reg1, imm1 })
    }

    fn encode(&self) -> (r: String) {
        let mut s = make_instruction_number(self.instruction_number).unwrap();
        push_char(&mut s, ' ');
        push_char(&mut s, make_digit(self.reg1));
        push_char(&mut s, '0');
        push_char(&mut s, ' ');
        push_imm16(&mut s, self.imm1);
        proof {
            assert(s@ =~= self.text());
        }
        s
    }
}

} // verus!
