use vstd::prelude::*;
use crate::helpers::{digit_char, imm16_text, make_digit, make_instruction_number, opcode_text, push_char, push_imm16};
use crate::instructions::{immediate, immediate_spec, register, register_spec, Instruction, ParseError, ParseErrorView};
use crate::patterns::{capture, group_at, Pattern};

verus! {

/// A conditional move of the program counter by an immediate.
pub struct Jump {
    pub instruction_number: u8,
    pub reg1: u8,
    pub reg2: u8,
    pub imm1: u32,
}

impl Instruction for Jump {
    /// Registers from groups 1 and 2, in `0..=5`; the distance from group 3.
    open spec fn parse_spec(g: Seq<Option<Seq<char>>>, instruction_number: u8) -> Result<Jump, ParseErrorView> {
        match register_spec(group_at(g, 1), false, 0, 5, false) {
            Err(e) => Err(e),
            Ok(reg1) => match register_spec(group_at(g, 2), true, 0, 5, false) {
                Err(e) => Err(e),
                Ok(reg2) => match immediate_spec(group_at(g, 3), false, 65535) {
                    Err(e) => Err(e),
                    Ok(imm1) => Ok(Jump { instruction_number, reg1, reg2, imm1 }),
                },
            },
        }
    }

    open spec fn wf(&self) -> bool {
        self.instruction_number <= 99 && self.reg1 <= 5 && self.reg2 <= 5 && self.imm1 <= 65535
    }

    /// `NN AB HH LL`
    open spec fn text(&self) -> Seq<char> {
        opcode_text(self.instruction_number as nat) + seq![' ', digit_char(self.reg1 as nat), digit_char(self.reg2 as nat), ' ']
            + imm16_text(self.imm1 as nat)
    }

    fn parse(instruction: &str, pattern: &Pattern, instruction_number: u8) -> (r: Result<Jump, ParseError>) {
        let groups = match pattern.captures(instruction) {
            Some(g) => g,
            None => return Err(ParseError::RegexDoesNotMatch),
        };
        let reg1 = register(&capture(&groups, 1), false, 0, 5, false)?;
        let reg2 = register(&capture(&groups, 2), true, 0, 5, false)?;
        let imm1 = immediate(&capture(&groups, 3), false, 65535)?;
        Ok(Jump { instruction_number, reg1, reg2, imm1 })
    }

    fn encode(&self) -> (r: String) {
        let mut s = make_instruction_number(self.instruction_number).unwrap();
        push_char(&mut s, ' ');
        push_char(&mut s, make_digit(self.reg1));
        push_char(&mut s, make_digit(self.reg2));
        push_char(&mut s, ' ');
        push_imm16(&mut s, self.imm1);
        proof {
            assert(s@ =~= self.text());
        }
        s
    }
}

} // verus!
