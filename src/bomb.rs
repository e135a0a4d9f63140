use vstd::prelude::*;
use crate::helpers::{imm16_text, make_instruction_number, opcode_text, push_char, push_imm16};
use crate::instructions::{immediate, immediate_spec, Instruction, ParseError, ParseErrorView};
use crate::patterns::{capture, group_at, Pattern};

verus! {

/// A single-immediate instruction.
pub struct Bomb {
    pub instruction_number: u8,
    pub imm1: u32,
}

impl Instruction for Bomb {
    /// The immediate from group 1.
    open spec fn parse_spec(g: Seq<Option<Seq<char>>>, instruction_number: u8) -> Result<Bomb, ParseErrorView> {
        match immediate_spec(group_at(g, 1), false, 65535) {
            Err(e) => Err(e),
            Ok(imm1) => Ok(Bomb { instruction_number, imm1 }),
        }
    }

    open spec fn wf(&self) -> bool {
        self.instruction_number <= 99 && self.imm1 <= 65535
    }

    /// `NN HH LL 00`
    open spec fn text(&self) -> Seq<char> {
        opcode_text(self.instruction_number as nat) + seq![' '] + imm16_text(self.imm1 as nat) + seq![' ', '0', '0']
    }

    fn parse(instruction: &str, pattern: &Pattern, instruction_number: u8) -> (r: Result<Bomb, ParseError>) {
        let groups = match pattern.captures(instruction) {
            Some(g) => g,
            None => return Err(ParseError::RegexDoesNotMatch),
        };
        let imm1 = immediate(&capture(&groups, 1), false, 65535)?;
        Ok(Bomb { instruction_number, imm1 })
    }

    fn encode(&self) -> (r: String) {
        let mut s = make_instruction_number(self.instruction_number).unwrap();
        push_char(&mut s, ' ');
        push_imm16(&mut s, self.imm1);
        push_char(&mut s, ' ');
        push_char(&mut s, '0');
        push_char(&mut s, '0');
        proof {
            assert(s@ =~= self.text());
        }
        s
    }
}

} // verus!
