use vstd::prelude::*;
use crate::helpers::{hex_byte, imm16_text, make_instruction_number, opcode_text, push_char, push_hex_byte, push_imm16};
use crate::instructions::{immediate, immediate_spec, Instruction, ParseError, ParseErrorView};
use crate::patterns::{capture, group_at, Pattern};

verus! {

/// Sets the program counter, with a byte-sized second parameter.
pub struct Teleport {
    pub instruction_number: u8,
    pub imm1: u32,
    pub imm2: u32,
}

impl Instruction for Teleport {
    /// The target from group 1, at most 65535; the parameter from group 2, at most 255.
    open spec fn parse_spec(g: Seq<Option<Seq<char>>>, instruction_number: u8) -> Result<Teleport, ParseErrorView> {
        match immediate_spec(group_at(g, 1), false, 65535) {
            Err(e) => Err(e),
            Ok(imm1) => match immediate_spec(group_at(g, 2), true, 255) {
                Err(e) => Err(e),
                Ok(imm2) => Ok(Teleport { instruction_number, imm1, imm2 }),
            },
        }
    }

    open spec fn wf(&self) -> bool {
        self.instruction_number <= 99 && self.imm1 <= 65535 && self.imm2 <= 255
    }

    /// `NN HH LL XX`
    open spec fn text(&self) -> Seq<char> {
        opcode_text(self.instruction_number as nat) + seq![' '] + imm16_text(self.imm1 as nat) + seq![' ']
            + hex_byte(self.imm2 as nat)
    }

    fn parse(instruction: &str, pattern: &Pattern, instruction_number: u8) -> (r: Result<Teleport, ParseError>) {
        let groups = match pattern.captures(instruction) {
            Some(g) => g,
            None => return Err(ParseError::RegexDoesNotMatch),
        };
        let imm1 = immediate(&capture(&groups, 1), false, 65535)?;
        let imm2 = immediate(&capture(&groups, 2), true, 255)?;
        Ok(Teleport { instruction_number, imm1, imm2 })
    }

    fn encode(&self) -> (r: String) {
        let mut s = make_instruction_number(self.instruction_number).unwrap();
        push_char(&mut s, ' ');
        push_imm16(&mut s, self.imm1);
        push_char(&mut s, ' ');
        push_hex_byte(&mut s, self.imm2);
        proof {
            assert(s@ =~= self.text());
        }
        s
    }
}

} // verus!
