use vstd::prelude::*;
use crate::helpers::{digit_char, imm16_text, make_digit, make_instruction_number, opcode_text, push_char, push_imm16};
use crate::instructions::{immediate, immediate_spec, register, register_spec, ParseError, ParseErrorView};
use crate::instructions::result_view;
use crate::patterns::{capture, captures_of, group_at, Pattern};

verus! {

/// A transfer between a register and memory at `reg2 + imm1`.
pub struct MemManipulation {
    pub instruction_number: u8,
    pub reg1: u8,
    pub reg2: u8,
    pub imm1: u32,
    pub load: bool,
}

impl MemManipulation {
    /// The data register from group 1, in `1..=5`; the base register and the offset
    /// from groups 2 and 3 for a load, from groups 3 and 2 for a store.
    pub open spec fn parse_spec(g: Seq<Option<Seq<char>>>, instruction_number: u8, load: bool) -> Result<MemManipulation, ParseErrorView> {
        let (x, y) = if load { (2int, 3int) } else { (3int, 2int) };
        match register_spec(group_at(g, 1), false, 1, 5, true) {
            Err(e) => Err(e),
            Ok(reg1) => match register_spec(group_at(g, x), true, 0, 5, false) {
                Err(e) => Err(e),
                Ok(reg2) => match immediate_spec(group_at(g, y), false, 65535) {
                    Err(e) => Err(e),
                    Ok(imm1) => Ok(MemManipulation { instruction_number, reg1, reg2, imm1, load }),
                },
            },
        }
    }

    pub open spec fn wf(&self) -> bool {
        self.instruction_number <= 99 && self.reg1 <= 5 && self.reg2 <= 5 && self.imm1 <= 65535
    }

    /// `NN AB HH LL`, with `A B` the data and base register for a load and the
    /// base and data register for a store.
    pub open spec fn text(&self) -> Seq<char> {
        let (a, b) = if self.load { (self.reg1, self.reg2) } else { (self.reg2, self.reg1) };
        opcode_text(self.instruction_number as nat) + seq![' ', digit_char(a as nat), digit_char(b as nat), ' ']
            + imm16_text(self.imm1 as nat)
    }

    /// Reads `instruction` through `pattern` as a load or a store.
    pub fn parse(instruction: &str, pattern: &Pattern, instruction_number: u8, load: bool) -> (r: Result<MemManipulation, ParseError>)
        ensures
            match captures_of(pattern@, instruction@) {
                None => r matches Err(e) && e@ == ParseErrorView::RegexDoesNotMatch,
                Some(g) => result_view(r) == Self::parse_spec(g, instruction_number, load),
            },
    {
        let groups = match pattern.captures(instruction) {
            Some(g) => g,
            None => return Err(ParseError::RegexDoesNotMatch),
        };
        let (x, y): (usize, usize) = if load { (2, 3) } else { (3, 2) };
        let reg1 = register(&capture(&groups, 1), false, 1, 5, true)?;
        let reg2 = register(&capture(&groups, x), true, 0, 5, false)?;
        let imm1 = immediate(&capture(&groups, y), false, 65535)?;
        Ok(MemManipulation { instruction_number, reg1, reg2, imm1, load })
    }

    /// A load `(data, base, offset)` and a store `(data, offset, base)` of the same
    /// registers and offset are read alike and refused alike; they encode to the
    /// same offset bytes, with the register digits in opposite order.
    pub proof fn lemma_load_store(g0: Option<Seq<char>>, data: Seq<char>, base: Seq<char>, offset: Seq<char>, load_number: u8, store_number: u8)
        ensures
            ({
                let l = Self::parse_spec(seq![g0, Some(data), Some(base), Some(offset)], load_number, true);
                let s = Self::parse_spec(seq![g0, Some(data), Some(offset), Some(base)], store_number, false);
                match l {
                    Err(e) => s == Err::<MemManipulation, ParseErrorView>(e),
                    Ok(x) => s matches Ok(y) && y.reg1 == x.reg1 && y.reg2 == x.reg2 && y.imm1 == x.imm1
                        && x.text().subrange(2, 5) == seq![' ', digit_char(x.reg1 as nat), digit_char(x.reg2 as nat)]
                        && y.text().subrange(2, 5) == seq![' ', digit_char(x.reg2 as nat), digit_char(x.reg1 as nat)]
                        && x.text().subrange(5, 11) == y.text().subrange(5, 11),
                }
            }),
    {
        let gl = seq![g0, Some(data), Some(base), Some(offset)];
        let gs = seq![g0, Some(data), Some(offset), Some(base)];
        assert(group_at(gl, 1) == group_at(gs, 1));
        assert(group_at(gl, 2) == group_at(gs, 3));
        assert(group_at(gl, 3) == group_at(gs, 2));
        let l = Self::parse_spec(gl, load_number, true);
        if let Ok(x) = l {
            let y = Self::parse_spec(gs, store_number, false)->Ok_0;
            assert(x.text().subrange(2, 5) =~= seq![' ', digit_char(x.reg1 as nat), digit_char(x.reg2 as nat)]);
            assert(y.text().subrange(2, 5) =~= seq![' ', digit_char(x.reg2 as nat), digit_char(x.reg1 as nat)]);
            assert(x.text().subrange(5, 11) =~= y.text().subrange(5, 11));
        }
    }

    /// Writes the instruction out.
    pub fn encode(&self) -> (r: String)
        requires
            self.wf(),
        ensures
            r@ == self.text(),
    {
        let mut s = make_instruction_number(self.instruction_number).unwrap();
        push_char(&mut s, ' ');
        if self.load {
            push_char(&mut s, make_digit(self.reg1));
            push_char(&mut s, make_digit(self.reg2));
        } else {
            push_char(&mut s, make_digit(self.reg2));
            push_char(&mut s, make_digit(self.reg1));
        }
        push_char(&mut s, ' ');
        push_imm16(&mut s, self.imm1);
        proof {
            assert(s@ =~= self.text());
        }
        s
    }
}

} // verus!
