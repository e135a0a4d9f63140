use vstd::prelude::*;
use vstd::string::StrSliceExecFns;
use vstd::string::StringExecFns;
use colored::Colorize;
use crate::helpers::{chars_of, digit_char, make_instruction_number, decimal_text, find_from, opcode_text, push_decimal, replace_first, replace_first_spec, replace_last, replace_last_spec};
use crate::patterns::{captures_of, Pattern};

verus! {

/// Why one instruction could not be read.
#[derive(Debug, PartialEq, Eq)]
pub enum ParseError {
    RegexDoesNotMatch,
    CannotWriteIntoReg0,
    MissingReg1,
    MissingReg2,
    MissingImm1,
    MissingImm2,
    /// The register text as written, and the accepted range.
    UnsupportedReg1(String, u8, u8),
    UnsupportedReg2(String, u8, u8),
    /// The immediate text as written, and the largest accepted value.
    UnsupportedImm1(String, u32),
    UnsupportedImm2(String, u32),
}

/// A parse error with its texts as character sequences.
pub ghost enum ParseErrorView {
    RegexDoesNotMatch,
    CannotWriteIntoReg0,
    MissingReg1,
    MissingReg2,
    MissingImm1,
    MissingImm2,
    UnsupportedReg1(Seq<char>, u8, u8),
    UnsupportedReg2(Seq<char>, u8, u8),
    UnsupportedImm1(Seq<char>, u32),
    UnsupportedImm2(Seq<char>, u32),
}

impl View for ParseError {
    type V = ParseErrorView;

    open spec fn view(&self) -> ParseErrorView {
        match self {
            ParseError::RegexDoesNotMatch => ParseErrorView::RegexDoesNotMatch,
            ParseError::CannotWriteIntoReg0 => ParseErrorView::CannotWriteIntoReg0,
            ParseError::MissingReg1 => ParseErrorView::MissingReg1,
            ParseError::MissingReg2 => ParseErrorView::MissingReg2,
            ParseError::MissingImm1 => ParseErrorView::MissingImm1,
            ParseError::MissingImm2 => ParseErrorView::MissingImm2,
            ParseError::UnsupportedReg1(t, lo, hi) => ParseErrorView::UnsupportedReg1(t@, *lo, *hi),
            ParseError::UnsupportedReg2(t, lo, hi) => ParseErrorView::UnsupportedReg2(t@, *lo, *hi),
            ParseError::UnsupportedImm1(t, hi) => ParseErrorView::UnsupportedImm1(t@, *hi),
            ParseError::UnsupportedImm2(t, hi) => ParseErrorView::UnsupportedImm2(t@, *hi),
        }
    }
}

/// One instruction family: how it is read from the capture groups of a
/// matched pattern, and how it is written out.
pub trait Instruction: Sized {
    /// What reading capture groups `groups` gives under opcode number `instruction_number`.
    spec fn parse_spec(groups: Seq<Option<Seq<char>>>, instruction_number: u8) -> Result<Self, ParseErrorView>;

    /// Every field lies in its range.
    spec fn wf(&self) -> bool;

    /// The encoded line.
    spec fn text(&self) -> Seq<char>;

    /// Reads `instruction` through `pattern`.
    fn parse(instruction: &str, pattern: &Pattern, instruction_number: u8) -> (r: Result<Self, ParseError>)
        ensures
            match captures_of(pattern@, instruction@) {
                None => r matches Err(e) && e@ == ParseErrorView::RegexDoesNotMatch,
                Some(g) => result_view(r) == Self::parse_spec(g, instruction_number),
            },
    ;

    /// Writes the instruction out.
    fn encode(&self) -> (r: String)
        requires
            self.wf(),
        ensures
            r@ == self.text(),
    ;
}

/// A result with its error seen through the error's view.
pub open spec fn result_view<T>(r: Result<T, ParseError>) -> Result<T, ParseErrorView> {
    match r {
        Ok(v) => Ok(v),
        Err(e) => Err(e@),
    }
}

/// An optional capture seen as characters.
pub open spec fn text_view(t: Option<String>) -> Option<Seq<char>> {
    match t {
        Some(s) => Some(s@),
        None => None,
    }
}

pub open spec fn is_digit(c: char) -> bool {
    '0' <= c && c <= '9'
}

/// The value of a run of decimal digits.
pub open spec fn digits_value(d: Seq<char>) -> nat
    decreases d.len(),
{
    if d.len() == 0 {
        0
    } else {
        digits_value(d.drop_last()) * 10 + ((d.last() as u32) - 48) as nat
    }
}

/// The digits of an unsigned decimal text: a leading `+` is allowed.
pub open spec fn unsigned_digits(t: Seq<char>) -> Seq<char> {
    if t.len() > 0 && t[0] == '+' {
        t.drop_first()
    } else {
        t
    }
}

/// `t` is an unsigned decimal number: an optional `+`, then one or more digits.
pub open spec fn is_unsigned_text(t: Seq<char>) -> bool {
    let d = unsigned_digits(t);
    d.len() > 0 && forall|i: int| 0 <= i < d.len() ==> is_digit(#[trigger] d[i])
}

/// The number that `t` spells, if it is one and at most `max`.
pub open spec fn parse_bounded(t: Seq<char>, max: u32) -> Option<u32> {
    if is_unsigned_text(t) && digits_value(unsigned_digits(t)) <= max {
        Some(digits_value(unsigned_digits(t)) as u32)
    } else {
        None
    }
}

/// `t` with every leading `reg` taken off.
pub open spec fn strip_reg(t: Seq<char>) -> Seq<char>
    decreases t.len(),
{
    if t.len() >= 3 && t[0] == 'r' && t[1] == 'e' && t[2] == 'g' {
        strip_reg(t.subrange(3, t.len() as int))
    } else {
        t
    }
}

/// The text `reg0`, which no instruction may write to.
pub open spec fn reg0_text() -> Seq<char> {
    seq!['r', 'e', 'g', '0']
}

pub open spec fn missing_reg(second: bool) -> ParseErrorView {
    if second {
        ParseErrorView::MissingReg2
    } else {
        ParseErrorView::MissingReg1
    }
}

pub open spec fn missing_imm(second: bool) -> ParseErrorView {
    if second {
        ParseErrorView::MissingImm2
    } else {
        ParseErrorView::MissingImm1
    }
}

pub open spec fn unsupported_reg(second: bool, t: Seq<char>, min: u8, max: u8) -> ParseErrorView {
    if second {
        ParseErrorView::UnsupportedReg2(t, min, max)
    } else {
        ParseErrorView::UnsupportedReg1(t, min, max)
    }
}

pub open spec fn unsupported_imm(second: bool, t: Seq<char>, max: u32) -> ParseErrorView {
    if second {
        ParseErrorView::UnsupportedImm2(t, max)
    } else {
        ParseErrorView::UnsupportedImm1(t, max)
    }
}

/// The register that a captured operand names, in `min..=max`.
/// A write target reading `reg0` is refused before anything else.
pub open spec fn register_spec(t: Option<Seq<char>>, second: bool, min: u8, max: u8, write: bool) -> Result<u8, ParseErrorView> {
    match t {
        None => Err(missing_reg(second)),
        Some(s) => if write && s == reg0_text() {
            Err(ParseErrorView::CannotWriteIntoReg0)
        } else if s.len() == 0 {
            Err(missing_reg(second))
        } else {
            match parse_bounded(strip_reg(s), max as u32) {
                Some(v) => if min <= v {
                    Ok(v as u8)
                } else {
                    Err(unsupported_reg(second, s, min, max))
                },
                None => Err(unsupported_reg(second, s, min, max)),
            }
        },
    }
}

/// The immediate that a captured operand spells, at most `max`.
pub open spec fn immediate_spec(t: Option<Seq<char>>, second: bool, max: u32) -> Result<u32, ParseErrorView> {
    match t {
        None => Err(missing_imm(second)),
        Some(s) => if s.len() == 0 {
            Err(missing_imm(second))
        } else {
            match parse_bounded(s, max) {
                Some(v) => Ok(v),
                None => Err(unsupported_imm(second, s, max)),
            }
        },
    }
}

proof fn lemma_digits_value_grows(d: Seq<char>, k: int)
    requires
        0 <= k <= d.len(),
    ensures
        digits_value(d.take(k)) <= digits_value(d),
    decreases d.len(),
{
    if k < d.len() {
        assert(d.drop_last().take(k) == d.take(k));
        lemma_digits_value_grows(d.drop_last(), k);
    } else {
        assert(d.take(k) == d);
    }
}

/// Reads the unsigned decimal number in `v[start..]`, if it is one and at most `max`.
fn parse_from(v: &Vec<char>, start: usize, max: u32) -> (r: Option<u32>)
    requires
        start <= v@.len(),
    ensures
        r == parse_bounded(v@.subrange(start as int, v@.len() as int), max),
{
    let ghost t = v@.subrange(start as int, v@.len() as int);
    let n = v.len();
    let mut i = start;
    if i < n && v[i] == '+' {
        i += 1;
    }
    let ghost d = v@.subrange(i as int, n as int);
    assert(d == unsigned_digits(t));
    if i == n {
        return None;
    }
    let mut acc: u64 = 0;
    let mut k = i;
    while k < n
        invariant
            i <= k <= n,
            n == v@.len(),
            d == v@.subrange(i as int, n as int),
            t == v@.subrange(start as int, n as int),
            d == unsigned_digits(t),
            acc <= max,
            acc == digits_value(d.take(k - i)),
            forall|j: int| 0 <= j < k - i ==> is_digit(#[trigger] d[j]),
        decreases n - k,
    {
        let c = v[k];
        if !('0' <= c && c <= '9') {
            assert(!is_digit(d[k - i]));
            return None;
        }
        assert(d.take(k - i + 1).drop_last() == d.take(k - i));
        acc = acc * 10 + ((c as u32) - 48) as u64;
        k += 1;
        if acc > max as u64 {
            proof {
                if is_unsigned_text(t) {
                    lemma_digits_value_grows(d, k - i);
                }
            }
            return None;
        }
    }
    assert(d.take(k - i) == d);
    Some(acc as u32)
}

/// `v` reads `reg0`.
fn is_reg0(v: &Vec<char>) -> (r: bool)
    ensures
        r == (v@ == reg0_text()),
{
    if v.len() == 4 && v[0] == 'r' && v[1] == 'e' && v[2] == 'g' && v[3] == '0' {
        assert(v@ =~= reg0_text());
        true
    } else {
        false
    }
}

/// The position after every leading `reg` of `v`.
fn skip_reg(v: &Vec<char>) -> (k: usize)
    ensures
        k <= v@.len(),
        v@.subrange(k as int, v@.len() as int) == strip_reg(v@),
{
    let n = v.len();
    let mut k: usize = 0;
    assert(v@.subrange(0, n as int) == v@);
    while 3 <= n - k && v[k] == 'r' && v[k + 1] == 'e' && v[k + 2] == 'g'
        invariant
            k <= n,
            n == v@.len(),
            strip_reg(v@) == strip_reg(v@.subrange(k as int, n as int)),
        decreases n - k,
    {
        let ghost rest = v@.subrange(k as int, n as int);
        assert(rest.subrange(3, rest.len() as int) == v@.subrange(k + 3, n as int));
        k += 3;
    }
    k
}

/// Reads a captured register operand: see `register_spec`.
pub fn register(t: &Option<String>, second: bool, min: u8, max: u8, write: bool) -> (r: Result<u8, ParseError>)
    ensures
        result_view(r) == register_spec(text_view(*t), second, min, max, write),
{
    match t {
        None => Err(if second { ParseError::MissingReg2 } else { ParseError::MissingReg1 }),
        Some(s) => {
            let v = chars_of(s.as_str());
            if write && is_reg0(&v) {
                return Err(ParseError::CannotWriteIntoReg0);
            }
            if v.len() == 0 {
                return Err(if second { ParseError::MissingReg2 } else { ParseError::MissingReg1 });
            }
            let k = skip_reg(&v);
            match parse_from(&v, k, max as u32) {
                Some(n) if min as u32 <= n => Ok(n as u8),
                _ => Err(
                    if second {
                        ParseError::UnsupportedReg2(s.clone(), min, max)
                    } else {
                        ParseError::UnsupportedReg1(s.clone(), min, max)
                    },
                ),
            }
        },
    }
}

/// Reads a captured immediate operand: see `immediate_spec`.
pub fn immediate(t: &Option<String>, second: bool, max: u32) -> (r: Result<u32, ParseError>)
    ensures
        result_view(r) == immediate_spec(text_view(*t), second, max),
{
    match t {
        None => Err(if second { ParseError::MissingImm2 } else { ParseError::MissingImm1 }),
        Some(s) => {
            let v = chars_of(s.as_str());
            if v.len() == 0 {
                return Err(if second { ParseError::MissingImm2 } else { ParseError::MissingImm1 });
            }
            assert(v@.subrange(0, v@.len() as int) == v@);
            match parse_from(&v, 0, max) {
                Some(n) => Ok(n),
                None => Err(
                    if second {
                        ParseError::UnsupportedImm2(s.clone(), max)
                    } else {
                        ParseError::UnsupportedImm1(s.clone(), max)
                    },
                ),
            }
        },
    }
}


proof fn lemma_digit_char(d: nat)
    requires
        d < 10,
    ensures
        digit_char(d) as u32 == 48 + d,
        is_digit(digit_char(d)),
        digit_char(d) != '+',
{
    assert(((48 + d) as u8) as char as u32 == 48 + d);
}

proof fn lemma_decimal_text(v: nat)
    ensures
        decimal_text(v).len() > 0,
        decimal_text(v)[0] != '+',
        forall|i: int| 0 <= i < decimal_text(v).len() ==> is_digit(#[trigger] decimal_text(v)[i]),
        digits_value(decimal_text(v)) == v,
    decreases v,
{
    lemma_digit_char(v % 10);
    let s = decimal_text(v);
    if v >= 10 {
        lemma_decimal_text(v / 10);
        assert(s.drop_last() == decimal_text(v / 10));
        assert(s.last() == digit_char(v % 10));
        assert((v / 10) * 10 + v % 10 == v) by (nonlinear_arith);
    } else {
        assert(s.drop_last() =~= Seq::<char>::empty());
        assert(digits_value(s.drop_last()) == 0);
    }
    assert(s.last() as u32 == 48 + v % 10);
    assert(digits_value(s) == digits_value(s.drop_last()) * 10 + ((s.last() as u32) - 48) as nat);
}

/// Register texts `reg0` to `reg5` name registers 0 to 5; within the accepted range
/// they are read as that number, except `reg0` where the register is written.
pub proof fn lemma_register_text(n: u8, second: bool, min: u8, write: bool)
    requires
        min <= n <= 5,
        !(write && n == 0),
    ensures
        register_spec(Some(seq!['r', 'e', 'g', digit_char(n as nat)]), second, min, 5, write) == Ok::<u8, ParseErrorView>(n),
{
    let t = seq!['r', 'e', 'g', digit_char(n as nat)];
    lemma_digit_char(n as nat);
    let rest = t.subrange(3, 4);
    assert(rest == seq![digit_char(n as nat)]);
    assert(strip_reg(rest) == rest);
    assert(strip_reg(t) == rest);
    assert(rest.drop_last() =~= Seq::<char>::empty());
    assert(rest.last() == digit_char(n as nat));
    assert(digits_value(rest.drop_last()) == 0);
    assert(rest.last() as u32 == 48 + n);
    assert(digits_value(rest) == digits_value(rest.drop_last()) * 10 + ((rest.last() as u32) - 48) as nat);
    assert(unsigned_digits(rest) == rest);
    assert(digits_value(rest) == n);
    if write {
        assert(t != reg0_text()) by {
            assert(t[3] != reg0_text()[3]);
        }
    }
}

/// The decimal text of a value up to the maximum is read as that value; above the
/// maximum, and on any text that is not an unsigned decimal number, the immediate
/// is refused as unsupported.
pub proof fn lemma_immediate_text(v: u32, t: Seq<char>, second: bool, max: u32)
    ensures
        v <= max ==> immediate_spec(Some(decimal_text(v as nat)), second, max) == Ok::<u32, ParseErrorView>(v),
        v > max ==> immediate_spec(Some(decimal_text(v as nat)), second, max)
            == Err::<u32, ParseErrorView>(unsupported_imm(second, decimal_text(v as nat), max)),
        t.len() > 0 && !is_unsigned_text(t) ==> immediate_spec(Some(t), second, max)
            == Err::<u32, ParseErrorView>(unsupported_imm(second, t, max)),
{
    lemma_decimal_text(v as nat);
    assert(unsigned_digits(decimal_text(v as nat)) == decimal_text(v as nat));
}

/// What a parse error says, in one line.
pub open spec fn description(e: ParseErrorView) -> Seq<char> {
    match e {
        ParseErrorView::RegexDoesNotMatch => "regex does not match"@,
        ParseErrorView::CannotWriteIntoReg0 => "can not write into reg0"@,
        ParseErrorView::MissingReg1 => "missing reg1 argument"@,
        ParseErrorView::MissingReg2 => "missing reg2 argument"@,
        ParseErrorView::MissingImm1 => "missing imm1 argument"@,
        ParseErrorView::MissingImm2 => "missing imm2 argument"@,
        ParseErrorView::UnsupportedReg1(_, lo, hi) | ParseErrorView::UnsupportedReg2(_, lo, hi) =>
            "unsupported reg number (supported: "@ + decimal_text(lo as nat) + "-"@ + decimal_text(hi as nat) + ")"@,
        ParseErrorView::UnsupportedImm1(_, hi) | ParseErrorView::UnsupportedImm2(_, hi) =>
            "unsupported imm number (supported: 0-"@ + decimal_text(hi as nat) + ")"@,
    }
}

impl ParseError {
    /// What the error says, in one line.
    pub fn description(&self) -> (r: String)
        ensures
            r@ == description(self@),
    {
        let mut s = String::new();
        match self {
            ParseError::RegexDoesNotMatch => s.append("regex does not match"),
            ParseError::CannotWriteIntoReg0 => s.append("can not write into reg0"),
            ParseError::MissingReg1 => s.append("missing reg1 argument"),
            ParseError::MissingReg2 => s.append("missing reg2 argument"),
            ParseError::MissingImm1 => s.append("missing imm1 argument"),
            ParseError::MissingImm2 => s.append("missing imm2 argument"),
            ParseError::UnsupportedReg1(_, lo, hi) | ParseError::UnsupportedReg2(_, lo, hi) => {
                s.append("unsupported reg number (supported: ");
                push_decimal(&mut s, *lo as usize);
                s.append("-");
                push_decimal(&mut s, *hi as usize);
                s.append(")");
            },
            ParseError::UnsupportedImm1(_, hi) | ParseError::UnsupportedImm2(_, hi) => {
                s.append("unsupported imm number (supported: 0-");
                push_decimal(&mut s, *hi as usize);
                s.append(")");
            },
        }
        s
    }
}

/// The escape sequence that turns text red.
pub open spec fn red_start() -> Seq<char> {
    seq!['\x1b', '[', '3', '1', 'm']
}

/// The escape sequence that resets the colour.
pub open spec fn color_reset() -> Seq<char> {
    seq!['\x1b', '[', '0', 'm']
}

/// `r` is `s` as a terminal may be sent it: unchanged, or wrapped in the red and
/// reset sequences (and, where `s` holds a reset of its own, with that escaped).
pub open spec fn red_outcome(s: Seq<char>, r: Seq<char>) -> bool {
    r == s || exists|m: Seq<char>| r == red_start() + m + color_reset()
        && (find_from(s, color_reset(), 0) is None ==> m == s)
}

/// Relies on colored's `Colorize::red` and `ColoredString`'s `Display`: whether the
/// escape sequences are written depends on the environment and the terminal.
#[verifier::external_body]
pub(crate) fn paint_red(s: &str) -> (r: String)
    ensures
        red_outcome(s@, r@),
{
    s.red().to_string()
}

/// The operand text to mark in the source line, and whether its last occurrence
/// (rather than its first) is the one to mark.
pub open spec fn error_token(e: ParseErrorView) -> Option<(Seq<char>, bool)> {
    match e {
        ParseErrorView::CannotWriteIntoReg0 => Some((reg0_text(), false)),
        ParseErrorView::UnsupportedReg1(t, _, _) => Some((t, false)),
        ParseErrorView::UnsupportedReg2(t, _, _) => Some((t, true)),
        ParseErrorView::UnsupportedImm1(t, _) => Some((t, false)),
        ParseErrorView::UnsupportedImm2(t, _) => Some((t, true)),
        _ => None,
    }
}

/// The source line with the offending operand replaced by its marked form.
pub open spec fn highlighted(e: ParseErrorView, line: Seq<char>, marked: Seq<char>) -> Seq<char> {
    match error_token(e) {
        Some((t, false)) => replace_first_spec(line, t, marked),
        Some((t, true)) => replace_last_spec(line, t, marked),
        None => line,
    }
}

/// The report on a line that could not be read: the line with the operand marked,
/// the marked description, and the opcode number in effect.
pub open spec fn error_report(e: ParseErrorView, line: Seq<char>, instruction: u8, marked: Seq<char>, problem: Seq<char>) -> Seq<char> {
    "in your program on line:\n\n"@ + highlighted(e, line, marked) + "\n\nproblem: "@ + problem
        + "\ninstruction found: "@ + opcode_text(instruction as nat)
}

/// `marked` is a possible painting of the operand that `e` points at, if any.
pub open spec fn marked_token(e: ParseErrorView, marked: Seq<char>) -> bool {
    match error_token(e) {
        Some((t, _)) => red_outcome(t, marked),
        None => true,
    }
}

/// Writes the report on a parse error, given the marked operand and the marked description.
pub fn compose_error(err: &ParseError, problem_line: &str, instruction: u8, marked: &str, problem: &str) -> (r: String)
    requires
        instruction <= 99,
    ensures
        r@ == error_report(err@, problem_line@, instruction, marked@, problem@),
{
    let mut s = String::new();
    s.append("in your program on line:\n\n");
    let line = match err {
        ParseError::CannotWriteIntoReg0 => replace_first(problem_line, "reg0", marked),
        ParseError::UnsupportedReg1(t, _, _) | ParseError::UnsupportedImm1(t, _) => replace_first(problem_line, t.as_str(), marked),
        ParseError::UnsupportedReg2(t, _, _) | ParseError::UnsupportedImm2(t, _) => replace_last(problem_line, t.as_str(), marked),
        _ => problem_line.to_owned(),
    };
    proof {
        reveal_strlit("reg0");
        assert("reg0"@ =~= reg0_text());
    }
    s.append(line.as_str());
    s.append("\n\nproblem: ");
    s.append(problem);
    s.append("\ninstruction found: ");
    let number = make_instruction_number(instruction).unwrap();
    s.append(number.as_str());
    s
}

/// The report on a parse error, with the offending operand and the description
/// painted red where the terminal takes colour.
pub fn build_error(err: ParseError, problem_line: String, instruction: &u8) -> (r: String)
    requires
        *instruction <= 99,
    ensures
        exists|marked: Seq<char>, problem: Seq<char>|
            marked_token(err@, marked) && red_outcome(description(err@), problem)
                && r@ == error_report(err@, problem_line@, *instruction, marked, problem),
{
    let marked = match &err {
        ParseError::CannotWriteIntoReg0 => paint_red("reg0"),
        ParseError::UnsupportedReg1(t, _, _) | ParseError::UnsupportedImm1(t, _)
        | ParseError::UnsupportedReg2(t, _, _) | ParseError::UnsupportedImm2(t, _) => paint_red(t.as_str()),
        _ => String::new(),
    };
    proof {
        reveal_strlit("reg0");
        assert("reg0"@ =~= reg0_text());
    }
    let problem = paint_red(err.description().as_str());
    compose_error(&err, problem_line.as_str(), *instruction, marked.as_str(), problem.as_str())
}

} // verus!
