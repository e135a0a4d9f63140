use vstd::prelude::*;
use vstd::string::StringExecFns;
use crate::bomb::Bomb;
use crate::helpers::{chars_of, decimal_text, find_from, push_decimal, string_of};
use crate::instructions::{build_error, reg0_text, description, error_report, marked_token, paint_red, red_outcome, Instruction, ParseError, ParseErrorView};
use crate::jumps::Jump;
use crate::mem_manipulation::MemManipulation;
use crate::patterns::{captures_of, first_match, group_at, lemma_first_match, sources_view, PatternTable};
use crate::reg_manipulation::RegManipulation;
use crate::set_imms::SetImm;
use crate::teleport::Teleport;

verus! {

/// The characters that `char::is_whitespace` accepts: Unicode's White_Space.
pub open spec fn is_ws(c: char) -> bool {
    ('\t' <= c && c <= '\r') || c == ' ' || c == '\u{85}' || c == '\u{a0}' || c == '\u{1680}'
        || ('\u{2000}' <= c && c <= '\u{200a}') || c == '\u{2028}' || c == '\u{2029}' || c == '\u{202f}'
        || c == '\u{205f}' || c == '\u{3000}'
}

/// `s` without its whitespace.
pub open spec fn strip_ws(s: Seq<char>) -> Seq<char>
    decreases s.len(),
{
    if s.len() == 0 {
        s
    } else if is_ws(s.last()) {
        strip_ws(s.drop_last())
    } else {
        strip_ws(s.drop_last()).push(s.last())
    }
}

/// What comes before the first `;`, or all of `s`.
pub open spec fn before_comment(s: Seq<char>) -> Seq<char> {
    match find_from(s, seq![';'], 0) {
        Some(i) => s.take(i),
        None => s,
    }
}

pub open spec fn nop_keyword() -> Seq<char> {
    seq!['N', 'O', 'P']
}

/// The fixed encoding of `NOP`.
pub open spec fn nop_text() -> Seq<char> {
    seq!['6', '9', ' ', '0', '0', ' ', '0', '0', ' ', '0', '0']
}

/// What separates an encoding from the source line it came from.
pub open spec fn separator() -> Seq<char> {
    seq![' ', ';', ' ']
}

/// The opcode number of each family of `standard_sources`.
pub open spec fn family_opcode(f: int) -> u8 {
    if f == 0 {
        1
    } else if f == 1 {
        2
    } else if f == 2 {
        3
    } else if f == 3 {
        7
    } else if f == 4 {
        5
    } else if f == 5 {
        6
    } else if 6 <= f && f <= 11 {
        (f + 4) as u8
    } else if f == 12 {
        20
    } else if f == 13 {
        21
    } else if f == 14 {
        50
    } else {
        42
    }
}

pub open spec fn encoded<T: Instruction>(r: Result<T, ParseErrorView>) -> Result<Seq<char>, ParseErrorView> {
    match r {
        Ok(x) => Ok(x.text()),
        Err(e) => Err(e),
    }
}

/// The encoding that family `f` gives for capture groups `g`.
pub open spec fn family_result(f: int, g: Seq<Option<Seq<char>>>) -> Result<Seq<char>, ParseErrorView> {
    let n = family_opcode(f);
    if f <= 3 {
        encoded(RegManipulation::parse_spec(g, n))
    } else if f <= 5 {
        match MemManipulation::parse_spec(g, n, f == 4) {
            Ok(x) => Ok(x.text()),
            Err(e) => Err(e),
        }
    } else if f <= 11 {
        encoded(Jump::parse_spec(g, n))
    } else if f <= 13 {
        encoded(SetImm::parse_spec(g, n))
    } else if f == 14 {
        encoded(Bomb::parse_spec(g, n))
    } else {
        encoded(Teleport::parse_spec(g, n))
    }
}

/// The first family, from `f` on, with a pattern that matches `text`, and that pattern.
pub open spec fn first_family(t: Seq<Seq<Seq<char>>>, text: Seq<char>, f: int) -> Option<(int, int)>
    decreases t.len() - f,
{
    if f < 0 || f >= t.len() {
        None
    } else {
        match first_match(t[f], text, 0) {
            Some(j) => Some((f, j)),
            None => first_family(t, text, f + 1),
        }
    }
}

/// Why a line could not be assembled.
#[derive(Debug, PartialEq, Eq)]
pub enum LineError {
    /// No family recognises the line.
    UnknownInstruction,
    /// A family recognised the line under this opcode number, and its operands are wrong.
    Invalid(ParseError, u8),
}

pub ghost enum LineErrorView {
    UnknownInstruction,
    Invalid(ParseErrorView, u8),
}

impl View for LineError {
    type V = LineErrorView;

    open spec fn view(&self) -> LineErrorView {
        match self {
            LineError::UnknownInstruction => LineErrorView::UnknownInstruction,
            LineError::Invalid(e, n) => LineErrorView::Invalid(e@, *n),
        }
    }
}

/// The output line for source line `raw` (without its newline).
pub open spec fn line_spec(raw: Seq<char>, t: Seq<Seq<Seq<char>>>) -> Result<Seq<char>, LineErrorView> {
    let stripped = strip_ws(raw);
    let op = before_comment(stripped);
    if stripped.len() == 0 {
        Ok(Seq::empty())
    } else if op.len() == 0 {
        Ok(raw)
    } else if op == nop_keyword() {
        Ok(nop_text() + separator() + raw)
    } else {
        match first_family(t, op, 0) {
            None => Err(LineErrorView::UnknownInstruction),
            Some((f, j)) => match captures_of(t[f][j], op) {
                None => Err(LineErrorView::Invalid(ParseErrorView::RegexDoesNotMatch, family_opcode(f))),
                Some(g) => match family_result(f, g) {
                    Ok(e) => Ok(e + separator() + raw),
                    Err(e) => Err(LineErrorView::Invalid(e, family_opcode(f))),
                },
            },
        }
    }
}

fn is_whitespace(c: char) -> (r: bool)
    ensures
        r == is_ws(c),
{
    ('\t' <= c && c <= '\r') || c == ' ' || c == '\u{85}' || c == '\u{a0}' || c == '\u{1680}'
        || ('\u{2000}' <= c && c <= '\u{200a}') || c == '\u{2028}' || c == '\u{2029}' || c == '\u{202f}'
        || c == '\u{205f}' || c == '\u{3000}'
}

/// `s` without its whitespace.
fn strip_whitespace(s: &Vec<char>) -> (r: Vec<char>)
    ensures
        r@ == strip_ws(s@),
{
    let mut r: Vec<char> = Vec::new();
    let mut i: usize = 0;
    while i < s.len()
        invariant
            i <= s@.len(),
            r@ == strip_ws(s@.take(i as int)),
        decreases s@.len() - i,
    {
        assert(s@.take(i + 1).drop_last() == s@.take(i as int));
        if !is_whitespace(s[i]) {
            r.push(s[i]);
        }
        i += 1;
    }
    assert(s@.take(i as int) == s@);
    r
}

/// What comes before the first `;` of `s`.
fn before_semicolon(s: &Vec<char>) -> (r: Vec<char>)
    ensures
        r@ == before_comment(s@),
{
    let mut r: Vec<char> = Vec::new();
    let mut i: usize = 0;
    while i < s.len()
        invariant
            i <= s@.len(),
            r@ == s@.take(i as int),
            find_from(s@, seq![';'], 0) == find_from(s@, seq![';'], i as int),
        decreases s@.len() - i,
    {
        if s[i] == ';' {
            assert(s@.subrange(i as int, i + 1) =~= seq![';']);
            return r;
        }
        assert(s@.subrange(i as int, i + 1) =~= seq![s@[i as int]]);
        assert(seq![s@[i as int]][0] != seq![';'][0]);
        r.push(s[i]);
        i += 1;
        assert(s@.take(i as int) == s@.take(i - 1).push(s@[i - 1]));
    }
    assert(s@.take(i as int) == s@);
    r
}

/// The opcode number of family `f`.
fn opcode_of(f: usize) -> (r: u8)
    ensures
        r == family_opcode(f as int),
{
    if f == 0 {
        1
    } else if f == 1 {
        2
    } else if f == 2 {
        3
    } else if f == 3 {
        7
    } else if f == 4 {
        5
    } else if f == 5 {
        6
    } else if f <= 11 {
        (f + 4) as u8
    } else if f == 12 {
        20
    } else if f == 13 {
        21
    } else if f == 14 {
        50
    } else {
        42
    }
}

fn invalid<T>(r: Result<T, ParseError>, n: u8) -> (e: LineError)
    requires
        r is Err,
    ensures
        e@ == LineErrorView::Invalid(r->Err_0@, n),
{
    match r {
        Err(err) => LineError::Invalid(err, n),
        Ok(_) => LineError::UnknownInstruction,
    }
}

/// Reads instruction `op` with pattern `j` of family `f` and encodes it.
fn encode_with(op: &str, table: &PatternTable, f: usize, j: usize) -> (r: Result<String, LineError>)
    requires
        f < table@.len(),
        j < table@[f as int].len(),
    ensures
        match captures_of(table@[f as int][j as int], op@) {
            None => r matches Err(e) && e@ == LineErrorView::Invalid(ParseErrorView::RegexDoesNotMatch, family_opcode(f as int)),
            Some(g) => match family_result(f as int, g) {
                Ok(e) => r matches Ok(s) && s@ == e,
                Err(e) => r matches Err(x) && x@ == LineErrorView::Invalid(e, family_opcode(f as int)),
            },
        },
{
    let pattern = &table.family(f)[j];
    let n = opcode_of(f);
    if f <= 3 {
        match RegManipulation::parse(op, pattern, n) {
            Ok(x) => Ok(x.encode()),
            r => Err(invalid(r, n)),
        }
    } else if f <= 5 {
        match MemManipulation::parse(op, pattern, n, f == 4) {
            Ok(x) => Ok(x.encode()),
            r => Err(invalid(r, n)),
        }
    } else if f <= 11 {
        match Jump::parse(op, pattern, n) {
            Ok(x) => Ok(x.encode()),
            r => Err(invalid(r, n)),
        }
    } else if f <= 13 {
        match SetImm::parse(op, pattern, n) {
            Ok(x) => Ok(x.encode()),
            r => Err(invalid(r, n)),
        }
    } else if f == 14 {
        match Bomb::parse(op, pattern, n) {
            Ok(x) => Ok(x.encode()),
            r => Err(invalid(r, n)),
        }
    } else {
        match Teleport::parse(op, pattern, n) {
            Ok(x) => Ok(x.encode()),
            r => Err(invalid(r, n)),
        }
    }
}

/// Assembles one source line: see `line_spec`.
pub fn assemble_line(raw: &str, table: &PatternTable) -> (r: Result<String, LineError>)
    ensures
        match line_spec(raw@, table@) {
            Ok(l) => r matches Ok(s) && s@ == l,
            Err(e) => r matches Err(x) && x@ == e,
        },
{
    let v = chars_of(raw);
    let stripped = strip_whitespace(&v);
    if stripped.len() == 0 {
        return Ok(String::new());
    }
    let op = before_semicolon(&stripped);
    if op.len() == 0 {
        return Ok(raw.to_owned());
    }
    if op.len() == 3 && op[0] == 'N' && op[1] == 'O' && op[2] == 'P' {
        assert(op@ =~= nop_keyword());
        let mut s = String::new();
        s.append("69 00 00 00 ; ");
        s.append(raw);
        proof {
            reveal_strlit("69 00 00 00 ; ");
            assert(s@ =~= nop_text() + separator() + raw@);
        }
        return Ok(s);
    }
    assert(op@ != nop_keyword());
    let op_text = string_of(&op);
    let mut f: usize = 0;
    while f < table.len()
        invariant
            op_text@ == before_comment(strip_ws(raw@)),
            strip_ws(raw@).len() != 0,
            op_text@.len() != 0,
            op_text@ != nop_keyword(),
            f <= table@.len(),
            first_family(table@, op_text@, 0) == first_family(table@, op_text@, f as int),
        decreases table@.len() - f,
    {
        match crate::patterns::matches(op_text.as_str(), table.family(f)) {
            Some(j) => {
                proof {
                    lemma_first_match(table@[f as int], op_text@, 0);
                    assert(first_family(table@, op_text@, f as int) == Some((f as int, j as int)));
                }
                let mut s = match encode_with(op_text.as_str(), table, f, j) {
                    Ok(s) => s,
                    Err(e) => return Err(e),
                };
                s.append(" ; ");
                s.append(raw);
                proof {
                    reveal_strlit(" ; ");
                    assert(" ; "@ =~= separator());
                }
                return Ok(s);
            },
            None => {},
        }
        f += 1;
    }
    Err(LineError::UnknownInstruction)
}


/// A line whose instruction, once whitespace is gone, is `NOP` encodes to
/// `69 00 00 00`, whatever the patterns of the families.
pub proof fn lemma_nop_line(raw: Seq<char>, t: Seq<Seq<Seq<char>>>)
    requires
        before_comment(strip_ws(raw)) == nop_keyword(),
    ensures
        line_spec(raw, t) == Ok::<Seq<char>, LineErrorView>(nop_text() + separator() + raw),
{
    if strip_ws(raw).len() == 0 {
        assert(find_from(strip_ws(raw), seq![';'], 0) is None);
    }
}

/// A line that holds only whitespace, or only a comment, comes out blank or
/// unchanged, and no family is tried on it.
pub proof fn lemma_blank_line(raw: Seq<char>, t1: Seq<Seq<Seq<char>>>, t2: Seq<Seq<Seq<char>>>)
    requires
        before_comment(strip_ws(raw)).len() == 0,
    ensures
        line_spec(raw, t1) == line_spec(raw, t2),
        strip_ws(raw).len() == 0 ==> line_spec(raw, t1) == Ok::<Seq<char>, LineErrorView>(Seq::empty()),
        strip_ws(raw).len() != 0 ==> line_spec(raw, t1) == Ok::<Seq<char>, LineErrorView>(raw),
{
}

/// In every family that writes a register, a write target that reads `reg0` is
/// refused as such, whatever the other operands.
pub proof fn lemma_reg0_target(f: int, g: Seq<Option<Seq<char>>>)
    requires
        0 <= f <= 5 || f == 12 || f == 13,
        group_at(g, 1) == Some(reg0_text()),
    ensures
        family_result(f, g) == Err::<Seq<char>, ParseErrorView>(ParseErrorView::CannotWriteIntoReg0),
{
}

/// What a family makes of a line depends on its operand groups alone: two patterns
/// of one family that capture the same operands give the same encoding.
pub proof fn lemma_operands_decide(f: int, g1: Seq<Option<Seq<char>>>, g2: Seq<Option<Seq<char>>>)
    requires
        forall|i: int| 1 <= i <= 3 ==> group_at(g1, i) == group_at(g2, i),
    ensures
        family_result(f, g1) == family_result(f, g2),
{
    assert(group_at(g1, 1) == group_at(g2, 1));
    assert(group_at(g1, 2) == group_at(g2, 2));
    assert(group_at(g1, 3) == group_at(g2, 3));
}

/// A line that fails, wherever it stands, makes the whole text fail: there is no
/// output for it at all.
pub proof fn lemma_failing_line_aborts(lines: Seq<Seq<char>>, t: Seq<Seq<Seq<char>>>, k: int)
    requires
        0 <= k < lines.len(),
        line_spec(lines[k], t) is Err,
    ensures
        output_of(lines, t) is Err,
{
    let pre = lines.take(k + 1);
    assert(pre.drop_last() == lines.take(k));
    assert(pre.last() == lines[k]);
    assert(output_of(pre, t) is Err);
    lemma_output_failure_stays(lines, t, k + 1);
}

/// A failing line names an opcode number of two digits.
pub proof fn lemma_line_error_opcode(raw: Seq<char>, t: Seq<Seq<Seq<char>>>)
    ensures
        line_spec(raw, t) matches Err(LineErrorView::Invalid(_, n)) ==> n <= 99,
{
}

/// The lines of `s`: the pieces between its newlines.
pub open spec fn split_lines(s: Seq<char>) -> Seq<Seq<char>>
    decreases s.len(),
{
    if s.len() == 0 {
        seq![Seq::empty()]
    } else {
        let prev = split_lines(s.drop_last());
        if s.last() == '\n' {
            prev.push(Seq::empty())
        } else {
            prev.update(prev.len() - 1, prev.last().push(s.last()))
        }
    }
}

/// The output for `lines`, each output line ended by a newline; or the position of
/// the first line that fails, and why.
pub open spec fn output_of(lines: Seq<Seq<char>>, t: Seq<Seq<Seq<char>>>) -> Result<Seq<char>, (int, LineErrorView)>
    decreases lines.len(),
{
    if lines.len() == 0 {
        Ok(Seq::empty())
    } else {
        match output_of(lines.drop_last(), t) {
            Err(e) => Err(e),
            Ok(o) => match line_spec(lines.last(), t) {
                Ok(l) => Ok(o + l + seq!['\n']),
                Err(e) => Err((lines.len() - 1, e)),
            },
        }
    }
}

/// A source line as a report shows it: its number from 1, a dot, a space, the line.
pub open spec fn numbered_line(k: int, raw: Seq<char>) -> Seq<char> {
    decimal_text((k + 1) as nat) + seq!['.', ' '] + raw
}

/// `m` reports failure `e` on the numbered line `line`, with the marked parts painted red
/// or not.
pub open spec fn failure_report(e: LineErrorView, line: Seq<char>, m: Seq<char>) -> bool {
    match e {
        LineErrorView::UnknownInstruction => exists|p: Seq<char>|
            red_outcome("unknown instruction"@, p) && m == "in your program on line:\n\n"@ + line + "\n\nproblem: "@ + p,
        LineErrorView::Invalid(pe, n) => exists|marked: Seq<char>, problem: Seq<char>|
            marked_token(pe, marked) && red_outcome(description(pe), problem)
                && m == error_report(pe, line, n, marked, problem),
    }
}

/// Once a prefix of the lines fails, so do all the lines, at the same place.
pub proof fn lemma_output_failure_stays(lines: Seq<Seq<char>>, t: Seq<Seq<Seq<char>>>, m: int)
    requires
        0 <= m <= lines.len(),
        output_of(lines.take(m), t) is Err,
    ensures
        output_of(lines, t) == output_of(lines.take(m), t),
    decreases lines.len(),
{
    if m < lines.len() {
        assert(lines.drop_last().take(m) == lines.take(m));
        lemma_output_failure_stays(lines.drop_last(), t, m);
    } else {
        assert(lines.take(m) == lines);
    }
}

pub open spec fn lines_view(v: Seq<Vec<char>>) -> Seq<Seq<char>> {
    v.map_values(|l: Vec<char>| l@)
}


/// The lines of `s`, split at each newline.
fn lines_of(s: &Vec<char>) -> (r: Vec<Vec<char>>)
    ensures
        lines_view(r@) == split_lines(s@),
{
    let mut done: Vec<Vec<char>> = Vec::new();
    let mut cur: Vec<char> = Vec::new();
    let mut i: usize = 0;
    assert(lines_view(done@).push(cur@) =~= split_lines(s@.take(0)));
    while i < s.len()
        invariant
            i <= s@.len(),
            lines_view(done@).push(cur@) == split_lines(s@.take(i as int)),
        decreases s@.len() - i,
    {
        assert(s@.take(i + 1).drop_last() == s@.take(i as int));
        let c = s[i];
        if c == '\n' {
            done.push(cur);
            cur = Vec::new();
            assert(lines_view(done@).push(cur@) =~= split_lines(s@.take(i as int)).push(Seq::empty()));
        } else {
            let ghost before = lines_view(done@).push(cur@);
            cur.push(c);
            assert(lines_view(done@).push(cur@) =~= before.update(before.len() - 1, before.last().push(c)));
        }
        i += 1;
    }
    assert(s@.take(i as int) == s@);
    done.push(cur);
    assert(lines_view(done@) =~= split_lines(s@));
    done
}

/// The report on a line that no family recognises.
fn unknown_report(problem_line: &str) -> (r: String)
    ensures
        failure_report(LineErrorView::UnknownInstruction, problem_line@, r@),
{
    let mut s = String::new();
    s.append("in your program on line:\n\n");
    s.append(problem_line);
    s.append("\n\nproblem: ");
    let painted = paint_red("unknown instruction");
    s.append(painted.as_str());
    assert(s@ == "in your program on line:\n\n"@ + problem_line@ + "\n\nproblem: "@ + painted@);
    s
}

/// The report on line `k`, which failed with `e`.
fn failure(k: usize, raw: &str, e: LineError) -> (r: String)
    requires
        k < usize::MAX,
        e@ matches LineErrorView::Invalid(_, n) ==> n <= 99,
    ensures
        failure_report(e@, numbered_line(k as int, raw@), r@),
{
    let mut line = String::new();
    push_decimal(&mut line, k + 1);
    line.append(". ");
    line.append(raw);
    proof {
        reveal_strlit(". ");
        assert(line@ =~= numbered_line(k as int, raw@));
    }
    match e {
        LineError::UnknownInstruction => unknown_report(line.as_str()),
        LineError::Invalid(err, n) => build_error(err, line, &n),
    }
}

/// Assembles a whole source text, one output line per source line; on the first line
/// that fails, nothing but the report on that line.
pub fn assemble(input: &str, table: &PatternTable) -> (r: Result<String, String>)
    ensures
        match output_of(split_lines(input@), table@) {
            Ok(o) => r matches Ok(s) && s@ == o,
            Err((k, e)) => r matches Err(m) && failure_report(e, numbered_line(k, split_lines(input@)[k]), m@),
        },
{
    let chars = chars_of(input);
    let lines = lines_of(&chars);
    let ghost all = split_lines(input@);
    let mut out = String::new();
    let mut k: usize = 0;
    assert(all.take(0) =~= Seq::<Seq<char>>::empty());
    while k < lines.len()
        invariant
            all == lines_view(lines@),
            all == split_lines(input@),
            k <= lines@.len(),
            output_of(all.take(k as int), table@) == Ok::<Seq<char>, (int, LineErrorView)>(out@),
        decreases lines@.len() - k,
    {
        let raw = string_of(&lines[k]);
        assert(all.take(k + 1).drop_last() == all.take(k as int));
        assert(all.take(k + 1).last() == raw@);
        match assemble_line(raw.as_str(), table) {
            Ok(l) => {
                out.append(l.as_str());
                out.append("\n");
                proof {
                    reveal_strlit("\n");
                    assert("\n"@ =~= seq!['\n']);
                }
            },
            Err(e) => {
                proof {
                    lemma_output_failure_stays(all, table@, k + 1);
                    lemma_line_error_opcode(raw@, table@);
                    assert(output_of(all.take(k + 1), table@) == Err::<Seq<char>, (int, LineErrorView)>((k as int, e@)));
                    assert(all[k as int] == raw@);
                }
                return Err(failure(k, raw.as_str(), e));
            },
        }
        k += 1;
    }
    assert(all.take(k as int) == all);
    Ok(out)
}

} // verus!
