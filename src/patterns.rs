use vstd::prelude::*;
use crate::instructions::text_view;

verus! {

#[verifier::external_type_specification]
#[verifier::external_body]
pub struct ExRegex(regex::Regex);

/// Whether `regex::Regex::new` accepts a pattern.
pub uninterp spec fn pattern_compiles(pattern: Seq<char>) -> bool;

/// The capture groups of the first match of `pattern` in `text`, group 0 first;
/// `None` where it does not match.
pub uninterp spec fn captures_of(pattern: Seq<char>, text: Seq<char>) -> Option<Seq<Option<Seq<char>>>>;

/// Capture groups seen as characters.
pub open spec fn groups_view(g: Seq<Option<String>>) -> Seq<Option<Seq<char>>> {
    g.map_values(|o: Option<String>| text_view(o))
}

/// Group `i`, or `None` where there is no such group.
pub open spec fn group_at(g: Seq<Option<Seq<char>>>, i: int) -> Option<Seq<char>> {
    if 0 <= i < g.len() {
        g[i]
    } else {
        None
    }
}

/// A compiled pattern together with the text it was compiled from.
pub struct Pattern {
    source: String,
    regex: regex::Regex,
}

impl View for Pattern {
    type V = Seq<char>;

    closed spec fn view(&self) -> Seq<char> {
        self.source@
    }
}

/// Relies on regex::Regex::new, which accepts or refuses a pattern by its text alone.
#[verifier::external_body]
fn compile(source: &str) -> (r: Option<Pattern>)
    ensures
        r is Some <==> pattern_compiles(source@),
        r matches Some(p) ==> p@ == source@,
{
    match regex::Regex::new(source) {
        Ok(regex) => Some(Pattern { source: source.to_string(), regex }),
        Err(_) => None,
    }
}

/// Relies on regex::Regex::captures, whose result depends on the pattern and the text
/// alone; a `Pattern` only ever holds the regex compiled from its own source.
#[verifier::external_body]
fn capture_groups(pattern: &Pattern, text: &str) -> (r: Option<Vec<Option<String>>>)
    ensures
        match r {
            Some(g) => captures_of(pattern@, text@) == Some(groups_view(g@)),
            None => captures_of(pattern@, text@) is None,
        },
{
    pattern.regex.captures(text).map(|c| c.iter().map(|m| m.map(|m| m.as_str().to_string())).collect())
}

impl Pattern {
    /// The capture groups of the first match in `text`.
    pub fn captures(&self, text: &str) -> (r: Option<Vec<Option<String>>>)
        ensures
            match r {
                Some(g) => captures_of(self@, text@) == Some(groups_view(g@)),
                None => captures_of(self@, text@) is None,
            },
    {
        capture_groups(self, text)
    }
}

/// Group `i` of `groups`, or `None` where there is no such group.
pub fn capture(groups: &Vec<Option<String>>, i: usize) -> (r: Option<String>)
    ensures
        text_view(r) == group_at(groups_view(groups@), i as int),
{
    if i < groups.len() {
        match &groups[i] {
            Some(s) => Some(s.clone()),
            None => None,
        }
    } else {
        None
    }
}

/// The pattern texts of a list of patterns.
pub open spec fn sources_view(ps: Seq<Pattern>) -> Seq<Seq<char>> {
    ps.map_values(|p: Pattern| p@)
}

/// The first pattern, from `i` on, that matches `text`.
pub open spec fn first_match(ps: Seq<Seq<char>>, text: Seq<char>, i: int) -> Option<int>
    decreases ps.len() - i,
{
    if i < 0 || i >= ps.len() {
        None
    } else if captures_of(ps[i], text) is Some {
        Some(i)
    } else {
        first_match(ps, text, i + 1)
    }
}

pub proof fn lemma_first_match(ps: Seq<Seq<char>>, text: Seq<char>, i: int)
    ensures
        first_match(ps, text, i) matches Some(j) ==> i <= j < ps.len() && captures_of(ps[j], text) is Some,
    decreases ps.len() - i,
{
    if 0 <= i < ps.len() && captures_of(ps[i], text) is None {
        lemma_first_match(ps, text, i + 1);
    }
}

/// The position of the first of `patterns` that matches `instruction`.
pub fn matches(instruction: &str, patterns: &Vec<Pattern>) -> (r: Option<usize>)
    ensures
        match r {
            Some(i) => first_match(sources_view(patterns@), instruction@, 0) == Some(i as int),
            None => first_match(sources_view(patterns@), instruction@, 0) is None,
        },
{
    let ghost ps = sources_view(patterns@);
    let mut i: usize = 0;
    while i < patterns.len()
        invariant
            ps == sources_view(patterns@),
            i <= patterns@.len(),
            first_match(ps, instruction@, 0) == first_match(ps, instruction@, i as int),
        decreases patterns@.len() - i,
    {
        if capture_groups(&patterns[i], instruction).is_some() {
            return Some(i);
        }
        i += 1;
    }
    None
}


/// The pattern texts of each instruction family, in the order in which the families
/// are tried: add, subtract, multiply, move, load, store, the six jumps, set low half,
/// set high half, bomb, teleport. Within a family the operator form comes first.
pub open spec fn standard_sources() -> Seq<Seq<Seq<char>>> {
    seq![
        seq!["(.*)\\+=(.*)\\+(.*)"@, "^ADD\\((.*),(.*),(.*)\\)"@, "^ADD(.*),(.*),(.*)"@],
        seq!["(.*)-=(.*)\\+(.*)"@, "^SUB\\((.*),(.*),(.*)\\)"@, "^SUB(.*),(.*),(.*)"@],
        seq!["(.*)\\*=(.*)\\+(.*)"@, "^MUL\\((.*),(.*),(.*)\\)"@, "^MUL(.*),(.*),(.*)"@],
        seq!["([^*+-]+)=(.*)\\+([^=]+)"@, "^MOV\\((.*),(.*),(.*)\\)"@, "^MOV(.*),(.*),(.*)"@],
        seq!["^LOAD\\((.*),(.*),(.*)\\)"@, "^LOAD(.*),(.*),(.*)"@],
        seq!["^STORE\\((.*),(.*),(.*)\\)"@, "^STORE(.*),(.*),(.*)"@],
        seq!["^if\\((.*)==(.*)\\)pc\\+=(.*)"@, "^JUMP\\((.*),(.*),(.*)\\)"@, "^JUMP(.*),(.*),(.*)"@],
        seq!["^if\\((.*)==(.*)\\)pc-=(.*)"@, "^REVJUMP\\((.*),(.*),(.*)\\)"@, "^REVJUMP(.*),(.*),(.*)"@],
        seq!["^if\\((.*)<(.*)\\)pc\\+=(.*)"@, "^LTJUMP\\((.*),(.*),(.*)\\)"@, "^LTJUMP(.*),(.*),(.*)"@],
        seq!["^if\\((.*)<(.*)\\)pc-=(.*)"@, "^REVLTJUMP\\((.*),(.*),(.*)\\)"@, "^REVLTJUMP(.*),(.*),(.*)"@],
        seq!["^if\\((.*)!=(.*)\\)pc\\+=(.*)"@, "^NEQJUMP\\((.*),(.*),(.*)\\)"@, "^NEQJUMP(.*),(.*),(.*)"@],
        seq!["^if\\((.*)!=(.*)\\)pc-=(.*)"@, "^REVNEQJUMP\\((.*),(.*),(.*)\\)"@, "^REVNEQJUMP(.*),(.*),(.*)"@],
        seq!["(.*)\\[low]=(.*)"@, "^SETIMMLOW\\((.*),(.*)\\)"@, "^SETIMMLOW(.*),(.*)"@],
        seq!["(.*)\\[high]=(.*)"@, "^SETIMMHIGH\\((.*),(.*)\\)"@, "^SETIMMHIGH(.*),(.*)"@],
        seq!["^BOMB\\((.*)\\)"@, "^BOMB(.*)"@],
        seq!["^TELEPORT\\((.*),(.*)\\)"@, "^TELEPORT(.*),(.*)"@],
    ]
}

/// The texts of a list of string slices.
pub open spec fn strs_view(v: Seq<&str>) -> Seq<Seq<char>> {
    v.map_values(|s: &str| s@)
}

fn family_sources(f: usize) -> (r: Vec<&'static str>)
    requires
        f < 16,
    ensures
        strs_view(r@) == standard_sources()[f as int],
{
    let r = if f == 0 {
        // add
        vec!["(.*)\\+=(.*)\\+(.*)", "^ADD\\((.*),(.*),(.*)\\)", "^ADD(.*),(.*),(.*)"]
    } else if f == 1 {
        // subtract
        vec!["(.*)-=(.*)\\+(.*)", "^SUB\\((.*),(.*),(.*)\\)", "^SUB(.*),(.*),(.*)"]
    } else if f == 2 {
        // multiply
        vec!["(.*)\\*=(.*)\\+(.*)", "^MUL\\((.*),(.*),(.*)\\)", "^MUL(.*),(.*),(.*)"]
    } else if f == 3 {
        // move
        vec!["([^*+-]+)=(.*)\\+([^=]+)", "^MOV\\((.*),(.*),(.*)\\)", "^MOV(.*),(.*),(.*)"]
    } else if f == 4 {
        // load
        vec!["^LOAD\\((.*),(.*),(.*)\\)", "^LOAD(.*),(.*),(.*)"]
    } else if f == 5 {
        // store
        vec!["^STORE\\((.*),(.*),(.*)\\)", "^STORE(.*),(.*),(.*)"]
    } else if f == 6 {
        // jump if equal
        vec!["^if\\((.*)==(.*)\\)pc\\+=(.*)", "^JUMP\\((.*),(.*),(.*)\\)", "^JUMP(.*),(.*),(.*)"]
    } else if f == 7 {
        // jump back if equal
        vec!["^if\\((.*)==(.*)\\)pc-=(.*)", "^REVJUMP\\((.*),(.*),(.*)\\)", "^REVJUMP(.*),(.*),(.*)"]
    } else if f == 8 {
        // jump if less
        vec!["^if\\((.*)<(.*)\\)pc\\+=(.*)", "^LTJUMP\\((.*),(.*),(.*)\\)", "^LTJUMP(.*),(.*),(.*)"]
    } else if f == 9 {
        // jump back if less
        vec!["^if\\((.*)<(.*)\\)pc-=(.*)", "^REVLTJUMP\\((.*),(.*),(.*)\\)", "^REVLTJUMP(.*),(.*),(.*)"]
    } else if f == 10 {
        // jump if not equal
        vec!["^if\\((.*)!=(.*)\\)pc\\+=(.*)", "^NEQJUMP\\((.*),(.*),(.*)\\)", "^NEQJUMP(.*),(.*),(.*)"]
    } else if f == 11 {
        // jump back if not equal
        vec!["^if\\((.*)!=(.*)\\)pc-=(.*)", "^REVNEQJUMP\\((.*),(.*),(.*)\\)", "^REVNEQJUMP(.*),(.*),(.*)"]
    } else if f == 12 {
        // set low half
        vec!["(.*)\\[low]=(.*)", "^SETIMMLOW\\((.*),(.*)\\)", "^SETIMMLOW(.*),(.*)"]
    } else if f == 13 {
        // set high half
        vec!["(.*)\\[high]=(.*)", "^SETIMMHIGH\\((.*),(.*)\\)", "^SETIMMHIGH(.*),(.*)"]
    } else if f == 14 {
        // bomb
        vec!["^BOMB\\((.*)\\)", "^BOMB(.*)"]
    } else {
        // teleport
        vec!["^TELEPORT\\((.*),(.*)\\)", "^TELEPORT(.*),(.*)"]
    };
    assert(strs_view(r@) =~= standard_sources()[f as int]);
    r
}

/// The compiled patterns of every instruction family, built once and shared by every line.
pub struct PatternTable {
    families: Vec<Vec<Pattern>>,
}

impl View for PatternTable {
    type V = Seq<Seq<Seq<char>>>;

    closed spec fn view(&self) -> Seq<Seq<Seq<char>>> {
        self.families@.map_values(|ps: Vec<Pattern>| sources_view(ps@))
    }
}

impl PatternTable {
    /// Compiles the patterns of `standard_sources`; `None` if one of them does not compile.
    pub fn new() -> (r: Option<PatternTable>)
        ensures
            r is Some <==> (forall|f: int, j: int| 0 <= f < standard_sources().len() && 0 <= j < standard_sources()[f].len()
                ==> pattern_compiles(#[trigger] standard_sources()[f][j])),
            r matches Some(t) ==> t@ == standard_sources(),
    {
        let mut families: Vec<Vec<Pattern>> = Vec::new();
        let mut f: usize = 0;
        while f < 16
            invariant
                f <= 16,
                families@.len() == f,
                forall|k: int| 0 <= k < f ==> sources_view(#[trigger] families@[k]@) == standard_sources()[k],
                forall|k: int, j: int| 0 <= k < f && 0 <= j < standard_sources()[k].len()
                    ==> pattern_compiles(#[trigger] standard_sources()[k][j]),
            decreases 16 - f,
        {
            let sources = family_sources(f);
            let mut patterns: Vec<Pattern> = Vec::new();
            let mut j: usize = 0;
            while j < sources.len()
                invariant
                    f < 16,
                    strs_view(sources@) == standard_sources()[f as int],
                    j <= sources@.len(),
                    patterns@.len() == j,
                    forall|i: int| 0 <= i < j ==> (#[trigger] patterns@[i])@ == sources@[i]@,
                    forall|i: int| 0 <= i < j ==> pattern_compiles((#[trigger] sources@[i])@),
                    families@.len() == f,
                    forall|k: int| 0 <= k < f ==> sources_view(#[trigger] families@[k]@) == standard_sources()[k],
                    forall|k: int, i: int| 0 <= k < f && 0 <= i < standard_sources()[k].len()
                        ==> pattern_compiles(#[trigger] standard_sources()[k][i]),
                decreases sources@.len() - j,
            {
                match compile(sources[j]) {
                    Some(p) => patterns.push(p),
                    None => {
                        assert(!pattern_compiles(standard_sources()[f as int][j as int]));
                        return None;
                    },
                }
                j += 1;
            }
            assert(sources_view(patterns@) =~= standard_sources()[f as int]);
            assert(forall|i: int| 0 <= i < standard_sources()[f as int].len()
                ==> standard_sources()[f as int][i] == (#[trigger] sources@[i])@);
            families.push(patterns);
            f += 1;
        }
        let t = PatternTable { families };
        assert(t@ =~= standard_sources());
        Some(t)
    }

    /// How many families the table holds.
    pub fn len(&self) -> (r: usize)
        ensures
            r == self@.len(),
    {
        self.families.len()
    }

    /// The patterns of family `f`, in the order in which they are tried.
    pub fn family(&self, f: usize) -> (r: &Vec<Pattern>)
        requires
            f < self@.len(),
        ensures
            sources_view(r@) == self@[f as int],
    {
        &self.families[f]
    }
}

} // verus!
