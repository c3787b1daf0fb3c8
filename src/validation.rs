//! Structured construction findings shared by the field, form and workflow
//! builders, and the text rules (lengths, identifier characters) they check.
use vstd::prelude::*;

verus! {

/// A named attribute of a definition, used as one step of a finding's path.
#[derive(Clone, Copy, Debug, PartialEq, Eq, Structural)]
pub enum Attr {
    Id,
    Label,
    Name,
    Fields,
    Phases,
    Transitions,
    From,
    To,
}

/// One step of the path from a definition to the offending value.
#[derive(Clone, Copy, Debug, PartialEq, Eq, Structural)]
pub enum PathStep {
    Attr(Attr),
    Index(usize),
}

/// The rule that a value violates, with the rule's parameters.
#[derive(Clone, Copy, Debug, PartialEq, Eq, Structural)]
pub enum Rule {
    /// The length in characters lies outside `min..=max`.
    Length { min: usize, max: usize },
    /// An identifier holds a character other than a letter, a digit, `_` or `-`.
    IdCharacters,
    /// A form holds two fields with the same id.
    DuplicateFieldId,
    /// A transition leaves from a phase that the workflow does not hold.
    InvalidTransitionSource,
    /// A transition leads to a phase that the workflow does not hold.
    InvalidTransitionTarget,
}

/// One rule violation: where it is, which rule, and the offending value.
#[derive(Debug)]
pub struct ValidationFinding {
    pub path: Vec<PathStep>,
    pub rule: Rule,
    pub value: String,
}

/// The mathematical content of a [`ValidationFinding`].
pub struct Finding {
    pub path: Seq<PathStep>,
    pub rule: Rule,
    pub value: Seq<char>,
}

impl View for ValidationFinding {
    type V = Finding;

    open spec fn view(&self) -> Finding {
        Finding { path: self.path@, rule: self.rule, value: self.value@ }
    }
}

/// The findings of one validation pass, in the order they were found.
#[derive(Debug)]
pub struct ValidationErrors {
    pub findings: Vec<ValidationFinding>,
}

pub open spec fn finding_views(s: Seq<ValidationFinding>) -> Seq<Finding> {
    s.map_values(|f: ValidationFinding| f@)
}

impl View for ValidationErrors {
    type V = Seq<Finding>;

    open spec fn view(&self) -> Seq<Finding> {
        finding_views(self.findings@)
    }
}

pub open spec fn rule_code(r: Rule) -> Seq<char> {
    match r {
        Rule::Length { .. } => "length"@,
        Rule::IdCharacters => "id_characters"@,
        Rule::DuplicateFieldId => "duplicate_field_id"@,
        Rule::InvalidTransitionSource => "invalid_transition_source"@,
        Rule::InvalidTransitionTarget => "invalid_transition_target"@,
    }
}

/// The codes of the findings, each followed by `"; "`.
pub open spec fn codes_text(fs: Seq<Finding>) -> Seq<char>
    decreases fs.len(),
{
    if fs.len() == 0 {
        Seq::empty()
    } else {
        codes_text(fs.drop_last()) + rule_code(fs.last().rule) + "; "@
    }
}

impl Rule {
    /// The tag of the rule, as findings are reported.
    pub fn code(&self) -> (r: &'static str)
        ensures
            r@ == rule_code(*self),
    {
        match self {
            Rule::Length { .. } => "length",
            Rule::IdCharacters => "id_characters",
            Rule::DuplicateFieldId => "duplicate_field_id",
            Rule::InvalidTransitionSource => "invalid_transition_source",
            Rule::InvalidTransitionTarget => "invalid_transition_target",
        }
    }
}

impl ValidationErrors {
    /// Whether no finding was recorded.
    pub fn is_empty(&self) -> (r: bool)
        ensures
            r == (self@.len() == 0),
    {
        self.findings.len() == 0
    }

    /// The codes of all findings, in order, each followed by `"; "`.
    pub fn to_string(&self) -> (r: String)
        ensures
            r@ == codes_text(self@),
    {
        let mut out = String::new();
        let mut i: usize = 0;
        while i < self.findings.len()
            invariant
                i <= self.findings@.len(),
                out@ == codes_text(self@.take(i as int)),
            decreases self.findings@.len() - i,
        {
            let code = self.findings[i].rule.code();
            out.append(code);
            out.append("; ");
            proof {
                assert(self@.take(i + 1).drop_last() =~= self@.take(i as int));
            }
            i = i + 1;
        }
        proof {
            assert(self@.take(i as int) =~= self@);
        }
        out
    }
}

pub open spec fn is_id_char(c: char) -> bool {
    let u = c as u32;
    ||| 'a' as u32 <= u <= 'z' as u32
    ||| 'A' as u32 <= u <= 'Z' as u32
    ||| '0' as u32 <= u <= '9' as u32
    ||| c == '_'
    ||| c == '-'
}

/// Every character is a letter, a digit, `_` or `-`.
pub open spec fn has_id_chars(s: Seq<char>) -> bool {
    forall|i: int| 0 <= i < s.len() ==> is_id_char(#[trigger] s[i])
}

pub open spec fn length_within(s: Seq<char>, min: usize, max: usize) -> bool {
    min <= s.len() <= max
}

/// What the length rule finds of `s` at `path`.
pub open spec fn length_findings(path: Seq<PathStep>, s: Seq<char>, min: usize, max: usize) -> Seq<Finding> {
    if length_within(s, min, max) {
        Seq::empty()
    } else {
        seq![Finding { path, rule: Rule::Length { min, max }, value: s }]
    }
}

/// What the identifier rules (1 to 64 characters, letters, digits, `_`, `-`)
/// find of `s` at `path`.
pub open spec fn id_findings(path: Seq<PathStep>, s: Seq<char>) -> Seq<Finding> {
    length_findings(path, s, 1, 64) + if has_id_chars(s) {
        Seq::<Finding>::empty()
    } else {
        seq![Finding { path, rule: Rule::IdCharacters, value: s }]
    }
}

pub open spec fn id_valid(s: Seq<char>) -> bool {
    length_within(s, 1, 64) && has_id_chars(s)
}

pub fn is_id_character(c: char) -> (r: bool)
    ensures
        r == is_id_char(c),
{
    ('a' <= c && c <= 'z') || ('A' <= c && c <= 'Z') || ('0' <= c && c <= '9') || c == '_' || c == '-'
}

/// Whether every character of `s` is a letter, a digit, `_` or `-`.
pub fn check_id_chars(s: &str) -> (r: bool)
    ensures
        r == has_id_chars(s@),
{
    let n = s.unicode_len();
    let mut i: usize = 0;
    while i < n
        invariant
            n == s@.len(),
            i <= n,
            forall|j: int| 0 <= j < i ==> is_id_char(#[trigger] s@[j]),
        decreases n - i,
    {
        if !is_id_character(s.get_char(i)) {
            return false;
        }
        i = i + 1;
    }
    true
}

/// Whether two strings hold the same characters.
pub fn text_eq(a: &str, b: &str) -> (r: bool)
    ensures
        r == (a@ == b@),
{
    let n = a.unicode_len();
    if n != b.unicode_len() {
        return false;
    }
    let mut i: usize = 0;
    while i < n
        invariant
            n == a@.len() == b@.len(),
            i <= n,
            forall|j: int| 0 <= j < i ==> a@[j] == b@[j],
        decreases n - i,
    {
        if a.get_char(i) != b.get_char(i) {
            return false;
        }
        i = i + 1;
    }
    assert(a@ =~= b@);
    true
}

pub fn path1(a: Attr) -> (r: Vec<PathStep>)
    ensures
        r@ == seq![PathStep::Attr(a)],
{
    let mut r = Vec::new();
    r.push(PathStep::Attr(a));
    proof {
        assert(r@ =~= seq![PathStep::Attr(a)]);
    }
    r
}

pub fn path3(list: Attr, index: usize, a: Attr) -> (r: Vec<PathStep>)
    ensures
        r@ == seq![PathStep::Attr(list), PathStep::Index(index), PathStep::Attr(a)],
{
    let mut r = Vec::new();
    r.push(PathStep::Attr(list));
    r.push(PathStep::Index(index));
    r.push(PathStep::Attr(a));
    proof {
        assert(r@ =~= seq![PathStep::Attr(list), PathStep::Index(index), PathStep::Attr(a)]);
    }
    r
}

proof fn lemma_push_view(s: Seq<ValidationFinding>, f: ValidationFinding)
    ensures
        finding_views(s.push(f)) == finding_views(s).push(f@),
{
    assert(finding_views(s.push(f)) =~= finding_views(s).push(f@));
}

/// Records a finding.
pub fn push_finding(findings: &mut Vec<ValidationFinding>, path: Vec<PathStep>, rule: Rule, value: &str)
    ensures
        finding_views(final(findings)@) == finding_views(old(findings)@).push(
            Finding { path: path@, rule, value: value@ },
        ),
{
    let f = ValidationFinding { path, rule, value: String::from_str(value) };
    proof {
        lemma_push_view(findings@, f);
    }
    findings.push(f);
}

pub fn copy_path(p: &Vec<PathStep>) -> (r: Vec<PathStep>)
    ensures
        r@ == p@,
{
    let mut r = Vec::new();
    let mut i: usize = 0;
    while i < p.len()
        invariant
            i <= p@.len(),
            r@ == p@.take(i as int),
        decreases p@.len() - i,
    {
        r.push(p[i]);
        proof {
            assert(p@.take(i + 1) =~= p@.take(i as int).push(p@[i as int]));
        }
        i = i + 1;
    }
    proof {
        assert(p@.take(i as int) =~= p@);
    }
    r
}

/// Records a length finding when `s` is not `min..=max` characters long.
pub fn check_length(
    findings: &mut Vec<ValidationFinding>,
    path: Vec<PathStep>,
    s: &str,
    min: usize,
    max: usize,
)
    ensures
        finding_views(final(findings)@) == finding_views(old(findings)@) + length_findings(
            path@,
            s@,
            min,
            max,
        ),
{
    let n = s.unicode_len();
    if n < min || n > max {
        push_finding(findings, path, Rule::Length { min, max }, s);
    } else {
        assert(finding_views(findings@) + length_findings(path@, s@, min, max) =~= finding_views(findings@));
    }
}

/// Records what the identifier rules find of `s`.
pub fn check_id(findings: &mut Vec<ValidationFinding>, path: &Vec<PathStep>, s: &str)
    ensures
        finding_views(final(findings)@) == finding_views(old(findings)@) + id_findings(path@, s@),
{
    let ghost before = finding_views(findings@);
    check_length(findings, copy_path(path), s, 1, 64);
    if !check_id_chars(s) {
        push_finding(findings, copy_path(path), Rule::IdCharacters, s);
    }
    assert(finding_views(findings@) =~= before + id_findings(path@, s@));
}

} // verus!
