use vstd::prelude::*;

verus! {

/// Why a rule failed to match. Each cause carries the index of the rule
/// that produced it, so that a message can be rendered from the grammar.
#[derive(Clone, Copy, Debug, PartialEq, Eq, Structural)]
pub enum Cause {
    /// A required whitespace run was empty.
    ExpectedWhitespace(usize),
    /// A required identifier-like run was empty.
    ExpectedSomething(usize),
    /// No numeral starts here.
    ExpectedNumber(usize),
    /// The numeral here is malformed.
    InvalidNumber(usize),
    /// No quoted text literal starts here.
    ExpectedText(usize),
    /// The quoted text literal is empty where that is not allowed.
    EmptyTextNotAllowed(usize),
    /// The quoted text literal holds an invalid escape.
    InvalidText(usize),
    /// The literal of a token rule is absent.
    ExpectedTag(usize),
    /// The literal of an inverted token rule is present.
    DidNotExpectTag(usize),
    /// A choice without alternatives.
    NoAlternatives(usize),
    /// Rules nest deeper than the evaluation allows.
    TooDeep(usize),
    /// A line of a `Lines` rule starts where no line break precedes it.
    ExpectedNewLine(usize),
    /// The input was not consumed to its end.
    ExpectedEnd,
}

/// A failure: the range of characters where it was detected, and its cause.
#[derive(Clone, Copy, Debug, PartialEq, Eq, Structural)]
pub struct Failure {
    pub offset: usize,
    pub length: usize,
    pub cause: Cause,
}

/// A recorded match of a primitive that carries a property.
#[derive(Clone, Copy, Debug, PartialEq, Eq, Structural)]
pub struct Tok {
    pub offset: usize,
    pub length: usize,
    pub property: usize,
}

/// The result of evaluating a rule at an offset: on success the offset after
/// the match together with the deepest failure seen on the way, if any.
pub type Outcome = Result<(usize, Option<Failure>), Failure>;

/// One rule of a grammar. Child rules are referred to by their index in the
/// grammar's rule table, which lets rules refer to each other in cycles.
#[derive(Debug)]
pub enum Rule {
    /// The literal `text`; when `inverted`, succeeds without consuming
    /// exactly where the literal is absent.
    Token { text: Vec<char>, inverted: bool, property: Option<usize> },
    /// The maximal run of whitespace, required to be non-empty unless `optional`.
    Whitespace { optional: bool },
    /// Everything up to the first character of `delims`.
    UntilAny { delims: Vec<char>, optional: bool, property: Option<usize> },
    /// Everything up to the first character of `delims` or whitespace.
    UntilAnyOrWhitespace { delims: Vec<char>, optional: bool, property: Option<usize> },
    /// A numeral that converts to a number (see `scan::numeral_ok`).
    Number { allow_underscore: bool },
    /// A double-quoted text literal with escapes.
    Text { allow_empty: bool },
    /// All children in order.
    Sequence { args: Vec<usize> },
    /// The first child that matches.
    Select { args: Vec<usize> },
    /// The child, or nothing.
    Optional { rule: usize },
    /// The child one or more times.
    Repeat { rule: usize },
    /// Items separated by a separator rule.
    SeparatedBy { rule: usize, by: usize, optional: bool, allow_trail: bool },
    /// Lines of the child rule until the end of input, each after a line
    /// break; blank lines are skipped.
    Lines { rule: usize },
}

/// The mathematical value of a rule: its text and references as sequences.
pub enum RuleView {
    Token { text: Seq<char>, inverted: bool, property: Option<usize> },
    Whitespace { optional: bool },
    UntilAny { delims: Seq<char>, optional: bool, property: Option<usize> },
    UntilAnyOrWhitespace { delims: Seq<char>, optional: bool, property: Option<usize> },
    Number { allow_underscore: bool },
    Text { allow_empty: bool },
    Sequence { args: Seq<usize> },
    Select { args: Seq<usize> },
    Optional { rule: usize },
    Repeat { rule: usize },
    SeparatedBy { rule: usize, by: usize, optional: bool, allow_trail: bool },
    Lines { rule: usize },
}

impl View for Rule {
    type V = RuleView;

    open spec fn view(&self) -> RuleView {
        match *self {
            Rule::Token { text, inverted, property } => RuleView::Token { text: text@, inverted, property },
            Rule::Whitespace { optional } => RuleView::Whitespace { optional },
            Rule::UntilAny { delims, optional, property } => RuleView::UntilAny { delims: delims@, optional, property },
            Rule::UntilAnyOrWhitespace { delims, optional, property } =>
                RuleView::UntilAnyOrWhitespace { delims: delims@, optional, property },
            Rule::Number { allow_underscore } => RuleView::Number { allow_underscore },
            Rule::Text { allow_empty } => RuleView::Text { allow_empty },
            Rule::Sequence { args } => RuleView::Sequence { args: args@ },
            Rule::Select { args } => RuleView::Select { args: args@ },
            Rule::Optional { rule } => RuleView::Optional { rule },
            Rule::Repeat { rule } => RuleView::Repeat { rule },
            Rule::SeparatedBy { rule, by, optional, allow_trail } =>
                RuleView::SeparatedBy { rule, by, optional, allow_trail },
            Rule::Lines { rule } => RuleView::Lines { rule },
        }
    }
}

/// A table of rules; children are indices into it.
pub struct Grammar {
    pub rules: Vec<Rule>,
}

/// The child indices of a rule.
pub open spec fn children(r: RuleView) -> Seq<usize> {
    match r {
        RuleView::Sequence { args } => args,
        RuleView::Select { args } => args,
        RuleView::Optional { rule } => seq![rule],
        RuleView::Repeat { rule } => seq![rule],
        RuleView::SeparatedBy { rule, by, .. } => seq![rule, by],
        RuleView::Lines { rule } => seq![rule],
        _ => Seq::empty(),
    }
}

/// Every reference of the table `g` names an entry of it.
pub open spec fn table_wf(g: Seq<RuleView>) -> bool {
    forall|i: int, j: int|
        0 <= i < g.len() && 0 <= j < children(g[i]).len() ==> #[trigger] children(g[i])[j] < g.len()
}

impl Grammar {
    /// The rules as values.
    pub open spec fn table(&self) -> Seq<RuleView> {
        self.rules@.map_values(|r: Rule| r@)
    }

    /// Every reference names an entry of the table.
    pub open spec fn wf(&self) -> bool {
        table_wf(self.table())
    }
}

} // verus!
