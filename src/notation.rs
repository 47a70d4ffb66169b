//! The grammar of the notation language, as a rule table.
use vstd::prelude::*;
use crate::rule::{Grammar, Rule, RuleView, table_wf};

verus! {
/// Line comment: `//` up to the end of the line.
pub const COMMENT: usize = 0;
/// Import: `pub`? `use` path `*`? `;`.
pub const USE: usize = 1;
/// Module declaration: `pub`? `mod` name `;`.
pub const MODULE: usize = 2;
/// Function declaration: `pub`? lambda `;` comment?.
pub const FN: usize = 3;
/// Lambda signature: `fn`? name brackets arguments+ `->` arg.
pub const LAMBDA: usize = 4;
/// Argument: brackets path brackets arguments*.
pub const ARG: usize = 5;
/// Member binding: member lambda `;`.
pub const MEMBER: usize = 6;
/// Member lambda: arg `:` arg.
pub const MEMBER_LAMBDA: usize = 7;
/// Bracket annotations: `[...]` groups separated by whitespace.
pub const BRACKETS: usize = 8;
/// Call arguments: a parenthesized, comma-separated list.
pub const ARGUMENTS: usize = 9;
/// Dotted path: `::`? names separated by `::`.
pub const PATH: usize = 10;
/// One or more call argument lists.
pub const REPEATED_ARGUMENTS: usize = 11;
/// One line of a file.
pub const LINE: usize = 12;
/// A whole file: lines until the end.
pub const FILE: usize = 13;
/// The keyword `pub`.
pub const T_PUB: usize = 14;
/// Optional whitespace.
pub const WS_OPT: usize = 15;
/// Required whitespace.
pub const WS_REQ: usize = 16;
/// `pub` and optional whitespace.
pub const PUB_WS: usize = 17;
/// An optional `pub`.
pub const OPT_PUB: usize = 18;
/// `;`.
pub const T_SEMI: usize = 19;
/// `[`.
pub const T_OPEN: usize = 20;
/// `:`.
pub const T_COLON: usize = 21;
/// The name inside brackets.
pub const BRACKET_NAME: usize = 22;
/// `:` or a name.
pub const BRACKET_INNER: usize = 23;
/// `]`.
pub const T_CLOSE: usize = 24;
/// One `[...]` group.
pub const BRACKET_GROUP: usize = 25;
/// An optional `[...]` group.
pub const OPT_GROUP: usize = 26;
/// A leading `::`, recorded as the root property.
pub const T_ROOT: usize = 27;
/// An optional leading `::`.
pub const OPT_ROOT: usize = 28;
/// A path segment, recorded as a name.
pub const SEGMENT: usize = 29;
/// `::` between segments.
pub const T_PATH_SEP: usize = 30;
/// Segments separated by `::`, a trailing one allowed.
pub const SEGMENTS: usize = 31;
/// Optional call argument lists.
pub const OPT_CALLS: usize = 32;
/// `(`.
pub const T_LPAREN: usize = 33;
/// A numeral argument.
pub const NUMBER_ITEM: usize = 34;
/// A text argument.
pub const TEXT_ITEM: usize = 35;
/// One call argument.
pub const ITEM: usize = 36;
/// `,`.
pub const T_COMMA: usize = 37;
/// `,` and required whitespace.
pub const COMMA: usize = 38;
/// Call arguments separated by commas, possibly none.
pub const ITEMS: usize = 39;
/// `)`.
pub const T_RPAREN: usize = 40;
/// `//`.
pub const T_SLASHES: usize = 41;
/// Everything up to the line break.
pub const REST_OF_LINE: usize = 42;
/// The keyword `fn`.
pub const T_FN: usize = 43;
/// `fn` and optional whitespace.
pub const FN_WS: usize = 44;
/// An optional `fn`.
pub const OPT_FN: usize = 45;
/// The lambda's name, possibly empty.
pub const LAMBDA_NAME: usize = 46;
/// `->`.
pub const T_ARROW: usize = 47;
/// An optional trailing comment.
pub const OPT_COMMENT: usize = 48;
/// The keyword `use`.
pub const T_USE: usize = 49;
/// `*`.
pub const T_STAR: usize = 50;
/// An optional `*`.
pub const OPT_STAR: usize = 51;
/// The keyword `mod`.
pub const T_MOD: usize = 52;
/// The module's name, possibly empty.
pub const MODULE_NAME: usize = 53;
/// Number of rules in the table.
pub const RULES: usize = 54;

/// Property of the token recorded for a leading `::` of a path.
pub const PROP_ROOT: usize = 0;
/// Property of the token recorded for a name.
pub const PROP_NAME: usize = 1;

/// The separator characters that bound identifiers.
pub open spec fn separator_chars() -> Seq<char> {
    seq!['(', ')', '[', ']', '{', '}', ',', ';', ':', '/', '*', '+', '-']
}

/// The grammar of the notation language, each rule at its index.
pub open spec fn notation_rules() -> Seq<RuleView> {
    seq![
        RuleView::Sequence { args: seq![WS_OPT, T_SLASHES, REST_OF_LINE] },
        RuleView::Sequence { args: seq![WS_OPT, OPT_PUB, T_USE, WS_REQ, PATH, OPT_STAR, T_SEMI] },
        RuleView::Sequence { args: seq![WS_OPT, OPT_PUB, T_MOD, WS_REQ, MODULE_NAME, T_SEMI] },
        RuleView::Sequence { args: seq![OPT_PUB, LAMBDA, T_SEMI, WS_OPT, OPT_COMMENT] },
        RuleView::Sequence { args: seq![WS_OPT, OPT_FN, LAMBDA_NAME, WS_OPT, BRACKETS, REPEATED_ARGUMENTS, WS_REQ, T_ARROW, WS_REQ, ARG, WS_OPT] },
        RuleView::Sequence { args: seq![BRACKETS, PATH, BRACKETS, OPT_CALLS] },
        RuleView::Sequence { args: seq![MEMBER_LAMBDA, T_SEMI] },
        RuleView::Sequence { args: seq![ARG, WS_OPT, T_COLON, WS_REQ, ARG] },
        RuleView::SeparatedBy { rule: OPT_GROUP, by: WS_REQ, optional: true, allow_trail: false },
        RuleView::Sequence { args: seq![T_LPAREN, WS_OPT, ITEMS, WS_OPT, T_RPAREN] },
        RuleView::Sequence { args: seq![OPT_ROOT, SEGMENTS] },
        RuleView::Repeat { rule: ARGUMENTS },
        RuleView::Select { args: seq![COMMENT, USE, MODULE, MEMBER, FN] },
        RuleView::Lines { rule: LINE },
        RuleView::Token { text: seq!['p', 'u', 'b'], inverted: false, property: None },
        RuleView::Whitespace { optional: true },
        RuleView::Whitespace { optional: false },
        RuleView::Sequence { args: seq![T_PUB, WS_OPT] },
        RuleView::Optional { rule: PUB_WS },
        RuleView::Token { text: seq![';'], inverted: false, property: None },
        RuleView::Token { text: seq!['['], inverted: false, property: None },
        RuleView::Token { text: seq![':'], inverted: false, property: None },
        RuleView::UntilAnyOrWhitespace { delims: separator_chars(), optional: false, property: None },
        RuleView::Select { args: seq![T_COLON, BRACKET_NAME] },
        RuleView::Token { text: seq![']'], inverted: false, property: None },
        RuleView::Sequence { args: seq![T_OPEN, BRACKET_INNER, T_CLOSE] },
        RuleView::Optional { rule: BRACKET_GROUP },
        RuleView::Token { text: seq![':', ':'], inverted: false, property: Some(PROP_ROOT) },
        RuleView::Optional { rule: T_ROOT },
        RuleView::UntilAnyOrWhitespace { delims: separator_chars(), optional: false, property: Some(PROP_NAME) },
        RuleView::Token { text: seq![':', ':'], inverted: false, property: None },
        RuleView::SeparatedBy { rule: SEGMENT, by: T_PATH_SEP, optional: false, allow_trail: true },
        RuleView::Optional { rule: REPEATED_ARGUMENTS },
        RuleView::Token { text: seq!['('], inverted: false, property: None },
        RuleView::Number { allow_underscore: true },
        RuleView::Text { allow_empty: true },
        RuleView::Select { args: seq![NUMBER_ITEM, TEXT_ITEM, ARGUMENTS, MEMBER_LAMBDA, LAMBDA, ARG] },
        RuleView::Token { text: seq![','], inverted: false, property: None },
        RuleView::Sequence { args: seq![T_COMMA, WS_REQ] },
        RuleView::SeparatedBy { rule: ITEM, by: COMMA, optional: true, allow_trail: true },
        RuleView::Token { text: seq![')'], inverted: false, property: None },
        RuleView::Token { text: seq!['/', '/'], inverted: false, property: None },
        RuleView::UntilAny { delims: seq!['\n'], optional: true, property: None },
        RuleView::Token { text: seq!['f', 'n'], inverted: false, property: None },
        RuleView::Sequence { args: seq![T_FN, WS_OPT] },
        RuleView::Optional { rule: FN_WS },
        RuleView::UntilAnyOrWhitespace { delims: separator_chars(), optional: true, property: Some(PROP_NAME) },
        RuleView::Token { text: seq!['-', '>'], inverted: false, property: None },
        RuleView::Optional { rule: COMMENT },
        RuleView::Token { text: seq!['u', 's', 'e'], inverted: false, property: None },
        RuleView::Token { text: seq!['*'], inverted: false, property: None },
        RuleView::Optional { rule: T_STAR },
        RuleView::Token { text: seq!['m', 'o', 'd'], inverted: false, property: None },
        RuleView::UntilAnyOrWhitespace { delims: separator_chars(), optional: true, property: Some(PROP_NAME) },
    ]
}

/// The separator characters that bound identifiers.
fn separators() -> (r: Vec<char>)
    ensures
        r@ == separator_chars(),
{
    let r = vec!['(', ')', '[', ']', '{', '}', ',', ';', ':', '/', '*', '+', '-'];
    assert(r@ =~= separator_chars());
    r
}

/// The one-character text `c`.
fn one(c: char) -> (r: Vec<char>)
    ensures
        r@ == seq![c],
{
    let r = vec![c];
    assert(r@ =~= seq![c]);
    r
}

/// The notation grammar refers inside itself.
pub proof fn lemma_notation_wf()
    ensures
        table_wf(notation_rules()),
        notation_rules().len() == RULES,
{
    let g = notation_rules();
    assert forall|i: int, j: int| 0 <= i < g.len() && 0 <= j < crate::rule::children(g[i]).len()
        implies #[trigger] crate::rule::children(g[i])[j] < g.len() by {
    }
}

impl Grammar {
    /// The grammar of the notation language; `FILE` is the rule of a whole
    /// file.
    pub fn notation() -> (g: Grammar)
        ensures
            g.wf(),
            g.table() == notation_rules(),
    {
        let rules: Vec<Rule> = vec![
            Rule::Sequence { args: vec![WS_OPT, T_SLASHES, REST_OF_LINE] },
            Rule::Sequence { args: vec![WS_OPT, OPT_PUB, T_USE, WS_REQ, PATH, OPT_STAR, T_SEMI] },
            Rule::Sequence { args: vec![WS_OPT, OPT_PUB, T_MOD, WS_REQ, MODULE_NAME, T_SEMI] },
            Rule::Sequence { args: vec![OPT_PUB, LAMBDA, T_SEMI, WS_OPT, OPT_COMMENT] },
            Rule::Sequence { args: vec![WS_OPT, OPT_FN, LAMBDA_NAME, WS_OPT, BRACKETS, REPEATED_ARGUMENTS, WS_REQ, T_ARROW, WS_REQ, ARG, WS_OPT] },
            Rule::Sequence { args: vec![BRACKETS, PATH, BRACKETS, OPT_CALLS] },
            Rule::Sequence { args: vec![MEMBER_LAMBDA, T_SEMI] },
            Rule::Sequence { args: vec![ARG, WS_OPT, T_COLON, WS_REQ, ARG] },
            Rule::SeparatedBy { rule: OPT_GROUP, by: WS_REQ, optional: true, allow_trail: false },
            Rule::Sequence { args: vec![T_LPAREN, WS_OPT, ITEMS, WS_OPT, T_RPAREN] },
            Rule::Sequence { args: vec![OPT_ROOT, SEGMENTS] },
            Rule::Repeat { rule: ARGUMENTS },
            Rule::Select { args: vec![COMMENT, USE, MODULE, MEMBER, FN] },
            Rule::Lines { rule: LINE },
            Rule::Token { text: vec!['p', 'u', 'b'], inverted: false, property: None },
            Rule::Whitespace { optional: true },
            Rule::Whitespace { optional: false },
            Rule::Sequence { args: vec![T_PUB, WS_OPT] },
            Rule::Optional { rule: PUB_WS },
            Rule::Token { text: one(';'), inverted: false, property: None },
            Rule::Token { text: one('['), inverted: false, property: None },
            Rule::Token { text: one(':'), inverted: false, property: None },
            Rule::UntilAnyOrWhitespace { delims: separators(), optional: false, property: None },
            Rule::Select { args: vec![T_COLON, BRACKET_NAME] },
            Rule::Token { text: one(']'), inverted: false, property: None },
            Rule::Sequence { args: vec![T_OPEN, BRACKET_INNER, T_CLOSE] },
            Rule::Optional { rule: BRACKET_GROUP },
            Rule::Token { text: vec![':', ':'], inverted: false, property: Some(PROP_ROOT) },
            Rule::Optional { rule: T_ROOT },
            Rule::UntilAnyOrWhitespace { delims: separators(), optional: false, property: Some(PROP_NAME) },
            Rule::Token { text: vec![':', ':'], inverted: false, property: None },
            Rule::SeparatedBy { rule: SEGMENT, by: T_PATH_SEP, optional: false, allow_trail: true },
            Rule::Optional { rule: REPEATED_ARGUMENTS },
            Rule::Token { text: one('('), inverted: false, property: None },
            Rule::Number { allow_underscore: true },
            Rule::Text { allow_empty: true },
            Rule::Select { args: vec![NUMBER_ITEM, TEXT_ITEM, ARGUMENTS, MEMBER_LAMBDA, LAMBDA, ARG] },
            Rule::Token { text: one(','), inverted: false, property: None },
            Rule::Sequence { args: vec![T_COMMA, WS_REQ] },
            Rule::SeparatedBy { rule: ITEM, by: COMMA, optional: true, allow_trail: true },
            Rule::Token { text: one(')'), inverted: false, property: None },
            Rule::Token { text: vec!['/', '/'], inverted: false, property: None },
            Rule::UntilAny { delims: one('\n'), optional: true, property: None },
            Rule::Token { text: vec!['f', 'n'], inverted: false, property: None },
            Rule::Sequence { args: vec![T_FN, WS_OPT] },
            Rule::Optional { rule: FN_WS },
            Rule::UntilAnyOrWhitespace { delims: separators(), optional: true, property: Some(PROP_NAME) },
            Rule::Token { text: vec!['-', '>'], inverted: false, property: None },
            Rule::Optional { rule: COMMENT },
            Rule::Token { text: vec!['u', 's', 'e'], inverted: false, property: None },
            Rule::Token { text: one('*'), inverted: false, property: None },
            Rule::Optional { rule: T_STAR },
            Rule::Token { text: vec!['m', 'o', 'd'], inverted: false, property: None },
            Rule::UntilAnyOrWhitespace { delims: separators(), optional: true, property: Some(PROP_NAME) },
        ];
        let g = Grammar { rules };
        assert(g.table().len() == notation_rules().len());
        assert(g.table() =~= notation_rules());
        proof {
            lemma_notation_wf();
        }
        g
    }
}

} // verus!
