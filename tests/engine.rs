use notation_syntax::engine::{deeper_failure, merge_failure, DEPTH};
use notation_syntax::rule::{Cause, Failure, Grammar, Rule, Tok};
use notation_syntax::scan::whitespace_char;

fn chars(s: &str) -> Vec<char> {
    s.chars().collect()
}

fn lit(s: &str) -> Rule {
    Rule::Token { text: chars(s), inverted: false, property: None }
}

fn run(g: &Grammar, id: usize, s: &str) -> Result<(usize, Option<Failure>), Failure> {
    let mut log: Vec<Tok> = Vec::new();
    g.parse(id, &chars(s), 0, DEPTH, &mut log)
}

#[test]
fn reparse_gives_identical_results() {
    let g = Grammar { rules: vec![Rule::Sequence { args: vec![1, 2] }, lit("ab"), lit("cd")] };
    for text in ["abcd", "abx", ""] {
        let s = chars(text);
        let mut log1: Vec<Tok> = Vec::new();
        let mut log2: Vec<Tok> = Vec::new();
        let r1 = g.parse(0, &s, 0, DEPTH, &mut log1);
        let r2 = g.parse(0, &s, 0, DEPTH, &mut log2);
        assert_eq!(r1, r2);
        assert_eq!(log1, log2);
        assert_eq!(g.check(0, &s), g.check(0, &s));
    }
}

#[test]
fn optional_rewinds_log_and_cursor() {
    let g = Grammar {
        rules: vec![
            Rule::Optional { rule: 1 },
            Rule::Sequence { args: vec![2, 3] },
            Rule::Token { text: chars("a"), inverted: false, property: Some(7) },
            lit("b"),
        ],
    };
    let s = chars("ac");
    let before = Tok { offset: 9, length: 1, property: 3 };
    let mut log = vec![before];
    let r = g.parse(0, &s, 0, DEPTH, &mut log);
    assert_eq!(r, Ok((0, Some(Failure { offset: 1, length: 0, cause: Cause::ExpectedTag(3) }))));
    assert_eq!(log, vec![before]);
    let mut log = Vec::new();
    assert_eq!(g.parse(0, &chars("ab"), 0, DEPTH, &mut log), Ok((2, None)));
    assert_eq!(log, vec![Tok { offset: 0, length: 1, property: 7 }]);
}

#[test]
fn sequence_children_chain() {
    let g = Grammar { rules: vec![Rule::Sequence { args: vec![1, 2, 1] }, lit("ab"), lit("c")] };
    let s = chars("abcab");
    let mut log = Vec::new();
    assert_eq!(g.parse(1, &s, 0, DEPTH, &mut log), Ok((2, None)));
    assert_eq!(g.parse(2, &s, 2, DEPTH, &mut log), Ok((3, None)));
    assert_eq!(g.parse(1, &s, 3, DEPTH, &mut log), Ok((5, None)));
    assert_eq!(g.parse(0, &s, 0, DEPTH, &mut log), Ok((5, None)));
    assert_eq!(run(&g, 0, "abcx"), Err(Failure { offset: 3, length: 0, cause: Cause::ExpectedTag(1) }));
}

#[test]
fn separated_by_minimum() {
    let required = Grammar {
        rules: vec![Rule::SeparatedBy { rule: 1, by: 2, optional: false, allow_trail: false }, lit("x"), lit(",")],
    };
    let optional = Grammar {
        rules: vec![Rule::SeparatedBy { rule: 1, by: 2, optional: true, allow_trail: false }, lit("x"), lit(",")],
    };
    assert_eq!(run(&required, 0, ""), Err(Failure { offset: 0, length: 0, cause: Cause::ExpectedTag(1) }));
    assert_eq!(run(&optional, 0, ""), Ok((0, Some(Failure { offset: 0, length: 0, cause: Cause::ExpectedTag(1) }))));
    assert_eq!(run(&required, 0, "x,x").map(|r| r.0), Ok(3));
    // A trailing separator fails without `allow_trail` and is kept with it.
    assert_eq!(run(&required, 0, "x,x,"), Err(Failure { offset: 4, length: 0, cause: Cause::ExpectedTag(1) }));
    let trailing = Grammar {
        rules: vec![Rule::SeparatedBy { rule: 1, by: 2, optional: false, allow_trail: true }, lit("x"), lit(",")],
    };
    assert_eq!(run(&trailing, 0, "x,x,").map(|r| r.0), Ok(4));
}

#[test]
fn select_reports_deepest_failure() {
    let g = Grammar {
        rules: vec![
            Rule::Select { args: vec![1, 2] },
            Rule::Sequence { args: vec![3, 4] },
            Rule::Sequence { args: vec![5, 6] },
            lit("abc"),
            lit("x"),
            lit("a"),
            lit("y"),
        ],
    };
    assert_eq!(run(&g, 0, "abcz"), Err(Failure { offset: 3, length: 0, cause: Cause::ExpectedTag(4) }));
    let swapped = Grammar {
        rules: vec![
            Rule::Select { args: vec![2, 1] },
            Rule::Sequence { args: vec![3, 4] },
            Rule::Sequence { args: vec![5, 6] },
            lit("abc"),
            lit("x"),
            lit("a"),
            lit("y"),
        ],
    };
    assert_eq!(run(&swapped, 0, "abcz"), Err(Failure { offset: 3, length: 0, cause: Cause::ExpectedTag(4) }));
    assert_eq!(run(&g, 0, "ay").map(|r| r.0), Ok(2));
}

#[test]
fn select_without_alternatives_fails() {
    let g = Grammar { rules: vec![Rule::Select { args: vec![] }] };
    assert_eq!(run(&g, 0, "a"), Err(Failure { offset: 0, length: 0, cause: Cause::NoAlternatives(0) }));
}

#[test]
fn failure_merging() {
    let a = Failure { offset: 2, length: 0, cause: Cause::ExpectedEnd };
    let b = Failure { offset: 2, length: 0, cause: Cause::ExpectedNumber(1) };
    let c = Failure { offset: 5, length: 0, cause: Cause::ExpectedText(1) };
    assert_eq!(merge_failure(Some(b), Some(a)), Some(b));
    assert_eq!(merge_failure(Some(a), Some(c)), Some(c));
    assert_eq!(merge_failure(None, Some(a)), Some(a));
    assert_eq!(deeper_failure(a, Some(b)), a);
    assert_eq!(deeper_failure(a, Some(c)), c);
    // Depth is where a failure's range ends.
    let wide = Failure { offset: 1, length: 3, cause: Cause::InvalidNumber(1) };
    assert_eq!(merge_failure(Some(c), Some(wide)), Some(c));
    assert_eq!(deeper_failure(a, Some(wide)), wide);
    assert_eq!(merge_failure(Some(a), Some(wide)), Some(wide));
}

#[test]
fn repeat_needs_one_match() {
    let g = Grammar { rules: vec![Rule::Repeat { rule: 1 }, lit("ab")] };
    assert_eq!(run(&g, 0, "ababa"), Ok((4, Some(Failure { offset: 4, length: 0, cause: Cause::ExpectedTag(1) }))));
    assert_eq!(run(&g, 0, "x"), Err(Failure { offset: 0, length: 0, cause: Cause::ExpectedTag(1) }));
}

#[test]
fn whitespace_and_until() {
    let g = Grammar {
        rules: vec![
            Rule::Whitespace { optional: false },
            Rule::Whitespace { optional: true },
            Rule::UntilAny { delims: chars(";"), optional: false, property: None },
            Rule::UntilAnyOrWhitespace { delims: chars(";"), optional: false, property: Some(1) },
        ],
    };
    assert_eq!(run(&g, 0, " \t\nx"), Ok((3, None)));
    assert_eq!(run(&g, 0, "x"), Err(Failure { offset: 0, length: 0, cause: Cause::ExpectedWhitespace(0) }));
    assert_eq!(run(&g, 1, "x"), Ok((0, None)));
    assert_eq!(run(&g, 2, "ab c;d"), Ok((4, None)));
    assert_eq!(run(&g, 2, ";"), Err(Failure { offset: 0, length: 0, cause: Cause::ExpectedSomething(2) }));
    assert_eq!(run(&g, 2, "abc"), Ok((3, None)));
    let mut log = Vec::new();
    assert_eq!(g.parse(3, &chars("ab c;d"), 0, DEPTH, &mut log), Ok((2, None)));
    assert_eq!(log, vec![Tok { offset: 0, length: 2, property: 1 }]);
}

#[test]
fn inverted_token() {
    let g = Grammar { rules: vec![Rule::Token { text: chars("no"), inverted: true, property: None }] };
    assert_eq!(run(&g, 0, "yes"), Ok((0, None)));
    assert_eq!(run(&g, 0, "no"), Err(Failure { offset: 0, length: 2, cause: Cause::DidNotExpectTag(0) }));
}

#[test]
fn numbers() {
    let g = Grammar {
        rules: vec![Rule::Number { allow_underscore: true }, Rule::Number { allow_underscore: false }],
    };
    assert_eq!(run(&g, 0, "1_000)"), Ok((5, None)));
    assert_eq!(run(&g, 1, "1_000)"), Ok((1, None)));
    assert_eq!(run(&g, 0, "-2.5e3,"), Ok((6, None)));
    assert_eq!(run(&g, 0, "abc"), Err(Failure { offset: 0, length: 0, cause: Cause::ExpectedNumber(0) }));
    assert_eq!(run(&g, 0, "-)"), Err(Failure { offset: 0, length: 1, cause: Cause::InvalidNumber(0) }));
    assert_eq!(run(&g, 0, "1e"), Err(Failure { offset: 0, length: 2, cause: Cause::InvalidNumber(0) }));
    assert_eq!(run(&g, 0, "1e99999999999999999999"), Ok((22, None)));
    assert_eq!(run(&g, 0, "1e-12;"), Ok((5, None)));
    assert_eq!(run(&g, 0, "1e1234567890123456789.5"), Err(Failure { offset: 0, length: 23, cause: Cause::InvalidNumber(0) }));
    assert_eq!(run(&g, 0, "1e12345678901234567890;"), Ok((22, None)));
    assert_eq!(run(&g, 0, "+1e12345678901234567890;"), Err(Failure { offset: 0, length: 23, cause: Cause::InvalidNumber(0) }));
}

#[test]
fn texts() {
    let g = Grammar { rules: vec![Rule::Text { allow_empty: true }, Rule::Text { allow_empty: false }] };
    assert_eq!(run(&g, 0, "\"hi\" rest"), Ok((4, None)));
    assert_eq!(run(&g, 0, "\"h\u{e9}\u{e9}\"x"), Ok((5, None)));
    assert_eq!(run(&g, 0, "\"a\\\"b\""), Ok((6, None)));
    assert_eq!(run(&g, 0, "\"\""), Ok((2, None)));
    assert_eq!(run(&g, 1, "\"\""), Err(Failure { offset: 0, length: 2, cause: Cause::EmptyTextNotAllowed(1) }));
    assert_eq!(run(&g, 0, "\"a\\q\""), Err(Failure { offset: 0, length: 5, cause: Cause::InvalidText(0) }));
    assert_eq!(run(&g, 0, "hi"), Err(Failure { offset: 0, length: 0, cause: Cause::ExpectedText(0) }));
    assert_eq!(run(&g, 0, "\"open"), Err(Failure { offset: 0, length: 0, cause: Cause::ExpectedText(0) }));
}

#[test]
fn lines_stop_at_failure() {
    let g = Grammar { rules: vec![Rule::Lines { rule: 1 }, lit("ok;")] };
    assert_eq!(run(&g, 0, "ok;\nok;\n  \n"), Ok((11, None)));
    assert_eq!(run(&g, 0, "ok;ok;"), Err(Failure { offset: 3, length: 0, cause: Cause::ExpectedNewLine(0) }));
    assert_eq!(run(&g, 0, "ok; ok;"), Err(Failure { offset: 3, length: 0, cause: Cause::ExpectedNewLine(0) }));
    assert_eq!(g.check(0, &chars("ok;\nno;")), Err(Failure { offset: 4, length: 0, cause: Cause::ExpectedTag(1) }));
    assert_eq!(g.check(0, &chars("ok;\n\n")), Ok(()));
}

#[test]
fn nesting_is_bounded() {
    let g = Grammar { rules: vec![Rule::Sequence { args: vec![0] }] };
    assert!(matches!(run(&g, 0, "a"), Err(Failure { cause: Cause::TooDeep(_), .. })));
}

#[test]
fn unconsumed_input_is_reported() {
    let g = Grammar { rules: vec![Rule::Optional { rule: 1 }, lit("a")] };
    assert_eq!(g.check(0, &chars("ab")), Err(Failure { offset: 1, length: 0, cause: Cause::ExpectedEnd }));
}


#[test]
fn whitespace_matches_std() {
    for c in (0u32..=0x10FFFF).filter_map(char::from_u32) {
        assert_eq!(whitespace_char(c), c.is_whitespace(), "{:?}", c);
    }
}
