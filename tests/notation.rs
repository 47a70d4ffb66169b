use notation_syntax::engine::DEPTH;
use notation_syntax::notation::{ARG, FILE, FN, MEMBER, MODULE, T_SEMI, USE};
use notation_syntax::rule::{Cause, Failure, Grammar, Rule, Tok};
use notation_syntax::syntax::{Syntax, SyntaxError};
use std::path::PathBuf;

fn chars(s: &str) -> Vec<char> {
    s.chars().collect()
}

fn token_text(g: &Grammar, id: usize) -> String {
    match &g.rules[id] {
        Rule::Token { text, .. } => text.iter().collect(),
        _ => String::new(),
    }
}

fn parse_whole(g: &Grammar, id: usize, s: &str) -> bool {
    let s = chars(s);
    let mut log: Vec<Tok> = Vec::new();
    matches!(g.parse(id, &s, 0, DEPTH, &mut log), Ok((end, _)) if end == s.len())
}

#[test]
fn use_import_is_accepted() {
    let g = Grammar::notation();
    assert_eq!(g.check(FILE, &chars("use foo::bar;")), Ok(()));
    assert!(parse_whole(&g, USE, "use foo::bar;"));
}

#[test]
fn module_declaration_is_accepted() {
    let g = Grammar::notation();
    assert_eq!(g.check(FILE, &chars("mod engine;")), Ok(()));
    assert!(parse_whole(&g, MODULE, "mod engine;"));
}

#[test]
fn function_declaration_is_accepted() {
    let g = Grammar::notation();
    let text = "pub fn add(x, y) -> z;";
    assert_eq!(g.check(FILE, &chars(text)), Ok(()));
    assert!(parse_whole(&g, FN, text));
    assert!(!parse_whole(&g, MEMBER, text));
    assert!(!parse_whole(&g, USE, text));
}

#[test]
fn member_binding_is_accepted() {
    let g = Grammar::notation();
    assert_eq!(g.check(FILE, &chars("x: 5;")), Ok(()));
    assert!(parse_whole(&g, MEMBER, "x: 5;"));
    assert!(!parse_whole(&g, FN, "x: 5;"));
}

#[test]
fn missing_semicolon_fails_at_end() {
    let g = Grammar::notation();
    let text = "use foo::bar";
    let r = g.check(FILE, &chars(text));
    match r {
        Err(Failure { offset, length: 0, cause: Cause::ExpectedTag(id) }) => {
            assert_eq!(offset, 12);
            assert_eq!(token_text(&g, id), ";");
        },
        other => panic!("unexpected {:?}", other),
    }
}

#[test]
fn anonymous_lambda_is_accepted() {
    let g = Grammar::notation();
    assert_eq!(g.check(FILE, &chars("fn (x) -> y;")), Ok(()));
    assert!(parse_whole(&g, FN, "fn (x) -> y;"));
}

#[test]
fn several_lines_with_comments() {
    let g = Grammar::notation();
    let text = "// Booleans.\nuse std::bool::*;\npub mod logic;\n\nnot(a: bool) -> bool; // negation\nand[x](a, b)(c) -> bool;\ntrue: bool;\n";
    assert_eq!(g.check(FILE, &chars(text)), Ok(()));
}

#[test]
fn empty_file_is_accepted() {
    let g = Grammar::notation();
    assert_eq!(g.check(FILE, &chars("")), Ok(()));
    assert_eq!(g.check(FILE, &chars("  \n\t\n")), Ok(()));
}

#[test]
fn nested_arguments_and_literals() {
    let g = Grammar::notation();
    assert!(parse_whole(&g, ARG, "f(1_000, \"t\", (a, b), g(x) -> y)"));
    assert_eq!(g.check(FILE, &chars("v: f(1_000, \"t\", (a, b));")), Ok(()));
}

#[test]
fn garbage_line_is_rejected() {
    let g = Grammar::notation();
    let r = g.check(FILE, &chars("use a;\n???"));
    assert!(r.is_err());
    assert!(r.unwrap_err().offset >= 7);
}

#[test]
fn syntax_accepts_valid_files() {
    let files: Vec<PathBuf> = vec!["a.txt".into(), "b.txt".into()];
    let sources = vec!["use a;".to_string(), "mod b;".to_string()];
    match Syntax::new(files.clone(), sources) {
        Ok(s) => assert_eq!(s.files, files),
        Err(_) => panic!("expected success"),
    }
}

#[test]
fn syntax_reports_first_failing_file() {
    let files: Vec<PathBuf> = vec!["a.txt".into(), "b.txt".into(), "c.txt".into()];
    let sources = vec!["use a;".to_string(), "use b".to_string(), "???".to_string()];
    match Syntax::new(files, sources) {
        Err(SyntaxError::MetaError(path, text, failure)) => {
            assert_eq!(path, PathBuf::from("b.txt"));
            assert_eq!(text, "use b");
            assert_eq!(failure.offset, 5);
        },
        _ => panic!("expected a failure in b.txt"),
    }
}

#[test]
fn io_error_converts() {
    let e = std::io::Error::new(std::io::ErrorKind::NotFound, "missing");
    assert!(matches!(SyntaxError::from(e), SyntaxError::IoError(_)));
}

#[test]
fn many_lines_are_accepted() {
    let g = Grammar::notation();
    let text = "use a::b;\nf(x) -> y;\n".repeat(3000);
    assert_eq!(g.check(FILE, &chars(&text)), Ok(()));
}

fn offset_of(text: &str) -> Option<usize> {
    let files: Vec<PathBuf> = vec!["f.txt".into()];
    match Syntax::new(files, vec![text.to_string()]) {
        Ok(_) => None,
        Err(SyntaxError::MetaError(_, src, failure)) => {
            assert_eq!(src, text);
            Some(failure.offset)
        },
        Err(SyntaxError::IoError(_)) => panic!("no io here"),
    }
}

#[test]
fn failed_call_list_is_given_back() {
    assert_eq!(offset_of("x: y(;"), Some(5));
}

#[test]
fn space_before_semicolon_in_module() {
    let g = Grammar::notation();
    assert_eq!(g.check(FILE, &chars("mod engine ;")), Err(Failure { offset: 10, length: 0, cause: Cause::ExpectedTag(T_SEMI) }));
    assert_eq!(token_text(&g, T_SEMI), ";");
}

#[test]
fn use_without_path_fails() {
    assert_eq!(offset_of("use ;"), Some(4));
}

#[test]
fn empty_call_list_is_accepted() {
    assert_eq!(offset_of("f() -> y;"), None);
}

#[test]
fn member_without_value_reports_deepest() {
    assert_eq!(offset_of("x: ;"), Some(3));
}

#[test]
fn two_declarations_on_one_line_fail() {
    let g = Grammar::notation();
    assert_eq!(g.check(FILE, &chars("use a; mod b;")), Err(Failure { offset: 6, length: 0, cause: Cause::ExpectedNewLine(FILE) }));
    assert_eq!(g.check(FILE, &chars("use a;\nmod b;")), Ok(()));
}

#[test]
fn nested_calls_are_accepted() {
    let g = Grammar::notation();
    let depth = 8;
    let text = format!("v: {}x{};", "f(".repeat(depth), ")".repeat(depth));
    assert_eq!(g.check(FILE, &chars(&text)), Ok(()));
}

#[test]
fn validation_is_repeatable() {
    let files: Vec<PathBuf> = vec!["a.txt".into(), "b.txt".into()];
    let sources = vec!["use a;".to_string(), "use b".to_string()];
    let r1 = Syntax::new(files.clone(), sources.clone());
    let r2 = Syntax::new(files, sources);
    match (r1, r2) {
        (Err(SyntaxError::MetaError(p1, t1, f1)), Err(SyntaxError::MetaError(p2, t2, f2))) => {
            assert_eq!((p1, t1, f1), (p2, t2, f2));
        },
        _ => panic!("expected the same failure twice"),
    }
}
