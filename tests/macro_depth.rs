use mscd::macros::{MacroDepthVisitor, Token, WarningType};

fn ident(s: &str) -> Token {
    Token::Ident(s.to_string())
}

fn bang() -> Token {
    Token::Punct('!')
}

fn group(text: &str, stream: Vec<Token>) -> Token {
    Token::Group { text: text.to_string(), stream }
}

#[test]
fn new_visitor_is_empty() {
    let v = MacroDepthVisitor::new();
    assert_eq!(v.current_depth, 0);
    assert_eq!(v.max_depth, 0);
    assert!(v.current_macro.is_none());
    assert!(v.warnings.is_empty());
    assert_eq!(v.known_proc_macros.len(), 5);
    assert!(v.ignored_macros.contains(&"println".to_string()));
    assert!(v.ignored_macros.contains(&"vec".to_string()));
    assert_eq!(v.ignored_macros.len(), 36);
}

#[test]
fn nested_calls_are_counted() {
    let mut v = MacroDepthVisitor::new();
    // outer!(inner!(deepest!(x)))
    let tokens = vec![
        ident("outer"),
        bang(),
        group(
            "(inner ! (deepest ! (x)))",
            vec![ident("inner"), bang(), group("(deepest ! (x))", vec![ident("deepest"), bang(), group("(x)", vec![ident("x")])])],
        ),
    ];
    v.scan_token_stream(&tokens);
    assert_eq!(v.max_depth, 3);
    assert_eq!(v.current_depth, 0);
    assert_eq!(v.current_macro, Some("deepest".to_string()));
}

#[test]
fn ignored_macros_add_no_depth() {
    let mut v = MacroDepthVisitor::new();
    // println!(mine!(1))
    let tokens = vec![ident("println"), bang(), group("(mine ! (1))", vec![ident("mine"), bang(), group("(1)", vec![Token::Literal("1".to_string())])])];
    v.scan_token_stream(&tokens);
    assert_eq!(v.max_depth, 1);
}

#[test]
fn visit_macro_counts_the_invocation() {
    let mut v = MacroDepthVisitor::new();
    let tokens = vec![ident("a"), bang(), group("(b)", vec![ident("b")])];
    v.visit_macro(Some("outer".to_string()), &tokens);
    assert_eq!(v.max_depth, 2);
    assert_eq!(v.current_depth, 0);
    let mut w = MacroDepthVisitor::new();
    w.visit_macro(Some("vec".to_string()), &tokens);
    assert_eq!(w.max_depth, 1);
}

#[test]
fn warnings_for_literals_and_repetition() {
    let mut v = MacroDepthVisitor::new();
    let tokens = vec![
        Token::Literal("\"hello!\"".to_string()),
        ident("rules"),
        bang(),
        group("{$($x:expr),)*}", vec![Token::Punct('$')]),
    ];
    v.scan_token_stream(&tokens);
    assert_eq!(v.warnings.len(), 2);
    assert!(matches!(v.warnings[0].0, WarningType::StringLiteralMacro));
    assert_eq!(v.warnings[0].1, "Note: Found '!' in string literal - might be a hidden macro call");
    assert!(matches!(&v.warnings[1].0, WarningType::MacroRepetition(n) if n == "rules"));
    assert_eq!(
        v.warnings[1].1,
        "Warning: Macro 'rules!' contains repetition pattern - actual depth may be higher"
    );
}

#[test]
fn known_proc_macro_attribute_sets_depth_three() {
    let mut v = MacroDepthVisitor::new();
    v.scan_attribute(Some("derive".to_string()), Some(vec![ident("Debug")]));
    assert_eq!(v.max_depth, 3);
    assert_eq!(v.warnings.len(), 1);
    assert_eq!(
        v.warnings[0].1,
        "Warning: Found proc-macro attribute 'derive' - actual macro depth may be significantly higher"
    );
    let mut w = MacroDepthVisitor::new();
    w.scan_attribute(Some("cfg".to_string()), None);
    assert_eq!(w.max_depth, 0);
    assert!(w.warnings.is_empty());
}

#[test]
fn bang_without_group_consumes_next_token() {
    let mut v = MacroDepthVisitor::new();
    let tokens = vec![ident("m"), bang(), ident("n"), bang(), group("()", vec![])];
    v.scan_token_stream(&tokens);
    assert_eq!(v.max_depth, 1);
    assert_eq!(v.current_macro, Some("m".to_string()));
}
