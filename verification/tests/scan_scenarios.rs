use ast_scan::api::{match_ast_rule, RuleDef, ScanError};

fn bytes(s: &str) -> Vec<u8> {
    s.as_bytes().to_vec()
}

fn pattern_rule(id: &str, pattern: &str) -> RuleDef {
    RuleDef { id: bytes(id), pattern: Some(bytes(pattern)), kind: None }
}

fn kind_rule(id: &str, kind: &str) -> RuleDef {
    RuleDef { id: bytes(id), pattern: None, kind: Some(bytes(kind)) }
}

#[test]
fn console_log_variadic_single_match() {
    let source = "function test() { console.log(\"hello\"); }";
    let rules = vec![pattern_rule("console-log", "console.log($$$)")];
    let rows = match_ast_rule(&bytes(source), &bytes("typescript"), &rules).unwrap();
    assert_eq!(rows.len(), 1);
    assert_eq!(rows[0].text, bytes("console.log(\"hello\")"));
    assert_eq!(rows[0].start_line, 0);
    assert_eq!(rows[0].end_line, 0);
    assert_eq!(rows[0].start_col, 18);
    assert_eq!(rows[0].end_col, 18 + "console.log(\"hello\")".len());
}

#[test]
fn two_rules_no_shadowing() {
    let source = "function test() { console.log(\"hello\"); }";
    let rules = vec![
        pattern_rule("log", "console.log($$$)"),
        kind_rule("calls", "call_expression"),
    ];
    let rows = match_ast_rule(&bytes(source), &bytes("typescript"), &rules).unwrap();
    // Both independent rules report the same call node.
    assert_eq!(rows.len(), 2);
    assert_eq!(rows[0].text, bytes("console.log(\"hello\")"));
    assert_eq!(rows[1].text, bytes("console.log(\"hello\")"));
    assert_eq!(rows[0].start_col, rows[1].start_col);
}

#[test]
fn nested_calls_reported_in_preorder() {
    let source = "f(g(1));";
    let rules = vec![kind_rule("calls", "call_expression")];
    let rows = match_ast_rule(&bytes(source), &bytes("javascript"), &rules).unwrap();
    assert_eq!(rows.len(), 2);
    assert_eq!(rows[0].text, bytes("f(g(1))"));
    assert_eq!(rows[1].text, bytes("g(1)"));
}

#[test]
fn single_capture_metavariable_matches_one_argument() {
    let source = "f(1); f(1, 2);";
    let rules = vec![pattern_rule("one-arg", "f($A)")];
    let rows = match_ast_rule(&bytes(source), &bytes("javascript"), &rules).unwrap();
    // `$A` matches exactly one argument node, so only the first call fits.
    assert_eq!(rows.len(), 1);
    assert_eq!(rows[0].text, bytes("f(1)"));
}

#[test]
fn variadic_matches_empty_run() {
    let source = "f();";
    let rules = vec![pattern_rule("any-args", "f($$$)")];
    let rows = match_ast_rule(&bytes(source), &bytes("javascript"), &rules).unwrap();
    assert_eq!(rows.len(), 1);
    assert_eq!(rows[0].text, bytes("f()"));
}

#[test]
fn rescanning_identical_inputs_is_deterministic() {
    let source = "function test() { console.log(\"hello\"); }\nf(g(2));\n";
    let mk = || {
        vec![
            pattern_rule("log", "console.log($$$)"),
            kind_rule("calls", "call_expression"),
        ]
    };
    let a = match_ast_rule(&bytes(source), &bytes("typescript"), &mk()).unwrap();
    let b = match_ast_rule(&bytes(source), &bytes("typescript"), &mk()).unwrap();
    assert_eq!(a.len(), b.len());
    for (x, y) in a.iter().zip(b.iter()) {
        assert_eq!(x.text, y.text);
        assert_eq!(x.start_line, y.start_line);
        assert_eq!(x.start_col, y.start_col);
        assert_eq!(x.end_line, y.end_line);
        assert_eq!(x.end_col, y.end_col);
    }
}

#[test]
fn match_on_later_line_counts_lines_from_zero() {
    let source = "let a = 1;\nlet b = 2;\nconsole.log(a);\n";
    let rules = vec![pattern_rule("log", "console.log($$$)")];
    let rows = match_ast_rule(&bytes(source), &bytes("typescript"), &rules).unwrap();
    assert_eq!(rows.len(), 1);
    assert_eq!(rows[0].start_line, 2);
    assert_eq!(rows[0].start_col, 0);
    assert_eq!(rows[0].end_line, 2);
    assert_eq!(rows[0].end_col, "console.log(a)".len());
}

#[test]
fn columns_count_characters_not_bytes() {
    // The string before the call holds a two-byte character; the column
    // of the call must count it as one.
    let source = "const x = \"\u{e9}\"; console.log(x);";
    let rules = vec![pattern_rule("log", "console.log($$$)")];
    let rows = match_ast_rule(&bytes(source), &bytes("typescript"), &rules).unwrap();
    assert_eq!(rows.len(), 1);
    assert_eq!(rows[0].start_col, 15);
}

#[test]
fn unsupported_language_is_refused() {
    let rules = vec![pattern_rule("r", "console.log($$$)")];
    let r = match_ast_rule(&bytes("let x = 1;"), &bytes("klingon"), &rules);
    match r {
        Err(ScanError::UnsupportedLanguage(name)) => assert_eq!(name, bytes("klingon")),
        _ => panic!("expected UnsupportedLanguage"),
    }
}

#[test]
fn unsupported_language_beats_bad_rules() {
    // The language is checked before any rule is compiled or parsed.
    let rules = vec![RuleDef { id: bytes("r"), pattern: None, kind: None }];
    let r = match_ast_rule(&bytes("let x = 1;"), &bytes("klingon"), &rules);
    assert!(matches!(r, Err(ScanError::UnsupportedLanguage(_))));
}

#[test]
fn language_lookup_is_case_insensitive() {
    let source = "console.log(1);";
    let rules = vec![pattern_rule("log", "console.log($$$)")];
    for name in ["typescript", "TypeScript", "TYPESCRIPT", "ts", "TS"] {
        let rows = match_ast_rule(&bytes(source), &bytes(name), &rules).unwrap();
        assert_eq!(rows.len(), 1, "alias {name} failed");
    }
}

#[test]
fn javascript_aliases_resolve() {
    let source = "f(1);";
    let rules = vec![kind_rule("calls", "call_expression")];
    for name in ["javascript", "js", "jsx"] {
        let rows = match_ast_rule(&bytes(source), &bytes(name), &rules).unwrap();
        assert_eq!(rows.len(), 1, "alias {name} failed");
    }
}

#[test]
fn python_pattern_matches_call() {
    let source = "def t():\n    print(\"hello\")\n";
    let rules = vec![pattern_rule("print", "print($$$)")];
    let rows = match_ast_rule(&bytes(source), &bytes("python"), &rules).unwrap();
    assert_eq!(rows.len(), 1);
    assert_eq!(rows[0].text, bytes("print(\"hello\")"));
    assert_eq!(rows[0].start_line, 1);
    assert_eq!(rows[0].start_col, 4);
}

#[test]
fn rust_pattern_matches_macro_free_call() {
    let source = "fn main() { work(7); }";
    let rules = vec![pattern_rule("work", "work($A)")];
    let rows = match_ast_rule(&bytes(source), &bytes("rust"), &rules).unwrap();
    assert_eq!(rows.len(), 1);
    assert_eq!(rows[0].text, bytes("work(7)"));
}

#[test]
fn empty_rule_list_yields_no_rows() {
    let rows = match_ast_rule(&bytes("let x = 1;"), &bytes("typescript"), &Vec::new()).unwrap();
    assert_eq!(rows.len(), 0);
}

#[test]
fn unparseable_pattern_is_invalid() {
    let rules = vec![pattern_rule("broken", "((")];
    let r = match_ast_rule(&bytes("let x = 1;"), &bytes("typescript"), &rules);
    match r {
        Err(ScanError::InvalidPattern(id)) => assert_eq!(id, bytes("broken")),
        _ => panic!("expected InvalidPattern"),
    }
}

#[test]
fn empty_pattern_is_invalid() {
    let rules = vec![pattern_rule("empty", "")];
    let r = match_ast_rule(&bytes("let x = 1;"), &bytes("typescript"), &rules);
    assert!(matches!(r, Err(ScanError::InvalidPattern(_))));
}

#[test]
fn conflicting_arities_are_a_duplicate_meta_variable() {
    let rules = vec![pattern_rule("dup", "f($A, $$$A)")];
    let r = match_ast_rule(&bytes("f(1, 2);"), &bytes("javascript"), &rules);
    match r {
        Err(ScanError::DuplicateMetaVariable(id, name)) => {
            assert_eq!(id, bytes("dup"));
            assert_eq!(name, bytes("A"));
        },
        _ => panic!("expected DuplicateMetaVariable"),
    }
}

#[test]
fn rule_without_matcher_is_malformed() {
    let rules = vec![RuleDef { id: bytes("hollow"), pattern: None, kind: None }];
    let r = match_ast_rule(&bytes("f(1);"), &bytes("javascript"), &rules);
    match r {
        Err(ScanError::MalformedRuleInput(id)) => assert_eq!(id, bytes("hollow")),
        _ => panic!("expected MalformedRuleInput"),
    }
}

#[test]
fn first_bad_rule_in_order_wins() {
    let rules = vec![
        pattern_rule("ok", "f($$$)"),
        pattern_rule("broken", "(("),
        RuleDef { id: bytes("hollow"), pattern: None, kind: None },
    ];
    let r = match_ast_rule(&bytes("f(1);"), &bytes("javascript"), &rules);
    match r {
        Err(ScanError::InvalidPattern(id)) => assert_eq!(id, bytes("broken")),
        _ => panic!("expected InvalidPattern for the earlier bad rule"),
    }
}

#[test]
fn rows_come_in_rule_then_match_order() {
    let source = "a(1);\nb(2);\n";
    let rules = vec![pattern_rule("bee", "b($$$)"), pattern_rule("ay", "a($$$)")];
    let rows = match_ast_rule(&bytes(source), &bytes("javascript"), &rules).unwrap();
    assert_eq!(rows.len(), 2);
    // The first rule's matches come first even though its match sits
    // later in the source.
    assert_eq!(rows[0].text, bytes("b(2)"));
    assert_eq!(rows[1].text, bytes("a(1)"));
}

#[test]
fn slot_only_pattern_skips_error_nodes() {
    // `$A` alone is a slot-rooted pattern that would match any node;
    // error-kind nodes are still excluded unless targeted explicitly.
    let source = "f(1); ((";
    let wildcard = vec![pattern_rule("any", "$A")];
    let rows = match_ast_rule(&bytes(source), &bytes("javascript"), &wildcard).unwrap();
    assert!(rows.len() > 0);
    assert!(rows.iter().all(|r| r.text != bytes("((")));
}

#[test]
fn kind_rule_targets_error_nodes_explicitly() {
    let source = "f(1); ((";
    let rules = vec![kind_rule("errs", "ERROR")];
    let rows = match_ast_rule(&bytes(source), &bytes("javascript"), &rules).unwrap();
    assert_eq!(rows.len(), 1);
    assert_eq!(rows[0].text, bytes("(("));
}

#[test]
fn combined_scan_equals_independent_per_rule_scans() {
    // No pattern here holds a variadic slot; running all rules in one
    // combined scan must equal scanning once per rule and concatenating
    // the per-rule results in rule order.
    let source = "let a = f(1);\nlet b = g(f(2));\nh();\n";
    let rules = vec![
        pattern_rule("f-one", "f($A)"),
        kind_rule("calls", "call_expression"),
        pattern_rule("h", "h()"),
    ];
    let combined = match_ast_rule(&bytes(source), &bytes("javascript"), &rules).unwrap();
    let mut separate = Vec::new();
    for r in &rules {
        let one = vec![RuleDef {
            id: r.id.clone(),
            pattern: r.pattern.clone(),
            kind: r.kind.clone(),
        }];
        separate.extend(match_ast_rule(&bytes(source), &bytes("javascript"), &one).unwrap());
    }
    assert_eq!(combined.len(), separate.len());
    for (x, y) in combined.iter().zip(separate.iter()) {
        assert_eq!(x.text, y.text);
        assert_eq!(x.start_line, y.start_line);
        assert_eq!(x.start_col, y.start_col);
        assert_eq!(x.end_line, y.end_line);
        assert_eq!(x.end_col, y.end_col);
    }
}

#[test]
fn non_utf8_source_scans_to_nothing() {
    let mut source = bytes("f(1);");
    source.push(0xFF);
    let rules = vec![kind_rule("calls", "call_expression")];
    // Undecodable bytes are decoded lossily before parsing; byte ranges
    // no longer line up, so the scan reports nothing rather than lying.
    let r = match_ast_rule(&source, &bytes("javascript"), &rules);
    assert!(r.is_ok());
}
