use ast_scan::lang::{language_of, Language};
use ast_scan::matcher::Capture;
use ast_scan::pattern::{compile_pattern, Meta};
use ast_scan::position::to_position;
use ast_scan::scanner::{scan, CompiledRule};
use ast_scan::tree::parse_source;

fn bytes(s: &str) -> Vec<u8> {
    s.as_bytes().to_vec()
}

fn compile(pattern: &str, lang: &str) -> ast_scan::pattern::Pattern {
    let l = language_of(&bytes(lang)).expect("known language");
    let exp = ast_scan::lang::expando_bytes(&l);
    let cname = ast_scan::lang::canonical_name(&l);
    let ptext = ast_scan::pattern::preprocess(&bytes(pattern), &exp);
    let frag = parse_source(&ptext, &cname);
    compile_pattern(&frag, &ptext, &exp)
        .unwrap_or_else(|_| panic!("pattern {pattern} must compile"))
}

fn node_text(src: &[u8], nodes: &[ast_scan::tree::TreeNode], i: usize) -> Vec<u8> {
    src[nodes[i].start..nodes[i].end].to_vec()
}

#[test]
fn match_text_equals_source_slice_round_trip() {
    let src = bytes("function test() { console.log(\"hello\"); }");
    let ts = parse_source(&src, &bytes("typescript"));
    let rules = vec![CompiledRule {
        id: bytes("log"),
        pattern: Some(compile("console.log($$$)", "typescript")),
        kind: None,
    }];
    let outcome = scan(&ts, &src, &rules);
    assert_eq!(outcome.per_rule.len(), 1);
    assert_eq!(outcome.per_rule[0].len(), 1);
    for m in &outcome.per_rule[0] {
        assert_eq!(m.text, src[m.start..m.end].to_vec());
    }
}

#[test]
fn variadic_at_end_captures_all_remaining_siblings() {
    let src = bytes("g(1, 2, 3);");
    let ts = parse_source(&src, &bytes("javascript"));
    let rules = vec![CompiledRule {
        id: bytes("g"),
        pattern: Some(compile("g($A, $$$)", "javascript")),
        kind: None,
    }];
    let outcome = scan(&ts, &src, &rules);
    assert_eq!(outcome.per_rule[0].len(), 1);
    let m = &outcome.per_rule[0][0];
    // `$A` binds the first argument; the trailing variadic slot takes
    // the leftmost satisfying split, which consumes every remaining
    // sibling of the argument list (`2`, the comma, `3`).
    let a = m
        .bindings
        .iter()
        .find(|b| b.name == bytes("A"))
        .expect("binding for $A");
    match &a.capture {
        Capture::One(node) => assert_eq!(node_text(&src, &ts, *node), bytes("1")),
        _ => panic!("single slot must capture one node"),
    }
    let rest = m.bindings.iter().find(|b| b.name == bytes("")).expect("binding for $$$");
    match &rest.capture {
        Capture::Many(nodes) => {
            assert_eq!(nodes.len(), 3);
            assert_eq!(node_text(&src, &ts, nodes[0]), bytes("2"));
            assert_eq!(node_text(&src, &ts, nodes[2]), bytes("3"));
        },
        _ => panic!("variadic slot must capture a run"),
    }
}

#[test]
fn variadic_capture_may_be_empty() {
    let src = bytes("g();");
    let ts = parse_source(&src, &bytes("javascript"));
    let rules = vec![CompiledRule {
        id: bytes("g"),
        pattern: Some(compile("g($$$)", "javascript")),
        kind: None,
    }];
    let outcome = scan(&ts, &src, &rules);
    assert_eq!(outcome.per_rule[0].len(), 1);
    let m = &outcome.per_rule[0][0];
    let rest = m.bindings.iter().find(|b| b.name == bytes("")).expect("binding for $$$");
    match &rest.capture {
        Capture::Many(nodes) => assert_eq!(nodes.len(), 0),
        _ => panic!("variadic slot must capture a run"),
    }
}

#[test]
fn compiled_pattern_root_is_a_call_with_a_variadic_slot() {
    let p = compile("console.log($$$)", "typescript");
    let root = &p.nodes[p.root];
    assert_eq!(root.kind, bytes("call_expression"));
    let has_variadic = p.nodes.iter().any(|n| matches!(n.meta, Meta::Variadic(_)));
    assert!(has_variadic);
}

#[test]
fn single_meta_token_compiles_to_a_named_slot() {
    let p = compile("f($FIRST)", "javascript");
    let slot = p
        .nodes
        .iter()
        .find_map(|n| match &n.meta {
            Meta::Single(name) => Some(name.clone()),
            _ => None,
        })
        .expect("a single-capture slot");
    assert_eq!(slot, bytes("FIRST"));
}

#[test]
fn dollar_token_with_lowercase_tail_is_literal() {
    // `$foo` is not a meta-variable: the name must be upper case.
    let p = compile("f($foo)", "javascript");
    let has_meta = p.nodes.iter().any(|n| !matches!(n.meta, Meta::Plain));
    assert!(!has_meta);
}

#[test]
fn python_pattern_compiles_through_placeholder_rewrite() {
    // Python's grammar refuses `$` inside identifiers; the pattern text
    // is rewritten to the language's placeholder character first, and
    // the slot is still recognized.
    let p = compile("print($$$)", "python");
    let root = &p.nodes[p.root];
    assert_eq!(root.kind, bytes("call"));
    assert!(p.nodes.iter().any(|n| matches!(n.meta, Meta::Variadic(_))));
}

#[test]
fn registry_resolves_aliases_case_insensitively() {
    assert_eq!(language_of(&bytes("TS")), Some(Language::TypeScript));
    assert_eq!(language_of(&bytes("typescript")), Some(Language::TypeScript));
    assert_eq!(language_of(&bytes("Python")), Some(Language::Python));
    assert_eq!(language_of(&bytes("py")), Some(Language::Python));
    assert_eq!(language_of(&bytes("c++")), Some(Language::Cpp));
    assert_eq!(language_of(&bytes("Golang")), Some(Language::Go));
    assert_eq!(language_of(&bytes("yml")), Some(Language::Yaml));
    assert_eq!(language_of(&bytes("klingon")), None);
    assert_eq!(language_of(&bytes("")), None);
}

#[test]
fn positions_count_lines_and_character_columns() {
    let src = bytes("ab\ncd\ne");
    assert_eq!(to_position(&src, 0), (0, 0));
    assert_eq!(to_position(&src, 2), (0, 2));
    assert_eq!(to_position(&src, 3), (1, 0));
    assert_eq!(to_position(&src, 5), (1, 2));
    assert_eq!(to_position(&src, 6), (2, 0));
    assert_eq!(to_position(&src, 7), (2, 1));
    // A two-byte character counts as one column.
    let multi = "x\u{e9}y".as_bytes().to_vec();
    assert_eq!(to_position(&multi, 3), (0, 2));
    assert_eq!(to_position(&multi, 4), (0, 3));
}

#[test]
fn error_kind_nodes_do_not_match_ordinary_patterns() {
    // The source parses with an error node; the pattern still only
    // matches the well-formed call.
    let src = bytes("f(1); ((");
    let ts = parse_source(&src, &bytes("javascript"));
    let rules = vec![CompiledRule {
        id: bytes("f"),
        pattern: Some(compile("f($$$)", "javascript")),
        kind: None,
    }];
    let outcome = scan(&ts, &src, &rules);
    assert_eq!(outcome.per_rule[0].len(), 1);
    assert_eq!(outcome.per_rule[0][0].text, bytes("f(1)"));
}
