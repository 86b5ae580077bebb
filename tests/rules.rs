use scrings::python::{IsPythonFunction, IsPythonSubscript, PythonRules};
use scrings::tree::{
    apply, child, end_rel, field_child, get_parent_of_types, link_parents, node_text, parse_nodes,
    start_rel, Grammar, SyntaxNode,
};
use scrings::visitor::{union, LanguageVisitor};

fn node(kind: &str, start: usize, end: usize, children: &[&str]) -> SyntaxNode {
    SyntaxNode {
        kind: kind.to_string(),
        start,
        end,
        child_count: children.len(),
        child_kinds: children.iter().map(|k| k.to_string()).collect(),
        child_fields: children.iter().map(|_| None).collect(),
        callee: None,
        parent: None,
    }
}

fn kinds() -> Vec<String> {
    vec![String::from("if_statement")]
}

#[test]
fn span_union_of_two_rules() {
    assert_eq!(union(Some((5, 10)), Some((20, 25))), Some((5, 25)));
    assert_eq!(union(Some((20, 25)), Some((5, 10))), Some((5, 25)));
    assert_eq!(union(None, Some((20, 25))), Some((20, 25)));
    assert_eq!(union(Some((5, 10)), None), Some((5, 10)));
    assert_eq!(union(None, None), None);
}

#[test]
fn clean_construct_matched() {
    // program(if_statement(if, condition, block))
    let nodes = vec![
        node("program", 0, 20, &["if_statement"]),
        node("if_statement", 2, 18, &["if", "condition", "block"]),
        node("if", 2, 4, &[]),
        node("condition", 5, 8, &[]),
        node("block", 9, 18, &[]),
    ];
    let mut rule = LanguageVisitor::new(kinds());
    apply(&nodes, &mut rule);
    assert!(rule.is_matched);
    // the program node has one clean scope below it, so it widens the span too
    assert_eq!(rule.span, Some((0, 20)));
}

#[test]
fn corruption_vetoes_construct() {
    let nodes = vec![
        node("program", 0, 20, &["if_statement"]),
        node("if_statement", 2, 18, &["if", "ERROR", "block"]),
        node("if", 2, 4, &[]),
        node("ERROR", 5, 8, &[]),
        node("block", 9, 18, &[]),
    ];
    let mut rule = LanguageVisitor::new(kinds());
    apply(&nodes, &mut rule);
    assert!(!rule.is_matched);
    assert_eq!(rule.span, None);
}

#[test]
fn missing_token_vetoes_construct() {
    let nodes = vec![
        node("if_statement", 0, 10, &["if", "condition", "block"]),
        node("if", 0, 2, &[]),
        node("condition", 3, 3, &[]),
        node("block", 4, 10, &[]),
    ];
    let mut rule = LanguageVisitor::new(kinds());
    apply(&nodes, &mut rule);
    assert!(!rule.is_matched);
}

#[test]
fn inner_error_vetoes_outer_construct() {
    // outer if_statement holds a clean leaf, then an inner if_statement with an error
    let nodes = vec![
        node("if_statement", 0, 30, &["if", "block"]),
        node("if", 0, 2, &[]),
        node("block", 3, 30, &["if_statement", "x"]),
        node("if_statement", 4, 20, &["if", "ERROR"]),
        node("if", 4, 6, &[]),
        node("ERROR", 7, 20, &[]),
        node("x", 21, 30, &[]),
    ];
    let mut rule = LanguageVisitor::new(kinds());
    apply(&nodes, &mut rule);
    assert!(!rule.is_matched);
}

#[test]
fn error_after_match_keeps_earlier_span() {
    // a clean if_statement, then a sibling error: the match stands, the span
    // does not grow past the error
    let nodes = vec![
        node("program", 0, 40, &["if_statement", "ERROR"]),
        node("if_statement", 0, 10, &["if", "block"]),
        node("if", 0, 2, &[]),
        node("block", 3, 10, &[]),
        node("ERROR", 11, 40, &[]),
    ];
    let mut rule = LanguageVisitor::new(kinds());
    apply(&nodes, &mut rule);
    assert!(rule.is_matched);
    assert_eq!(rule.span, Some((0, 10)));
}

#[test]
fn subscript_and_call_rules() {
    let mut call = node("call", 20, 35, &["attribute", "argument_list"]);
    call.callee = Some(String::from("os.system"));
    let nodes = vec![
        node("module", 0, 40, &["subscript", "call"]),
        node("subscript", 0, 10, &["identifier", "[", "slice", "]"]),
        node("identifier", 0, 1, &[]),
        node("[", 1, 2, &[]),
        node("slice", 2, 9, &[]),
        node("]", 9, 10, &[]),
        call,
        node("attribute", 20, 29, &[]),
        node("argument_list", 29, 35, &[]),
    ];
    assert!(IsPythonSubscript::verify(&nodes[1]));
    assert!(!IsPythonSubscript::verify(&nodes[0]));
    let mut rules = PythonRules::new();
    apply(&nodes, &mut rules);
    assert_eq!(rules.verdict(), (true, Some((0, 40))));
}

#[test]
fn harmless_call_not_matched() {
    let mut call = node("call", 0, 10, &["identifier", "argument_list"]);
    call.callee = Some(String::from("print"));
    let nodes = vec![call, node("identifier", 0, 5, &[]), node("argument_list", 5, 10, &[])];
    let mut rule = IsPythonFunction::new();
    apply(&nodes, &mut rule);
    let mut rules = PythonRules::new();
    apply(&nodes, &mut rules);
    assert_eq!(rules.verdict(), (false, None));
}

#[test]
fn parents_linked_from_child_counts() {
    let mut nodes = vec![
        node("a", 0, 9, &["b", "d"]),
        node("b", 0, 4, &["c"]),
        node("c", 0, 4, &[]),
        node("d", 5, 9, &[]),
    ];
    link_parents(&mut nodes);
    let parents: Vec<Option<usize>> = nodes.iter().map(|n| n.parent).collect();
    assert_eq!(parents, vec![None, Some(0), Some(1), Some(0)]);
    let wanted = vec![String::from("a")];
    assert_eq!(get_parent_of_types(&nodes, 2, &wanted), Some(0));
    assert_eq!(get_parent_of_types(&nodes, 0, &wanted), None);
    let nearest = vec![String::from("a"), String::from("b")];
    assert_eq!(get_parent_of_types(&nodes, 2, &nearest), Some(1));
    assert_eq!(get_parent_of_types(&nodes, 3, &vec![String::from("b")]), None);
}

#[test]
fn ancestor_search_on_parsed_python() {
    let nodes = parse_nodes(Grammar::Python, "if a:\n    b = 1\n").unwrap();
    assert_eq!(nodes[0].kind, "module");
    assert_eq!(nodes[0].parent, None);
    let i = nodes.iter().position(|n| n.kind == "integer").unwrap();
    let wanted = vec![String::from("if_statement"), String::from("module")];
    let found = get_parent_of_types(&nodes, i, &wanted).unwrap();
    assert_eq!(nodes[found].kind, "if_statement");
    assert_eq!(get_parent_of_types(&nodes, 0, &wanted), None);
}

#[test]
fn corrupt_slicing_vetoed() {
    let nodes = vec![
        node("module", 0, 10, &["subscript"]),
        node("subscript", 0, 10, &["identifier", "[", "slice", "]"]),
        node("identifier", 0, 1, &[]),
        node("[", 1, 2, &[]),
        node("slice", 2, 9, &["ERROR"]),
        node("ERROR", 2, 9, &[]),
        node("]", 9, 10, &[]),
    ];
    let mut rules = PythonRules::new();
    apply(&nodes, &mut rules);
    assert_eq!(rules.verdict(), (false, None));
}

#[test]
fn children_and_relative_ranges() {
    let mut nodes = vec![
        node("a", 2, 9, &["b", "d"]),
        node("b", 2, 4, &["c"]),
        node("c", 3, 4, &[]),
        node("d", 5, 9, &[]),
    ];
    link_parents(&mut nodes);
    assert_eq!(child(&nodes, 0, 0), Some(1));
    assert_eq!(child(&nodes, 0, 1), Some(3));
    assert_eq!(child(&nodes, 0, 2), None);
    assert_eq!(child(&nodes, 1, 0), Some(2));
    assert_eq!(child(&nodes, 2, 0), None);
    assert_eq!(start_rel(&nodes, 3), Some(3));
    assert_eq!(end_rel(&nodes, 3), Some(7));
    assert_eq!(start_rel(&nodes, 2), Some(1));
    assert_eq!(start_rel(&nodes, 0), None);
}

#[test]
fn field_children_of_parsed_call() {
    let src = "os.system('ls')";
    let nodes = parse_nodes(Grammar::Python, src).unwrap();
    let call = nodes.iter().position(|n| n.kind == "call").unwrap();
    let f = field_child(&nodes, call, &String::from("function")).unwrap();
    assert_eq!(node_text(src, &nodes[f]), Some(String::from("os.system")));
    let a = field_child(&nodes, call, &String::from("arguments")).unwrap();
    assert_eq!(node_text(src, &nodes[a]), Some(String::from("('ls')")));
    assert_eq!(field_child(&nodes, call, &String::from("body")), None);
    assert_eq!(nodes[call].callee, Some(String::from("os.system")));
}
