use message_bus::analysis::{analyze, SemanticError, SemanticErrorKind};
use message_bus::ast::Ast;
use message_bus::lex::tokenize;
use message_bus::parser::parse;

fn tree(src: &str) -> Ast {
    let bytes = src.as_bytes().to_vec();
    let toks = tokenize(&bytes).expect("tokenization should succeed");
    parse(&toks).expect("parsing should succeed")
}

fn errors_of(src: &str) -> Vec<SemanticError> {
    match analyze(&tree(src)) {
        Ok(_) => panic!("analysis should fail"),
        Err(errs) => errs,
    }
}

#[test]
fn valid_single_rooted_tree_is_accepted() {
    let ast = tree("bus::Top => { A => u8, B => u16, s::Inner => { A => u8 } }");
    assert!(analyze(&ast).is_ok());
}

#[test]
fn duplicate_topic_in_one_node_is_reported_by_name() {
    let errs = errors_of("bus::Top => { Dup => u8, Dup => u16 }");
    assert!(errs
        .iter()
        .any(|e| e.kind == SemanticErrorKind::DuplicateTopic && e.name == b"Dup".to_vec()));
}

#[test]
fn duplicate_sub_topic_in_one_node_is_reported_by_name() {
    let errs = errors_of("bus::Top => { a::Twice => { X => u8 }, b::Twice => { Y => u8 } }");
    assert!(errs
        .iter()
        .any(|e| e.kind == SemanticErrorKind::DuplicateSubTopic && e.name == b"Twice".to_vec()));
}

#[test]
fn duplicate_sub_topic_names_under_different_parents_are_accepted() {
    let ast = tree(
        "bus::Top => {
            a::Left => { s::Shared => { X => u8 } },
            b::Right => { s::Shared => { Y => u8 } },
        }",
    );
    assert!(analyze(&ast).is_ok());
}

#[test]
fn duplicate_topic_names_under_different_parents_are_accepted() {
    let ast = tree("bus::Top => { X => u8, s::Inner => { X => u8 } }");
    assert!(analyze(&ast).is_ok());
}

#[test]
fn bare_topic_at_top_level_is_reported() {
    let errs = errors_of("Loose => u8, bus::Top => { A => u8 }");
    assert!(errs
        .iter()
        .any(|e| e.kind == SemanticErrorKind::TopicAtTopLevel && e.name == b"Loose".to_vec()));
}

#[test]
fn multiple_top_level_sub_topics_are_each_reported() {
    let errs = errors_of("a::One => { X => u8 }, b::Two => { Y => u8 }");
    let roots: Vec<&SemanticError> = errs
        .iter()
        .filter(|e| e.kind == SemanticErrorKind::MultipleRoots)
        .collect();
    assert_eq!(roots.len(), 2);
    assert_eq!(roots[0].name, b"One".to_vec());
    assert_eq!(roots[1].name, b"Two".to_vec());
}

#[test]
fn all_violations_are_collected_in_one_pass() {
    let errs = errors_of(
        "Loose => u8,
         bus::Top => {
             Dup => u8,
             Dup => u16,
             a::Twice => { X => u8, X => u16 },
             b::Twice => { Y => u8 },
         }",
    );
    assert!(errs
        .iter()
        .any(|e| e.kind == SemanticErrorKind::TopicAtTopLevel && e.name == b"Loose".to_vec()));
    assert!(errs
        .iter()
        .any(|e| e.kind == SemanticErrorKind::DuplicateTopic && e.name == b"Dup".to_vec()));
    assert!(errs
        .iter()
        .any(|e| e.kind == SemanticErrorKind::DuplicateTopic && e.name == b"X".to_vec()));
    assert!(errs
        .iter()
        .any(|e| e.kind == SemanticErrorKind::DuplicateSubTopic && e.name == b"Twice".to_vec()));
    assert_eq!(errs.len(), 4);
}

#[test]
fn nested_violations_are_found_bottom_up() {
    let errs = errors_of(
        "bus::Top => {
             a::Mid => { deep::Leaf => { D => u8, D => u16 } },
         }",
    );
    assert_eq!(errs.len(), 1);
    assert_eq!(errs[0].kind, SemanticErrorKind::DuplicateTopic);
    assert_eq!(errs[0].name, b"D".to_vec());
}

#[test]
fn empty_specification_is_missing_its_root() {
    let errs = errors_of("");
    assert_eq!(errs.len(), 1);
    assert_eq!(errs[0].kind, SemanticErrorKind::MissingRoot);
    assert!(errs[0].name.is_empty());
}

#[test]
fn bare_topics_without_a_root_report_both_violations() {
    let errs = errors_of("A => u8, B => u16");
    assert_eq!(errs.len(), 3);
    assert_eq!(errs[0].kind, SemanticErrorKind::TopicAtTopLevel);
    assert_eq!(errs[0].name, b"A".to_vec());
    assert_eq!(errs[1].kind, SemanticErrorKind::TopicAtTopLevel);
    assert_eq!(errs[1].name, b"B".to_vec());
    assert_eq!(errs[2].kind, SemanticErrorKind::MissingRoot);
}
