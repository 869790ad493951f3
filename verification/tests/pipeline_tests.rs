use message_bus::analysis::SemanticErrorKind;
use message_bus::make_message_bus;
use message_bus::parser::ParseErrorKind;
use message_bus::CompileError;

fn run(src: &str) -> Result<message_bus::codegen::Output, CompileError> {
    make_message_bus(&src.as_bytes().to_vec())
}

#[test]
fn valid_specification_compiles_to_one_root_module() {
    let out = run(
        "bus::Toplevel => {
            Topic1 [10] => u8,
            t1::SubTopic4 => {
                Topic5 [20] => u8,
            },
        },",
    )
    .unwrap();
    assert_eq!(out.modules.len(), 1);
    assert_eq!(out.modules[0].name, b"Toplevel".to_vec());
    assert_eq!(out.modules[0].capacity, 30);
    assert_eq!(out.modules[0].sub_modules[0].capacity, 20);
}

#[test]
fn lex_failures_surface_as_lex_errors() {
    match run("bus::Top => { A ~ u8 }") {
        Err(CompileError::Lex(_)) => {}
        other => panic!("expected a lex error, got {:?}", other.map(|_| ())),
    }
}

#[test]
fn syntax_failures_block_generation() {
    match run("a::b::C => { A => u8 }") {
        Err(CompileError::Parse(e)) => assert_eq!(e.kind, ParseErrorKind::UnsupportedPath),
        other => panic!("expected a parse error, got {:?}", other.map(|_| ())),
    }
}

#[test]
fn semantic_failures_block_generation() {
    match run("bus::Top => { Dup => u8, Dup => u16 }") {
        Err(CompileError::Analysis(errs)) => {
            assert!(errs
                .iter()
                .any(|e| e.kind == SemanticErrorKind::DuplicateTopic && e.name == b"Dup".to_vec()));
        }
        other => panic!("expected analysis errors, got {:?}", other.map(|_| ())),
    }
}

#[test]
fn empty_specification_is_rejected_for_missing_root() {
    match run("") {
        Err(CompileError::Analysis(errs)) => {
            assert_eq!(errs.len(), 1);
            assert_eq!(errs[0].kind, SemanticErrorKind::MissingRoot);
        }
        other => panic!("expected analysis errors, got {:?}", other.map(|_| ())),
    }
}

#[test]
fn oversized_aggregate_capacity_is_rejected() {
    let src = "bus::Top => { A [18446744073709551615] => u8, B [2] => u8 }";
    match run(src) {
        Err(CompileError::CapacityOverflow) => {}
        other => panic!("expected capacity overflow, got {:?}", other.map(|_| ())),
    }
}
