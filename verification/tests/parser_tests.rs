use message_bus::ast::{Ast, TypePath};
use message_bus::lex::tokenize;
use message_bus::parser::{parse, ParseError, ParseErrorKind};

fn parse_text(src: &str) -> Result<Ast, ParseError> {
    let bytes = src.as_bytes().to_vec();
    let toks = tokenize(&bytes).expect("tokenization should succeed");
    parse(&toks)
}

fn parse_err(src: &str) -> ParseError {
    parse_text(src).expect_err("parsing should fail")
}

fn render_type(p: &TypePath) -> String {
    let mut out = String::new();
    for (i, seg) in p.segments.iter().enumerate() {
        if i > 0 {
            out.push_str("::");
        }
        out.push_str(&String::from_utf8(seg.clone()).unwrap());
    }
    if !p.args.is_empty() {
        out.push('<');
        for (i, arg) in p.args.iter().enumerate() {
            if i > 0 {
                out.push(',');
            }
            out.push_str(&render_type(arg));
        }
        out.push('>');
    }
    out
}

fn check_if_topic_exists(node: &Ast, name: &str, payload: &str) -> bool {
    for topic in &node.topics {
        if topic.name == name.as_bytes().to_vec() && render_type(&topic.payload) == payload {
            return true;
        }
    }

    for sub_topic in &node.sub_topics {
        if check_if_topic_exists(&sub_topic.ast, name, payload) {
            return true;
        }
    }

    false
}

#[test]
fn prase() {
    let ast = parse_text(
        "
        sub_topic::SubTopic => {
            Foo => i16,
            Bar => u8,
            Bar2 => i8,
            sub_topic2::SubTopic2 => {
                Baz => i32,
                Shaz => inner::payload::longer::Value,
                Fnaz => i128,
            },
        },
        SystemHealth => String, // Primitive payload
        SomeData => some::Data, // Path to payload
        SomeData2 => some::Data2<u32>, // Path to payload
        ",
    )
    .unwrap();

    assert_eq!(ast.topics.len(), 3);
    assert_eq!(ast.sub_topics.len(), 1);
    assert_eq!(ast.sub_topics[0].ast.topics.len(), 3);
    assert_eq!(ast.sub_topics[0].ast.sub_topics.len(), 1);
    assert_eq!(ast.sub_topics[0].ast.sub_topics[0].ast.topics.len(), 3);
    assert_eq!(ast.sub_topics[0].ast.sub_topics[0].ast.sub_topics.len(), 0);

    assert!(!check_if_topic_exists(&ast, "Asdfasdf", "i16"));

    assert!(check_if_topic_exists(&ast, "Foo", "i16"));
    assert!(check_if_topic_exists(&ast, "Bar", "u8"));
    assert!(check_if_topic_exists(&ast, "Bar2", "i8"));
    assert!(check_if_topic_exists(&ast, "Baz", "i32"));
    assert!(check_if_topic_exists(
        &ast,
        "Shaz",
        "inner::payload::longer::Value"
    ));
    assert!(check_if_topic_exists(&ast, "Fnaz", "i128"));
    assert!(check_if_topic_exists(&ast, "SystemHealth", "String"));
    assert!(check_if_topic_exists(&ast, "SomeData", "some::Data"));
    assert!(check_if_topic_exists(&ast, "SomeData2", "some::Data2<u32>"));
}

#[test]
fn ast_prase() {
    let ast = parse_text(
        "
        sub_topic::SubTopic => {
            Foo => i16,
            Bar => u8,
            Bar2 => i8,
            sub_topic2::SubTopic2 => {
                Baz => i32,
                Shaz => inner::payload::longer::Value,
                Fnaz => i128,
            },
        },
        SystemHealth => String, // Primitive payload
        SomeData => some::Data, // Path to payload
        ",
    )
    .unwrap();

    assert_eq!(ast.topics.len(), 2);
    assert_eq!(ast.sub_topics.len(), 1);
    assert_eq!(ast.sub_topics[0].ast.topics.len(), 3);
    assert_eq!(ast.sub_topics[0].ast.sub_topics.len(), 1);
    assert_eq!(ast.sub_topics[0].ast.sub_topics[0].ast.topics.len(), 3);
    assert_eq!(ast.sub_topics[0].ast.sub_topics[0].ast.sub_topics.len(), 0);

    assert!(!check_if_topic_exists(&ast, "Asdfasdf", "i16"));

    assert!(check_if_topic_exists(&ast, "Foo", "i16"));
    assert!(check_if_topic_exists(&ast, "Bar", "u8"));
    assert!(check_if_topic_exists(&ast, "Bar2", "i8"));
    assert!(check_if_topic_exists(&ast, "Baz", "i32"));
    assert!(check_if_topic_exists(
        &ast,
        "Shaz",
        "inner::payload::longer::Value"
    ));
    assert!(check_if_topic_exists(&ast, "Fnaz", "i128"));
    assert!(check_if_topic_exists(&ast, "SystemHealth", "String"));
    assert!(check_if_topic_exists(&ast, "SomeData", "some::Data"));
}

#[test]
fn capacity_is_parsed_and_defaults_to_one() {
    let ast = parse_text("bus::Top => { A [10] => u8, B => u8 }").unwrap();
    let node = &ast.sub_topics[0].ast;
    assert_eq!(node.topics[0].capacity, 10);
    assert_eq!(node.topics[1].capacity, 1);
}

#[test]
fn zero_capacity_is_rejected() {
    let e = parse_err("bus::Top => { A [0] => u8 }");
    assert_eq!(e.kind, ParseErrorKind::ZeroCapacity);
}

#[test]
fn leading_path_separator_is_rejected() {
    let e = parse_err("::bus::Top => { A => u8 }");
    assert_eq!(e.kind, ParseErrorKind::LeadingPathSep);
    assert_eq!(e.span.lo, 0);
}

#[test]
fn generic_entry_path_is_rejected() {
    let e = parse_err("bus::Top<u8> => { A => u8 }");
    assert_eq!(e.kind, ParseErrorKind::GenericInPath);
}

#[test]
fn three_segment_path_is_rejected() {
    let e = parse_err("a::b::C => { A => u8 }");
    assert_eq!(e.kind, ParseErrorKind::UnsupportedPath);
}

#[test]
fn two_segment_path_with_bare_type_is_rejected() {
    let e = parse_err("a::B => u8");
    assert_eq!(e.kind, ParseErrorKind::UnsupportedPath);
    assert_eq!((e.span.lo, e.span.hi), (0, 4));
}

#[test]
fn single_identifier_with_braced_block_is_rejected() {
    let e = parse_err("Topic => { A => u8 }");
    assert_eq!(e.kind, ParseErrorKind::UnsupportedPath);
    assert_eq!((e.span.lo, e.span.hi), (0, 5));
}

#[test]
fn missing_fat_arrow_is_rejected() {
    let e = parse_err("bus::Top { A => u8 }");
    assert_eq!(e.kind, ParseErrorKind::ExpectedFatArrow);
}

#[test]
fn missing_comma_between_entries_is_rejected() {
    let e = parse_err("A => u8 B => u8");
    assert_eq!(e.kind, ParseErrorKind::ExpectedComma);
}

#[test]
fn trailing_comma_is_optional() {
    assert!(parse_text("A => u8, B => u16").is_ok());
    assert!(parse_text("A => u8, B => u16,").is_ok());
}

#[test]
fn capacity_on_sub_topic_is_accepted() {
    let ast = parse_text("bus::Top [7] => { A => u8 }").unwrap();
    assert_eq!(ast.sub_topics.len(), 1);
}

#[test]
fn empty_input_parses_to_empty_node() {
    let ast = parse_text("").unwrap();
    assert_eq!(ast.topics.len(), 0);
    assert_eq!(ast.sub_topics.len(), 0);
}

#[test]
fn stray_closing_brace_is_rejected() {
    let e = parse_err("A => u8, }");
    assert_eq!(e.kind, ParseErrorKind::UnexpectedToken);
}

#[test]
fn topic_spans_point_at_names() {
    let ast = parse_text("Abc => u8").unwrap();
    assert_eq!(ast.topics[0].span.lo, 0);
    assert_eq!(ast.topics[0].span.hi, 3);
}
