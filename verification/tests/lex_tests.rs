use message_bus::lex::{tokenize, LexErrorKind, Token, TokenKind};

fn lex(src: &str) -> Vec<Token> {
    tokenize(&src.as_bytes().to_vec()).expect("tokenization should succeed")
}

#[test]
fn tokenizes_all_punctuation_and_atoms() {
    let toks = lex("abc :: => , { } [ 42 ] < >");
    let kinds: Vec<&TokenKind> = toks.iter().map(|t| &t.kind).collect();
    assert!(matches!(kinds[0], TokenKind::Ident(n) if n == b"abc"));
    assert!(matches!(kinds[1], TokenKind::PathSep));
    assert!(matches!(kinds[2], TokenKind::FatArrow));
    assert!(matches!(kinds[3], TokenKind::Comma));
    assert!(matches!(kinds[4], TokenKind::LBrace));
    assert!(matches!(kinds[5], TokenKind::RBrace));
    assert!(matches!(kinds[6], TokenKind::LBracket));
    assert!(matches!(kinds[7], TokenKind::Int(42)));
    assert!(matches!(kinds[8], TokenKind::RBracket));
    assert!(matches!(kinds[9], TokenKind::Lt));
    assert!(matches!(kinds[10], TokenKind::Gt));
    assert_eq!(toks.len(), 11);
}

#[test]
fn identifiers_may_hold_digits_and_underscores() {
    let toks = lex("sub_topic2");
    assert_eq!(toks.len(), 1);
    assert!(matches!(&toks[0].kind, TokenKind::Ident(n) if n == b"sub_topic2"));
}

#[test]
fn line_comments_and_whitespace_are_skipped() {
    let toks = lex("a // comment with :: => junk\n\t b");
    assert_eq!(toks.len(), 2);
    assert!(matches!(&toks[0].kind, TokenKind::Ident(n) if n == b"a"));
    assert!(matches!(&toks[1].kind, TokenKind::Ident(n) if n == b"b"));
}

#[test]
fn spans_are_byte_offsets() {
    let toks = lex("ab => c");
    assert_eq!((toks[0].span.lo, toks[0].span.hi), (0, 2));
    assert_eq!((toks[1].span.lo, toks[1].span.hi), (3, 5));
    assert_eq!((toks[2].span.lo, toks[2].span.hi), (6, 7));
}

#[test]
fn lone_colon_is_rejected() {
    let e = tokenize(&b"a : b".to_vec()).unwrap_err();
    assert_eq!(e.kind, LexErrorKind::Unexpected);
    assert_eq!(e.pos, 2);
}

#[test]
fn lone_equals_is_rejected() {
    let e = tokenize(&b"a = b".to_vec()).unwrap_err();
    assert_eq!(e.kind, LexErrorKind::Unexpected);
}

#[test]
fn unknown_byte_is_rejected_at_its_offset() {
    let e = tokenize(&b"ab #".to_vec()).unwrap_err();
    assert_eq!(e.kind, LexErrorKind::Unexpected);
    assert_eq!(e.pos, 3);
}

#[test]
fn oversized_integer_literal_is_rejected() {
    let e = tokenize(&b"[99999999999999999999]".to_vec()).unwrap_err();
    assert_eq!(e.kind, LexErrorKind::IntTooLarge);
}

#[test]
fn largest_integer_literal_is_accepted() {
    let toks = lex("18446744073709551615");
    assert!(matches!(toks[0].kind, TokenKind::Int(u64::MAX)));
}
