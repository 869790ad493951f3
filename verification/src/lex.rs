//! Tokenizer for the topic-tree specification text.
//!
//! The parser consumes a stream of [`Token`]s; this module produces it
//! from raw bytes.  The recognized tokens are identifiers, decimal
//! integer literals, and the punctuation of the grammar (`::`, `=>`,
//! `,`, braces, brackets and angle brackets).  Whitespace and `//` line
//! comments are skipped.
//!
//! The meaning of the tokenizer is given by the spec functions
//! (`sp_lex_from` and its helpers); each exec function returns exactly
//! what its spec counterpart describes.

use vstd::prelude::*;
use crate::ast::Span;

verus! {

/// What kind of token was read.
#[derive(Debug)]
pub enum TokenKind {
    /// An identifier: `[A-Za-z_][A-Za-z0-9_]*`.
    Ident(Vec<u8>),
    /// A decimal integer literal.
    Int(u64),
    /// `,`
    Comma,
    /// `::`
    PathSep,
    /// `=>`
    FatArrow,
    /// `{`
    LBrace,
    /// `}`
    RBrace,
    /// `[`
    LBracket,
    /// `]`
    RBracket,
    /// `<`
    Lt,
    /// `>`
    Gt,
}

/// One token of the specification text, with its source span.
#[derive(Debug)]
pub struct Token {
    /// The token's kind and contents.
    pub kind: TokenKind,
    /// The bytes of the source the token was read from.
    pub span: Span,
}

/// Ghost counterpart of [`TokenKind`].
pub enum TokenKindView {
    /// An identifier.
    Ident(Seq<u8>),
    /// A decimal integer literal.
    Int(u64),
    /// `,`
    Comma,
    /// `::`
    PathSep,
    /// `=>`
    FatArrow,
    /// `{`
    LBrace,
    /// `}`
    RBrace,
    /// `[`
    LBracket,
    /// `]`
    RBracket,
    /// `<`
    Lt,
    /// `>`
    Gt,
}

/// Ghost counterpart of [`Token`].
pub struct TokenView {
    /// The token's kind and contents.
    pub kind: TokenKindView,
    /// The bytes of the source the token was read from.
    pub span: Span,
}

impl View for TokenKind {
    type V = TokenKindView;

    open spec fn view(&self) -> TokenKindView {
        match self {
            TokenKind::Ident(s) => TokenKindView::Ident(s@),
            TokenKind::Int(v) => TokenKindView::Int(*v),
            TokenKind::Comma => TokenKindView::Comma,
            TokenKind::PathSep => TokenKindView::PathSep,
            TokenKind::FatArrow => TokenKindView::FatArrow,
            TokenKind::LBrace => TokenKindView::LBrace,
            TokenKind::RBrace => TokenKindView::RBrace,
            TokenKind::LBracket => TokenKindView::LBracket,
            TokenKind::RBracket => TokenKindView::RBracket,
            TokenKind::Lt => TokenKindView::Lt,
            TokenKind::Gt => TokenKindView::Gt,
        }
    }
}

impl View for Token {
    type V = TokenView;

    open spec fn view(&self) -> TokenView {
        TokenView { kind: self.kind@, span: self.span }
    }
}

/// Ghost image of a token list.
pub open spec fn tokens_view(v: Vec<Token>) -> Seq<TokenView> {
    v@.map_values(|t: Token| t@)
}

/// Why tokenization failed.
#[derive(Clone, Copy, PartialEq, Eq, Structural, Debug)]
pub enum LexErrorKind {
    /// A byte that starts no token of the grammar.
    Unexpected,
    /// An integer literal that does not fit the capacity range.
    IntTooLarge,
}

/// A tokenization failure, at the byte offset `pos`.
#[derive(Clone, Copy, PartialEq, Eq, Structural, Debug)]
pub struct LexError {
    /// Why tokenization failed.
    pub kind: LexErrorKind,
    /// Byte offset of the offending input byte.
    pub pos: usize,
}

/// Whitespace bytes: space, tab, line feed, carriage return.
pub open spec fn is_ws(b: u8) -> bool {
    b == 32 || b == 9 || b == 10 || b == 13
}

/// Bytes that may start an identifier.
pub open spec fn is_ident_start(b: u8) -> bool {
    (65 <= b && b <= 90) || (97 <= b && b <= 122) || b == 95
}

/// Bytes that may continue an identifier.
pub open spec fn is_ident_cont(b: u8) -> bool {
    is_ident_start(b) || is_digit(b)
}

/// Decimal digit bytes.
pub open spec fn is_digit(b: u8) -> bool {
    48 <= b && b <= 57
}

/// The larger of `j` and `m`; used to make progress evident to the
/// termination checker where a position comes from a sub-computation.
pub open spec fn clamp_min(j: int, m: int) -> int {
    if j > m {
        j
    } else {
        m
    }
}

/// `j` forced into the range `[lo, hi]`; used to make progress and
/// boundedness evident to the termination checker where a position
/// comes from a sub-computation.
pub open spec fn clamp_pos(j: int, lo: int, hi: int) -> int {
    if j < lo {
        lo
    } else if j > hi {
        hi
    } else {
        j
    }
}

/// Position of the next line feed at or after `i` (or the end of
/// input): where a `//` comment ends.
pub open spec fn sp_skip_line(s: Seq<u8>, i: int) -> int
    decreases s.len() - i,
{
    if i < 0 || i >= s.len() || s[i] == 10 {
        i
    } else {
        sp_skip_line(s, i + 1)
    }
}

/// Position of the next byte at or after `i` that belongs to a token:
/// whitespace and `//` line comments are skipped.
pub open spec fn sp_skip_ws(s: Seq<u8>, i: int) -> int
    decreases s.len() - i,
{
    if i < 0 || i >= s.len() {
        i
    } else if is_ws(s[i]) {
        sp_skip_ws(s, i + 1)
    } else if s[i] == 47 && i + 1 < s.len() && s[i + 1] == 47 {
        sp_skip_ws(s, clamp_pos(sp_skip_line(s, i + 2), i + 2, s.len() as int))
    } else {
        i
    }
}

/// Position just past the identifier continuation bytes starting at
/// `i`.
pub open spec fn sp_ident_end(s: Seq<u8>, i: int) -> int
    decreases s.len() - i,
{
    if i < 0 || i >= s.len() || !is_ident_cont(s[i]) {
        i
    } else {
        sp_ident_end(s, i + 1)
    }
}

/// Value and end position of the digit run starting at `i`, given the
/// value `acc` accumulated so far; fails where the value would exceed
/// `u64::MAX`.
pub open spec fn sp_scan_int(s: Seq<u8>, i: int, acc: u64) -> Result<(u64, int), LexError>
    decreases s.len() - i,
{
    if i < 0 || i >= s.len() || !is_digit(s[i]) {
        Ok((acc, i))
    } else {
        let d = (s[i] - 48) as u64;
        if acc > (u64::MAX - d) / 10 {
            Err(LexError { kind: LexErrorKind::IntTooLarge, pos: i as usize })
        } else {
            sp_scan_int(s, i + 1, (acc * 10 + d) as u64)
        }
    }
}

/// The token starting at position `j` (which must hold a
/// non-whitespace byte), as the token's view and its end position.
pub open spec fn sp_token_at(s: Seq<u8>, j: int) -> Result<(TokenKindView, int), LexError> {
    if is_ident_start(s[j]) {
        let end = clamp_min(sp_ident_end(s, j + 1), j + 1);
        Ok((TokenKindView::Ident(s.subrange(j, end)), end))
    } else if is_digit(s[j]) {
        match sp_scan_int(s, j, 0) {
            Ok((v, end)) => Ok((TokenKindView::Int(v), clamp_min(end, j + 1))),
            Err(e) => Err(e),
        }
    } else if s[j] == 44 {
        Ok((TokenKindView::Comma, j + 1))
    } else if s[j] == 58 {
        if j + 1 < s.len() && s[j + 1] == 58 {
            Ok((TokenKindView::PathSep, j + 2))
        } else {
            Err(LexError { kind: LexErrorKind::Unexpected, pos: j as usize })
        }
    } else if s[j] == 61 {
        if j + 1 < s.len() && s[j + 1] == 62 {
            Ok((TokenKindView::FatArrow, j + 2))
        } else {
            Err(LexError { kind: LexErrorKind::Unexpected, pos: j as usize })
        }
    } else if s[j] == 123 {
        Ok((TokenKindView::LBrace, j + 1))
    } else if s[j] == 125 {
        Ok((TokenKindView::RBrace, j + 1))
    } else if s[j] == 91 {
        Ok((TokenKindView::LBracket, j + 1))
    } else if s[j] == 93 {
        Ok((TokenKindView::RBracket, j + 1))
    } else if s[j] == 60 {
        Ok((TokenKindView::Lt, j + 1))
    } else if s[j] == 62 {
        Ok((TokenKindView::Gt, j + 1))
    } else {
        Err(LexError { kind: LexErrorKind::Unexpected, pos: j as usize })
    }
}

/// The token stream of `s` from position `i` on.
pub open spec fn sp_lex_from(s: Seq<u8>, i: int) -> Result<Seq<TokenView>, LexError>
    decreases s.len() - i,
{
    let j = clamp_min(sp_skip_ws(s, i), i);
    if j >= s.len() {
        Ok(Seq::empty())
    } else {
        match sp_token_at(s, j) {
            Ok((kind, end)) => {
                let end2 = clamp_pos(end, j + 1, s.len() as int);
                let tok = TokenView { kind, span: Span { lo: j as usize, hi: end2 as usize } };
                match sp_lex_from(s, end2) {
                    Ok(rest) => Ok(seq![tok] + rest),
                    Err(e) => Err(e),
                }
            },
            Err(e) => Err(e),
        }
    }
}

/// `sp_skip_line` stays within `[i, s.len()]`.
proof fn lemma_skip_line_bounds(s: Seq<u8>, i: int)
    requires
        0 <= i <= s.len(),
    ensures
        i <= sp_skip_line(s, i) <= s.len(),
    decreases s.len() - i,
{
    if !(i >= s.len() || s[i] == 10) {
        lemma_skip_line_bounds(s, i + 1);
    }
}

/// `sp_skip_ws` stays within `[i, s.len()]`.
proof fn lemma_skip_ws_bounds(s: Seq<u8>, i: int)
    requires
        0 <= i <= s.len(),
    ensures
        i <= sp_skip_ws(s, i) <= s.len(),
    decreases s.len() - i,
{
    if i < s.len() {
        if is_ws(s[i]) {
            lemma_skip_ws_bounds(s, i + 1);
        } else if s[i] == 47 && i + 1 < s.len() && s[i + 1] == 47 {
            lemma_skip_line_bounds(s, i + 2);
            lemma_skip_ws_bounds(s, clamp_min(sp_skip_line(s, i + 2), i + 2));
        }
    }
}

/// `sp_ident_end` stays within `[i, s.len()]`.
proof fn lemma_ident_end_bounds(s: Seq<u8>, i: int)
    requires
        0 <= i <= s.len(),
    ensures
        i <= sp_ident_end(s, i) <= s.len(),
    decreases s.len() - i,
{
    if i < s.len() && is_ident_cont(s[i]) {
        lemma_ident_end_bounds(s, i + 1);
    }
}

/// `sp_scan_int` ends within `[i, s.len()]`.
proof fn lemma_scan_int_bounds(s: Seq<u8>, i: int, acc: u64)
    requires
        0 <= i <= s.len(),
    ensures
        (match sp_scan_int(s, i, acc) {
            Ok((v, end)) => i <= end <= s.len(),
            Err(e) => true,
        }),
    decreases s.len() - i,
{
    if i < s.len() && is_digit(s[i]) {
        let d = (s[i] - 48) as u64;
        if !(acc > (u64::MAX - d) / 10) {
            lemma_scan_int_bounds(s, i + 1, (acc * 10 + d) as u64);
        }
    }
}

/// Exec mirror of [`sp_skip_line`].
fn skip_line(src: &Vec<u8>, i: usize) -> (r: usize)
    requires
        i <= src@.len(),
    ensures
        r == sp_skip_line(src@, i as int),
        i <= r <= src@.len(),
    decreases src@.len() - i,
{
    if i >= src.len() || src[i] == 10 {
        i
    } else {
        skip_line(src, i + 1)
    }
}

/// Exec mirror of [`sp_skip_ws`].
fn skip_ws(src: &Vec<u8>, i: usize) -> (r: usize)
    requires
        i <= src@.len(),
    ensures
        r == sp_skip_ws(src@, i as int),
        i <= r <= src@.len(),
    decreases src@.len() - i,
{
    if i >= src.len() {
        i
    } else if src[i] == 32 || src[i] == 9 || src[i] == 10 || src[i] == 13 {
        skip_ws(src, i + 1)
    } else if src[i] == 47 && i + 1 < src.len() && src[i + 1] == 47 {
        let j = skip_line(src, i + 2);
        assert(clamp_pos(sp_skip_line(src@, i + 2), i + 2, src@.len() as int) == j as int);
        skip_ws(src, j)
    } else {
        i
    }
}

/// Exec mirror of [`sp_ident_end`].
fn ident_end(src: &Vec<u8>, i: usize) -> (r: usize)
    requires
        i <= src@.len(),
    ensures
        r == sp_ident_end(src@, i as int),
        i <= r <= src@.len(),
    decreases src@.len() - i,
{
    if i >= src.len() {
        i
    } else {
        let b = src[i];
        let cont = (65 <= b && b <= 90) || (97 <= b && b <= 122) || b == 95 || (48 <= b && b
            <= 57);
        if cont {
            ident_end(src, i + 1)
        } else {
            i
        }
    }
}

/// Exec mirror of [`sp_scan_int`].
fn scan_int(src: &Vec<u8>, i: usize, acc: u64) -> (r: Result<(u64, usize), LexError>)
    requires
        i <= src@.len(),
    ensures
        (match (r, sp_scan_int(src@, i as int, acc)) {
            (Ok((v, end)), Ok((sv, send))) => {
                &&& v == sv
                &&& end as int == send
                &&& i <= end <= src@.len()
                &&& (i < src@.len() && is_digit(src@[i as int]) ==> end >= i + 1)
            },
            (Err(e), Err(se)) => e == se,
            _ => false,
        }),
    decreases src@.len() - i,
{
    if i >= src.len() || !(48 <= src[i] && src[i] <= 57) {
        Ok((acc, i))
    } else {
        let d = (src[i] - 48) as u64;
        if acc > (u64::MAX - d) / 10 {
            Err(LexError { kind: LexErrorKind::IntTooLarge, pos: i })
        } else {
            scan_int(src, i + 1, acc * 10 + d)
        }
    }
}

/// The bytes `src[lo..hi]` as a fresh vector.
fn copy_range(src: &Vec<u8>, lo: usize, hi: usize) -> (r: Vec<u8>)
    requires
        lo <= hi <= src@.len(),
    ensures
        r@ == src@.subrange(lo as int, hi as int),
{
    let mut out: Vec<u8> = Vec::new();
    let mut k: usize = lo;
    while k < hi
        invariant
            lo <= k <= hi <= src@.len(),
            out@ == src@.subrange(lo as int, k as int),
        decreases hi - k,
    {
        out.push(src[k]);
        assert(out@ =~= src@.subrange(lo as int, k + 1 as int));
        k = k + 1;
    }
    out
}

/// Exec mirror of [`sp_lex_from`]: the token stream of `src` from
/// position `i` on.
fn lex_from(src: &Vec<u8>, i: usize) -> (r: Result<Vec<Token>, LexError>)
    requires
        i <= src@.len(),
    ensures
        (match (r, sp_lex_from(src@, i as int)) {
            (Ok(v), Ok(ts)) => tokens_view(v) == ts,
            (Err(e), Err(se)) => e == se,
            _ => false,
        }),
    decreases src@.len() - i,
{
    let j = skip_ws(src, i);
    assert(clamp_min(sp_skip_ws(src@, i as int), i as int) == j as int);
    if j >= src.len() {
        let empty: Vec<Token> = Vec::new();
        assert(tokens_view(empty) =~= Seq::<TokenView>::empty());
        Ok(empty)
    } else {
        let b = src[j];
        let scanned: Result<(TokenKind, usize), LexError> = if (65 <= b && b <= 90) || (97 <= b
            && b <= 122) || b == 95 {
            let end = ident_end(src, j + 1);
            Ok((TokenKind::Ident(copy_range(src, j, end)), end))
        } else if 48 <= b && b <= 57 {
            match scan_int(src, j, 0) {
                Ok((v, end)) => Ok((TokenKind::Int(v), end)),
                Err(e) => Err(e),
            }
        } else if b == 44 {
            Ok((TokenKind::Comma, j + 1))
        } else if b == 58 {
            if j + 1 < src.len() && src[j + 1] == 58 {
                Ok((TokenKind::PathSep, j + 2))
            } else {
                Err(LexError { kind: LexErrorKind::Unexpected, pos: j })
            }
        } else if b == 61 {
            if j + 1 < src.len() && src[j + 1] == 62 {
                Ok((TokenKind::FatArrow, j + 2))
            } else {
                Err(LexError { kind: LexErrorKind::Unexpected, pos: j })
            }
        } else if b == 123 {
            Ok((TokenKind::LBrace, j + 1))
        } else if b == 125 {
            Ok((TokenKind::RBrace, j + 1))
        } else if b == 91 {
            Ok((TokenKind::LBracket, j + 1))
        } else if b == 93 {
            Ok((TokenKind::RBracket, j + 1))
        } else if b == 60 {
            Ok((TokenKind::Lt, j + 1))
        } else if b == 62 {
            Ok((TokenKind::Gt, j + 1))
        } else {
            Err(LexError { kind: LexErrorKind::Unexpected, pos: j })
        };
        match scanned {
            Ok((kind, end)) => {
                let tok = Token { kind, span: Span { lo: j, hi: end } };
                proof {
                    let sj = j as int;
                    assert(sp_token_at(src@, sj) is Ok);
                    assert(clamp_pos(sp_token_at(src@, sj)->Ok_0.1, sj + 1, src@.len() as int)
                        == end as int);
                }
                match lex_from(src, end) {
                    Ok(rest) => {
                        let ghost restv = tokens_view(rest);
                        let mut out = rest;
                        out.insert(0, tok);
                        proof {
                            assert forall|k: int| 0 <= k < out@.len() implies #[trigger] tokens_view(
                                out,
                            )[k] == (seq![tok@] + restv)[k] by {
                                if k > 0 {
                                    assert(tokens_view(out)[k] == out@[k]@);
                                    assert(out@[k] == rest@[k - 1]);
                                    assert(restv[k - 1] == rest@[k - 1]@);
                                }
                            }
                            assert(tokens_view(out) =~= seq![tok@] + restv);
                        }
                        Ok(out)
                    },
                    Err(e) => Err(e),
                }
            },
            Err(e) => Err(e),
        }
    }
}

/// Tokenize a whole specification text.
///
/// On success the result is exactly the token stream `sp_lex_from`
/// describes; on failure the offending byte offset is reported.
pub fn tokenize(src: &Vec<u8>) -> (r: Result<Vec<Token>, LexError>)
    ensures
        (match (r, sp_lex_from(src@, 0)) {
            (Ok(v), Ok(ts)) => tokens_view(v) == ts,
            (Err(e), Err(se)) => e == se,
            _ => false,
        }),
{
    lex_from(src, 0)
}

} // verus!
