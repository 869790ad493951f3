//! Recursive-descent parser for the topic-tree grammar.
//!
//! ```text
//! node       := (entry ("," entry)* ","?)?
//! entry      := path capacity? "=>" rhs
//! rhs        := payload_type | "{" node "}"
//! capacity   := "[" positive_integer "]"
//! path       := identifier | identifier "::" identifier
//! ```
//!
//! An entry whose path is a single identifier and whose right-hand side
//! is a type reference is a [`Topic`]; one whose path has exactly two
//! segments and whose right-hand side is a braced block is a
//! [`SubTopic`].  Any other shape is a parse error naming the
//! unsupported form, and parsing stops at the first error.
//!
//! The grammar's meaning is given by the spec functions (`sp_parse` and
//! its helpers); each exec function returns exactly what its spec
//! counterpart describes.

use vstd::prelude::*;
use crate::ast::{Ast, AstView, Span, SubTopic, SubTopicView, Topic, TopicView, TypePath,
    TypePathView, ast_view, clone_bytes, lemma_sub_topics_view, lemma_type_paths_view, sub_topic_view,
    sub_topics_view, topic_view, topics_view, type_path_view,
    type_paths_view};
use crate::lex::{Token, TokenKind, TokenKindView, TokenView, clamp_pos, tokens_view};

verus! {

/// Why parsing failed.
#[derive(Clone, Copy, PartialEq, Eq, Structural, Debug)]
pub enum ParseErrorKind {
    /// The input ended where the grammar required another token.
    UnexpectedEnd,
    /// A leftover token where the grammar required the end of input.
    UnexpectedToken,
    /// An entry path starting with `::`.
    LeadingPathSep,
    /// A generic argument on an entry path segment.
    GenericInPath,
    /// An entry path of three or more segments, a two-segment path
    /// paired with a bare type, or a single identifier paired with a
    /// braced block.
    UnsupportedPath,
    /// An identifier was required.
    ExpectedIdent,
    /// `=>` was required.
    ExpectedFatArrow,
    /// A `,` was required between entries.
    ExpectedComma,
    /// An integer literal was required inside `[` `]`.
    ExpectedInt,
    /// `]` was required after a capacity literal.
    ExpectedRBracket,
    /// An explicit capacity of zero.
    ZeroCapacity,
    /// A capacity literal exceeding the machine's index range.
    CapacityTooLarge,
}

/// A parse failure: what was wrong, at which source span.
#[derive(Clone, Copy, PartialEq, Eq, Structural, Debug)]
pub struct ParseError {
    /// Why parsing failed.
    pub kind: ParseErrorKind,
    /// The span of the smallest offending token (empty at the end of
    /// input).
    pub span: Span,
}

/// The span reported for errors at position `i` of the token stream:
/// the token's own span, or an empty span at the end of input.
pub open spec fn sp_span_at(toks: Seq<TokenView>, i: int) -> Span {
    if 0 <= i < toks.len() {
        toks[i].span
    } else {
        Span { lo: 0, hi: 0 }
    }
}

/// One parsed entry: a leaf topic or an interior sub-topic.
pub enum Entry {
    /// A leaf topic.
    T(Topic),
    /// An interior sub-topic.
    S(SubTopic),
}

/// Ghost counterpart of [`Entry`].
pub enum EntryView {
    /// A leaf topic.
    T(TopicView),
    /// An interior sub-topic.
    S(SubTopicView),
}

impl View for Entry {
    type V = EntryView;

    open spec fn view(&self) -> EntryView {
        match self {
            Entry::T(t) => EntryView::T(topic_view(*t)),
            Entry::S(s) => EntryView::S(sub_topic_view(*s)),
        }
    }
}

/// The remaining `::`-separated segments of a path after its first
/// segment: pairs of segment name and segment span, and the position
/// after them.
pub open spec fn sp_path_rest(toks: Seq<TokenView>, i: int) -> Result<
    (Seq<(Seq<u8>, Span)>, int),
    ParseError,
>
    decreases toks.len() - i,
{
    if i < 0 || i >= toks.len() || !(toks[i].kind is PathSep) {
        Ok((Seq::empty(), i))
    } else if i + 1 >= toks.len() {
        Err(ParseError { kind: ParseErrorKind::UnexpectedEnd, span: sp_span_at(toks, i + 1) })
    } else {
        match toks[i + 1].kind {
            TokenKindView::Ident(name) => match sp_path_rest(toks, i + 2) {
                Ok((rest, p)) => Ok((seq![(name, toks[i + 1].span)] + rest, p)),
                Err(e) => Err(e),
            },
            _ => Err(ParseError { kind: ParseErrorKind::ExpectedIdent, span: sp_span_at(toks, i + 1) }),
        }
    }
}

/// A path `identifier ("::" identifier)*`: its segments and the
/// position after it.  A leading `::` is reported as the unsupported
/// leading-separator form.
pub open spec fn sp_parse_path(toks: Seq<TokenView>, i: int) -> Result<
    (Seq<(Seq<u8>, Span)>, int),
    ParseError,
> {
    if i < 0 || i >= toks.len() {
        Err(ParseError { kind: ParseErrorKind::UnexpectedEnd, span: sp_span_at(toks, i) })
    } else if toks[i].kind is PathSep {
        Err(ParseError { kind: ParseErrorKind::LeadingPathSep, span: sp_span_at(toks, i) })
    } else {
        match toks[i].kind {
            TokenKindView::Ident(name) => match sp_path_rest(toks, i + 1) {
                Ok((rest, p)) => Ok((seq![(name, toks[i].span)] + rest, p)),
                Err(e) => Err(e),
            },
            _ => Err(ParseError { kind: ParseErrorKind::ExpectedIdent, span: sp_span_at(toks, i) }),
        }
    }
}

/// An optional capacity `"[" positive_integer "]"`: the capacity (1
/// when omitted) and the position after it.
pub open spec fn sp_parse_capacity(toks: Seq<TokenView>, i: int) -> Result<
    (usize, int),
    ParseError,
> {
    if 0 <= i < toks.len() && toks[i].kind is LBracket {
        if i + 1 >= toks.len() {
            Err(ParseError { kind: ParseErrorKind::UnexpectedEnd, span: sp_span_at(toks, i + 1) })
        } else {
            match toks[i + 1].kind {
                TokenKindView::Int(v) => {
                    if v == 0 {
                        Err(ParseError { kind: ParseErrorKind::ZeroCapacity, span: sp_span_at(toks, i + 1) })
                    } else if v > usize::MAX as u64 {
                        Err(ParseError { kind: ParseErrorKind::CapacityTooLarge, span: sp_span_at(toks, i + 1) })
                    } else if i + 2 < toks.len() && toks[i + 2].kind is RBracket {
                        Ok((v as usize, i + 3))
                    } else {
                        Err(ParseError { kind: ParseErrorKind::ExpectedRBracket, span: sp_span_at(toks, i + 2) })
                    }
                },
                _ => Err(ParseError { kind: ParseErrorKind::ExpectedInt, span: sp_span_at(toks, i + 1) }),
            }
        }
    } else {
        Ok((1, i))
    }
}

/// A payload type reference: a path, optionally followed by generic
/// arguments `"<" payload ("," payload)* ">"` on its final segment.
pub open spec fn sp_parse_type_path(toks: Seq<TokenView>, i: int) -> Result<
    (TypePathView, int),
    ParseError,
>
    decreases toks.len() - i, 1int,
{
    match sp_parse_path(toks, i) {
        Ok((segs, p0)) => {
            let p = clamp_pos(p0, i + 1, toks.len() as int);
            if 0 <= p < toks.len() && toks[p].kind is Lt {
                match sp_parse_type_args(toks, p + 1) {
                    Ok((args, q)) => Ok(
                        (TypePathView { segments: segs.map_values(|sg: (Seq<u8>, Span)| sg.0), args }, q),
                    ),
                    Err(e) => Err(e),
                }
            } else {
                Ok(
                    (TypePathView {
                        segments: segs.map_values(|sg: (Seq<u8>, Span)| sg.0),
                        args: Seq::empty(),
                    }, p),
                )
            }
        },
        Err(e) => Err(e),
    }
}

/// The generic arguments after `<`: the argument list and the position
/// after the closing `>`.
pub open spec fn sp_parse_type_args(toks: Seq<TokenView>, i: int) -> Result<
    (Seq<TypePathView>, int),
    ParseError,
>
    decreases toks.len() - i, 2int,
{
    match sp_parse_type_path(toks, i) {
        Ok((arg, p0)) => {
            let p = clamp_pos(p0, i + 1, toks.len() as int);
            if 0 <= p < toks.len() && toks[p].kind is Comma {
                match sp_parse_type_args(toks, p + 1) {
                    Ok((rest, q)) => Ok((seq![arg] + rest, q)),
                    Err(e) => Err(e),
                }
            } else if 0 <= p < toks.len() && toks[p].kind is Gt {
                Ok((seq![arg], p + 1))
            } else {
                Err(ParseError { kind: ParseErrorKind::ExpectedIdent, span: sp_span_at(toks, p) })
            }
        },
        Err(e) => Err(e),
    }
}

/// One entry `path capacity? "=>" rhs`: the topic or sub-topic it
/// declares and the position after it.
pub open spec fn sp_parse_entry(toks: Seq<TokenView>, i: int) -> Result<
    (EntryView, int),
    ParseError,
>
    decreases toks.len() - i, 1int,
{
    match sp_parse_path(toks, i) {
        Ok((segs, p0)) => {
            let p1 = clamp_pos(p0, i + 1, toks.len() as int);
            if 0 <= p1 < toks.len() && toks[p1].kind is Lt {
                Err(ParseError { kind: ParseErrorKind::GenericInPath, span: sp_span_at(toks, p1) })
            } else {
                match sp_parse_capacity(toks, p1) {
                    Ok((cap, p2x)) => {
                        let p2 = clamp_pos(p2x, p1, toks.len() as int);
                        if !(0 <= p2 < toks.len() && toks[p2].kind is FatArrow) {
                            Err(
                                ParseError {
                                    kind: if p2 >= toks.len() {
                                        ParseErrorKind::UnexpectedEnd
                                    } else {
                                        ParseErrorKind::ExpectedFatArrow
                                    },
                                    span: sp_span_at(toks, p2),
                                },
                            )
                        } else {
                            let p3 = p2 + 1;
                            if segs.len() == 1 {
                                if p3 < toks.len() && toks[p3].kind is LBrace {
                                    Err(
                                        ParseError {
                                            kind: ParseErrorKind::UnsupportedPath,
                                            span: segs[0].1,
                                        },
                                    )
                                } else {
                                    match sp_parse_type_path(toks, p3) {
                                        Ok((payload, p4)) => Ok(
                                            (EntryView::T(
                                                TopicView {
                                                    name: segs[0].0,
                                                    payload,
                                                    capacity: cap as nat,
                                                    span: segs[0].1,
                                                },
                                            ), p4),
                                        ),
                                        Err(e) => Err(e),
                                    }
                                }
                            } else if segs.len() == 2 {
                                if !(p3 < toks.len() && toks[p3].kind is LBrace) {
                                    Err(
                                        ParseError {
                                            kind: if p3 >= toks.len() {
                                                ParseErrorKind::UnexpectedEnd
                                            } else {
                                                ParseErrorKind::UnsupportedPath
                                            },
                                            span: if p3 >= toks.len() {
                                                sp_span_at(toks, p3)
                                            } else {
                                                Span { lo: segs[0].1.lo, hi: segs[1].1.hi }
                                            },
                                        },
                                    )
                                } else {
                                    match sp_parse_entries(toks, p3 + 1) {
                                        Ok((ast, p5x)) => {
                                            let p5 = clamp_pos(p5x, p3 + 1, toks.len() as int);
                                            if p5 < toks.len() && toks[p5].kind is RBrace {
                                                Ok(
                                                    (EntryView::S(
                                                        SubTopicView {
                                                            name: segs[1].0,
                                                            module: segs[0].0,
                                                            ast,
                                                            span: segs[1].1,
                                                        },
                                                    ), p5 + 1),
                                                )
                                            } else {
                                                Err(
                                                    ParseError {
                                                        kind: ParseErrorKind::UnexpectedEnd,
                                                        span: sp_span_at(toks, p5),
                                                    },
                                                )
                                            }
                                        },
                                        Err(e) => Err(e),
                                    }
                                }
                            } else {
                                Err(
                                    ParseError {
                                        kind: ParseErrorKind::UnsupportedPath,
                                        span: Span { lo: segs[0].1.lo, hi: segs[segs.len() - 1].1.hi },
                                    },
                                )
                            }
                        }
                    },
                    Err(e) => Err(e),
                }
            }
        },
        Err(e) => Err(e),
    }
}

/// A node: entries separated by commas, ending at a `}` or at the end
/// of input (the closing `}` is not consumed).
pub open spec fn sp_parse_entries(toks: Seq<TokenView>, i: int) -> Result<
    (AstView, int),
    ParseError,
>
    decreases toks.len() - i, 2int,
{
    if i < 0 || i >= toks.len() || toks[i].kind is RBrace {
        Ok((AstView { topics: Seq::empty(), sub_topics: Seq::empty() }, if i < 0 { 0 } else { i }))
    } else {
        match sp_parse_entry(toks, i) {
            Ok((e, p0)) => {
                let p = clamp_pos(p0, i + 1, toks.len() as int);
                if p >= toks.len() || toks[p].kind is RBrace {
                    Ok((sp_cons_entry(e, AstView { topics: Seq::empty(), sub_topics: Seq::empty() }), p))
                } else if toks[p].kind is Comma {
                    match sp_parse_entries(toks, p + 1) {
                        Ok((rest, q)) => Ok((sp_cons_entry(e, rest), q)),
                        Err(e2) => Err(e2),
                    }
                } else {
                    Err(ParseError { kind: ParseErrorKind::ExpectedComma, span: sp_span_at(toks, p) })
                }
            },
            Err(e) => Err(e),
        }
    }
}

/// `entry` prepended to the node `rest`: topics and sub-topics keep
/// their relative declaration order.
pub open spec fn sp_cons_entry(entry: EntryView, rest: AstView) -> AstView {
    match entry {
        EntryView::T(t) => AstView { topics: seq![t] + rest.topics, sub_topics: rest.sub_topics },
        EntryView::S(s) => AstView { topics: rest.topics, sub_topics: seq![s] + rest.sub_topics },
    }
}

/// A whole specification: a node covering the entire token stream.
pub open spec fn sp_parse(toks: Seq<TokenView>) -> Result<AstView, ParseError> {
    match sp_parse_entries(toks, 0) {
        Ok((ast, p)) => {
            if p < toks.len() {
                Err(ParseError { kind: ParseErrorKind::UnexpectedToken, span: sp_span_at(toks, p) })
            } else {
                Ok(ast)
            }
        },
        Err(e) => Err(e),
    }
}

/// Ghost image of a parsed segment list.
pub open spec fn segs_view(v: Vec<(Vec<u8>, Span)>) -> Seq<(Seq<u8>, Span)> {
    v@.map_values(|sg: (Vec<u8>, Span)| (sg.0@, sg.1))
}

/// Exec mirror of [`sp_path_rest`].
fn parse_path_rest(toks: &Vec<Token>, i: usize) -> (r: Result<
    (Vec<(Vec<u8>, Span)>, usize),
    ParseError,
>)
    requires
        i <= toks@.len(),
    ensures
        (match (r, sp_path_rest(tokens_view(*toks), i as int)) {
            (Ok((segs, p)), Ok((ssegs, sp))) => {
                &&& segs_view(segs) == ssegs
                &&& p as int == sp
                &&& i <= p <= toks@.len()
            },
            (Err(e), Err(se)) => e == se,
            _ => false,
        }),
    decreases toks@.len() - i,
{
    proof {
        assert(tokens_view(*toks).len() == toks@.len());
    }
    if i >= toks.len() || !(matches!(&toks[i].kind, TokenKind::PathSep)) {
        proof {
            if i < toks@.len() {
                assert(tokens_view(*toks)[i as int] == toks@[i as int]@);
            }
        }
        let empty: Vec<(Vec<u8>, Span)> = Vec::new();
        assert(segs_view(empty) =~= Seq::<(Seq<u8>, Span)>::empty());
        Ok((empty, i))
    } else if i + 1 >= toks.len() {
        Err(ParseError { kind: ParseErrorKind::UnexpectedEnd, span: Span { lo: 0, hi: 0 } })
    } else {
        proof {
            assert(tokens_view(*toks)[i as int] == toks@[i as int]@);
            assert(tokens_view(*toks)[i + 1 as int] == toks@[i + 1 as int]@);
        }
        match &toks[i + 1].kind {
            TokenKind::Ident(name) => {
                let seg = (clone_bytes(name), toks[i + 1].span);
                match parse_path_rest(toks, i + 2) {
                    Ok((rest, p)) => {
                        let ghost srest = segs_view(rest);
                        let mut out = rest;
                        out.insert(0, seg);
                        proof {
                            assert forall|k: int| 0 <= k < out@.len() implies #[trigger] segs_view(
                                out,
                            )[k] == (seq![(seg.0@, seg.1)] + srest)[k] by {
                                if k > 0 {
                                    assert(out@[k] == rest@[k - 1]);
                                }
                            }
                            assert(segs_view(out) =~= seq![(seg.0@, seg.1)] + srest);
                        }
                        Ok((out, p))
                    },
                    Err(e) => Err(e),
                }
            },
            _ => Err(
                ParseError { kind: ParseErrorKind::ExpectedIdent, span: toks[i + 1].span },
            ),
        }
    }
}

/// Exec mirror of [`sp_parse_path`].
fn parse_path(toks: &Vec<Token>, i: usize) -> (r: Result<
    (Vec<(Vec<u8>, Span)>, usize),
    ParseError,
>)
    requires
        i <= toks@.len(),
    ensures
        (match (r, sp_parse_path(tokens_view(*toks), i as int)) {
            (Ok((segs, p)), Ok((ssegs, sp))) => {
                &&& segs_view(segs) == ssegs
                &&& p as int == sp
                &&& i < p <= toks@.len()
                &&& segs@.len() >= 1
            },
            (Err(e), Err(se)) => e == se,
            _ => false,
        }),
{
    proof {
        assert(tokens_view(*toks).len() == toks@.len());
    }
    if i >= toks.len() {
        Err(ParseError { kind: ParseErrorKind::UnexpectedEnd, span: Span { lo: 0, hi: 0 } })
    } else {
        proof {
            assert(tokens_view(*toks)[i as int] == toks@[i as int]@);
        }
        match &toks[i].kind {
            TokenKind::PathSep => Err(
                ParseError { kind: ParseErrorKind::LeadingPathSep, span: toks[i].span },
            ),
            TokenKind::Ident(name) => {
                let seg = (clone_bytes(name), toks[i].span);
                match parse_path_rest(toks, i + 1) {
                    Ok((rest, p)) => {
                        let ghost srest = segs_view(rest);
                        let mut out = rest;
                        out.insert(0, seg);
                        proof {
                            assert forall|k: int| 0 <= k < out@.len() implies #[trigger] segs_view(
                                out,
                            )[k] == (seq![(seg.0@, seg.1)] + srest)[k] by {
                                if k > 0 {
                                    assert(out@[k] == rest@[k - 1]);
                                }
                            }
                            assert(segs_view(out) =~= seq![(seg.0@, seg.1)] + srest);
                        }
                        Ok((out, p))
                    },
                    Err(e) => Err(e),
                }
            },
            _ => Err(ParseError { kind: ParseErrorKind::ExpectedIdent, span: toks[i].span }),
        }
    }
}

/// Exec mirror of [`sp_parse_capacity`].
fn parse_capacity(toks: &Vec<Token>, i: usize) -> (r: Result<(usize, usize), ParseError>)
    requires
        i <= toks@.len(),
    ensures
        (match (r, sp_parse_capacity(tokens_view(*toks), i as int)) {
            (Ok((cap, p)), Ok((scap, sp))) => {
                &&& cap == scap
                &&& p as int == sp
                &&& i <= p <= toks@.len()
            },
            (Err(e), Err(se)) => e == se,
            _ => false,
        }),
{
    proof {
        assert(tokens_view(*toks).len() == toks@.len());
        if i < toks@.len() {
            assert(tokens_view(*toks)[i as int] == toks@[i as int]@);
        }
    }
    if i < toks.len() && matches!(&toks[i].kind, TokenKind::LBracket) {
        if i + 1 >= toks.len() {
            Err(ParseError { kind: ParseErrorKind::UnexpectedEnd, span: Span { lo: 0, hi: 0 } })
        } else {
            proof {
                assert(tokens_view(*toks)[i + 1 as int] == toks@[i + 1 as int]@);
            }
            match &toks[i + 1].kind {
                TokenKind::Int(v) => {
                    let v = *v;
                    if v == 0 {
                        Err(
                            ParseError {
                                kind: ParseErrorKind::ZeroCapacity,
                                span: toks[i + 1].span,
                            },
                        )
                    } else if v > usize::MAX as u64 {
                        Err(
                            ParseError {
                                kind: ParseErrorKind::CapacityTooLarge,
                                span: toks[i + 1].span,
                            },
                        )
                    } else {
                        proof {
                            if i + 2 < toks@.len() {
                                assert(tokens_view(*toks)[i + 2 as int] == toks@[i + 2 as int]@);
                            }
                        }
                        if i + 2 < toks.len() && matches!(&toks[i + 2].kind, TokenKind::RBracket) {
                            Ok((v as usize, i + 3))
                        } else {
                            Err(
                                ParseError {
                                    kind: ParseErrorKind::ExpectedRBracket,
                                    span: if i + 2 < toks.len() {
                                        toks[i + 2].span
                                    } else {
                                        Span { lo: 0, hi: 0 }
                                    },
                                },
                            )
                        }
                    }
                },
                _ => Err(
                    ParseError { kind: ParseErrorKind::ExpectedInt, span: toks[i + 1].span },
                ),
            }
        }
    } else {
        Ok((1, i))
    }
}

/// Exec mirror of [`sp_parse_type_path`].
fn parse_type_path(toks: &Vec<Token>, i: usize) -> (r: Result<(TypePath, usize), ParseError>)
    requires
        i <= toks@.len(),
    ensures
        (match (r, sp_parse_type_path(tokens_view(*toks), i as int)) {
            (Ok((tp, p)), Ok((stp, sp))) => {
                &&& type_path_view(tp) == stp
                &&& p as int == sp
                &&& i < p <= toks@.len()
            },
            (Err(e), Err(se)) => e == se,
            _ => false,
        }),
    decreases toks@.len() - i, 1int,
{
    proof {
        assert(tokens_view(*toks).len() == toks@.len());
    }
    match parse_path(toks, i) {
        Ok((segs, p)) => {
            proof {
                assert(clamp_pos(p as int, i + 1, toks@.len() as int) == p as int);
                if p < toks@.len() {
                    assert(tokens_view(*toks)[p as int] == toks@[p as int]@);
                }
            }
            let mut names: Vec<Vec<u8>> = Vec::new();
            let mut segs = segs;
            let ghost ssegs = segs_view(segs);
            proof {
                assert(segs_view(segs) =~= ssegs.skip(0));
            }
            while segs.len() > 0
                invariant
                    names@.len() + segs@.len() == ssegs.len(),
                    segs_view(segs) =~= ssegs.skip(names@.len() as int),
                    forall|k: int| 0 <= k < names@.len() ==> names@[k]@ == ssegs[k].0,
                decreases segs@.len(),
            {
                let ghost n = names@.len() as int;
                let ghost pre = segs@;
                let ghost pre_map = segs_view(segs);
                let seg = segs.remove(0);
                proof {
                    assert(seg == pre[0]);
                    assert(pre_map[0] == (pre[0].0@, pre[0].1));
                    assert(seg.0@ == ssegs.skip(n)[0].0);
                    assert forall|k: int| 0 <= k < segs@.len() implies #[trigger] segs_view(
                        segs,
                    )[k] == ssegs.skip(n + 1)[k] by {
                        assert(segs@[k] == pre[k + 1]);
                        assert(pre_map[k + 1] == (pre[k + 1].0@, pre[k + 1].1));
                        assert(ssegs.skip(n + 1)[k] == ssegs.skip(n)[k + 1]);
                    }
                    assert(segs_view(segs) =~= ssegs.skip(n + 1));
                }
                names.push(seg.0);
            }
            if p < toks.len() && matches!(&toks[p].kind, TokenKind::Lt) {
                match parse_type_args(toks, p + 1) {
                    Ok((args, q)) => {
                        let tp = TypePath { segments: names, args };
                        proof {
                            assert(type_path_view(tp).segments =~= ssegs.map_values(
                                |sg: (Seq<u8>, Span)| sg.0,
                            ));
                            lemma_type_paths_view(tp.args@, 0);
                        }
                        Ok((tp, q))
                    },
                    Err(e) => Err(e),
                }
            } else {
                let tp = TypePath { segments: names, args: Vec::new() };
                proof {
                    assert(type_path_view(tp).segments =~= ssegs.map_values(
                        |sg: (Seq<u8>, Span)| sg.0,
                    ));
                    assert(type_path_view(tp).args =~= Seq::<TypePathView>::empty());
                }
                Ok((tp, p))
            }
        },
        Err(e) => Err(e),
    }
}

/// Exec mirror of [`sp_parse_type_args`].
fn parse_type_args(toks: &Vec<Token>, i: usize) -> (r: Result<(Vec<TypePath>, usize), ParseError>)
    requires
        i <= toks@.len(),
    ensures
        (match (r, sp_parse_type_args(tokens_view(*toks), i as int)) {
            (Ok((args, p)), Ok((sargs, sp))) => {
                &&& type_paths_view(args@, 0) == sargs
                &&& p as int == sp
                &&& i < p <= toks@.len()
            },
            (Err(e), Err(se)) => e == se,
            _ => false,
        }),
    decreases toks@.len() - i, 2int,
{
    proof {
        assert(tokens_view(*toks).len() == toks@.len());
    }
    match parse_type_path(toks, i) {
        Ok((arg, p)) => {
            proof {
                assert(clamp_pos(p as int, i + 1, toks@.len() as int) == p as int);
                if p < toks@.len() {
                    assert(tokens_view(*toks)[p as int] == toks@[p as int]@);
                }
            }
            if p < toks.len() && matches!(&toks[p].kind, TokenKind::Comma) {
                match parse_type_args(toks, p + 1) {
                    Ok((rest, q)) => {
                        let ghost srest = type_paths_view(rest@, 0);
                        let ghost prerest = rest@;
                        let ghost argv = type_path_view(arg);
                        let mut out = rest;
                        out.insert(0, arg);
                        proof {
                            lemma_type_paths_view(out@, 0);
                            lemma_type_paths_view(prerest, 0);
                            assert forall|k: int| 0 <= k < out@.len() implies #[trigger] type_paths_view(
                                out@,
                                0,
                            )[k] == (seq![argv] + srest)[k] by {
                                assert(type_paths_view(out@, 0)[k] == type_path_view(out@[k]));
                                if k > 0 {
                                    assert(out@[k] == prerest[k - 1]);
                                    assert(srest[k - 1] == type_path_view(prerest[k - 1]));
                                }
                            }
                            assert(type_paths_view(out@, 0) =~= seq![argv] + srest);
                        }
                        Ok((out, q))
                    },
                    Err(e) => Err(e),
                }
            } else if p < toks.len() && matches!(&toks[p].kind, TokenKind::Gt) {
                let mut out: Vec<TypePath> = Vec::new();
                let ghost argv = type_path_view(arg);
                out.push(arg);
                proof {
                    lemma_type_paths_view(out@, 0);
                    assert(type_paths_view(out@, 0) =~= seq![argv]);
                }
                Ok((out, p + 1))
            } else {
                Err(
                    ParseError {
                        kind: ParseErrorKind::ExpectedIdent,
                        span: if p < toks.len() {
                            toks[p].span
                        } else {
                            Span { lo: 0, hi: 0 }
                        },
                    },
                )
            }
        },
        Err(e) => Err(e),
    }
}

/// `entry` prepended to the node `rest`; exec mirror of
/// [`sp_cons_entry`].
fn cons_entry(e: Entry, rest: Ast) -> (r: Ast)
    ensures
        ast_view(r) == sp_cons_entry(e@, ast_view(rest)),
{
    let mut out = rest;
    match e {
        Entry::T(t) => {
            let ghost pre = out.topics@;
            let ghost tv = topic_view(t);
            out.topics.insert(0, t);
            proof {
                assert forall|k: int| 0 <= k < out.topics@.len() implies #[trigger] topics_view(
                    out.topics@,
                )[k] == (seq![tv] + topics_view(pre))[k] by {
                    if k > 0 {
                        assert(out.topics@[k] == pre[k - 1]);
                    }
                }
                assert(topics_view(out.topics@) =~= seq![tv] + topics_view(pre));
            }
            out
        },
        Entry::S(st) => {
            let ghost pre = out.sub_topics@;
            let ghost sv = sub_topic_view(st);
            out.sub_topics.insert(0, st);
            proof {
                lemma_sub_topics_view(out.sub_topics@, 0);
                lemma_sub_topics_view(pre, 0);
                assert forall|k: int| 0 <= k < out.sub_topics@.len() implies #[trigger] sub_topics_view(
                    out.sub_topics@,
                    0,
                )[k] == (seq![sv] + sub_topics_view(pre, 0))[k] by {
                    assert(sub_topics_view(out.sub_topics@, 0)[k] == sub_topic_view(
                        out.sub_topics@[k],
                    ));
                    if k > 0 {
                        assert(out.sub_topics@[k] == pre[k - 1]);
                        assert(sub_topics_view(pre, 0)[k - 1] == sub_topic_view(pre[k - 1]));
                    }
                }
                assert(sub_topics_view(out.sub_topics@, 0) =~= seq![sv] + sub_topics_view(pre, 0));
            }
            out
        },
    }
}

/// Exec mirror of [`sp_parse_entry`].
fn parse_entry(toks: &Vec<Token>, i: usize) -> (r: Result<(Entry, usize), ParseError>)
    requires
        i <= toks@.len(),
    ensures
        (match (r, sp_parse_entry(tokens_view(*toks), i as int)) {
            (Ok((e, p)), Ok((se, sp))) => {
                &&& e@ == se
                &&& p as int == sp
                &&& i < p <= toks@.len()
            },
            (Err(e), Err(se)) => e == se,
            _ => false,
        }),
    decreases toks@.len() - i, 1int,
{
    proof {
        assert(tokens_view(*toks).len() == toks@.len());
    }
    match parse_path(toks, i) {
        Ok((segs, p1)) => {
            let ghost ssegs = segs_view(segs);
            proof {
                assert(clamp_pos(p1 as int, i + 1, toks@.len() as int) == p1 as int);
                if p1 < toks@.len() {
                    assert(tokens_view(*toks)[p1 as int] == toks@[p1 as int]@);
                }
            }
            if p1 < toks.len() && matches!(&toks[p1].kind, TokenKind::Lt) {
                Err(ParseError { kind: ParseErrorKind::GenericInPath, span: toks[p1].span })
            } else {
                match parse_capacity(toks, p1) {
                    Ok((cap, p2)) => {
                        proof {
                            assert(clamp_pos(p2 as int, p1 as int, toks@.len() as int)
                                == p2 as int);
                            if p2 < toks@.len() {
                                assert(tokens_view(*toks)[p2 as int] == toks@[p2 as int]@);
                            }
                        }
                        if !(p2 < toks.len() && matches!(&toks[p2].kind, TokenKind::FatArrow)) {
                            Err(
                                ParseError {
                                    kind: if p2 >= toks.len() {
                                        ParseErrorKind::UnexpectedEnd
                                    } else {
                                        ParseErrorKind::ExpectedFatArrow
                                    },
                                    span: if p2 < toks.len() {
                                        toks[p2].span
                                    } else {
                                        Span { lo: 0, hi: 0 }
                                    },
                                },
                            )
                        } else {
                            let p3 = p2 + 1;
                            if segs.len() == 1 {
                                proof {
                                    if p3 < toks@.len() {
                                        assert(tokens_view(*toks)[p3 as int]
                                            == toks@[p3 as int]@);
                                    }
                                    assert(ssegs[0] == (segs@[0].0@, segs@[0].1));
                                }
                                if p3 < toks.len() && matches!(&toks[p3].kind, TokenKind::LBrace) {
                                    Err(
                                        ParseError {
                                            kind: ParseErrorKind::UnsupportedPath,
                                            span: segs[0].1,
                                        },
                                    )
                                } else {
                                    match parse_type_path(toks, p3) {
                                        Ok((payload, p4)) => {
                                            let mut segs = segs;
                                            let nm = segs.remove(0);
                                            proof {
                                                assert(ssegs[0] == (nm.0@, nm.1));
                                            }
                                            let t = Topic {
                                                name: nm.0,
                                                payload,
                                                capacity: cap,
                                                span: nm.1,
                                            };
                                            Ok((Entry::T(t), p4))
                                        },
                                        Err(e) => Err(e),
                                    }
                                }
                            } else if segs.len() == 2 {
                                proof {
                                    if p3 < toks@.len() {
                                        assert(tokens_view(*toks)[p3 as int]
                                            == toks@[p3 as int]@);
                                    }
                                }
                                if !(p3 < toks.len() && matches!(&toks[p3].kind, TokenKind::LBrace)) {
                                    proof {
                                        assert(ssegs[0] == (segs@[0].0@, segs@[0].1));
                                        assert(ssegs[1] == (segs@[1].0@, segs@[1].1));
                                    }
                                    Err(
                                        ParseError {
                                            kind: if p3 >= toks.len() {
                                                ParseErrorKind::UnexpectedEnd
                                            } else {
                                                ParseErrorKind::UnsupportedPath
                                            },
                                            span: if p3 < toks.len() {
                                                Span { lo: segs[0].1.lo, hi: segs[1].1.hi }
                                            } else {
                                                Span { lo: 0, hi: 0 }
                                            },
                                        },
                                    )
                                } else {
                                    match parse_entries(toks, p3 + 1) {
                                        Ok((ast, p5)) => {
                                            proof {
                                                assert(clamp_pos(
                                                    p5 as int,
                                                    p3 + 1,
                                                    toks@.len() as int,
                                                ) == p5 as int);
                                                if p5 < toks@.len() {
                                                    assert(tokens_view(*toks)[p5 as int]
                                                        == toks@[p5 as int]@);
                                                }
                                            }
                                            if p5 < toks.len() && matches!(&toks[p5].kind, TokenKind::RBrace) {
                                                let mut segs = segs;
                                                let md = segs.remove(0);
                                                let nm = segs.remove(0);
                                                proof {
                                                    assert(ssegs[0] == (md.0@, md.1));
                                                    assert(ssegs[1] == (nm.0@, nm.1));
                                                }
                                                let st = SubTopic {
                                                    name: nm.0,
                                                    module: md.0,
                                                    ast,
                                                    span: nm.1,
                                                };
                                                Ok((Entry::S(st), p5 + 1))
                                            } else {
                                                Err(
                                                    ParseError {
                                                        kind: ParseErrorKind::UnexpectedEnd,
                                                        span: if p5 < toks.len() {
                                                            toks[p5].span
                                                        } else {
                                                            Span { lo: 0, hi: 0 }
                                                        },
                                                    },
                                                )
                                            }
                                        },
                                        Err(e) => Err(e),
                                    }
                                }
                            } else {
                                proof {
                                    assert(ssegs[0] == (segs@[0].0@, segs@[0].1));
                                    assert(ssegs[ssegs.len() - 1] == (segs@[segs@.len() - 1].0@,
                                        segs@[segs@.len() - 1].1));
                                }
                                let lo = segs[0].1.lo;
                                let hi = segs[segs.len() - 1].1.hi;
                                Err(
                                    ParseError {
                                        kind: ParseErrorKind::UnsupportedPath,
                                        span: Span { lo, hi },
                                    },
                                )
                            }
                        }
                    },
                    Err(e) => Err(e),
                }
            }
        },
        Err(e) => Err(e),
    }
}

/// Exec mirror of [`sp_parse_entries`].
fn parse_entries(toks: &Vec<Token>, i: usize) -> (r: Result<(Ast, usize), ParseError>)
    requires
        i <= toks@.len(),
    ensures
        (match (r, sp_parse_entries(tokens_view(*toks), i as int)) {
            (Ok((ast, p)), Ok((sast, sp))) => {
                &&& ast_view(ast) == sast
                &&& p as int == sp
                &&& i <= p <= toks@.len()
            },
            (Err(e), Err(se)) => e == se,
            _ => false,
        }),
    decreases toks@.len() - i, 2int,
{
    proof {
        assert(tokens_view(*toks).len() == toks@.len());
        if i < toks@.len() {
            assert(tokens_view(*toks)[i as int] == toks@[i as int]@);
        }
    }
    if i >= toks.len() || matches!(&toks[i].kind, TokenKind::RBrace) {
        let ast = Ast { topics: Vec::new(), sub_topics: Vec::new() };
        proof {
            assert(ast_view(ast).topics =~= Seq::<TopicView>::empty());
            assert(ast_view(ast).sub_topics =~= Seq::<SubTopicView>::empty());
        }
        Ok((ast, i))
    } else {
        match parse_entry(toks, i) {
            Ok((e, p)) => {
                proof {
                    assert(clamp_pos(p as int, i + 1, toks@.len() as int) == p as int);
                    if p < toks@.len() {
                        assert(tokens_view(*toks)[p as int] == toks@[p as int]@);
                    }
                }
                if p >= toks.len() || matches!(&toks[p].kind, TokenKind::RBrace) {
                    let empty = Ast { topics: Vec::new(), sub_topics: Vec::new() };
                    proof {
                        assert(ast_view(empty).topics =~= Seq::<TopicView>::empty());
                        assert(ast_view(empty).sub_topics =~= Seq::<SubTopicView>::empty());
                    }
                    let ast = cons_entry(e, empty);
                    Ok((ast, p))
                } else if matches!(&toks[p].kind, TokenKind::Comma) {
                    match parse_entries(toks, p + 1) {
                        Ok((rest, q)) => {
                            let ast = cons_entry(e, rest);
                            Ok((ast, q))
                        },
                        Err(e2) => Err(e2),
                    }
                } else {
                    Err(ParseError { kind: ParseErrorKind::ExpectedComma, span: toks[p].span })
                }
            },
            Err(e) => Err(e),
        }
    }
}

/// Parse a token stream into the AST.
///
/// Returns the tree exactly as the grammar spec [`sp_parse`] describes
/// it, or the first syntax error with the span of the smallest
/// offending token.
pub fn parse(toks: &Vec<Token>) -> (r: Result<Ast, ParseError>)
    ensures
        (match (r, sp_parse(tokens_view(*toks))) {
            (Ok(ast), Ok(sast)) => ast_view(ast) == sast,
            (Err(e), Err(se)) => e == se,
            _ => false,
        }),
{
    proof {
        assert(tokens_view(*toks).len() == toks@.len());
    }
    match parse_entries(toks, 0) {
        Ok((ast, p)) => {
            proof {
                if p < toks@.len() {
                    assert(tokens_view(*toks)[p as int] == toks@[p as int]@);
                }
            }
            if p < toks.len() {
                Err(ParseError { kind: ParseErrorKind::UnexpectedToken, span: toks[p].span })
            } else {
                Ok(ast)
            }
        },
        Err(e) => Err(e),
    }
}

} // verus!
