//! A compiler and runtime for a declarative publish/subscribe message
//! bus.
//!
//! A user writes a nested tree of named topics (leaves carrying a
//! payload type and an optional buffer capacity) grouped under
//! sub-topics.  The three compiler stages — [`lex`]/[`parser`] (the
//! grammar front end), [`analysis`] (tree-wide semantic checks) and
//! [`codegen`] (declaration synthesis with capacity aggregation and
//! ancestor fan-out) — turn that text into the declarations of a
//! runnable bus; [`make_message_bus`] runs all of them in order.  The
//! [`channel`] module is the bounded broadcast primitive the generated
//! handles sit on, and [`sample_bus`] spells the generated surface out
//! for one small tree.

use vstd::prelude::*;

pub mod analysis;
pub mod ast;
pub mod channel;
pub mod codegen;
pub mod lex;
pub mod parser;
pub mod sample_bus;

verus! {

use crate::analysis::{SemanticError, analyze, errs_view, sp_analysis_errors, sp_valid};
use crate::ast::{AstView, SubTopic, lemma_sub_topics_view, ast_view, sub_topic_view, topic_view};
use crate::codegen::{Output, caps_fit, generate, lemma_capacity_aggregate, lemma_sub_caps_mono,
    lemma_topic_caps_mono, sp_generate, sp_sub_caps, sp_topic_caps, sp_total_capacity};
use crate::lex::{LexError, sp_lex_from, tokenize};
use crate::parser::{ParseError, parse, sp_parse};

/// Why a specification failed to compile.  Parse and analysis
/// failures block generation entirely.
#[derive(Debug)]
pub enum CompileError {
    /// The text could not be tokenized.
    Lex(LexError),
    /// The token stream does not follow the grammar; parsing stops at
    /// the first syntax error.
    Parse(ParseError),
    /// The tree violates the semantic invariants; all violations found
    /// anywhere in the tree are collected here.
    Analysis(Vec<SemanticError>),
    /// An aggregate channel capacity exceeds the machine's index
    /// range.
    CapacityOverflow,
}

/// Every aggregate capacity in the tree fits the machine's index
/// range.
pub open spec fn sp_caps_fit_all(a: AstView) -> bool {
    forall|k: int| 0 <= k < a.sub_topics.len() ==> caps_fit(#[trigger] a.sub_topics[k])
}

/// The aggregate capacity of a sub-topic, or `None` where some
/// aggregate in its subtree exceeds the machine's index range.
fn checked_capacity(st: &SubTopic) -> (r: Option<usize>)
    ensures
        (match r {
            Some(v) => caps_fit(sub_topic_view(*st)) && v == sp_total_capacity(
                sub_topic_view(*st),
            ),
            None => !caps_fit(sub_topic_view(*st)),
        }),
    decreases *st,
{
    let ghost stv = sub_topic_view(*st);
    let ghost tsv = stv.ast.topics;
    let ghost ssv = stv.ast.sub_topics;
    proof {
        lemma_capacity_aggregate(stv);
        lemma_sub_topics_view(st.ast.sub_topics@, 0);
    }
    let mut total: usize = 0;
    let mut k: usize = 0;
    while k < st.ast.topics.len()
        invariant
            k <= st.ast.topics@.len(),
            stv == sub_topic_view(*st),
            tsv == stv.ast.topics,
            ssv == stv.ast.sub_topics,
            tsv.len() == st.ast.topics@.len(),
            total == sp_topic_caps(tsv, k as int),
        decreases st.ast.topics@.len() - k,
    {
        proof {
            assert(tsv[k as int] == topic_view(st.ast.topics@[k as int]));
            assert(sp_topic_caps(tsv, k + 1 as int) == sp_topic_caps(tsv, k as int)
                + tsv[k as int].capacity);
        }
        let c = st.ast.topics[k].capacity;
        if total > usize::MAX - c {
            proof {
                lemma_topic_caps_mono(tsv, k + 1 as int, tsv.len() as int);
                lemma_sub_caps_mono(ssv, 0, ssv.len() as int);
                lemma_capacity_aggregate(stv);
                assert(sp_total_capacity(stv) > usize::MAX);
            }
            return None;
        }
        total = total + c;
        k = k + 1;
    }
    let mut m: usize = 0;
    while m < st.ast.sub_topics.len()
        invariant
            m <= st.ast.sub_topics@.len(),
            stv == sub_topic_view(*st),
            tsv == stv.ast.topics,
            ssv == stv.ast.sub_topics,
            ssv.len() == st.ast.sub_topics@.len(),
            forall|q: int| 0 <= q < ssv.len() ==> ssv[q] == sub_topic_view(
                #[trigger] st.ast.sub_topics@[q],
            ),
            total == sp_topic_caps(tsv, tsv.len() as int) + sp_sub_caps(ssv, m as int),
            forall|q: int| 0 <= q < m ==> caps_fit(#[trigger] ssv[q]),
        decreases st.ast.sub_topics@.len() - m,
    {
        proof {
            assert(sp_sub_caps(ssv, m + 1 as int) == sp_sub_caps(ssv, m as int)
                + sp_total_capacity(ssv[m as int]));
        }
        match checked_capacity(&st.ast.sub_topics[m]) {
            None => {
                proof {
                    assert(!caps_fit(ssv[m as int]));
                }
                return None;
            },
            Some(c) => {
                if total > usize::MAX - c {
                    proof {
                        lemma_sub_caps_mono(ssv, m + 1 as int, ssv.len() as int);
                        lemma_capacity_aggregate(stv);
                        assert(sp_total_capacity(stv) > usize::MAX);
                    }
                    return None;
                }
                total = total + c;
            },
        }
        m = m + 1;
    }
    proof {
        lemma_capacity_aggregate(stv);
        assert(caps_fit(stv));
    }
    Some(total)
}

/// Compile a topic-tree specification into the declarations of its
/// message bus.
///
/// The text is tokenized and parsed (stopping at the first syntax
/// error), the tree is analyzed (collecting every semantic violation),
/// and only a validated tree is handed to the generator; the result is
/// then exactly [`sp_generate`] of the tree, so equal specifications
/// yield identical output.
pub fn make_message_bus(source: &Vec<u8>) -> (r: Result<Output, CompileError>)
    ensures
        (match sp_lex_from(source@, 0) {
            Err(le) => r matches Err(CompileError::Lex(e)) && e == le,
            Ok(ts) => (match sp_parse(ts) {
                Err(pe) => r matches Err(CompileError::Parse(e)) && e == pe,
                Ok(astv) => {
                    if !sp_valid(astv) {
                        r matches Err(CompileError::Analysis(errs)) && errs_view(errs)
                            == sp_analysis_errors(astv)
                    } else if !sp_caps_fit_all(astv) {
                        r matches Err(CompileError::CapacityOverflow)
                    } else {
                        r matches Ok(out) && out@ == sp_generate(astv)
                    }
                },
            }),
        }),
{
    let toks = match tokenize(source) {
        Ok(t) => t,
        Err(e) => {
            return Err(CompileError::Lex(e));
        },
    };
    let ast = match parse(&toks) {
        Ok(a) => a,
        Err(e) => {
            return Err(CompileError::Parse(e));
        },
    };
    let ghost astv = ast_view(ast);
    let analysis = match analyze(&ast) {
        Ok(an) => an,
        Err(errs) => {
            return Err(CompileError::Analysis(errs));
        },
    };
    proof {
        lemma_sub_topics_view(ast.sub_topics@, 0);
    }
    let mut k: usize = 0;
    while k < ast.sub_topics.len()
        invariant
            k <= ast.sub_topics@.len(),
            astv == ast_view(ast),
            astv.sub_topics.len() == ast.sub_topics@.len(),
            forall|q: int| 0 <= q < astv.sub_topics.len() ==> astv.sub_topics[q]
                == sub_topic_view(#[trigger] ast.sub_topics@[q]),
            forall|q: int| 0 <= q < k ==> caps_fit(#[trigger] astv.sub_topics[q]),
            analysis.tree() == astv,
            sp_valid(astv),
            (match sp_lex_from(source@, 0) {
                Ok(ts) => sp_parse(ts) matches Ok(a2) && a2 == astv,
                Err(le) => false,
            }),
        decreases ast.sub_topics@.len() - k,
    {
        match checked_capacity(&ast.sub_topics[k]) {
            None => {
                proof {
                    assert(!caps_fit(astv.sub_topics[k as int]));
                }
                return Err(CompileError::CapacityOverflow);
            },
            Some(_) => {},
        }
        k = k + 1;
    }
    let out = generate(&ast, &analysis);
    Ok(out)
}

} // verus!
