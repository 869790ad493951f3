//! Semantic analysis of a parsed topic tree.
//!
//! The analyzer validates tree-wide invariants: the top level holds
//! exactly one sub-topic (the tree root) and no bare topics, and
//! within each node the topic names and the sub-topic names are
//! pairwise distinct
//! (independently per node — a name may repeat across different
//! branches of the tree, never within the same parent).  Every
//! violation found anywhere in the tree is collected; analysis never
//! stops at the first one.
//!
//! On success the analyzer hands out an opaque [`Analysis`] token that
//! records, in ghost state, which tree was validated; the code
//! generator demands it.

use vstd::prelude::*;
use crate::ast::{Ast, AstView, Span, SubTopic, SubTopicView, Topic, TopicView, clone_bytes,
    lemma_sub_topics_view, sub_topic_view, sub_topics_view, topic_view, topics_view};

verus! {

/// Which tree-wide invariant a declaration violates.
#[derive(Clone, Copy, PartialEq, Eq, Structural, Debug)]
pub enum SemanticErrorKind {
    /// A bare topic at the top level of the specification.
    TopicAtTopLevel,
    /// No top-level sub-topic: the tree has no root.
    MissingRoot,
    /// More than one top-level sub-topic.
    MultipleRoots,
    /// A topic name repeated within one node.
    DuplicateTopic,
    /// A sub-topic name repeated within one node.
    DuplicateSubTopic,
}

/// One collected violation: what was violated, by which name, where.
#[derive(Debug)]
pub struct SemanticError {
    /// Which invariant the declaration violates.
    pub kind: SemanticErrorKind,
    /// The name of the offending declaration.
    pub name: Vec<u8>,
    /// Span of the offending name in the source text.
    pub span: Span,
}

/// Ghost counterpart of [`SemanticError`].
pub struct SemanticErrorView {
    /// Which invariant the declaration violates.
    pub kind: SemanticErrorKind,
    /// The name of the offending declaration.
    pub name: Seq<u8>,
    /// Span of the offending name.
    pub span: Span,
}

impl View for SemanticError {
    type V = SemanticErrorView;

    open spec fn view(&self) -> SemanticErrorView {
        SemanticErrorView { kind: self.kind, name: self.name@, span: self.span }
    }
}

/// Ghost image of a collected error list.
pub open spec fn errs_view(v: Vec<SemanticError>) -> Seq<SemanticErrorView> {
    v@.map_values(|e: SemanticError| e@)
}

/// Pairwise distinct topic names.
pub open spec fn topics_unique(ts: Seq<TopicView>) -> bool {
    forall|i: int, j: int| 0 <= i < j < ts.len() ==> (#[trigger] ts[i].name) != (#[trigger] ts[j].name)
}

/// Pairwise distinct sub-topic names.
pub open spec fn subs_unique(ss: Seq<SubTopicView>) -> bool {
    forall|i: int, j: int| 0 <= i < j < ss.len() ==> (#[trigger] ss[i].name) != (#[trigger] ss[j].name)
}

/// Name uniqueness holds in every node of the subtree rooted at `st`:
/// its own topics and sub-topics, and recursively below.
pub open spec fn subtree_names_ok(st: SubTopicView) -> bool
    decreases st,
{
    &&& topics_unique(st.ast.topics)
    &&& subs_unique(st.ast.sub_topics)
    &&& forall|k: int| 0 <= k < st.ast.sub_topics.len() ==> subtree_names_ok(
        #[trigger] st.ast.sub_topics[k],
    )
}

/// A tree the analyzer accepts: no bare topic at the top level,
/// exactly one top-level sub-topic (the tree root), and per-node name
/// uniqueness everywhere below.
pub open spec fn sp_valid(a: AstView) -> bool {
    &&& a.topics.len() == 0
    &&& a.sub_topics.len() == 1
    &&& forall|k: int| 0 <= k < a.sub_topics.len() ==> subtree_names_ok(#[trigger] a.sub_topics[k])
}

/// The duplicate-topic errors among the first `n` topics of one node:
/// one error for each topic whose name already occurred earlier in the
/// node, in declaration order.
pub open spec fn sp_topic_dup_errors(ts: Seq<TopicView>, n: int) -> Seq<SemanticErrorView>
    decreases n,
{
    if n <= 0 || n > ts.len() {
        Seq::empty()
    } else {
        sp_topic_dup_errors(ts, n - 1) + (if exists|j: int|
            0 <= j < n - 1 && (#[trigger] ts[j].name) == ts[n - 1].name {
            seq![
                SemanticErrorView {
                    kind: SemanticErrorKind::DuplicateTopic,
                    name: ts[n - 1].name,
                    span: ts[n - 1].span,
                },
            ]
        } else {
            Seq::empty()
        })
    }
}

/// The errors collected from the first `n` sub-topics of one node, in
/// declaration order: for each sub-topic, first the duplicate-topic
/// errors of its child node, then the errors of its own sub-topics
/// (bottom-up), then a duplicate error when its name already occurred
/// earlier in the node.
pub open spec fn sp_sub_errors(ss: Seq<SubTopicView>, n: int) -> Seq<SemanticErrorView>
    decreases ss, n,
{
    if n <= 0 || n > ss.len() {
        Seq::empty()
    } else {
        sp_sub_errors(ss, n - 1) + sp_topic_dup_errors(
            ss[n - 1].ast.topics,
            ss[n - 1].ast.topics.len() as int,
        ) + sp_sub_errors(ss[n - 1].ast.sub_topics, ss[n - 1].ast.sub_topics.len() as int) + (
        if exists|j: int| 0 <= j < n - 1 && (#[trigger] ss[j].name) == ss[n - 1].name {
            seq![
                SemanticErrorView {
                    kind: SemanticErrorKind::DuplicateSubTopic,
                    name: ss[n - 1].name,
                    span: ss[n - 1].span,
                },
            ]
        } else {
            Seq::empty()
        })
    }
}

/// The root-placement errors of the top-level node: one per bare
/// top-level topic; where several top-level sub-topics compete for the
/// root, one per top-level sub-topic; and, where no sub-topic defines
/// a root at all, one missing-root error (with no name and an empty
/// span, since no declaration carries the omission).
pub open spec fn sp_root_errors(a: AstView) -> Seq<SemanticErrorView> {
    a.topics.map_values(
        |t: TopicView| SemanticErrorView {
            kind: SemanticErrorKind::TopicAtTopLevel,
            name: t.name,
            span: t.span,
        },
    ) + (if a.sub_topics.len() > 1 {
        a.sub_topics.map_values(
            |s: SubTopicView| SemanticErrorView {
                kind: SemanticErrorKind::MultipleRoots,
                name: s.name,
                span: s.span,
            },
        )
    } else if a.sub_topics.len() == 0 {
        seq![
            SemanticErrorView {
                kind: SemanticErrorKind::MissingRoot,
                name: Seq::empty(),
                span: Span { lo: 0, hi: 0 },
            },
        ]
    } else {
        Seq::empty()
    })
}

/// The complete set of violations the analyzer collects for a tree, in
/// collection order.
pub open spec fn sp_analysis_errors(a: AstView) -> Seq<SemanticErrorView> {
    sp_root_errors(a) + sp_sub_errors(a.sub_topics, a.sub_topics.len() as int)
}

/// No duplicate-topic error is collected among the first `n` topics
/// exactly when their names are pairwise distinct.
proof fn lemma_topic_dup_errors_empty(ts: Seq<TopicView>, n: int)
    requires
        0 <= n <= ts.len(),
    ensures
        sp_topic_dup_errors(ts, n).len() == 0 <==> (forall|i: int, j: int|
            0 <= i < j < n ==> (#[trigger] ts[i].name) != (#[trigger] ts[j].name)),
    decreases n,
{
    if n > 0 {
        lemma_topic_dup_errors_empty(ts, n - 1);
    }
}

/// No error is collected from the first `n` sub-topics exactly when
/// their names are pairwise distinct and every subtree below them
/// satisfies per-node uniqueness.
proof fn lemma_sub_errors_empty(ss: Seq<SubTopicView>, n: int)
    requires
        0 <= n <= ss.len(),
    ensures
        sp_sub_errors(ss, n).len() == 0 <==> ((forall|i: int, j: int|
            0 <= i < j < n ==> (#[trigger] ss[i].name) != (#[trigger] ss[j].name)) && (forall|k: int|
            0 <= k < n ==> subtree_names_ok(#[trigger] ss[k]))),
    decreases ss, n,
{
    if n > 0 {
        lemma_sub_errors_empty(ss, n - 1);
        lemma_topic_dup_errors_empty(ss[n - 1].ast.topics, ss[n - 1].ast.topics.len() as int);
        lemma_sub_errors_empty(ss[n - 1].ast.sub_topics, ss[n - 1].ast.sub_topics.len() as int);
    }
}

/// The analyzer collects no violation exactly for the trees
/// [`sp_valid`] describes: a single-rooted tree with per-node name
/// uniqueness everywhere.
pub proof fn lemma_analysis_errors_iff_valid(a: AstView)
    ensures
        sp_analysis_errors(a).len() == 0 <==> sp_valid(a),
{
    lemma_sub_errors_empty(a.sub_topics, a.sub_topics.len() as int);
    assert(sp_root_errors(a).len() == 0 <==> (a.topics.len() == 0 && a.sub_topics.len() == 1));
}

/// Uniqueness is scoped per node: a single-rooted tree whose every
/// node satisfies its own uniqueness checks passes analysis, even
/// where sub-topic names repeat across different parents.
pub proof fn lemma_per_node_uniqueness_suffices(a: AstView)
    requires
        a.topics.len() == 0,
        a.sub_topics.len() == 1,
        forall|k: int| 0 <= k < a.sub_topics.len() ==> subtree_names_ok(#[trigger] a.sub_topics[k]),
    ensures
        sp_analysis_errors(a).len() == 0,
{
    lemma_analysis_errors_iff_valid(a);
}

/// Among the first `n` topics of a node, a topic whose name repeats an
/// earlier one is always reported under its own name.
proof fn lemma_topic_dup_reported(ts: Seq<TopicView>, i: int, j: int, n: int)
    requires
        0 <= i < j < n <= ts.len(),
        ts[i].name == ts[j].name,
    ensures
        exists|e: SemanticErrorView|
            #[trigger] sp_topic_dup_errors(ts, n).contains(e) && e.kind
                == SemanticErrorKind::DuplicateTopic && e.name == ts[j].name,
    decreases n,
{
    if n - 1 > j {
        lemma_topic_dup_reported(ts, i, j, n - 1);
        let e = choose|e: SemanticErrorView|
            #[trigger] sp_topic_dup_errors(ts, n - 1).contains(e) && e.kind
                == SemanticErrorKind::DuplicateTopic && e.name == ts[j].name;
        let pre = sp_topic_dup_errors(ts, n - 1);
        let idx = choose|idx: int| 0 <= idx < pre.len() && pre[idx] == e;
        assert(sp_topic_dup_errors(ts, n)[idx] == e);
        assert(sp_topic_dup_errors(ts, n).contains(e));
    } else {
        let e = SemanticErrorView {
            kind: SemanticErrorKind::DuplicateTopic,
            name: ts[n - 1].name,
            span: ts[n - 1].span,
        };
        assert(exists|j0: int| 0 <= j0 < n - 1 && (#[trigger] ts[j0].name) == ts[n - 1].name);
        let tail = seq![e];
        assert(sp_topic_dup_errors(ts, n) == sp_topic_dup_errors(ts, n - 1) + tail);
        assert(sp_topic_dup_errors(ts, n)[sp_topic_dup_errors(ts, n).len() - 1] == e);
        assert(sp_topic_dup_errors(ts, n).contains(e));
    }
}

/// The node `nv` occurs in the subtree rooted at `st`.
pub open spec fn node_in_subtree(nv: AstView, st: SubTopicView) -> bool
    decreases st,
{
    nv == st.ast || exists|k: int|
        0 <= k < st.ast.sub_topics.len() && node_in_subtree(nv, #[trigger] st.ast.sub_topics[k])
}

/// The node `nv` occurs somewhere in the tree `a`, below the top
/// level.
pub open spec fn node_in_tree(nv: AstView, a: AstView) -> bool {
    exists|k: int| 0 <= k < a.sub_topics.len() && node_in_subtree(nv, #[trigger] a.sub_topics[k])
}

/// All violations collected within one sub-topic's subtree.
pub open spec fn st_errors(st: SubTopicView) -> Seq<SemanticErrorView> {
    sp_topic_dup_errors(st.ast.topics, st.ast.topics.len() as int) + sp_sub_errors(
        st.ast.sub_topics,
        st.ast.sub_topics.len() as int,
    )
}

/// Everything collected within the `k`-th sub-topic is collected among
/// the first `n` sub-topics, for `k < n`.
proof fn lemma_sub_errors_contains(ss: Seq<SubTopicView>, n: int, k: int, e: SemanticErrorView)
    requires
        0 <= k < n <= ss.len(),
        st_errors(ss[k]).contains(e),
    ensures
        sp_sub_errors(ss, n).contains(e),
    decreases n,
{
    if k == n - 1 {
        let pre = sp_sub_errors(ss, n - 1);
        let tp = sp_topic_dup_errors(ss[n - 1].ast.topics, ss[n - 1].ast.topics.len() as int);
        let sub = sp_sub_errors(ss[n - 1].ast.sub_topics, ss[n - 1].ast.sub_topics.len() as int);
        let idx = choose|idx: int| 0 <= idx < st_errors(ss[k]).len() && st_errors(ss[k])[idx] == e;
        assert(st_errors(ss[k])[idx] == (tp + sub)[idx]);
        assert(sp_sub_errors(ss, n)[pre.len() + idx] == (tp + sub)[idx]);
        assert(sp_sub_errors(ss, n).contains(e));
    } else {
        lemma_sub_errors_contains(ss, n - 1, k, e);
        let pre = sp_sub_errors(ss, n - 1);
        let idx = choose|idx: int| 0 <= idx < pre.len() && pre[idx] == e;
        assert(sp_sub_errors(ss, n)[idx] == e);
        assert(sp_sub_errors(ss, n).contains(e));
    }
}

/// A duplicate topic name within any node of the subtree rooted at
/// `st` is reported, under its own name, among the subtree's collected
/// violations.
proof fn lemma_subtree_dup_reported(st: SubTopicView, nv: AstView, i: int, j: int)
    requires
        node_in_subtree(nv, st),
        0 <= i < j < nv.topics.len(),
        nv.topics[i].name == nv.topics[j].name,
    ensures
        exists|e: SemanticErrorView|
            #[trigger] st_errors(st).contains(e) && e.kind == SemanticErrorKind::DuplicateTopic
                && e.name == nv.topics[j].name,
    decreases st,
{
    if nv == st.ast {
        lemma_topic_dup_reported(st.ast.topics, i, j, st.ast.topics.len() as int);
        let e = choose|e: SemanticErrorView|
            #[trigger] sp_topic_dup_errors(st.ast.topics, st.ast.topics.len() as int).contains(e)
                && e.kind == SemanticErrorKind::DuplicateTopic && e.name == nv.topics[j].name;
        let tp = sp_topic_dup_errors(st.ast.topics, st.ast.topics.len() as int);
        let idx = choose|idx: int| 0 <= idx < tp.len() && tp[idx] == e;
        assert(st_errors(st)[idx] == e);
        assert(st_errors(st).contains(e));
    } else {
        let k = choose|k: int|
            0 <= k < st.ast.sub_topics.len() && node_in_subtree(nv, #[trigger] st.ast.sub_topics[k]);
        lemma_subtree_dup_reported(st.ast.sub_topics[k], nv, i, j);
        let e = choose|e: SemanticErrorView|
            #[trigger] st_errors(st.ast.sub_topics[k]).contains(e) && e.kind
                == SemanticErrorKind::DuplicateTopic && e.name == nv.topics[j].name;
        lemma_sub_errors_contains(st.ast.sub_topics, st.ast.sub_topics.len() as int, k, e);
        let sub = sp_sub_errors(st.ast.sub_topics, st.ast.sub_topics.len() as int);
        let idx = choose|idx: int| 0 <= idx < sub.len() && sub[idx] == e;
        let tp = sp_topic_dup_errors(st.ast.topics, st.ast.topics.len() as int);
        assert(st_errors(st)[tp.len() + idx] == e);
        assert(st_errors(st).contains(e));
    }
}

/// A topic name appearing twice under the same parent anywhere in the
/// tree is reported by the analyzer, under its own name, and analysis
/// fails, so generation cannot run.
pub proof fn lemma_duplicate_topic_reported(a: AstView, nv: AstView, i: int, j: int)
    requires
        node_in_tree(nv, a),
        0 <= i < j < nv.topics.len(),
        nv.topics[i].name == nv.topics[j].name,
    ensures
        exists|e: SemanticErrorView|
            #[trigger] sp_analysis_errors(a).contains(e) && e.kind
                == SemanticErrorKind::DuplicateTopic && e.name == nv.topics[j].name,
        sp_analysis_errors(a).len() > 0,
        !sp_valid(a),
{
    let k = choose|k: int|
        0 <= k < a.sub_topics.len() && node_in_subtree(nv, #[trigger] a.sub_topics[k]);
    lemma_subtree_dup_reported(a.sub_topics[k], nv, i, j);
    let e = choose|e: SemanticErrorView|
        #[trigger] st_errors(a.sub_topics[k]).contains(e) && e.kind
            == SemanticErrorKind::DuplicateTopic && e.name == nv.topics[j].name;
    lemma_sub_errors_contains(a.sub_topics, a.sub_topics.len() as int, k, e);
    let sub = sp_sub_errors(a.sub_topics, a.sub_topics.len() as int);
    let idx = choose|idx: int| 0 <= idx < sub.len() && sub[idx] == e;
    assert(sp_analysis_errors(a)[sp_root_errors(a).len() + idx] == e);
    assert(sp_analysis_errors(a).contains(e));
    lemma_analysis_errors_iff_valid(a);
}

/// The opaque token analysis hands out on success: it records, in
/// ghost state, the tree that was validated.
pub struct Analysis {
    validated: Ghost<AstView>,
}

impl Analysis {
    /// The tree this token vouches for.
    pub closed spec fn tree(&self) -> AstView {
        self.validated@
    }
}

/// Byte-for-byte equality of two names.
fn bytes_eq(a: &Vec<u8>, b: &Vec<u8>) -> (r: bool)
    ensures
        r == (a@ == b@),
{
    if a.len() != b.len() {
        return false;
    }
    let mut k: usize = 0;
    while k < a.len()
        invariant
            k <= a@.len(),
            a@.len() == b@.len(),
            forall|m: int| 0 <= m < k ==> a@[m] == b@[m],
        decreases a@.len() - k,
    {
        if a[k] != b[k] {
            return false;
        }
        k = k + 1;
    }
    proof {
        assert(a@ =~= b@);
    }
    true
}

/// Append one collected violation.
fn push_err(errors: &mut Vec<SemanticError>, e: SemanticError)
    ensures
        errs_view(*final(errors)) == errs_view(*old(errors)) + seq![e@],
{
    let ghost pre = *errors;
    let ghost ev = e@;
    errors.push(e);
    proof {
        assert forall|k: int| 0 <= k < errors@.len() implies #[trigger] errs_view(*errors)[k] == (
        errs_view(pre) + seq![ev])[k] by {
            if k < pre@.len() {
                assert(errors@[k] == pre@[k]);
            }
        }
        assert(errs_view(*errors) =~= errs_view(pre) + seq![ev]);
    }
}

/// Collect one violation for every topic of a node whose name already
/// occurred earlier in the same node.
fn check_topics_for_uniqueness(topics: &Vec<Topic>, errors: &mut Vec<SemanticError>)
    ensures
        errs_view(*final(errors)) == errs_view(*old(errors)) + sp_topic_dup_errors(
            topics_view(topics@),
            topics@.len() as int,
        ),
{
    let ghost base = errs_view(*old(errors));
    let ghost tsv = topics_view(topics@);
    proof {
        assert(errs_view(*errors) =~= base + sp_topic_dup_errors(tsv, 0));
    }
    let mut i: usize = 0;
    while i < topics.len()
        invariant
            i <= topics@.len(),
            tsv == topics_view(topics@),
            errs_view(*errors) == base + sp_topic_dup_errors(tsv, i as int),
        decreases topics@.len() - i,
    {
        let ghost pre = errs_view(*errors);
        let mut found = false;
        let mut j: usize = 0;
        while j < i
            invariant
                j <= i < topics@.len(),
                tsv == topics_view(topics@),
                found == exists|j0: int|
                    0 <= j0 < j && (#[trigger] tsv[j0].name) == tsv[i as int].name,
            decreases i - j,
        {
            proof {
                assert(tsv[j as int] == topic_view(topics@[j as int]));
                assert(tsv[i as int] == topic_view(topics@[i as int]));
            }
            if bytes_eq(&topics[j].name, &topics[i].name) {
                found = true;
                proof {
                    assert((tsv[j as int].name) == tsv[i as int].name);
                }
            }
            j = j + 1;
        }
        if found {
            proof {
                assert(tsv[i as int] == topic_view(topics@[i as int]));
            }
            let e = SemanticError {
                kind: SemanticErrorKind::DuplicateTopic,
                name: clone_bytes(&topics[i].name),
                span: topics[i].span,
            };
            let ghost ev = e@;
            push_err(errors, e);
            proof {
                assert(ev == SemanticErrorView {
                    kind: SemanticErrorKind::DuplicateTopic,
                    name: tsv[i as int].name,
                    span: tsv[i as int].span,
                });
                assert(sp_topic_dup_errors(tsv, i + 1 as int) =~= sp_topic_dup_errors(
                    tsv,
                    i as int,
                ) + seq![ev]);
                assert(errs_view(*errors) =~= base + sp_topic_dup_errors(tsv, i + 1 as int));
            }
        } else {
            proof {
                assert(sp_topic_dup_errors(tsv, i + 1 as int) =~= sp_topic_dup_errors(
                    tsv,
                    i as int,
                ));
                assert(errs_view(*errors) =~= base + sp_topic_dup_errors(tsv, i + 1 as int));
            }
        }
        i = i + 1;
    }
}

/// Collect, bottom-up, the violations of every sub-topic's subtree,
/// and one violation for every sub-topic whose name already occurred
/// earlier in the same node.
#[verifier::rlimit(80)]
fn check_subtopics_for_uniqueness(sub_topics: &Vec<SubTopic>, errors: &mut Vec<SemanticError>)
    ensures
        errs_view(*final(errors)) == errs_view(*old(errors)) + sp_sub_errors(
            sub_topics_view(sub_topics@, 0),
            sub_topics@.len() as int,
        ),
    decreases sub_topics@,
{
    let ghost base = errs_view(*old(errors));
    let ghost ssv = sub_topics_view(sub_topics@, 0);
    proof {
        lemma_sub_topics_view(sub_topics@, 0);
        assert(errs_view(*errors) =~= base + sp_sub_errors(ssv, 0));
    }
    let mut i: usize = 0;
    while i < sub_topics.len()
        invariant
            i <= sub_topics@.len(),
            ssv == sub_topics_view(sub_topics@, 0),
            ssv.len() == sub_topics@.len(),
            forall|m: int| 0 <= m < sub_topics@.len() ==> ssv[m] == sub_topic_view(
                #[trigger] sub_topics@[m],
            ),
            errs_view(*errors) == base + sp_sub_errors(ssv, i as int),
        decreases sub_topics@.len() - i,
    {
        let ghost pre = base + sp_sub_errors(ssv, i as int);
        let ghost tpx = sp_topic_dup_errors(
            topics_view(sub_topics@[i as int].ast.topics@),
            sub_topics@[i as int].ast.topics@.len() as int,
        );
        check_topics_for_uniqueness(&sub_topics[i].ast.topics, errors);
        proof {
            assert(errs_view(*errors) == pre + tpx);
        }
        let ghost e1 = errs_view(*errors);
        let ghost subx = sp_sub_errors(
            sub_topics_view(sub_topics@[i as int].ast.sub_topics@, 0),
            sub_topics@[i as int].ast.sub_topics@.len() as int,
        );
        check_subtopics_for_uniqueness(&sub_topics[i].ast.sub_topics, errors);
        proof {
            assert(errs_view(*errors) == e1 + subx);
        }
        let ghost tp = sp_topic_dup_errors(
            ssv[i as int].ast.topics,
            ssv[i as int].ast.topics.len() as int,
        );
        let ghost sub = sp_sub_errors(
            ssv[i as int].ast.sub_topics,
            ssv[i as int].ast.sub_topics.len() as int,
        );
        proof {
            assert(ssv[i as int].ast == crate::ast::ast_view(sub_topics@[i as int].ast));
            assert(ssv[i as int].ast.topics == topics_view(sub_topics@[i as int].ast.topics@));
            assert(ssv[i as int].ast.sub_topics == sub_topics_view(
                sub_topics@[i as int].ast.sub_topics@,
                0,
            ));
            lemma_sub_topics_view(sub_topics@[i as int].ast.sub_topics@, 0);
            assert(tp == tpx);
            assert(sub == subx);
            assert(errs_view(*errors) =~= pre + tp + sub);
        }
        let mut found = false;
        let mut j: usize = 0;
        while j < i
            invariant
                j <= i < sub_topics@.len(),
                ssv == sub_topics_view(sub_topics@, 0),
                ssv.len() == sub_topics@.len(),
                forall|m: int| 0 <= m < sub_topics@.len() ==> ssv[m] == sub_topic_view(
                    #[trigger] sub_topics@[m],
                ),
                found == exists|j0: int|
                    0 <= j0 < j && (#[trigger] ssv[j0].name) == ssv[i as int].name,
            decreases i - j,
        {
            if bytes_eq(&sub_topics[j].name, &sub_topics[i].name) {
                found = true;
                proof {
                    assert((ssv[j as int].name) == ssv[i as int].name);
                }
            }
            j = j + 1;
        }
        if found {
            let e = SemanticError {
                kind: SemanticErrorKind::DuplicateSubTopic,
                name: clone_bytes(&sub_topics[i].name),
                span: sub_topics[i].span,
            };
            let ghost ev = e@;
            push_err(errors, e);
            proof {
                assert(ev == SemanticErrorView {
                    kind: SemanticErrorKind::DuplicateSubTopic,
                    name: ssv[i as int].name,
                    span: ssv[i as int].span,
                });
                assert(sp_sub_errors(ssv, i + 1 as int) =~= sp_sub_errors(ssv, i as int) + tp
                    + sub + seq![ev]);
                assert(errs_view(*errors) =~= base + sp_sub_errors(ssv, i + 1 as int));
            }
        } else {
            proof {
                assert(sp_sub_errors(ssv, i + 1 as int) =~= sp_sub_errors(ssv, i as int) + tp
                    + sub);
                assert(errs_view(*errors) =~= base + sp_sub_errors(ssv, i + 1 as int));
            }
        }
        i = i + 1;
    }
}

/// Analyze a parsed tree.
///
/// On success the result is an [`Analysis`] token for exactly this
/// tree; on failure it is the complete set of violations found
/// anywhere in the tree, in collection order, as
/// [`sp_analysis_errors`] describes it.  Analysis succeeds exactly for
/// the trees [`sp_valid`] describes.
pub fn analyze(ast: &Ast) -> (r: Result<Analysis, Vec<SemanticError>>)
    ensures
        (match r {
            Ok(an) => {
                &&& an.tree() == crate::ast::ast_view(*ast)
                &&& sp_valid(crate::ast::ast_view(*ast))
                &&& sp_analysis_errors(crate::ast::ast_view(*ast)).len() == 0
            },
            Err(errs) => {
                &&& errs_view(errs) == sp_analysis_errors(crate::ast::ast_view(*ast))
                &&& errs@.len() > 0
                &&& !sp_valid(crate::ast::ast_view(*ast))
            },
        }),
        r is Ok <==> sp_valid(crate::ast::ast_view(*ast)),
{
    let ghost av = crate::ast::ast_view(*ast);
    let ghost tsv = topics_view(ast.topics@);
    let mut errors: Vec<SemanticError> = Vec::new();

    let ghost root_topic_errs = av.topics.map_values(
        |t: TopicView| SemanticErrorView {
            kind: SemanticErrorKind::TopicAtTopLevel,
            name: t.name,
            span: t.span,
        },
    );
    proof {
        assert(errs_view(errors) =~= root_topic_errs.subrange(0, 0));
    }
    let mut i: usize = 0;
    while i < ast.topics.len()
        invariant
            i <= ast.topics@.len(),
            av == crate::ast::ast_view(*ast),
            av.topics.len() == ast.topics@.len(),
            root_topic_errs == av.topics.map_values(
                |t: TopicView| SemanticErrorView {
                    kind: SemanticErrorKind::TopicAtTopLevel,
                    name: t.name,
                    span: t.span,
                },
            ),
            errs_view(errors) == root_topic_errs.subrange(0, i as int),
        decreases ast.topics@.len() - i,
    {
        let ghost prev = errs_view(errors);
        let e = SemanticError {
            kind: SemanticErrorKind::TopicAtTopLevel,
            name: clone_bytes(&ast.topics[i].name),
            span: ast.topics[i].span,
        };
        let ghost ev = e@;
        push_err(&mut errors, e);
        proof {
            assert(av.topics[i as int] == topic_view(ast.topics@[i as int]));
            assert(root_topic_errs[i as int] == ev);
            assert(errs_view(errors) =~= root_topic_errs.subrange(0, i + 1 as int));
        }
        i = i + 1;
    }
    proof {
        assert(root_topic_errs.subrange(0, av.topics.len() as int) =~= root_topic_errs);
    }

    let ghost root_sub_errs = av.sub_topics.map_values(
        |s: SubTopicView| SemanticErrorView {
            kind: SemanticErrorKind::MultipleRoots,
            name: s.name,
            span: s.span,
        },
    );
    proof {
        lemma_sub_topics_view(ast.sub_topics@, 0);
    }
    if ast.sub_topics.len() > 1 {
        let mut k: usize = 0;
        while k < ast.sub_topics.len()
            invariant
                k <= ast.sub_topics@.len(),
                av == crate::ast::ast_view(*ast),
                av.sub_topics.len() == ast.sub_topics@.len(),
                forall|m: int| 0 <= m < av.sub_topics.len() ==> av.sub_topics[m]
                    == sub_topic_view(#[trigger] ast.sub_topics@[m]),
                root_sub_errs == av.sub_topics.map_values(
                    |s: SubTopicView| SemanticErrorView {
                        kind: SemanticErrorKind::MultipleRoots,
                        name: s.name,
                        span: s.span,
                    },
                ),
                errs_view(errors) == root_topic_errs + root_sub_errs.subrange(0, k as int),
            decreases ast.sub_topics@.len() - k,
        {
            let e = SemanticError {
                kind: SemanticErrorKind::MultipleRoots,
                name: clone_bytes(&ast.sub_topics[k].name),
                span: ast.sub_topics[k].span,
            };
            let ghost ev = e@;
            push_err(&mut errors, e);
            proof {
                assert(root_sub_errs[k as int] == ev);
                assert(errs_view(errors) =~= root_topic_errs + root_sub_errs.subrange(
                    0,
                    k + 1 as int,
                ));
            }
            k = k + 1;
        }
        proof {
            assert(root_sub_errs.subrange(0, av.sub_topics.len() as int) =~= root_sub_errs);
            assert(errs_view(errors) =~= sp_root_errors(av));
        }
    } else if ast.sub_topics.len() == 0 {
        let e = SemanticError {
            kind: SemanticErrorKind::MissingRoot,
            name: Vec::new(),
            span: Span { lo: 0, hi: 0 },
        };
        let ghost ev = e@;
        push_err(&mut errors, e);
        proof {
            assert(ev == SemanticErrorView {
                kind: SemanticErrorKind::MissingRoot,
                name: Seq::<u8>::empty(),
                span: Span { lo: 0, hi: 0 },
            });
            assert(errs_view(errors) =~= sp_root_errors(av));
        }
    } else {
        proof {
            assert(root_topic_errs + Seq::<SemanticErrorView>::empty() =~= root_topic_errs);
            assert(errs_view(errors) =~= sp_root_errors(av));
        }
    }

    check_subtopics_for_uniqueness(&ast.sub_topics, &mut errors);
    proof {
        assert(av.sub_topics == sub_topics_view(ast.sub_topics@, 0));
        assert(errs_view(errors) =~= sp_analysis_errors(av));
        lemma_analysis_errors_iff_valid(av);
    }

    if errors.len() > 0 {
        Err(errors)
    } else {
        proof {
            assert(errs_view(errors).len() == errors@.len());
        }
        Ok(Analysis { validated: Ghost(av) })
    }
}


} // verus!
