//! The abstract syntax tree of a topic-tree specification.
//!
//! A specification is a tree of named topics: leaf [`Topic`]s carry a
//! payload type and a buffer capacity, interior [`SubTopic`]s group a
//! nested [`Ast`] of their own.  Each exec type has a ghost counterpart
//! (`TopicView`, `SubTopicView`, `AstView`) that contracts and lemmas
//! speak about.

use vstd::prelude::*;

verus! {

/// A source span: byte offsets `[lo, hi)` into the specification text.
#[derive(Clone, Copy, PartialEq, Eq, Structural, Debug)]
pub struct Span {
    /// Offset of the first byte of the spanned text.
    pub lo: usize,
    /// Offset one past the last byte of the spanned text.
    pub hi: usize,
}

/// A reference to a payload type: path segments, and the generic
/// arguments of the final segment (empty when the path has none).
#[derive(Debug)]
pub struct TypePath {
    /// The `::`-separated path segments, as identifier bytes.
    pub segments: Vec<Vec<u8>>,
    /// Generic arguments attached to the last segment.
    pub args: Vec<TypePath>,
}

/// Ghost counterpart of [`TypePath`].
pub struct TypePathView {
    /// The `::`-separated path segments.
    pub segments: Seq<Seq<u8>>,
    /// Generic arguments attached to the last segment.
    pub args: Seq<TypePathView>,
}

/// Ghost image of a payload type reference.
pub open spec fn type_path_view(p: TypePath) -> TypePathView
    decreases p, 1int,
{
    TypePathView {
        segments: p.segments@.map_values(|s: Vec<u8>| s@),
        args: type_paths_view(p.args@, 0),
    }
}

/// Ghost images of the type paths of `s` from index `i` on.
pub open spec fn type_paths_view(s: Seq<TypePath>, i: int) -> Seq<TypePathView>
    decreases s, s.len() - i,
{
    if i < 0 || i >= s.len() {
        Seq::empty()
    } else {
        seq![type_path_view(s[i])] + type_paths_view(s, i + 1)
    }
}

impl View for TypePath {
    type V = TypePathView;

    open spec fn view(&self) -> TypePathView {
        type_path_view(*self)
    }
}

/// A leaf declaration `name [capacity] => payload`.
#[derive(Debug)]
pub struct Topic {
    /// The topic name, unique within its parent node.
    pub name: Vec<u8>,
    /// The payload type carried by the topic's channel.
    pub payload: TypePath,
    /// Number of in-flight undelivered messages the channel retains.
    pub capacity: usize,
    /// Span of the topic name in the source text.
    pub span: Span,
}

/// Ghost counterpart of [`Topic`].
pub struct TopicView {
    /// The topic name.
    pub name: Seq<u8>,
    /// The payload type.
    pub payload: TypePathView,
    /// The declared buffer capacity.
    pub capacity: nat,
    /// Span of the topic name.
    pub span: Span,
}

/// Ghost image of a topic declaration.
pub open spec fn topic_view(t: Topic) -> TopicView {
    TopicView {
        name: t.name@,
        payload: type_path_view(t.payload),
        capacity: t.capacity as nat,
        span: t.span,
    }
}

impl View for Topic {
    type V = TopicView;

    open spec fn view(&self) -> TopicView {
        topic_view(*self)
    }
}

/// An interior declaration `module::Name => { ... }`.
#[derive(Debug)]
pub struct SubTopic {
    /// The type-level name of the sub-topic (second path segment).
    pub name: Vec<u8>,
    /// The namespace identifier (first path segment).
    pub module: Vec<u8>,
    /// The sub-topic's own topics and sub-topics.
    pub ast: Ast,
    /// Span of the sub-topic name in the source text.
    pub span: Span,
}

/// Ghost counterpart of [`SubTopic`].
pub struct SubTopicView {
    /// The type-level name of the sub-topic.
    pub name: Seq<u8>,
    /// The namespace identifier.
    pub module: Seq<u8>,
    /// The sub-topic's own node.
    pub ast: AstView,
    /// Span of the sub-topic name.
    pub span: Span,
}

/// One level of the topic tree: the topics and sub-topics owned by a
/// single node.
#[derive(Debug)]
pub struct Ast {
    /// The leaf topics of this node, in declaration order.
    pub topics: Vec<Topic>,
    /// The sub-topics of this node, in declaration order.
    pub sub_topics: Vec<SubTopic>,
}

/// Ghost counterpart of [`Ast`].
pub struct AstView {
    /// The leaf topics of this node.
    pub topics: Seq<TopicView>,
    /// The sub-topics of this node.
    pub sub_topics: Seq<SubTopicView>,
}

/// Ghost image of a sub-topic declaration.
pub open spec fn sub_topic_view(st: SubTopic) -> SubTopicView
    decreases st, 1int,
{
    SubTopicView {
        name: st.name@,
        module: st.module@,
        ast: ast_view(st.ast),
        span: st.span,
    }
}

/// Ghost images of the sub-topics of `s` from index `i` on.
pub open spec fn sub_topics_view(s: Seq<SubTopic>, i: int) -> Seq<SubTopicView>
    decreases s, s.len() - i,
{
    if i < 0 || i >= s.len() {
        Seq::empty()
    } else {
        seq![sub_topic_view(s[i])] + sub_topics_view(s, i + 1)
    }
}

/// Ghost images of a topic list.
pub open spec fn topics_view(s: Seq<Topic>) -> Seq<TopicView> {
    s.map_values(|t: Topic| topic_view(t))
}

/// Ghost image of one node of the tree.
pub open spec fn ast_view(a: Ast) -> AstView
    decreases a, 1int,
{
    AstView {
        topics: topics_view(a.topics@),
        sub_topics: sub_topics_view(a.sub_topics@, 0),
    }
}

impl View for SubTopic {
    type V = SubTopicView;

    open spec fn view(&self) -> SubTopicView {
        sub_topic_view(*self)
    }
}

impl View for Ast {
    type V = AstView;

    open spec fn view(&self) -> AstView {
        ast_view(*self)
    }
}

/// The images under `sub_topics_view` are the images of the elements,
/// index by index.
pub proof fn lemma_sub_topics_view(s: Seq<SubTopic>, i: int)
    requires
        0 <= i <= s.len(),
    ensures
        sub_topics_view(s, i).len() == s.len() - i,
        forall|j: int| i <= j < s.len() ==> sub_topics_view(s, i)[j - i] == sub_topic_view(#[trigger] s[j]),
    decreases s.len() - i,
{
    if i < s.len() {
        lemma_sub_topics_view(s, i + 1);
    }
}

/// The images under `type_paths_view` are the images of the elements,
/// index by index.
pub proof fn lemma_type_paths_view(s: Seq<TypePath>, i: int)
    requires
        0 <= i <= s.len(),
    ensures
        type_paths_view(s, i).len() == s.len() - i,
        forall|j: int| i <= j < s.len() ==> type_paths_view(s, i)[j - i] == type_path_view(#[trigger] s[j]),
    decreases s.len() - i,
{
    if i < s.len() {
        lemma_type_paths_view(s, i + 1);
    }
}

/// A fresh copy of the bytes of `src`.
pub(crate) fn clone_bytes(src: &Vec<u8>) -> (r: Vec<u8>)
    ensures
        r@ == src@,
{
    let mut out: Vec<u8> = Vec::new();
    let mut k: usize = 0;
    while k < src.len()
        invariant
            k <= src@.len(),
            out@ == src@.subrange(0, k as int),
        decreases src@.len() - k,
    {
        out.push(src[k]);
        assert(out@ =~= src@.subrange(0, k + 1 as int));
        k = k + 1;
    }
    assert(out@ =~= src@);
    out
}

} // verus!
