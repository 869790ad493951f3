//! Code generation: from a validated topic tree to the declarations of
//! the message bus.
//!
//! The generator is a pure tree-to-tree transform: it walks the
//! validated AST and produces, per sub-topic, a module declaration
//! holding a tagged-union type (one variant per topic and per child
//! sub-topic), a channel sized to the subtree's aggregate capacity,
//! and, per topic, a channel of the topic's own capacity together with
//! the fan-out publishes towards every ancestor.  An external emitter
//! turns the declaration tree into target text; generation itself is a
//! function of the AST alone, so equal trees yield equal output.

use vstd::prelude::*;
use crate::analysis::Analysis;
use crate::ast::{Ast, AstView, SubTopic, SubTopicView, Topic, TopicView, TypePath, TypePathView,
    ast_view, clone_bytes, lemma_sub_topics_view, sub_topic_view, sub_topics_view, topic_view,
    topics_view, type_path_view};

verus! {

/// What a generated channel or tagged-union variant carries: a payload
/// type from the specification, or a generated tagged-union type named
/// after a sub-topic.
#[derive(Debug)]
pub enum TypeRef {
    /// A payload type reference from the specification.
    Path(TypePath),
    /// The generated tagged-union type of the named sub-topic.
    Union(Vec<u8>),
}

/// Ghost counterpart of [`TypeRef`].
pub enum TypeRefView {
    /// A payload type reference from the specification.
    Path(TypePathView),
    /// The generated tagged-union type of the named sub-topic.
    Union(Seq<u8>),
}

impl View for TypeRef {
    type V = TypeRefView;

    open spec fn view(&self) -> TypeRefView {
        match self {
            TypeRef::Path(p) => TypeRefView::Path(type_path_view(*p)),
            TypeRef::Union(n) => TypeRefView::Union(n@),
        }
    }
}

/// One variant of a generated tagged-union type.
#[derive(Debug)]
pub struct VariantDecl {
    /// The variant name: a topic or child sub-topic name.
    pub name: Vec<u8>,
    /// What the variant carries.
    pub payload: TypeRef,
}

/// Ghost counterpart of [`VariantDecl`].
pub struct VariantDeclView {
    /// The variant name.
    pub name: Seq<u8>,
    /// What the variant carries.
    pub payload: TypeRefView,
}

impl View for VariantDecl {
    type V = VariantDeclView;

    open spec fn view(&self) -> VariantDeclView {
        VariantDeclView { name: self.name@, payload: self.payload@ }
    }
}

/// A generated tagged-union type: the "all messages observable at or
/// under this node" type.
#[derive(Debug)]
pub struct EnumDecl {
    /// The type name: the sub-topic name.
    pub name: Vec<u8>,
    /// One variant per topic, then one per child sub-topic, in
    /// declaration order.
    pub variants: Vec<VariantDecl>,
}

/// Ghost counterpart of [`EnumDecl`].
pub struct EnumDeclView {
    /// The type name.
    pub name: Seq<u8>,
    /// The variants, topics first.
    pub variants: Seq<VariantDeclView>,
}

/// Ghost image of a variant list.
pub open spec fn variants_view(v: Vec<VariantDecl>) -> Seq<VariantDeclView> {
    v@.map_values(|x: VariantDecl| x@)
}

impl View for EnumDecl {
    type V = EnumDeclView;

    open spec fn view(&self) -> EnumDeclView {
        EnumDeclView { name: self.name@, variants: variants_view(self.variants) }
    }
}

/// One fan-out publish of a topic towards an ancestor sub-topic: on
/// the channel of `channel`, found `supers` module levels up, the
/// published value wraps the payload in the constructor chain `wrap`
/// (outermost first), ending in the topic's own variant.
#[derive(Debug)]
pub struct FanStep {
    /// How many module levels up the ancestor's channel lives.
    pub supers: usize,
    /// The ancestor sub-topic whose channel receives the wrapped value.
    pub channel: Vec<u8>,
    /// The constructor chain `(union type, variant)` applied to the
    /// cloned payload, outermost first.
    pub wrap: Vec<(Vec<u8>, Vec<u8>)>,
}

/// Ghost counterpart of [`FanStep`].
pub struct FanStepView {
    /// How many module levels up the ancestor's channel lives.
    pub supers: nat,
    /// The ancestor sub-topic whose channel receives the wrapped value.
    pub channel: Seq<u8>,
    /// The constructor chain, outermost first.
    pub wrap: Seq<(Seq<u8>, Seq<u8>)>,
}

impl View for FanStep {
    type V = FanStepView;

    open spec fn view(&self) -> FanStepView {
        FanStepView {
            supers: self.supers as nat,
            channel: self.channel@,
            wrap: self.wrap@.map_values(|p: (Vec<u8>, Vec<u8>)| (p.0@, p.1@)),
        }
    }
}

/// Ghost image of a fan-out list.
pub open spec fn fan_steps_view(v: Vec<FanStep>) -> Seq<FanStepView> {
    v@.map_values(|f: FanStep| f@)
}

/// The generated declarations for one topic: a zero-size handle type,
/// a channel of the topic's declared capacity over its payload type,
/// `subscribe`, and `publish` with the listed ancestor fan-out.
#[derive(Debug)]
pub struct TopicDecl {
    /// The topic name (also the handle type's name).
    pub name: Vec<u8>,
    /// The payload type of the topic's channel.
    pub payload: TypePath,
    /// The channel capacity: the topic's declared capacity.
    pub capacity: usize,
    /// The ancestor publishes performed by `publish`, innermost
    /// ancestor first.
    pub fanout: Vec<FanStep>,
}

/// Ghost counterpart of [`TopicDecl`].
pub struct TopicDeclView {
    /// The topic name.
    pub name: Seq<u8>,
    /// The payload type of the topic's channel.
    pub payload: TypePathView,
    /// The channel capacity.
    pub capacity: nat,
    /// The ancestor publishes, innermost ancestor first.
    pub fanout: Seq<FanStepView>,
}

impl View for TopicDecl {
    type V = TopicDeclView;

    open spec fn view(&self) -> TopicDeclView {
        TopicDeclView {
            name: self.name@,
            payload: type_path_view(self.payload),
            capacity: self.capacity as nat,
            fanout: fan_steps_view(self.fanout),
        }
    }
}

/// The generated declarations for one sub-topic: a module named after
/// its namespace identifier, holding the tagged-union type, a channel
/// over that type sized to the subtree's aggregate capacity, the
/// topics' declarations, and the nested modules.
#[derive(Debug)]
pub struct ModuleDecl {
    /// The module (namespace) identifier.
    pub module: Vec<u8>,
    /// The sub-topic name: the tagged-union type generated inside.
    pub name: Vec<u8>,
    /// Whether the type is re-exported one level up (everywhere but at
    /// the synthetic root).
    pub reexport: bool,
    /// The channel capacity: the subtree's aggregate capacity.
    pub capacity: usize,
    /// The tagged-union type of everything under this node.
    pub union_decl: EnumDecl,
    /// The topic declarations of this node.
    pub topics: Vec<TopicDecl>,
    /// The nested modules, one per child sub-topic.
    pub sub_modules: Vec<ModuleDecl>,
}

/// Ghost counterpart of [`ModuleDecl`].
pub struct ModuleDeclView {
    /// The module (namespace) identifier.
    pub module: Seq<u8>,
    /// The sub-topic name.
    pub name: Seq<u8>,
    /// Whether the type is re-exported one level up.
    pub reexport: bool,
    /// The channel capacity: the subtree's aggregate capacity.
    pub capacity: nat,
    /// The tagged-union type of everything under this node.
    pub union_decl: EnumDeclView,
    /// The topic declarations of this node.
    pub topics: Seq<TopicDeclView>,
    /// The nested modules.
    pub sub_modules: Seq<ModuleDeclView>,
}

/// Ghost image of one module declaration.
pub open spec fn module_decl_view(m: ModuleDecl) -> ModuleDeclView
    decreases m, 1int,
{
    ModuleDeclView {
        module: m.module@,
        name: m.name@,
        reexport: m.reexport,
        capacity: m.capacity as nat,
        union_decl: m.union_decl@,
        topics: m.topics@.map_values(|t: TopicDecl| t@),
        sub_modules: module_decls_view(m.sub_modules@, 0),
    }
}

/// Ghost images of the modules of `s` from index `i` on.
pub open spec fn module_decls_view(s: Seq<ModuleDecl>, i: int) -> Seq<ModuleDeclView>
    decreases s, s.len() - i,
{
    if i < 0 || i >= s.len() {
        Seq::empty()
    } else {
        seq![module_decl_view(s[i])] + module_decls_view(s, i + 1)
    }
}

impl View for ModuleDecl {
    type V = ModuleDeclView;

    open spec fn view(&self) -> ModuleDeclView {
        module_decl_view(*self)
    }
}

/// The images under `module_decls_view` are the images of the
/// elements, index by index.
pub proof fn lemma_module_decls_view(s: Seq<ModuleDecl>, i: int)
    requires
        0 <= i <= s.len(),
    ensures
        module_decls_view(s, i).len() == s.len() - i,
        forall|j: int| i <= j < s.len() ==> module_decls_view(s, i)[j - i] == module_decl_view(
            #[trigger] s[j],
        ),
    decreases s.len() - i,
{
    if i < s.len() {
        lemma_module_decls_view(s, i + 1);
    }
}

/// The whole generated artifact: the top-level modules (exactly one
/// for a validated tree).
#[derive(Debug)]
pub struct Output {
    /// The top-level module declarations.
    pub modules: Vec<ModuleDecl>,
}

/// Ghost counterpart of [`Output`].
pub struct OutputView {
    /// The top-level module declarations.
    pub modules: Seq<ModuleDeclView>,
}

impl View for Output {
    type V = OutputView;

    open spec fn view(&self) -> OutputView {
        OutputView { modules: module_decls_view(self.modules@, 0) }
    }
}

/// Sum of the declared capacities of the first `n` topics.
pub open spec fn sp_topic_caps(ts: Seq<TopicView>, n: int) -> int
    decreases n,
{
    if n <= 0 || n > ts.len() {
        0
    } else {
        sp_topic_caps(ts, n - 1) + ts[n - 1].capacity
    }
}

/// Sum of the aggregate capacities of the first `n` sub-topics.
pub open spec fn sp_sub_caps(ss: Seq<SubTopicView>, n: int) -> int
    decreases ss, n, 0int,
{
    if n <= 0 || n > ss.len() {
        0
    } else {
        sp_sub_caps(ss, n - 1) + sp_total_capacity(ss[n - 1])
    }
}

/// The aggregate capacity of a sub-topic: the sum of the capacities of
/// every topic transitively nested beneath it.  The generated channel
/// of the sub-topic is sized to this.
pub open spec fn sp_total_capacity(st: SubTopicView) -> int
    decreases st, 0int, 1int,
{
    sp_topic_caps(st.ast.topics, st.ast.topics.len() as int) + sp_sub_caps(
        st.ast.sub_topics,
        st.ast.sub_topics.len() as int,
    )
}

/// Every aggregate capacity in the subtree of `st` fits the machine's
/// index range.
pub open spec fn caps_fit(st: SubTopicView) -> bool
    decreases st,
{
    &&& sp_total_capacity(st) <= usize::MAX
    &&& forall|k: int| 0 <= k < st.ast.sub_topics.len() ==> caps_fit(#[trigger] st.ast.sub_topics[k])
}

/// Capacity sums never decrease as more topics are counted, and are
/// never negative.
pub(crate) proof fn lemma_topic_caps_mono(ts: Seq<TopicView>, n: int, m: int)
    requires
        0 <= n <= m <= ts.len(),
    ensures
        0 <= sp_topic_caps(ts, n) <= sp_topic_caps(ts, m),
    decreases m,
{
    if m > 0 && n < m {
        lemma_topic_caps_mono(ts, n, m - 1);
    } else if m > 0 {
        lemma_topic_caps_mono(ts, 0, m - 1);
    }
}

/// Aggregate capacities are never negative, and partial sub-topic sums
/// never exceed the total.
pub(crate) proof fn lemma_sub_caps_mono(ss: Seq<SubTopicView>, n: int, m: int)
    requires
        0 <= n <= m <= ss.len(),
    ensures
        0 <= sp_sub_caps(ss, n) <= sp_sub_caps(ss, m),
    decreases ss, m, 1int,
{
    if m > 0 && n < m {
        lemma_sub_caps_mono(ss, n, m - 1);
        lemma_total_capacity_nonneg(ss[m - 1]);
    } else if m > 0 {
        lemma_sub_caps_mono(ss, 0, m - 1);
        lemma_total_capacity_nonneg(ss[m - 1]);
    }
}

/// An aggregate capacity is never negative.
pub(crate) proof fn lemma_total_capacity_nonneg(st: SubTopicView)
    ensures
        sp_total_capacity(st) >= 0,
    decreases st, 2int, 0int,
{
    lemma_topic_caps_mono(st.ast.topics, 0, st.ast.topics.len() as int);
    lemma_sub_caps_mono(st.ast.sub_topics, 0, st.ast.sub_topics.len() as int);
}

/// Capacity aggregation decomposes level by level: a sub-topic's
/// aggregate capacity is the sum of its own topics' declared
/// capacities plus the aggregate capacities of its child sub-topics.
pub proof fn lemma_capacity_aggregate(st: SubTopicView)
    ensures
        sp_total_capacity(st) == sp_topic_caps(st.ast.topics, st.ast.topics.len() as int)
            + sp_sub_caps(st.ast.sub_topics, st.ast.sub_topics.len() as int),
        sp_total_capacity(st) >= 0,
{
    lemma_total_capacity_nonneg(st);
}

/// The constructor chain the fan-out applies at the ancestor `j`
/// levels above the topic's immediate parent: outermost first, ending
/// in the topic's own variant in its parent's tagged union.
/// `anc` is the ancestor chain, root first.
pub open spec fn sp_wrap(anc: Seq<Seq<u8>>, topic: Seq<u8>, j: int) -> Seq<(Seq<u8>, Seq<u8>)>
    decreases j,
{
    if j <= 0 || j >= anc.len() {
        seq![(anc[anc.len() - 1], topic)]
    } else {
        seq![(anc[anc.len() - 1 - j], anc[anc.len() - j])] + sp_wrap(anc, topic, j - 1)
    }
}

/// The fan-out list of a topic with ancestor chain `anc` (root first):
/// one publish per ancestor, innermost first; the `j`-th lives `j`
/// module levels up and wraps the payload in `sp_wrap(anc, topic, j)`.
pub open spec fn sp_fanout(anc: Seq<Seq<u8>>, topic: Seq<u8>) -> Seq<FanStepView> {
    Seq::new(
        anc.len(),
        |j: int| FanStepView {
            supers: j as nat,
            channel: anc[anc.len() - 1 - j],
            wrap: sp_wrap(anc, topic, j),
        },
    )
}

/// Shape of the fan-out constructor chain: `j + 1` constructors, the
/// outermost being the receiving ancestor's own variant for the next
/// level down, the innermost the topic's variant in its parent's
/// union.
pub proof fn lemma_wrap_chain(anc: Seq<Seq<u8>>, topic: Seq<u8>, j: int)
    requires
        0 <= j < anc.len(),
    ensures
        sp_wrap(anc, topic, j).len() == j + 1,
        forall|m: int| 0 <= m < j ==> sp_wrap(anc, topic, j)[m] == (anc[anc.len() - 1 - j + m],
            anc[anc.len() - j + m]),
        sp_wrap(anc, topic, j)[j] == (anc[anc.len() - 1], topic),
    decreases j,
{
    if j > 0 {
        lemma_wrap_chain(anc, topic, j - 1);
    }
}

/// The generated declarations of one topic under the ancestor chain
/// `anc`.
pub open spec fn sp_gen_topic(t: TopicView, anc: Seq<Seq<u8>>) -> TopicDeclView {
    TopicDeclView {
        name: t.name,
        payload: t.payload,
        capacity: t.capacity,
        fanout: sp_fanout(anc, t.name),
    }
}

/// The variants of a node's tagged-union type: one per topic carrying
/// the payload type, then one per child sub-topic carrying that
/// sub-topic's own tagged-union type.
pub open spec fn sp_variants(topics: Seq<TopicView>, subs: Seq<SubTopicView>) -> Seq<
    VariantDeclView,
> {
    topics.map_values(
        |t: TopicView| VariantDeclView { name: t.name, payload: TypeRefView::Path(t.payload) },
    ) + subs.map_values(
        |s: SubTopicView| VariantDeclView { name: s.name, payload: TypeRefView::Union(s.name) },
    )
}

/// The generated module of one sub-topic under the ancestor chain
/// `anc` (root first, not including the sub-topic itself).
pub open spec fn sp_gen_module(st: SubTopicView, anc: Seq<Seq<u8>>) -> ModuleDeclView
    decreases st, 1int,
{
    let anc2 = anc.push(st.name);
    ModuleDeclView {
        module: st.module,
        name: st.name,
        reexport: anc2.len() >= 2,
        capacity: sp_total_capacity(st) as nat,
        union_decl: EnumDeclView {
            name: st.name,
            variants: sp_variants(st.ast.topics, st.ast.sub_topics),
        },
        topics: st.ast.topics.map_values(|t: TopicView| sp_gen_topic(t, anc2)),
        sub_modules: sp_gen_modules(st.ast.sub_topics, anc2, 0),
    }
}

/// The generated modules of the sub-topics of `ss` from index `i` on.
pub open spec fn sp_gen_modules(ss: Seq<SubTopicView>, anc: Seq<Seq<u8>>, i: int) -> Seq<
    ModuleDeclView,
>
    decreases ss, ss.len() - i, 2int,
{
    if i < 0 || i >= ss.len() {
        Seq::empty()
    } else {
        seq![sp_gen_module(ss[i], anc)] + sp_gen_modules(ss, anc, i + 1)
    }
}

/// The whole generated artifact of a tree: one module per top-level
/// sub-topic, under the empty ancestor chain.
pub open spec fn sp_generate(a: AstView) -> OutputView {
    OutputView { modules: sp_gen_modules(a.sub_topics, Seq::empty(), 0) }
}

/// The images under `sp_gen_modules` are the images of the elements,
/// index by index.
pub proof fn lemma_sp_gen_modules(ss: Seq<SubTopicView>, anc: Seq<Seq<u8>>, i: int)
    requires
        0 <= i <= ss.len(),
    ensures
        sp_gen_modules(ss, anc, i).len() == ss.len() - i,
        forall|j: int| i <= j < ss.len() ==> sp_gen_modules(ss, anc, i)[j - i] == sp_gen_module(
            #[trigger] ss[j],
            anc,
        ),
    decreases ss.len() - i,
{
    if i < ss.len() {
        lemma_sp_gen_modules(ss, anc, i + 1);
    }
}

/// Ghost image of a list of names.
pub open spec fn vecs_view(v: Vec<Vec<u8>>) -> Seq<Seq<u8>> {
    v@.map_values(|b: Vec<u8>| b@)
}

/// Ghost image of a constructor chain.
pub open spec fn wrap_view(v: Vec<(Vec<u8>, Vec<u8>)>) -> Seq<(Seq<u8>, Seq<u8>)> {
    v@.map_values(|p: (Vec<u8>, Vec<u8>)| (p.0@, p.1@))
}

/// Ghost image of a topic declaration list.
pub open spec fn topic_decls_view(v: Vec<TopicDecl>) -> Seq<TopicDeclView> {
    v@.map_values(|t: TopicDecl| t@)
}

/// A fresh copy of a payload type reference.
fn clone_type_path(p: &TypePath) -> (r: TypePath)
    ensures
        type_path_view(r) == type_path_view(*p),
    decreases *p,
{
    let mut segments: Vec<Vec<u8>> = Vec::new();
    let mut k: usize = 0;
    while k < p.segments.len()
        invariant
            k <= p.segments@.len(),
            segments@.len() == k,
            forall|m: int| 0 <= m < k ==> segments@[m]@ == p.segments@[m]@,
        decreases p.segments@.len() - k,
    {
        segments.push(clone_bytes(&p.segments[k]));
        k = k + 1;
    }
    let mut args: Vec<TypePath> = Vec::new();
    let mut j: usize = 0;
    while j < p.args.len()
        invariant
            j <= p.args@.len(),
            args@.len() == j,
            forall|m: int| 0 <= m < j ==> type_path_view(#[trigger] args@[m]) == type_path_view(
                p.args@[m],
            ),
        decreases p.args@.len() - j,
    {
        args.push(clone_type_path(&p.args[j]));
        j = j + 1;
    }
    let r = TypePath { segments, args };
    proof {
        assert(type_path_view(r).segments =~= type_path_view(*p).segments);
        crate::ast::lemma_type_paths_view(r.args@, 0);
        crate::ast::lemma_type_paths_view(p.args@, 0);
        assert forall|m: int| 0 <= m < r.args@.len() implies type_path_view(r).args[m]
            == type_path_view(*p).args[m] by {
            assert(type_path_view(r).args[m] == type_path_view(r.args@[m]));
            assert(type_path_view(*p).args[m] == type_path_view(p.args@[m]));
        }
        assert(type_path_view(r).args =~= type_path_view(*p).args);
    }
    r
}

/// The stack of ancestor sub-topic names carried through generation,
/// root first.
pub struct SubTopicTracker(Vec<Vec<u8>>);

impl SubTopicTracker {
    /// The ancestor chain, root first.
    pub closed spec fn chain(&self) -> Seq<Seq<u8>> {
        vecs_view(self.0)
    }

    /// An empty chain: generation starts at the synthetic root.
    pub fn new() -> (r: Self)
        ensures
            r.chain() == Seq::<Seq<u8>>::empty(),
    {
        let r = SubTopicTracker(Vec::new());
        proof {
            assert(r.chain() =~= Seq::<Seq<u8>>::empty());
        }
        r
    }

    /// How many sub-topics enclose the current position.
    pub fn depth(&self) -> (r: usize)
        ensures
            r == self.chain().len(),
    {
        self.0.len()
    }

    /// Whether the current position is the synthetic root or the
    /// single tree root (whose type is not re-exported).
    pub fn at_root(&self) -> (r: bool)
        ensures
            r == (self.chain().len() < 2),
    {
        self.0.len() < 2
    }

    /// Enter a sub-topic.
    pub fn add_subtopic(&mut self, subtopic: Vec<u8>)
        ensures
            final(self).chain() == old(self).chain().push(subtopic@),
    {
        let ghost pre = self.0@;
        let ghost prechain = self.chain();
        let ghost sv = subtopic@;
        self.0.push(subtopic);
        proof {
            assert forall|k: int| 0 <= k < self.0@.len() implies #[trigger] vecs_view(self.0)[k]
                == prechain.push(sv)[k] by {
                if k < pre.len() {
                    assert(self.0@[k] == pre[k]);
                    assert(prechain[k] == pre[k]@);
                }
            }
            assert(self.chain() =~= prechain.push(sv));
        }
    }

    /// Leave the current sub-topic.
    pub fn remove_last_subtopic(&mut self)
        requires
            old(self).chain().len() > 0,
        ensures
            final(self).chain() == old(self).chain().drop_last(),
    {
        let ghost pre = self.0@;
        let ghost prechain = self.chain();
        self.0.pop();
        proof {
            assert forall|k: int| 0 <= k < self.0@.len() implies #[trigger] vecs_view(self.0)[k]
                == prechain.drop_last()[k] by {
                assert(self.0@[k] == pre[k]);
                assert(prechain[k] == pre[k]@);
            }
            assert(self.chain() =~= prechain.drop_last());
        }
    }

    /// The fan-out publishes of a topic at the current position: one
    /// per ancestor, innermost first, as [`sp_fanout`] describes them.
    pub fn to_parent_publishes(&self, current_topic: &Vec<u8>) -> (r: Vec<FanStep>)
        ensures
            fan_steps_view(r) == sp_fanout(self.chain(), current_topic@),
    {
        let ghost target = sp_fanout(self.chain(), current_topic@);
        let d = self.0.len();
        let mut out: Vec<FanStep> = Vec::new();
        proof {
            assert(fan_steps_view(out) =~= target.subrange(0, 0));
        }
        let mut j: usize = 0;
        while j < d
            invariant
                j <= d == self.0@.len(),
                target == sp_fanout(self.chain(), current_topic@),
                target.len() == d,
                fan_steps_view(out) == target.subrange(0, j as int),
            decreases d - j,
        {
            let ghost pre = fan_steps_view(out);
            let channel = clone_bytes(&self.0[d - 1 - j]);
            let wrap = build_wrap(&self.0, current_topic, j);
            let step = FanStep { supers: j, channel, wrap };
            let ghost stepv = step@;
            out.push(step);
            proof {
                assert(self.chain()[d - 1 - j as int] == self.0@[d - 1 - j as int]@);
                assert(stepv == target[j as int]);
                let lhs = fan_steps_view(out);
                let rhs = target.subrange(0, j + 1 as int);
                assert(out@.len() == pre.len() + 1);
                assert(lhs.len() == rhs.len());
                assert forall|k: int| 0 <= k < lhs.len() implies lhs[k] == rhs[k] by {
                    if k < pre.len() {
                        assert(lhs[k] == out@[k]@);
                        assert(fan_steps_view(out)[k] == pre[k]);
                        assert(rhs[k] == target[k]);
                    } else {
                        assert(lhs[k] == out@[k]@);
                        assert(out@[k] == out@[out@.len() - 1]);
                        assert(rhs[k] == target[j as int]);
                    }
                }
                assert(lhs =~= rhs);
                assert(fan_steps_view(out) =~= target.subrange(0, j + 1 as int));
            }
            j = j + 1;
        }
        proof {
            assert(target.subrange(0, d as int) =~= target);
        }
        out
    }
}

/// The constructor chain of the fan-out step `j` levels above the
/// topic's parent; exec mirror of [`sp_wrap`].
fn build_wrap(chain: &Vec<Vec<u8>>, topic: &Vec<u8>, j: usize) -> (r: Vec<(Vec<u8>, Vec<u8>)>)
    requires
        j < chain@.len(),
    ensures
        wrap_view(r) == sp_wrap(vecs_view(*chain), topic@, j as int),
    decreases j,
{
    let d = chain.len();
    if j == 0 {
        let mut out: Vec<(Vec<u8>, Vec<u8>)> = Vec::new();
        out.push((clone_bytes(&chain[d - 1]), clone_bytes(topic)));
        proof {
            assert(vecs_view(*chain)[d - 1 as int] == chain@[d - 1 as int]@);
            assert(wrap_view(out) =~= sp_wrap(vecs_view(*chain), topic@, 0));
        }
        out
    } else {
        let rest = build_wrap(chain, topic, j - 1);
        let ghost restv = wrap_view(rest);
        let mut out = rest;
        let head = (clone_bytes(&chain[d - 1 - j]), clone_bytes(&chain[d - j]));
        let ghost headv = (head.0@, head.1@);
        out.insert(0, head);
        proof {
            assert(vecs_view(*chain)[d - 1 - j as int] == chain@[d - 1 - j as int]@);
            assert(vecs_view(*chain)[d - j as int] == chain@[d - j as int]@);
            assert forall|k: int| 0 <= k < out@.len() implies #[trigger] wrap_view(out)[k] == (
            seq![headv] + restv)[k] by {
                if k > 0 {
                }
            }
            assert(wrap_view(out) =~= seq![headv] + restv);
        }
        out
    }
}

/// The tagged-union type of one node: one variant per topic, then one
/// per child sub-topic.
pub fn make_topics_enum(name: &Vec<u8>, topics: &Vec<Topic>, sub_topics: &Vec<SubTopic>) -> (r:
    EnumDecl)
    ensures
        r@ == (EnumDeclView {
            name: name@,
            variants: sp_variants(topics_view(topics@), sub_topics_view(sub_topics@, 0)),
        }),
{
    let ghost tsv = topics_view(topics@);
    let ghost ssv = sub_topics_view(sub_topics@, 0);
    let ghost ta = tsv.map_values(
        |t: TopicView| VariantDeclView { name: t.name, payload: TypeRefView::Path(t.payload) },
    );
    let ghost tb = ssv.map_values(
        |s: SubTopicView| VariantDeclView { name: s.name, payload: TypeRefView::Union(s.name) },
    );
    proof {
        lemma_sub_topics_view(sub_topics@, 0);
    }
    let mut variants: Vec<VariantDecl> = Vec::new();
    proof {
        assert(variants_view(variants) =~= ta.subrange(0, 0));
    }
    let mut i: usize = 0;
    while i < topics.len()
        invariant
            i <= topics@.len(),
            tsv == topics_view(topics@),
            tsv.len() == topics@.len(),
            ta == tsv.map_values(
                |t: TopicView| VariantDeclView {
                    name: t.name,
                    payload: TypeRefView::Path(t.payload),
                },
            ),
            variants@.len() == i,
            variants_view(variants) == ta.subrange(0, i as int),
        decreases topics@.len() - i,
    {
        let ghost pre = variants_view(variants);
        let v = VariantDecl {
            name: clone_bytes(&topics[i].name),
            payload: TypeRef::Path(clone_type_path(&topics[i].payload)),
        };
        let ghost vv = v@;
        variants.push(v);
        proof {
            assert(tsv[i as int] == topic_view(topics@[i as int]));
            assert(ta[i as int] == vv);
            let lhs = variants_view(variants);
            let rhs = ta.subrange(0, i + 1 as int);
            assert(lhs.len() == rhs.len());
            assert forall|k: int| 0 <= k < lhs.len() implies lhs[k] == rhs[k] by {
                assert(lhs[k] == variants@[k]@);
                if k < pre.len() {
                    assert(variants_view(variants)[k] == pre[k]);
                    assert(rhs[k] == ta[k]);
                } else {
                    assert(rhs[k] == ta[i as int]);
                }
            }
            assert(variants_view(variants) =~= ta.subrange(0, i + 1 as int));
        }
        i = i + 1;
    }
    proof {
        assert(ta.subrange(0, tsv.len() as int) =~= ta);
    }
    let mut k: usize = 0;
    while k < sub_topics.len()
        invariant
            k <= sub_topics@.len(),
            ssv == sub_topics_view(sub_topics@, 0),
            ssv.len() == sub_topics@.len(),
            forall|m: int| 0 <= m < sub_topics@.len() ==> ssv[m] == sub_topic_view(
                #[trigger] sub_topics@[m],
            ),
            ta == topics_view(topics@).map_values(
                |t: TopicView| VariantDeclView {
                    name: t.name,
                    payload: TypeRefView::Path(t.payload),
                },
            ),
            tb == ssv.map_values(
                |s: SubTopicView| VariantDeclView {
                    name: s.name,
                    payload: TypeRefView::Union(s.name),
                },
            ),
            variants@.len() == topics@.len() + k,
            ta.len() == topics@.len(),
            variants_view(variants) == ta + tb.subrange(0, k as int),
        decreases sub_topics@.len() - k,
    {
        let ghost pre = variants_view(variants);
        let nm = clone_bytes(&sub_topics[k].name);
        let v = VariantDecl { name: clone_bytes(&sub_topics[k].name), payload: TypeRef::Union(nm) };
        let ghost vv = v@;
        variants.push(v);
        proof {
            assert(tb[k as int] == vv);
            let lhs = variants_view(variants);
            let rhs = ta + tb.subrange(0, k + 1 as int);
            assert(lhs.len() == rhs.len());
            assert forall|m: int| 0 <= m < lhs.len() implies lhs[m] == rhs[m] by {
                assert(lhs[m] == variants@[m]@);
                if m < pre.len() {
                    assert(variants_view(variants)[m] == pre[m]);
                    assert(pre[m] == (ta + tb.subrange(0, k as int))[m]);
                } else {
                    assert(rhs[m] == tb.subrange(0, k + 1 as int)[m - ta.len()]);
                    assert(rhs[m] == tb[k as int]);
                }
            }
            assert(variants_view(variants) =~= ta + tb.subrange(0, k + 1 as int));
        }
        k = k + 1;
    }
    proof {
        assert(tb.subrange(0, ssv.len() as int) =~= tb);
        assert(ta + tb =~= sp_variants(tsv, ssv));
    }
    EnumDecl { name: clone_bytes(name), variants }
}

/// The topic declarations of one node, with fan-out towards the
/// tracker's current ancestor chain.
pub fn codegen_topics(topics: &Vec<Topic>, subtopic_tracker: &SubTopicTracker) -> (r: Vec<
    TopicDecl,
>)
    ensures
        topic_decls_view(r) == topics_view(topics@).map_values(
            |t: TopicView| sp_gen_topic(t, subtopic_tracker.chain()),
        ),
{
    let ghost tsv = topics_view(topics@);
    let ghost target = tsv.map_values(|t: TopicView| sp_gen_topic(t, subtopic_tracker.chain()));
    let mut out: Vec<TopicDecl> = Vec::new();
    proof {
        assert(topic_decls_view(out) =~= target.subrange(0, 0));
    }
    let mut i: usize = 0;
    while i < topics.len()
        invariant
            i <= topics@.len(),
            tsv == topics_view(topics@),
            tsv.len() == topics@.len(),
            target == tsv.map_values(|t: TopicView| sp_gen_topic(t, subtopic_tracker.chain())),
            out@.len() == i,
            topic_decls_view(out) == target.subrange(0, i as int),
        decreases topics@.len() - i,
    {
        let ghost pre = topic_decls_view(out);
        let td = TopicDecl {
            name: clone_bytes(&topics[i].name),
            payload: clone_type_path(&topics[i].payload),
            capacity: topics[i].capacity,
            fanout: subtopic_tracker.to_parent_publishes(&topics[i].name),
        };
        let ghost tdv = td@;
        out.push(td);
        proof {
            assert(tsv[i as int] == topic_view(topics@[i as int]));
            assert(target[i as int] == sp_gen_topic(tsv[i as int], subtopic_tracker.chain()));
            assert(tdv == target[i as int]);
            let lhs = topic_decls_view(out);
            let rhs = target.subrange(0, i + 1 as int);
            assert(lhs.len() == rhs.len());
            assert forall|k: int| 0 <= k < lhs.len() implies lhs[k] == rhs[k] by {
                assert(lhs[k] == out@[k]@);
                if k < pre.len() {
                    assert(topic_decls_view(out)[k] == pre[k]);
                    assert(rhs[k] == target[k]);
                } else {
                    assert(rhs[k] == target[i as int]);
                }
            }
            assert(topic_decls_view(out) =~= target.subrange(0, i + 1 as int));
        }
        i = i + 1;
    }
    proof {
        assert(target.subrange(0, tsv.len() as int) =~= target);
    }
    out
}

/// Add to `capacity` the aggregate capacity of `sub_topic`: the sum of
/// the declared capacities of every topic transitively beneath it.
pub fn find_total_capacity(sub_topic: &SubTopic, capacity: &mut usize)
    requires
        *old(capacity) + sp_total_capacity(sub_topic_view(*sub_topic)) <= usize::MAX,
    ensures
        *final(capacity) == *old(capacity) + sp_total_capacity(sub_topic_view(*sub_topic)),
    decreases *sub_topic,
{
    let ghost stv = sub_topic_view(*sub_topic);
    let ghost base = *capacity;
    let ghost tsv = stv.ast.topics;
    let ghost ssv = stv.ast.sub_topics;
    proof {
        lemma_capacity_aggregate(stv);
        lemma_sub_topics_view(sub_topic.ast.sub_topics@, 0);
    }
    let mut k: usize = 0;
    while k < sub_topic.ast.topics.len()
        invariant
            k <= sub_topic.ast.topics@.len(),
            stv == sub_topic_view(*sub_topic),
            tsv == stv.ast.topics,
            ssv == stv.ast.sub_topics,
            tsv.len() == sub_topic.ast.topics@.len(),
            base + sp_total_capacity(stv) <= usize::MAX,
            *capacity == base + sp_topic_caps(tsv, k as int),
        decreases sub_topic.ast.topics@.len() - k,
    {
        proof {
            assert(tsv[k as int] == topic_view(sub_topic.ast.topics@[k as int]));
            assert(sp_topic_caps(tsv, k + 1 as int) == sp_topic_caps(tsv, k as int)
                + tsv[k as int].capacity);
            lemma_topic_caps_mono(tsv, k + 1 as int, tsv.len() as int);
            lemma_sub_caps_mono(ssv, 0, ssv.len() as int);
            lemma_capacity_aggregate(stv);
            assert(base + sp_topic_caps(tsv, k + 1 as int) <= usize::MAX);
        }
        *capacity = *capacity + sub_topic.ast.topics[k].capacity;
        k = k + 1;
    }
    let mut m: usize = 0;
    while m < sub_topic.ast.sub_topics.len()
        invariant
            m <= sub_topic.ast.sub_topics@.len(),
            stv == sub_topic_view(*sub_topic),
            tsv == stv.ast.topics,
            ssv == stv.ast.sub_topics,
            ssv.len() == sub_topic.ast.sub_topics@.len(),
            forall|q: int| 0 <= q < ssv.len() ==> ssv[q] == sub_topic_view(
                #[trigger] sub_topic.ast.sub_topics@[q],
            ),
            base + sp_total_capacity(stv) <= usize::MAX,
            *capacity == base + sp_topic_caps(tsv, tsv.len() as int) + sp_sub_caps(ssv, m as int),
        decreases sub_topic.ast.sub_topics@.len() - m,
    {
        proof {
            lemma_sub_caps_mono(ssv, m + 1 as int, ssv.len() as int);
            lemma_capacity_aggregate(stv);
            assert(sp_sub_caps(ssv, m + 1 as int) == sp_sub_caps(ssv, m as int)
                + sp_total_capacity(ssv[m as int]));
        }
        find_total_capacity(&sub_topic.ast.sub_topics[m], capacity);
        m = m + 1;
    }
    proof {
        lemma_capacity_aggregate(stv);
    }
}

/// The module declarations of a list of sub-topics, entered from the
/// tracker's current ancestor chain.  The tracker is returned to that
/// chain.
pub fn codegen_subtopics(sub_topics: &Vec<SubTopic>, subtopic_tracker: &mut SubTopicTracker) -> (r:
    Vec<ModuleDecl>)
    requires
        forall|k: int| 0 <= k < sub_topics@.len() ==> caps_fit(
            sub_topic_view(#[trigger] sub_topics@[k]),
        ),
    ensures
        module_decls_view(r@, 0) == sp_gen_modules(
            sub_topics_view(sub_topics@, 0),
            old(subtopic_tracker).chain(),
            0,
        ),
        final(subtopic_tracker).chain() == old(subtopic_tracker).chain(),
    decreases sub_topics@,
{
    let ghost ssv = sub_topics_view(sub_topics@, 0);
    let ghost anc = subtopic_tracker.chain();
    proof {
        lemma_sub_topics_view(sub_topics@, 0);
        lemma_sp_gen_modules(ssv, anc, 0);
    }
    let mut out: Vec<ModuleDecl> = Vec::new();
    let mut i: usize = 0;
    while i < sub_topics.len()
        invariant
            i <= sub_topics@.len(),
            ssv == sub_topics_view(sub_topics@, 0),
            ssv.len() == sub_topics@.len(),
            forall|q: int| 0 <= q < ssv.len() ==> ssv[q] == sub_topic_view(
                #[trigger] sub_topics@[q],
            ),
            forall|k: int| 0 <= k < sub_topics@.len() ==> caps_fit(
                sub_topic_view(#[trigger] sub_topics@[k]),
            ),
            subtopic_tracker.chain() == anc,
            out@.len() == i,
            forall|q: int| 0 <= q < i ==> module_decl_view(#[trigger] out@[q]) == sp_gen_module(
                ssv[q],
                anc,
            ),
        decreases sub_topics@.len() - i,
    {
        let ghost stv = ssv[i as int];
        let ghost anc2 = anc.push(stv.name);
        subtopic_tracker.add_subtopic(clone_bytes(&sub_topics[i].name));
        proof {
            assert(subtopic_tracker.chain() =~= anc2);
        }
        let union_decl = make_topics_enum(
            &sub_topics[i].name,
            &sub_topics[i].ast.topics,
            &sub_topics[i].ast.sub_topics,
        );
        let topics = codegen_topics(&sub_topics[i].ast.topics, subtopic_tracker);
        proof {
            assert(stv.ast == ast_view(sub_topics@[i as int].ast));
            assert(forall|k: int| 0 <= k < sub_topics@[i as int].ast.sub_topics@.len()
                ==> caps_fit(
                sub_topic_view(#[trigger] sub_topics@[i as int].ast.sub_topics@[k]),
            )) by {
                lemma_sub_topics_view(sub_topics@[i as int].ast.sub_topics@, 0);
            }
        }
        let sub_modules = codegen_subtopics(&sub_topics[i].ast.sub_topics, subtopic_tracker);
        let reexport = !subtopic_tracker.at_root();
        let mut capacity: usize = 0;
        proof {
            lemma_total_capacity_nonneg(stv);
        }
        find_total_capacity(&sub_topics[i], &mut capacity);
        let md = ModuleDecl {
            module: clone_bytes(&sub_topics[i].module),
            name: clone_bytes(&sub_topics[i].name),
            reexport,
            capacity,
            union_decl,
            topics,
            sub_modules,
        };
        proof {
            assert(stv.ast.topics == topics_view(sub_topics@[i as int].ast.topics@));
            assert(stv.ast.sub_topics == sub_topics_view(sub_topics@[i as int].ast.sub_topics@, 0));
            assert(module_decl_view(md).sub_modules == sp_gen_modules(stv.ast.sub_topics, anc2, 0));
            assert(module_decl_view(md).topics =~= sp_gen_module(stv, anc).topics);
            assert(module_decl_view(md).union_decl == sp_gen_module(stv, anc).union_decl);
            assert(module_decl_view(md) == sp_gen_module(stv, anc));
        }
        out.push(md);
        subtopic_tracker.remove_last_subtopic();
        proof {
            assert(subtopic_tracker.chain() =~= anc);
        }
        i = i + 1;
    }
    proof {
        lemma_module_decls_view(out@, 0);
        assert forall|q: int| 0 <= q < ssv.len() implies #[trigger] module_decls_view(out@, 0)[q]
            == sp_gen_modules(ssv, anc, 0)[q] by {
            assert(module_decls_view(out@, 0)[q] == module_decl_view(out@[q]));
        }
        assert(module_decls_view(out@, 0) =~= sp_gen_modules(ssv, anc, 0));
    }
    out
}

/// Generate the message-bus declarations of a validated tree.
///
/// Demands the [`Analysis`] token of exactly this tree, so parse or
/// analysis errors block generation entirely.  Generation is a pure
/// function of the tree: the result is exactly [`sp_generate`] of it,
/// so equal trees yield equal output.
pub fn generate(ast: &Ast, analysis: &Analysis) -> (r: Output)
    requires
        analysis.tree() == ast_view(*ast),
        forall|k: int| 0 <= k < ast.sub_topics@.len() ==> caps_fit(
            sub_topic_view(#[trigger] ast.sub_topics@[k]),
        ),
    ensures
        r@ == sp_generate(ast_view(*ast)),
{
    let mut subtopic_tracker = SubTopicTracker::new();
    let modules = codegen_subtopics(&ast.sub_topics, &mut subtopic_tracker);
    let r = Output { modules };
    proof {
        assert(ast_view(*ast).sub_topics == sub_topics_view(ast.sub_topics@, 0));
    }
    r
}

/// The generated module of a sub-topic mirrors it: the tagged union
/// has exactly one variant per topic (carrying the payload type) plus
/// one per child sub-topic (carrying that sub-topic's union type), the
/// channel capacity is the subtree's aggregate capacity, each topic
/// keeps its name, payload and declared capacity, and the nested
/// modules mirror the child sub-topics one for one — so generated
/// nesting depth equals grammar nesting depth.
pub open spec fn module_mirrors(m: ModuleDeclView, st: SubTopicView) -> bool
    decreases st,
{
    &&& m.module == st.module
    &&& m.name == st.name
    &&& m.union_decl.name == st.name
    &&& m.union_decl.variants.len() == st.ast.topics.len() + st.ast.sub_topics.len()
    &&& forall|i: int| 0 <= i < st.ast.topics.len() ==> (#[trigger] m.union_decl.variants[i]).name
        == st.ast.topics[i].name && m.union_decl.variants[i].payload == TypeRefView::Path(
        st.ast.topics[i].payload,
    )
    &&& forall|k: int| 0 <= k < st.ast.sub_topics.len() ==> (#[trigger] m.union_decl.variants[st.ast.topics.len() + k]).name
        == st.ast.sub_topics[k].name && m.union_decl.variants[st.ast.topics.len() + k].payload
        == TypeRefView::Union(st.ast.sub_topics[k].name)
    &&& m.capacity == sp_total_capacity(st)
    &&& m.topics.len() == st.ast.topics.len()
    &&& forall|i: int| 0 <= i < st.ast.topics.len() ==> (#[trigger] m.topics[i]).name
        == st.ast.topics[i].name && m.topics[i].payload == st.ast.topics[i].payload
        && m.topics[i].capacity == st.ast.topics[i].capacity
    &&& m.sub_modules.len() == st.ast.sub_topics.len()
    &&& forall|k: int| 0 <= k < st.ast.sub_topics.len() ==> module_mirrors(
        #[trigger] m.sub_modules[k],
        st.ast.sub_topics[k],
    )
}

/// Generation mirrors the tree: the module generated for a sub-topic
/// satisfies [`module_mirrors`], and each of its topics fans out to
/// exactly one publish per enclosing ancestor.
pub proof fn lemma_generated_module_mirrors(st: SubTopicView, anc: Seq<Seq<u8>>)
    ensures
        module_mirrors(sp_gen_module(st, anc), st),
        forall|i: int| 0 <= i < st.ast.topics.len() ==> (#[trigger] sp_gen_module(
            st,
            anc,
        ).topics[i]).fanout.len() == anc.len() + 1,
    decreases st,
{
    let m = sp_gen_module(st, anc);
    let anc2 = anc.push(st.name);
    lemma_total_capacity_nonneg(st);
    lemma_sp_gen_modules(st.ast.sub_topics, anc2, 0);
    let va = st.ast.topics.map_values(
        |t: TopicView| VariantDeclView { name: t.name, payload: TypeRefView::Path(t.payload) },
    );
    let vb = st.ast.sub_topics.map_values(
        |s: SubTopicView| VariantDeclView { name: s.name, payload: TypeRefView::Union(s.name) },
    );
    assert(m.union_decl.variants == va + vb);
    assert forall|i: int| 0 <= i < st.ast.topics.len() implies (#[trigger] m.union_decl.variants[i]).name
        == st.ast.topics[i].name && m.union_decl.variants[i].payload == TypeRefView::Path(
        st.ast.topics[i].payload,
    ) by {
        assert(m.union_decl.variants[i] == va[i]);
    }
    assert forall|k: int| 0 <= k < st.ast.sub_topics.len() implies (#[trigger] m.union_decl.variants[st.ast.topics.len() + k]).name
        == st.ast.sub_topics[k].name && m.union_decl.variants[st.ast.topics.len() + k].payload
        == TypeRefView::Union(st.ast.sub_topics[k].name) by {
        assert(m.union_decl.variants[st.ast.topics.len() + k] == vb[k]);
    }
    assert forall|i: int| 0 <= i < st.ast.topics.len() implies (#[trigger] m.topics[i]).name
        == st.ast.topics[i].name && m.topics[i].payload == st.ast.topics[i].payload
        && m.topics[i].capacity == st.ast.topics[i].capacity && m.topics[i].fanout.len()
        == anc.len() + 1 by {
        assert(m.topics[i] == sp_gen_topic(st.ast.topics[i], anc2));
    }
    assert forall|k: int| 0 <= k < st.ast.sub_topics.len() implies module_mirrors(
        #[trigger] m.sub_modules[k],
        st.ast.sub_topics[k],
    ) by {
        lemma_generated_module_mirrors(st.ast.sub_topics[k], anc2);
    }
    assert(module_mirrors(m, st));
}

/// Generation mirrors the whole tree: one module per top-level
/// sub-topic, each mirroring its sub-topic.  For a validated tree
/// there is exactly one top-level sub-topic, so the artifact has
/// exactly one root module.
pub proof fn lemma_generate_mirrors(a: AstView)
    ensures
        sp_generate(a).modules.len() == a.sub_topics.len(),
        forall|k: int| 0 <= k < a.sub_topics.len() ==> module_mirrors(
            #[trigger] sp_generate(a).modules[k],
            a.sub_topics[k],
        ),
{
    lemma_sp_gen_modules(a.sub_topics, Seq::empty(), 0);
    assert forall|k: int| 0 <= k < a.sub_topics.len() implies module_mirrors(
        #[trigger] sp_generate(a).modules[k],
        a.sub_topics[k],
    ) by {
        lemma_generated_module_mirrors(a.sub_topics[k], Seq::empty());
    }
}

} // verus!
