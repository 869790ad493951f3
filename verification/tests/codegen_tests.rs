use message_bus::analysis::analyze;
use message_bus::ast::Ast;
use message_bus::codegen::{generate, ModuleDecl, Output, TypeRef};
use message_bus::lex::tokenize;
use message_bus::parser::parse;

fn tree(src: &str) -> Ast {
    let bytes = src.as_bytes().to_vec();
    let toks = tokenize(&bytes).expect("tokenization should succeed");
    parse(&toks).expect("parsing should succeed")
}

fn compile(src: &str) -> Output {
    let ast = tree(src);
    let analysis = analyze(&ast).expect("analysis should succeed");
    generate(&ast, &analysis)
}

fn name(bytes: &[u8]) -> String {
    String::from_utf8(bytes.to_vec()).unwrap()
}

fn render_module(m: &ModuleDecl, out: &mut String) {
    out.push_str(&format!(
        "mod {} type {} reexport {} capacity {} [",
        name(&m.module),
        name(&m.name),
        m.reexport,
        m.capacity
    ));
    for v in &m.union_decl.variants {
        match &v.payload {
            TypeRef::Path(p) => out.push_str(&format!("{}(path {:?}) ", name(&v.name), p)),
            TypeRef::Union(u) => out.push_str(&format!("{}(union {}) ", name(&v.name), name(u))),
        }
    }
    out.push_str("] ");
    for t in &m.topics {
        out.push_str(&format!("topic {} cap {} fan {:?} ", name(&t.name), t.capacity, t.fanout));
    }
    for sm in &m.sub_modules {
        render_module(sm, out);
    }
}

fn render(o: &Output) -> String {
    let mut s = String::new();
    for m in &o.modules {
        render_module(m, &mut s);
    }
    s
}

#[test]
fn root_union_has_one_variant_per_topic_and_sub_topic() {
    let out = compile(
        "bus::Top => {
            A => u8,
            B => u16,
            s1::Left => { X => u8 },
            s2::Right => { Y => u8 },
        }",
    );
    assert_eq!(out.modules.len(), 1);
    let root = &out.modules[0];
    assert_eq!(root.name, b"Top".to_vec());
    assert_eq!(root.module, b"bus".to_vec());
    assert_eq!(root.union_decl.variants.len(), 4);
    assert_eq!(root.union_decl.variants[0].name, b"A".to_vec());
    assert_eq!(root.union_decl.variants[1].name, b"B".to_vec());
    assert_eq!(root.union_decl.variants[2].name, b"Left".to_vec());
    assert_eq!(root.union_decl.variants[3].name, b"Right".to_vec());
    assert!(matches!(&root.union_decl.variants[0].payload, TypeRef::Path(_)));
    assert!(matches!(
        &root.union_decl.variants[2].payload,
        TypeRef::Union(n) if n == &b"Left".to_vec()
    ));
}

#[test]
fn module_nesting_mirrors_grammar_nesting() {
    let out = compile("bus::Top => { mid::Mid => { leaf::Leaf => { X => u8 } } }");
    let root = &out.modules[0];
    assert_eq!(root.sub_modules.len(), 1);
    assert_eq!(root.sub_modules[0].name, b"Mid".to_vec());
    assert_eq!(root.sub_modules[0].sub_modules.len(), 1);
    assert_eq!(root.sub_modules[0].sub_modules[0].name, b"Leaf".to_vec());
    assert_eq!(root.sub_modules[0].sub_modules[0].sub_modules.len(), 0);
}

#[test]
fn only_the_root_type_is_not_reexported() {
    let out = compile("bus::Top => { mid::Mid => { leaf::Leaf => { X => u8 } } }");
    let root = &out.modules[0];
    assert!(!root.reexport);
    assert!(root.sub_modules[0].reexport);
    assert!(root.sub_modules[0].sub_modules[0].reexport);
}

#[test]
fn aggregate_capacity_sums_topics_and_nested_aggregates() {
    let out = compile(
        "bus::Top => {
            A [10] => u8,
            B [20] => u8,
            s::Inner => { C [5] => u8 },
        }",
    );
    let root = &out.modules[0];
    assert_eq!(root.capacity, 35);
    assert_eq!(root.sub_modules[0].capacity, 5);
}

#[test]
fn topic_channels_keep_their_declared_capacity() {
    let out = compile("bus::Top => { A [10] => u8, B => u8 }");
    let root = &out.modules[0];
    assert_eq!(root.topics[0].capacity, 10);
    assert_eq!(root.topics[1].capacity, 1);
}

#[test]
fn fan_out_wraps_the_payload_once_per_ancestor_level() {
    let out = compile("bus::Toplevel => { t2::SubTopic8 => { t3::SubTopic12 => { Topic13 => u8 } } }");
    let leaf_module = &out.modules[0].sub_modules[0].sub_modules[0];
    let topic = &leaf_module.topics[0];
    assert_eq!(topic.name, b"Topic13".to_vec());
    assert_eq!(topic.fanout.len(), 3);

    let inner = &topic.fanout[0];
    assert_eq!(inner.supers, 0);
    assert_eq!(inner.channel, b"SubTopic12".to_vec());
    assert_eq!(inner.wrap.len(), 1);
    assert_eq!(inner.wrap[0], (b"SubTopic12".to_vec(), b"Topic13".to_vec()));

    let mid = &topic.fanout[1];
    assert_eq!(mid.supers, 1);
    assert_eq!(mid.channel, b"SubTopic8".to_vec());
    assert_eq!(mid.wrap.len(), 2);
    assert_eq!(mid.wrap[0], (b"SubTopic8".to_vec(), b"SubTopic12".to_vec()));
    assert_eq!(mid.wrap[1], (b"SubTopic12".to_vec(), b"Topic13".to_vec()));

    let outer = &topic.fanout[2];
    assert_eq!(outer.supers, 2);
    assert_eq!(outer.channel, b"Toplevel".to_vec());
    assert_eq!(outer.wrap.len(), 3);
    assert_eq!(outer.wrap[0], (b"Toplevel".to_vec(), b"SubTopic8".to_vec()));
    assert_eq!(outer.wrap[1], (b"SubTopic8".to_vec(), b"SubTopic12".to_vec()));
    assert_eq!(outer.wrap[2], (b"SubTopic12".to_vec(), b"Topic13".to_vec()));
}

#[test]
fn generation_is_deterministic() {
    let src = "bus::Top => { A [3] => u8, s::Inner => { B => some::Data<u32> } }";
    let first = render(&compile(src));
    let second = render(&compile(src));
    assert_eq!(first, second);
}
