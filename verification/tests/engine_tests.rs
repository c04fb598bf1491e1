use excetera::engine::Engine;
use excetera::errors::EngineError;
use excetera::parse::parse;
use excetera::value::Val;

fn b(s: &str) -> Vec<u8> {
    s.as_bytes().to_vec()
}

fn sv(s: &str) -> Val {
    Val::Str(b(s))
}

fn ctx(entries: Vec<(&str, Val)>) -> Vec<(Vec<u8>, Val)> {
    entries.into_iter().map(|(k, v)| (b(k), v)).collect()
}

fn render(e: &Engine, name: &str, c: &Vec<(Vec<u8>, Val)>) -> Result<String, EngineError> {
    e.render_to_string(&b(name), c).map(|out| String::from_utf8(out).unwrap())
}

#[test]
fn parse_is_deterministic() {
    let src = b("a{{ x | upper }}b{% if y %}c{% else %}d{% endif %}{% for i in xs %}{{ i }}{% endfor %}");
    let t1 = parse(&b("t"), &src).unwrap();
    let t2 = parse(&b("t"), &src).unwrap();
    assert_eq!(t1, t2);
}

#[test]
fn render_unchanged_after_reload() {
    let mut e = Engine::new();
    e.add_raw(&b("t"), &b("x={{ x }};{% if x %}on{% endif %}"), false).unwrap();
    let c = ctx(vec![("x", Val::Int(4))]);
    let before = render(&e, "t", &c).unwrap();
    e.reload().unwrap();
    let after = render(&e, "t", &c).unwrap();
    assert_eq!(before, after);
    assert_eq!(before, "x=4;on");
}

#[test]
fn plain_text_round_trip() {
    let mut e = Engine::new();
    let text = "no tags here, just } and { alone % and some words.";
    e.add_raw(&b("t"), &b(text), false).unwrap();
    let out = render(&e, "t", &ctx(vec![])).unwrap();
    assert_eq!(out, text);
}

#[test]
fn empty_template_renders_empty() {
    let mut e = Engine::new();
    e.add_raw(&b("t"), &b(""), false).unwrap();
    assert_eq!(render(&e, "t", &ctx(vec![])).unwrap(), "");
}

#[test]
fn inheritance_override_most_derived_wins() {
    let mut e = Engine::new();
    e.add_raw(&b("A"), &b("A{% block x %}P{% endblock %}"), false).unwrap();
    e.add_raw(&b("B"), &b("{% extends \"A\" %}{% block x %}C{% endblock %}"), false).unwrap();
    e.resolve_inheritance().unwrap();
    let out = render(&e, "B", &ctx(vec![])).unwrap();
    assert_eq!(out, "AC");
    assert!(!out.contains('P'));
}

#[test]
fn inheritance_default_without_child() {
    let mut e = Engine::new();
    e.add_raw(&b("A"), &b("A{% block x %}P{% endblock %}"), false).unwrap();
    assert_eq!(render(&e, "A", &ctx(vec![])).unwrap(), "AP");
}

#[test]
fn inheritance_three_levels() {
    let mut e = Engine::new();
    e.add_raw(&b("root"), &b("[{% block x %}R{% endblock %}]"), false).unwrap();
    e.add_raw(&b("mid"), &b("{% extends \"root\" %}{% block x %}M{% endblock %}"), false)
        .unwrap();
    e.add_raw(&b("leaf"), &b("{% extends \"mid\" %}{% block x %}L{% endblock %}"), false)
        .unwrap();
    e.resolve_inheritance().unwrap();
    assert_eq!(render(&e, "leaf", &ctx(vec![])).unwrap(), "[L]");
    assert_eq!(render(&e, "mid", &ctx(vec![])).unwrap(), "[M]");
}

#[test]
fn circular_inheritance_fails() {
    let mut e = Engine::new();
    e.add_raw(&b("A"), &b("{% extends \"B\" %}a"), false).unwrap();
    e.add_raw(&b("B"), &b("{% extends \"A\" %}b"), false).unwrap();
    match render(&e, "A", &ctx(vec![])) {
        Err(EngineError::CircularInheritance(_)) => {},
        other => panic!("expected circular inheritance, got {:?}", other),
    }
}

#[test]
fn autoescape_on_escapes_html() {
    let mut e = Engine::new();
    e.add_raw(&b("t"), &b("{{ v }}"), false).unwrap();
    let c = ctx(vec![("v", sv("<b>"))]);
    assert_eq!(render(&e, "t", &c).unwrap(), "&lt;b&gt;");
}

#[test]
fn autoescape_off_passes_html_through() {
    let mut e = Engine::new();
    e.add_raw(&b("t"), &b("{{ v }}"), false).unwrap();
    e.autoescape_off();
    let c = ctx(vec![("v", sv("<b>"))]);
    assert_eq!(render(&e, "t", &c).unwrap(), "<b>");
}

#[test]
fn autoescape_covers_all_special_bytes() {
    let mut e = Engine::new();
    e.add_raw(&b("t"), &b("{{ v }}"), false).unwrap();
    let c = ctx(vec![("v", sv("&<>\"'"))]);
    assert_eq!(render(&e, "t", &c).unwrap(), "&amp;&lt;&gt;&quot;&#x27;");
}

#[test]
fn strict_mode_rejects_undefined_variable() {
    let mut e = Engine::new();
    e.add_raw(&b("t"), &b("{{ missing }}"), false).unwrap();
    match render(&e, "t", &ctx(vec![])) {
        Err(EngineError::UndefinedVariable(path)) => {
            assert_eq!(path, vec![b("missing")]);
        },
        other => panic!("expected undefined variable, got {:?}", other),
    }
}

#[test]
fn lenient_mode_renders_undefined_as_empty() {
    let mut e = Engine::new();
    e.add_raw(&b("t"), &b("{{ missing }}"), false).unwrap();
    e.set_strict(false);
    assert_eq!(render(&e, "t", &ctx(vec![])).unwrap(), "");
}

#[test]
fn loop_renders_each_item() {
    let mut e = Engine::new();
    e.add_raw(&b("t"), &b("{% for item in xs %}{{ item }},{% endfor %}"), false).unwrap();
    let c = ctx(vec![("xs", Val::List(vec![Val::Int(1), Val::Int(2), Val::Int(3)]))]);
    assert_eq!(render(&e, "t", &c).unwrap(), "1,2,3,");
}

#[test]
fn loop_metadata_is_injected() {
    let mut e = Engine::new();
    e.add_raw(
        &b("t"),
        &b("{% for x in xs %}{{ loop.index }}:{{ loop.index0 }}:{{ loop.first }}:{{ loop.last }};{% endfor %}"),
        false,
    )
    .unwrap();
    let c = ctx(vec![("xs", Val::List(vec![sv("a"), sv("b")]))]);
    assert_eq!(render(&e, "t", &c).unwrap(), "1:0:true:false;2:1:false:true;");
}

#[test]
fn loop_over_empty_list_renders_nothing() {
    let mut e = Engine::new();
    e.add_raw(&b("t"), &b("({% for x in xs %}{{ x }}{% endfor %})"), false).unwrap();
    let c = ctx(vec![("xs", Val::List(vec![]))]);
    assert_eq!(render(&e, "t", &c).unwrap(), "()");
}

#[test]
fn unresolved_reference_lists_missing_parent() {
    let mut e = Engine::new();
    e.add_raw(&b("child"), &b("{% extends \"ghost_parent\" %}x"), false).unwrap();
    match e.resolve_inheritance() {
        Err(EngineError::Unresolved(names)) => {
            assert_eq!(names, vec![b("ghost_parent")]);
        },
        other => panic!("expected unresolved reference, got {:?}", other),
    }
}

#[test]
fn resolve_succeeds_when_parents_exist() {
    let mut e = Engine::new();
    e.add_raw(&b("A"), &b("a"), false).unwrap();
    e.add_raw(&b("B"), &b("{% extends \"A\" %}"), false).unwrap();
    e.resolve_inheritance().unwrap();
}

#[test]
fn duplicate_name_is_rejected_without_overwrite() {
    let mut e = Engine::new();
    e.add_raw(&b("t"), &b("one"), false).unwrap();
    match e.add_raw(&b("t"), &b("two"), false) {
        Err(EngineError::DuplicateName(n)) => assert_eq!(n, b("t")),
        other => panic!("expected duplicate name, got {:?}", other),
    }
    assert_eq!(render(&e, "t", &ctx(vec![])).unwrap(), "one");
}

#[test]
fn overwrite_replaces_in_place() {
    let mut e = Engine::new();
    e.add_raw(&b("t"), &b("one"), false).unwrap();
    e.add_raw(&b("u"), &b("other"), false).unwrap();
    e.add_raw(&b("t"), &b("two"), true).unwrap();
    assert_eq!(render(&e, "t", &ctx(vec![])).unwrap(), "two");
    let names = e.names();
    assert_eq!(names, vec![b("t"), b("u")]);
}

#[test]
fn missing_template_render_fails() {
    let e = Engine::new();
    match render(&e, "nope", &ctx(vec![])) {
        Err(EngineError::MissingTemplate(n)) => assert_eq!(n, b("nope")),
        other => panic!("expected missing template, got {:?}", other),
    }
}

#[test]
fn names_keep_insertion_order() {
    let mut e = Engine::new();
    e.add_raw(&b("zeta"), &b(""), false).unwrap();
    e.add_raw(&b("alpha"), &b(""), false).unwrap();
    e.add_raw(&b("mid"), &b(""), false).unwrap();
    assert_eq!(e.names(), vec![b("zeta"), b("alpha"), b("mid")]);
}

#[test]
fn render_to_appends_to_sink() {
    let mut e = Engine::new();
    e.add_raw(&b("t"), &b("tail"), false).unwrap();
    let mut sink = b("head-");
    e.render_to(&b("t"), &ctx(vec![]), &mut sink).unwrap();
    assert_eq!(String::from_utf8(sink).unwrap(), "head-tail");
}

#[test]
fn render_to_leaves_sink_alone_on_error() {
    let e = Engine::new();
    let mut sink = b("head");
    assert!(e.render_to(&b("nope"), &ctx(vec![]), &mut sink).is_err());
    assert_eq!(sink, b("head"));
}
