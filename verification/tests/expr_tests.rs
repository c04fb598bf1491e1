use excetera::engine::Engine;
use excetera::errors::{EngineError, ParseFault};
use excetera::value::Val;

fn b(s: &str) -> Vec<u8> {
    s.as_bytes().to_vec()
}

fn sv(s: &str) -> Val {
    Val::Str(b(s))
}

fn ctx(entries: Vec<(&str, Val)>) -> Vec<(Vec<u8>, Val)> {
    entries.into_iter().map(|(k, v)| (b(k), v)).collect()
}

fn run(src: &str, c: Vec<(&str, Val)>) -> Result<String, EngineError> {
    let mut e = Engine::new();
    e.add_raw(&b("t"), &b(src), false)?;
    e.autoescape_off();
    e.render_to_string(&b("t"), &ctx(c)).map(|out| String::from_utf8(out).unwrap())
}

fn parse_fault(src: &str) -> ParseFault {
    let mut e = Engine::new();
    match e.add_raw(&b("t"), &b(src), false) {
        Err(EngineError::Parse(f, _)) => f,
        other => panic!("expected parse error, got {:?}", other),
    }
}

#[test]
fn arithmetic_has_exact_values() {
    assert_eq!(run("{{ 2 + 3 }}", vec![]).unwrap(), "5");
    assert_eq!(run("{{ 7 - 9 }}", vec![]).unwrap(), "-2");
    assert_eq!(run("{{ 6 * 7 }}", vec![]).unwrap(), "42");
    assert_eq!(run("{{ -7 }}", vec![]).unwrap(), "-7");
    assert_eq!(run("{{ 0 }}", vec![]).unwrap(), "0");
}

#[test]
fn arithmetic_overflow_is_reported() {
    match run("{{ 9223372036854775806 + 2 }}", vec![]) {
        Err(EngineError::NumberOverflow) => {},
        other => panic!("expected overflow, got {:?}", other),
    }
    match run("{{ 9223372036854775806 * 3 }}", vec![]) {
        Err(EngineError::NumberOverflow) => {},
        other => panic!("expected overflow, got {:?}", other),
    }
}

#[test]
fn comparisons_render_booleans() {
    assert_eq!(run("{{ 2 < 3 }}", vec![]).unwrap(), "true");
    assert_eq!(run("{{ 2 >= 3 }}", vec![]).unwrap(), "false");
    assert_eq!(run("{{ 2 == 2 }}", vec![]).unwrap(), "true");
    assert_eq!(run("{{ 2 != 2 }}", vec![]).unwrap(), "false");
    assert_eq!(run("{{ \"ab\" == \"ab\" }}", vec![]).unwrap(), "true");
    assert_eq!(run("{{ \"ab\" != \"cd\" }}", vec![]).unwrap(), "true");
}

#[test]
fn mismatched_operand_kinds_are_rejected() {
    match run("{{ 2 + \"x\" }}", vec![]) {
        Err(EngineError::BadOperands) => {},
        other => panic!("expected bad operands, got {:?}", other),
    }
}

#[test]
fn filters_apply() {
    assert_eq!(run("{{ v | upper }}", vec![("v", sv("mixed Case"))]).unwrap(), "MIXED CASE");
    assert_eq!(run("{{ v | lower }}", vec![("v", sv("mixed Case"))]).unwrap(), "mixed case");
    assert_eq!(run("{{ v | length }}", vec![("v", sv("four"))]).unwrap(), "4");
    assert_eq!(
        run("{{ xs | length }}", vec![("xs", Val::List(vec![Val::Int(1), Val::Int(2)]))])
            .unwrap(),
        "2",
    );
    assert_eq!(run("{{ v | escape }}", vec![("v", sv("<i>"))]).unwrap(), "&lt;i&gt;");
    assert_eq!(run("{{ v | upper | lower }}", vec![("v", sv("AbC"))]).unwrap(), "abc");
}

#[test]
fn unknown_filter_is_reported() {
    match run("{{ v | sparkle }}", vec![("v", sv("x"))]) {
        Err(EngineError::UnknownFilter(n)) => assert_eq!(n, b("sparkle")),
        other => panic!("expected unknown filter, got {:?}", other),
    }
}

#[test]
fn unknown_function_is_reported() {
    match run("{{ jackpot(3) }}", vec![]) {
        Err(EngineError::UnknownFunction(n)) => assert_eq!(n, b("jackpot")),
        other => panic!("expected unknown function, got {:?}", other),
    }
}

#[test]
fn range_function_feeds_loops() {
    assert_eq!(run("{% for i in range(4) %}{{ i }}{% endfor %}", vec![]).unwrap(), "0123");
}

#[test]
fn paths_walk_mappings_and_lists() {
    let user = Val::Mapping(vec![(b("name"), sv("ada")), (b("id"), Val::Int(7))]);
    assert_eq!(run("{{ user.name }}/{{ user.id }}", vec![("user", user)]).unwrap(), "ada/7");
    let xs = Val::List(vec![sv("zero"), sv("one")]);
    assert_eq!(run("{{ xs.1 }}", vec![("xs", xs)]).unwrap(), "one");
}

#[test]
fn conditional_truthiness() {
    assert_eq!(run("{% if v %}y{% else %}n{% endif %}", vec![("v", Val::Int(1))]).unwrap(), "y");
    assert_eq!(run("{% if v %}y{% else %}n{% endif %}", vec![("v", Val::Int(0))]).unwrap(), "n");
    assert_eq!(run("{% if v %}y{% else %}n{% endif %}", vec![("v", sv(""))]).unwrap(), "n");
    assert_eq!(run("{% if v %}y{% endif %}", vec![("v", Val::Bool(false))]).unwrap(), "");
    assert_eq!(
        run("{% if v %}y{% else %}n{% endif %}", vec![("v", Val::List(vec![]))]).unwrap(),
        "n",
    );
    assert_eq!(run("{% if v %}y{% else %}n{% endif %}", vec![("v", Val::Null)]).unwrap(), "n");
}

#[test]
fn values_render_readably() {
    assert_eq!(run("{{ v }}", vec![("v", Val::Bool(true))]).unwrap(), "true");
    assert_eq!(run("{{ v }}", vec![("v", Val::Null)]).unwrap(), "");
    let xs = Val::List(vec![Val::Int(1), Val::Int(2), Val::Int(3)]);
    assert_eq!(run("{{ xs }}", vec![("xs", xs)]).unwrap(), "[1, 2, 3]");
    let m = Val::Mapping(vec![(b("a"), Val::Int(1))]);
    assert_eq!(run("{{ m }}", vec![("m", m)]).unwrap(), "{a: 1}");
}

#[test]
fn string_literals_and_booleans_in_expressions() {
    assert_eq!(run("{{ \"hi\" }}", vec![]).unwrap(), "hi");
    assert_eq!(run("{{ true }}", vec![]).unwrap(), "true");
    assert_eq!(run("{{ false }}", vec![]).unwrap(), "false");
}

#[test]
fn unclosed_expression_tag_is_a_parse_error() {
    assert_eq!(parse_fault("abc{{ v"), ParseFault::UnclosedTag);
}

#[test]
fn unknown_tag_keyword_is_a_parse_error() {
    assert_eq!(parse_fault("{% frobnicate %}"), ParseFault::UnknownTag);
}

#[test]
fn mismatched_end_tag_is_a_parse_error() {
    assert_eq!(parse_fault("{% if v %}x{% endfor %}"), ParseFault::MismatchedEnd);
    assert_eq!(parse_fault("x{% endif %}"), ParseFault::MismatchedEnd);
}

#[test]
fn unclosed_construct_is_a_parse_error() {
    assert_eq!(parse_fault("{% if v %}x"), ParseFault::UnclosedTag);
    assert_eq!(parse_fault("{% for x in xs %}x"), ParseFault::UnclosedTag);
    assert_eq!(parse_fault("{% block b %}x"), ParseFault::UnclosedTag);
}

#[test]
fn unclosed_string_literal_is_a_parse_error() {
    assert_eq!(parse_fault("{{ \"abc }}"), ParseFault::UnclosedString);
}

#[test]
fn oversized_number_literal_is_a_parse_error() {
    assert_eq!(parse_fault("{{ 99999999999999999999999 }}"), ParseFault::BadNumber);
}

#[test]
fn misplaced_extends_is_a_parse_error() {
    assert_eq!(parse_fault("x{% extends \"A\" %}"), ParseFault::MisplacedExtends);
}

#[test]
fn malformed_expressions_are_parse_errors() {
    assert_eq!(parse_fault("{{ }}"), ParseFault::BadExpression);
    assert_eq!(parse_fault("{{ 1 2 }}"), ParseFault::BadExpression);
    assert_eq!(parse_fault("{{ v | }}"), ParseFault::BadExpression);
    assert_eq!(parse_fault("{% for in xs %}{% endfor %}"), ParseFault::BadExpression);
}

#[test]
fn parse_error_carries_offset() {
    let mut e = Engine::new();
    match e.add_raw(&b("t"), &b("abcd{{ v"), false) {
        Err(EngineError::Parse(ParseFault::UnclosedTag, at)) => assert_eq!(at, 4),
        other => panic!("expected unclosed tag with offset, got {:?}", other),
    }
}

#[test]
fn parse_error_offset_locates_line_and_column() {
    let src = b("ok line\nmore{{ v");
    let mut e = Engine::new();
    let at = match e.add_raw(&b("t"), &src, false) {
        Err(EngineError::Parse(ParseFault::UnclosedTag, at)) => at,
        other => panic!("expected unclosed tag, got {:?}", other),
    };
    assert_eq!(excetera::parse::line_col(&src, at), (2, 5));
}

#[test]
fn filter_on_wrong_kind_is_rejected() {
    match run("{{ v | upper }}", vec![("v", Val::Int(3))]) {
        Err(EngineError::BadOperands) => {},
        other => panic!("expected bad operands, got {:?}", other),
    }
}

#[test]
fn loop_over_non_list_is_rejected() {
    match run("{% for x in v %}{{ x }}{% endfor %}", vec![("v", Val::Int(3))]) {
        Err(EngineError::BadOperands) => {},
        other => panic!("expected bad operands, got {:?}", other),
    }
}

#[test]
fn nested_loops_shadow_the_loop_variable() {
    let xs = Val::List(vec![Val::Int(1), Val::Int(2)]);
    let ys = Val::List(vec![sv("a"), sv("b")]);
    let out = run(
        "{% for x in xs %}{% for y in ys %}{{ x }}{{ y }} {% endfor %}{% endfor %}",
        vec![("xs", xs), ("ys", ys)],
    )
    .unwrap();
    assert_eq!(out, "1a 1b 2a 2b ");
}

#[test]
fn filters_bind_tighter_than_operators() {
    assert_eq!(
        run("{{ v | length + 1 }}", vec![("v", sv("abc"))]).unwrap(),
        "4",
    );
}
