//! Engine-wide laws, stated and proved over the models that the
//! executable functions are verified against.

use vstd::prelude::*;

use crate::ast::{SpecExpr, SpecNode};
use crate::engine::{spec_render_tpl, SpecEngine};
use crate::errors::SpecError;
use crate::parse::{spec_initial_fuel, spec_is_marker, spec_parse, spec_parse_plain,
    spec_parse_nodes, spec_scan_text, Closer};
use crate::render::{spec_render_node, spec_render_nodes};
use crate::value::SpecVal;

verus! {

/// Parsing is deterministic: equal sources always yield equal results,
/// abstract syntax trees and errors alike. The executable parser
/// returns exactly `spec_parse` of its input, so two parses of the
/// same source are structurally identical.
pub proof fn lemma_parse_deterministic(s1: Seq<u8>, s2: Seq<u8>)
    requires
        s1 == s2,
    ensures
        spec_parse(s1) == spec_parse(s2),
{
}

/// Rendering is unchanged by a reload without source changes: reload
/// re-parses every stored source in place, which leaves the registry
/// model as it was (`Engine::reload` ensures this), and rendering is a
/// function of that model alone.
pub proof fn lemma_render_after_reload(
    before: SpecEngine,
    after: SpecEngine,
    name: Seq<u8>,
    ctx: Seq<(Seq<u8>, SpecVal)>,
)
    requires
        after == before,
    ensures
        spec_render_tpl(after.templates, after.autoescape, after.strict, name, ctx)
            == spec_render_tpl(before.templates, before.autoescape, before.strict, name, ctx),
{
}

/// A source with no tag opener anywhere.
pub open spec fn plain_text(s: Seq<u8>) -> bool {
    forall|i: int| 0 <= i < s.len() ==> !spec_is_marker(s, i)
}

/// Scanning plain text runs to the end of the source.
proof fn lemma_scan_plain(s: Seq<u8>, i: int)
    requires
        plain_text(s),
        0 <= i <= s.len(),
    ensures
        spec_scan_text(s, i) == s.len(),
    decreases s.len() - i,
{
    if 0 <= i && i < s.len() {
        lemma_scan_plain(s, i + 1);
    }
}

/// Round trip: a template with no expressions or tags renders as its
/// raw text, unchanged, whatever the context, override set and
/// configuration.
pub proof fn lemma_text_round_trip(
    s: Seq<u8>,
    ov: Seq<(Seq<u8>, Seq<SpecNode>)>,
    use_ov: bool,
    esc: bool,
    strict: bool,
    ctx: Seq<(Seq<u8>, SpecVal)>,
)
    requires
        plain_text(s),
    ensures
        spec_parse(s) matches Ok(pb) && pb.0 == None::<Seq<u8>> && spec_render_nodes(
            pb.1,
            0,
            ov,
            use_ov,
            esc,
            strict,
            ctx,
        ) == Ok::<_, SpecError>(s),
{
    let fuel = spec_initial_fuel(s.len());
    assert(usize::MAX as nat >= 64);
    assert(fuel > 0);
    lemma_scan_plain(s, 0);
    if s.len() >= 2 {
        assert(!spec_is_marker(s, 0));
    }
    assert(spec_parse(s) == spec_parse_plain(s, fuel));
    let t = spec_scan_text(s, 0);
    assert(t == s.len());
    if s.len() == 0 {
        assert(spec_parse_nodes(s, 0, fuel) == Ok::<_, SpecError>(
            (Seq::<SpecNode>::empty(), s.len() as int, Closer::AtEnd),
        ));
        let pb = spec_parse(s)->Ok_0;
        assert(spec_render_nodes(pb.1, 0, ov, use_ov, esc, strict, ctx) == Ok::<
            _,
            SpecError,
        >(Seq::<u8>::empty()));
        assert(s =~= Seq::<u8>::empty());
    } else {
        assert(s.subrange(0, s.len() as int) =~= s);
        assert(spec_parse_nodes(s, 0, fuel) == Ok::<_, SpecError>(
            (seq![SpecNode::Text(s)], s.len() as int, Closer::AtEnd),
        ));
        let pb = spec_parse(s)->Ok_0;
        assert(pb.1 == seq![SpecNode::Text(s)]);
        assert(pb.1[0] == SpecNode::Text(s));
        assert(crate::render::spec_render_node(pb.1[0], ov, use_ov, esc, strict, ctx) == Ok::<
            _,
            SpecError,
        >(s));
        assert(spec_render_nodes(pb.1, 1, ov, use_ov, esc, strict, ctx) == Ok::<
            _,
            SpecError,
        >(Seq::<u8>::empty()));
        assert(spec_render_nodes(pb.1, 0, ov, use_ov, esc, strict, ctx) == Ok::<
            _,
            SpecError,
        >(s + Seq::<u8>::empty()));
        assert(s + Seq::<u8>::empty() =~= s);
    }
}


/// Autoescape: interpolating a string variable under escape-on yields
/// its HTML-escaped bytes; under escape-off it yields the bytes
/// unchanged.
pub proof fn lemma_autoescape_governs_interpolation(
    name: Seq<u8>,
    s: Seq<u8>,
    ov: Seq<(Seq<u8>, Seq<SpecNode>)>,
    use_ov: bool,
    strict: bool,
)
    ensures
        spec_render_node(
            SpecNode::Emit(SpecExpr::Var(seq![name])),
            ov,
            use_ov,
            true,
            strict,
            seq![(name, SpecVal::Str(s))],
        ) == Ok::<_, SpecError>(crate::text::spec_esc(s)),
        spec_render_node(
            SpecNode::Emit(SpecExpr::Var(seq![name])),
            ov,
            use_ov,
            false,
            strict,
            seq![(name, SpecVal::Str(s))],
        ) == Ok::<_, SpecError>(s),
{
    let ctx = seq![(name, SpecVal::Str(s))];
    let path = seq![name];
    assert(crate::eval::spec_assoc(ctx, name) == Some(SpecVal::Str(s)));
    assert(crate::eval::spec_walk(SpecVal::Str(s), path, 1) == Some(SpecVal::Str(s)));
    assert(crate::eval::spec_lookup(ctx, path) == Some(SpecVal::Str(s)));
    assert(crate::text::spec_show(SpecVal::Str(s)) == s);
}

/// Strict and lenient handling of an undefined variable: in strict
/// mode interpolating it fails with `UndefinedVariable` naming the
/// path; in lenient mode it renders as nothing at all.
pub proof fn lemma_undefined_variable_modes(
    path: Seq<Seq<u8>>,
    ov: Seq<(Seq<u8>, Seq<SpecNode>)>,
    use_ov: bool,
    esc: bool,
    ctx: Seq<(Seq<u8>, SpecVal)>,
)
    requires
        crate::eval::spec_lookup(ctx, path) == None::<SpecVal>,
    ensures
        spec_render_node(SpecNode::Emit(SpecExpr::Var(path)), ov, use_ov, esc, true, ctx)
            == Err::<Seq<u8>, _>(SpecError::UndefinedVariable(path)),
        spec_render_node(SpecNode::Emit(SpecExpr::Var(path)), ov, use_ov, esc, false, ctx)
            == Ok::<_, SpecError>(Seq::<u8>::empty()),
{
    assert(crate::text::spec_show(SpecVal::Null) == Seq::<u8>::empty());
    assert(crate::text::spec_esc(Seq::<u8>::empty()) == Seq::<u8>::empty());
}

} // verus!
