//! The renderer: it walks a template body node by node, writing text
//! verbatim, interpolating evaluated expressions (escaped when
//! autoescape is on), branching on conditions, repeating loop bodies
//! with a per-iteration child context carrying the loop variable and a
//! `loop` metadata mapping, and substituting inherited blocks: the
//! most-derived override of a block wins, and rendering starts from the
//! root ancestor's structure.

use vstd::prelude::*;

use crate::ast::{bytes_copy, lemma_nodes_view_index, nodes_clone, nodes_view, Node, SpecNode};
use crate::errors::{EngineError, SpecError};
use crate::eval::{eval, spec_eval};
use crate::text::{escape_bytes, show, spec_esc, spec_show};
use crate::value::{bytes_clone, bytes_eq, lemma_pairs_view_index, lemma_pairs_view_push,
    lemma_vals_view_index, pairs_view, spec_truthy, truthy, val_clone, vals_view, SpecVal, Val};

verus! {

/// The model of a list of block overrides.
pub open spec fn blocks_view(bs: Seq<(Vec<u8>, Vec<Node>)>) -> Seq<(Seq<u8>, Seq<SpecNode>)>
    decreases bs,
{
    if bs.len() == 0 {
        Seq::empty()
    } else {
        seq![(bs[0].0@, nodes_view(bs[0].1@))] + blocks_view(bs.drop_first())
    }
}

/// Each element of the model of a block list is the model of the
/// corresponding block.
pub proof fn lemma_blocks_view_index(bs: Seq<(Vec<u8>, Vec<Node>)>)
    ensures
        blocks_view(bs).len() == bs.len(),
        forall|i: int| 0 <= i < bs.len()
            ==> #[trigger] blocks_view(bs)[i] == (bs[i].0@, nodes_view(bs[i].1@)),
    decreases bs,
{
    if bs.len() > 0 {
        lemma_blocks_view_index(bs.drop_first());
    }
}

/// The top-level blocks of a body from index `from` on, in order.
pub open spec fn spec_blocks_of(ns: Seq<SpecNode>, from: int) -> Seq<(Seq<u8>, Seq<SpecNode>)>
    decreases ns.len() - from,
{
    if from < 0 || from >= ns.len() {
        Seq::empty()
    } else {
        match ns[from] {
            SpecNode::Block(name, body) => seq![(name, body)] + spec_blocks_of(ns, from + 1),
            _ => spec_blocks_of(ns, from + 1),
        }
    }
}

/// Collect the top-level blocks of a body from index `from` on.
pub fn blocks_of(ns: &Vec<Node>, from: usize) -> (r: Vec<(Vec<u8>, Vec<Node>)>)
    requires
        from <= ns@.len(),
    ensures
        blocks_view(r@) == spec_blocks_of(nodes_view(ns@), from as int),
    decreases ns@.len() - from,
{
    proof {
        lemma_nodes_view_index(ns@);
    }
    if from >= ns.len() {
        let out: Vec<(Vec<u8>, Vec<Node>)> = Vec::new();
        proof {
            assert(blocks_view(out@) =~= spec_blocks_of(nodes_view(ns@), from as int));
        }
        return out;
    }
    let rest = blocks_of(ns, from + 1);
    match &ns[from] {
        Node::Block(name, body) => {
            let mut out: Vec<(Vec<u8>, Vec<Node>)> = Vec::new();
            out.push((bytes_copy(name), nodes_clone(body)));
            let mut rest2 = rest;
            let ghost rest_models = blocks_view(rest2@);
            proof {
                lemma_blocks_view_index(out@);
                lemma_blocks_view_index(rest2@);
            }
            out.append(&mut rest2);
            proof {
                lemma_blocks_view_index(out@);
                assert(blocks_view(out@) =~= spec_blocks_of(nodes_view(ns@), from as int));
            }
            out
        },
        _ => {
            proof {
                lemma_blocks_view_index(rest@);
            }
            rest
        },
    }
}

/// The body of the first block of this name, if any.
pub open spec fn spec_assoc_blocks(bs: Seq<(Seq<u8>, Seq<SpecNode>)>, name: Seq<u8>) -> Option<
    Seq<SpecNode>,
>
    decreases bs.len(),
{
    if bs.len() == 0 {
        None
    } else if bs[0].0 == name {
        Some(bs[0].1)
    } else {
        spec_assoc_blocks(bs.drop_first(), name)
    }
}

/// Find the first block override of this name.
pub fn assoc_blocks_idx(bs: &Vec<(Vec<u8>, Vec<Node>)>, name: &Vec<u8>) -> (r: Option<usize>)
    ensures
        match r {
            Some(ix) => ix < bs@.len() && spec_assoc_blocks(blocks_view(bs@), name@) == Some(
                nodes_view(bs@[ix as int].1@),
            ),
            None => spec_assoc_blocks(blocks_view(bs@), name@) == None::<Seq<SpecNode>>,
        },
{
    proof {
        lemma_blocks_view_index(bs@);
        assert(blocks_view(bs@).skip(0) =~= blocks_view(bs@));
    }
    for i in 0..bs.len()
        invariant
            i <= bs@.len(),
            blocks_view(bs@).len() == bs@.len(),
            forall|k: int| 0 <= k < bs@.len()
                ==> #[trigger] blocks_view(bs@)[k] == (bs@[k].0@, nodes_view(bs@[k].1@)),
            spec_assoc_blocks(blocks_view(bs@), name@) == spec_assoc_blocks(
                blocks_view(bs@).skip(i as int),
                name@,
            ),
    {
        proof {
            assert(blocks_view(bs@).skip(i as int)[0] == blocks_view(bs@)[i as int]);
        }
        if bytes_eq(&bs[i].0, name) {
            return Some(i);
        }
        proof {
            assert(blocks_view(bs@).skip(i as int).drop_first() =~= blocks_view(bs@).skip(
                i + 1,
            ));
        }
    }
    proof {
        assert(blocks_view(bs@).skip(bs@.len() as int).len() == 0);
    }
    None
}

/// The override budget: once a block override has been taken, nested
/// blocks render their own bodies.
pub open spec fn uo(use_ov: bool) -> int {
    if use_ov {
        1int
    } else {
        0int
    }
}

/// Render a run of nodes from index `from` on, concatenating each
/// node's output.
pub open spec fn spec_render_nodes(
    ns: Seq<SpecNode>,
    from: int,
    ov: Seq<(Seq<u8>, Seq<SpecNode>)>,
    use_ov: bool,
    esc: bool,
    strict: bool,
    ctx: Seq<(Seq<u8>, SpecVal)>,
) -> Result<Seq<u8>, SpecError>
    decreases uo(use_ov), ns, 1int, ns.len() - from,
{
    if from < 0 || from >= ns.len() {
        Ok(Seq::empty())
    } else {
        match spec_render_node(ns[from], ov, use_ov, esc, strict, ctx) {
            Err(e) => Err(e),
            Ok(out) => match spec_render_nodes(ns, from + 1, ov, use_ov, esc, strict, ctx) {
                Err(e) => Err(e),
                Ok(rest) => Ok(out + rest),
            },
        }
    }
}

/// Render one node.
pub open spec fn spec_render_node(
    n: SpecNode,
    ov: Seq<(Seq<u8>, Seq<SpecNode>)>,
    use_ov: bool,
    esc: bool,
    strict: bool,
    ctx: Seq<(Seq<u8>, SpecVal)>,
) -> Result<Seq<u8>, SpecError>
    decreases uo(use_ov), n, 0int, 0int,
{
    match n {
        SpecNode::Text(t) => Ok(t),
        SpecNode::Emit(e) => match spec_eval(e, ctx, strict) {
            Err(er) => Err(er),
            Ok(v) => Ok(
                if esc {
                    spec_esc(spec_show(v))
                } else {
                    spec_show(v)
                },
            ),
        },
        SpecNode::Cond(c, yes, no) => match spec_eval(c, ctx, strict) {
            Err(er) => Err(er),
            Ok(v) => if spec_truthy(v) {
                spec_render_nodes(yes, 0, ov, use_ov, esc, strict, ctx)
            } else {
                spec_render_nodes(no, 0, ov, use_ov, esc, strict, ctx)
            },
        },
        SpecNode::Loop(var, iter, body) => match spec_eval(iter, ctx, strict) {
            Err(er) => Err(er),
            Ok(v) => match v {
                SpecVal::List(items) => if items.len() > 0x7fff_ffff_ffff_ffff {
                    Err(SpecError::NumberOverflow)
                } else {
                    spec_render_loop(var, body, items, 0, ov, use_ov, esc, strict, ctx)
                },
                _ => Err(SpecError::BadOperands),
            },
        },
        SpecNode::Block(name, dflt) => if use_ov {
            match spec_assoc_blocks(ov, name) {
                Some(b) => spec_render_nodes(b, 0, ov, false, esc, strict, ctx),
                None => spec_render_nodes(dflt, 0, ov, true, esc, strict, ctx),
            }
        } else {
            spec_render_nodes(dflt, 0, ov, false, esc, strict, ctx)
        },
    }
}

/// The context of one loop iteration: the loop variable bound to the
/// item, and `loop` bound to index/index0/first/last metadata, in front
/// of the enclosing context.
pub open spec fn spec_loop_ctx(
    var: Seq<u8>,
    item: SpecVal,
    k: int,
    total: int,
    ctx: Seq<(Seq<u8>, SpecVal)>,
) -> Seq<(Seq<u8>, SpecVal)> {
    let meta = SpecVal::Mapping(
        seq![
            (seq![105u8, 110u8, 100u8, 101u8, 120u8], SpecVal::Int((k + 1) as i64)),
            (seq![105u8, 110u8, 100u8, 101u8, 120u8, 48u8], SpecVal::Int(k as i64)),
            (seq![102u8, 105u8, 114u8, 115u8, 116u8], SpecVal::Bool(k == 0)),
            (seq![108u8, 97u8, 115u8, 116u8], SpecVal::Bool(k == total - 1)),
        ],
    );
    seq![(var, item), (seq![108u8, 111u8, 111u8, 112u8], meta)] + ctx
}

/// Render the loop body once per item from index `k` on.
pub open spec fn spec_render_loop(
    var: Seq<u8>,
    body: Seq<SpecNode>,
    items: Seq<SpecVal>,
    k: int,
    ov: Seq<(Seq<u8>, Seq<SpecNode>)>,
    use_ov: bool,
    esc: bool,
    strict: bool,
    ctx: Seq<(Seq<u8>, SpecVal)>,
) -> Result<Seq<u8>, SpecError>
    decreases uo(use_ov), body, 2int, items.len() - k,
{
    if k < 0 || k >= items.len() {
        Ok(Seq::empty())
    } else {
        let child = spec_loop_ctx(var, items[k], k, items.len() as int, ctx);
        match spec_render_nodes(body, 0, ov, use_ov, esc, strict, child) {
            Err(e) => Err(e),
            Ok(out) => match spec_render_loop(
                var,
                body,
                items,
                k + 1,
                ov,
                use_ov,
                esc,
                strict,
                ctx,
            ) {
                Err(e) => Err(e),
                Ok(rest) => Ok(out + rest),
            },
        }
    }
}

/// The spec form of an executable render result.
pub open spec fn bytes_res(r: Result<Vec<u8>, EngineError>) -> Result<Seq<u8>, SpecError> {
    match r {
        Ok(out) => Ok(out@),
        Err(e) => Err(e.model()),
    }
}

/// Render a run of nodes from index `from` on.
pub fn render_nodes(
    ns: &Vec<Node>,
    from: usize,
    ov: &Vec<(Vec<u8>, Vec<Node>)>,
    use_ov: bool,
    esc: bool,
    strict: bool,
    ctx: &Vec<(Vec<u8>, Val)>,
) -> (r: Result<Vec<u8>, EngineError>)
    requires
        from <= ns@.len(),
    ensures
        bytes_res(r) == spec_render_nodes(
            nodes_view(ns@),
            from as int,
            blocks_view(ov@),
            use_ov,
            esc,
            strict,
            pairs_view(ctx@),
        ),
    decreases uo(use_ov), ns@, 1int, ns@.len() - from,
{
    proof {
        lemma_nodes_view_index(ns@);
    }
    if from >= ns.len() {
        return Ok(Vec::new());
    }
    proof {
        assert(decreases_to!(ns@ => ns@[from as int]));
    }
    let mut out = match render_node(&ns[from], ov, use_ov, esc, strict, ctx) {
        Err(e) => {
            return Err(e);
        },
        Ok(v) => v,
    };
    let mut rest = match render_nodes(ns, from + 1, ov, use_ov, esc, strict, ctx) {
        Err(e) => {
            return Err(e);
        },
        Ok(v) => v,
    };
    out.append(&mut rest);
    Ok(out)
}

/// Render one node.
pub fn render_node(
    n: &Node,
    ov: &Vec<(Vec<u8>, Vec<Node>)>,
    use_ov: bool,
    esc: bool,
    strict: bool,
    ctx: &Vec<(Vec<u8>, Val)>,
) -> (r: Result<Vec<u8>, EngineError>)
    ensures
        bytes_res(r) == spec_render_node(
            n.model(),
            blocks_view(ov@),
            use_ov,
            esc,
            strict,
            pairs_view(ctx@),
        ),
    decreases uo(use_ov), *n, 0int, 0int,
{
    match n {
        Node::Text(t) => Ok(bytes_copy(t)),
        Node::Emit(e) => {
            let v = match eval(e, ctx, strict) {
                Err(er) => {
                    return Err(er);
                },
                Ok(v) => v,
            };
            let shown = show(&v);
            if esc {
                Ok(escape_bytes(&shown))
            } else {
                Ok(shown)
            }
        },
        Node::Cond(c, yes, no) => {
            let v = match eval(c, ctx, strict) {
                Err(er) => {
                    return Err(er);
                },
                Ok(v) => v,
            };
            if truthy(&v) {
                render_nodes(yes, 0, ov, use_ov, esc, strict, ctx)
            } else {
                render_nodes(no, 0, ov, use_ov, esc, strict, ctx)
            }
        },
        Node::Loop(var, iter, body) => {
            let v = match eval(iter, ctx, strict) {
                Err(er) => {
                    return Err(er);
                },
                Ok(v) => v,
            };
            match v {
                Val::List(items) => {
                    proof {
                        lemma_vals_view_index(items@);
                    }
                    if items.len() as u64 > 0x7fff_ffff_ffff_ffffu64 {
                        Err(EngineError::NumberOverflow)
                    } else {
                        render_loop(var, body, &items, 0, ov, use_ov, esc, strict, ctx)
                    }
                },
                _ => Err(EngineError::BadOperands),
            }
        },
        Node::Block(name, dflt) => {
            if use_ov {
                match assoc_blocks_idx(ov, name) {
                    Some(ix) => render_nodes(&ov[ix].1, 0, ov, false, esc, strict, ctx),
                    None => render_nodes(dflt, 0, ov, true, esc, strict, ctx),
                }
            } else {
                render_nodes(dflt, 0, ov, false, esc, strict, ctx)
            }
        },
    }
}

/// Render the loop body once per item from index `k` on.
fn render_loop(
    var: &Vec<u8>,
    body: &Vec<Node>,
    items: &Vec<Val>,
    k: usize,
    ov: &Vec<(Vec<u8>, Vec<Node>)>,
    use_ov: bool,
    esc: bool,
    strict: bool,
    ctx: &Vec<(Vec<u8>, Val)>,
) -> (r: Result<Vec<u8>, EngineError>)
    requires
        k <= items@.len(),
        items@.len() <= 0x7fff_ffff_ffff_ffff,
    ensures
        bytes_res(r) == spec_render_loop(
            var@,
            nodes_view(body@),
            vals_view(items@),
            k as int,
            blocks_view(ov@),
            use_ov,
            esc,
            strict,
            pairs_view(ctx@),
        ),
    decreases uo(use_ov), body@, 2int, items@.len() - k,
{
    proof {
        lemma_vals_view_index(items@);
    }
    if k >= items.len() {
        return Ok(Vec::new());
    }
    let mut meta: Vec<(Vec<u8>, Val)> = Vec::new();
    let mut w_index: Vec<u8> = Vec::new();
    w_index.push(105);
    w_index.push(110);
    w_index.push(100);
    w_index.push(101);
    w_index.push(120);
    let mut w_index0: Vec<u8> = Vec::new();
    w_index0.push(105);
    w_index0.push(110);
    w_index0.push(100);
    w_index0.push(101);
    w_index0.push(120);
    w_index0.push(48);
    let mut w_first: Vec<u8> = Vec::new();
    w_first.push(102);
    w_first.push(105);
    w_first.push(114);
    w_first.push(115);
    w_first.push(116);
    let mut w_last: Vec<u8> = Vec::new();
    w_last.push(108);
    w_last.push(97);
    w_last.push(115);
    w_last.push(116);
    let mut w_loop: Vec<u8> = Vec::new();
    w_loop.push(108);
    w_loop.push(111);
    w_loop.push(111);
    w_loop.push(112);
    proof {
        assert(w_index@ =~= seq![105u8, 110u8, 100u8, 101u8, 120u8]);
        assert(w_index0@ =~= seq![105u8, 110u8, 100u8, 101u8, 120u8, 48u8]);
        assert(w_first@ =~= seq![102u8, 105u8, 114u8, 115u8, 116u8]);
        assert(w_last@ =~= seq![108u8, 97u8, 115u8, 116u8]);
        assert(w_loop@ =~= seq![108u8, 111u8, 111u8, 112u8]);
    }
    meta.push((w_index, Val::Int((k + 1) as i64)));
    meta.push((w_index0, Val::Int(k as i64)));
    meta.push((w_first, Val::Bool(k == 0)));
    meta.push((w_last, Val::Bool(k == items.len() - 1)));
    let ghost meta_model = SpecVal::Mapping(
        seq![
            (seq![105u8, 110u8, 100u8, 101u8, 120u8], SpecVal::Int((k + 1) as i64)),
            (seq![105u8, 110u8, 100u8, 101u8, 120u8, 48u8], SpecVal::Int(k as i64)),
            (seq![102u8, 105u8, 114u8, 115u8, 116u8], SpecVal::Bool(k == 0)),
            (
                seq![108u8, 97u8, 115u8, 116u8],
                SpecVal::Bool(k as int == items@.len() - 1),
            ),
        ],
    );
    proof {
        lemma_pairs_view_index(meta@);
        assert(Val::Mapping(meta).model() == SpecVal::Mapping(pairs_view(meta@)));
        assert(pairs_view(meta@) =~= meta_model->Mapping_0);
    }
    let mut child: Vec<(Vec<u8>, Val)> = Vec::new();
    child.push((bytes_clone(var), val_clone(&items[k])));
    child.push((w_loop, Val::Mapping(meta)));
    proof {
        lemma_pairs_view_index(child@);
        assert(pairs_view(child@) =~= seq![
            (var@, vals_view(items@)[k as int]),
            (seq![108u8, 111u8, 111u8, 112u8], meta_model),
        ]);
    }
    append_ctx(&mut child, ctx);
    proof {
        assert(pairs_view(child@) =~= spec_loop_ctx(
            var@,
            vals_view(items@)[k as int],
            k as int,
            vals_view(items@).len() as int,
            pairs_view(ctx@),
        ));
    }
    let mut out = match render_nodes(body, 0, ov, use_ov, esc, strict, &child) {
        Err(e) => {
            return Err(e);
        },
        Ok(v) => v,
    };
    let mut rest = match render_loop(var, body, items, k + 1, ov, use_ov, esc, strict, ctx) {
        Err(e) => {
            return Err(e);
        },
        Ok(v) => v,
    };
    out.append(&mut rest);
    Ok(out)
}

/// Append a copy of every context entry.
fn append_ctx(dst: &mut Vec<(Vec<u8>, Val)>, src: &Vec<(Vec<u8>, Val)>)
    ensures
        pairs_view(final(dst)@) == pairs_view(old(dst)@) + pairs_view(src@),
{
    proof {
        lemma_pairs_view_index(src@);
    }
    for i in 0..src.len()
        invariant
            i <= src@.len(),
            pairs_view(dst@) == pairs_view(old(dst)@) + pairs_view(src@).subrange(0, i as int),
    {
        proof {
            lemma_pairs_view_index(src@);
        }
        let key = bytes_clone(&src[i].0);
        let v = val_clone(&src[i].1);
        proof {
            lemma_pairs_view_push(dst@, (key, v));
            assert(pairs_view(dst@).push((key@, v.model())) =~= pairs_view(old(dst)@)
                + pairs_view(src@).subrange(0, i + 1));
        }
        dst.push((key, v));
    }
    proof {
        assert(pairs_view(src@).subrange(0, src@.len() as int) =~= pairs_view(src@));
    }
}

} // verus!
