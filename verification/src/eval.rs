//! The expression evaluator: it resolves variable paths against a
//! context, applies binary operators, built-in filters (`upper`,
//! `lower`, `length`, `escape`) and built-in functions (`range`), and
//! reports undefined variables according to the strict/lenient setting.

use vstd::prelude::*;

use crate::ast::{BinOp, Expr, SpecExpr};
use crate::errors::{EngineError, SpecError};
use crate::parse::{is_digit, spec_digits_val};
use crate::text::{spec_esc, spec_lower, spec_upper};
use crate::value::{bytes_clone, bytes_eq, lemma_pairs_view_index, lemma_vals_view_index,
    lemma_vals_view_push, pairs_view, val_clone, vals_view, SpecVal, Val};

verus! {

/// The value bound to `key` in an association list, first match wins.
pub open spec fn spec_assoc(ps: Seq<(Seq<u8>, SpecVal)>, key: Seq<u8>) -> Option<SpecVal>
    decreases ps.len(),
{
    if ps.len() == 0 {
        None
    } else if ps[0].0 == key {
        Some(ps[0].1)
    } else {
        spec_assoc(ps.drop_first(), key)
    }
}

/// Find the first entry bound to `key`.
pub fn assoc_idx(ps: &Vec<(Vec<u8>, Val)>, key: &Vec<u8>) -> (r: Option<usize>)
    ensures
        match r {
            Some(ix) => ix < ps@.len() && ps@[ix as int].0@ == key@ && spec_assoc(
                pairs_view(ps@),
                key@,
            ) == Some(ps@[ix as int].1.model()),
            None => spec_assoc(pairs_view(ps@), key@) == None::<SpecVal>,
        },
{
    proof {
        lemma_pairs_view_index(ps@);
        assert(pairs_view(ps@).skip(0) =~= pairs_view(ps@));
    }
    for i in 0..ps.len()
        invariant
            i <= ps@.len(),
            pairs_view(ps@).len() == ps@.len(),
            forall|k: int| 0 <= k < ps@.len()
                ==> #[trigger] pairs_view(ps@)[k] == (ps@[k].0@, ps@[k].1.model()),
            spec_assoc(pairs_view(ps@), key@) == spec_assoc(
                pairs_view(ps@).skip(i as int),
                key@,
            ),
    {
        proof {
            assert(pairs_view(ps@).skip(i as int)[0] == pairs_view(ps@)[i as int]);
        }
        if bytes_eq(&ps[i].0, key) {
            return Some(i);
        }
        proof {
            assert(pairs_view(ps@).skip(i as int).drop_first() =~= pairs_view(ps@).skip(
                i + 1,
            ));
        }
    }
    proof {
        assert(pairs_view(ps@).skip(ps@.len() as int).len() == 0);
    }
    None
}

/// The numeric index a path segment spells, if it is all digits.
pub open spec fn spec_seg_index(seg: Seq<u8>) -> Option<int> {
    if seg.len() > 0 && (forall|q: int| 0 <= q < seg.len() ==> is_digit(seg[q])) {
        spec_digits_val(seg, 0, seg.len() as int, 0)
    } else {
        None
    }
}

/// Read a path segment as a list index.
pub fn seg_index(seg: &Vec<u8>) -> (r: Option<i64>)
    ensures
        match r {
            Some(v) => spec_seg_index(seg@) == Some(v as int) && 0 <= v,
            None => spec_seg_index(seg@) == None::<int>,
        },
{
    if seg.len() == 0 {
        return None;
    }
    for i in 0..seg.len()
        invariant
            i <= seg@.len(),
            forall|q: int| 0 <= q < i ==> is_digit(seg@[q]),
    {
        if !(48 <= seg[i] && seg[i] <= 57) {
            return None;
        }
    }
    crate::parse::digits_val(seg, 0, seg.len())
}

/// Walk the remaining path segments down through mappings and lists.
pub open spec fn spec_walk(v: SpecVal, path: Seq<Seq<u8>>, k: int) -> Option<SpecVal>
    decreases path.len() - k,
{
    if k < 0 || k >= path.len() {
        Some(v)
    } else {
        match v {
            SpecVal::Mapping(ps) => match spec_assoc(ps, path[k]) {
                None => None,
                Some(v2) => spec_walk(v2, path, k + 1),
            },
            SpecVal::List(items) => match spec_seg_index(path[k]) {
                Some(ix) => if 0 <= ix < items.len() {
                    spec_walk(items[ix], path, k + 1)
                } else {
                    None
                },
                None => None,
            },
            _ => None,
        }
    }
}

/// Walk the path from segment `k` on, starting at `v`.
pub fn walk(v: &Val, path: &Vec<Vec<u8>>, k: usize) -> (r: Option<Val>)
    requires
        k <= path@.len(),
    ensures
        match r {
            Some(out) => spec_walk(v.model(), crate::ast::path_view(path@), k as int) == Some(
                out.model(),
            ),
            None => spec_walk(v.model(), crate::ast::path_view(path@), k as int)
                == None::<SpecVal>,
        },
    decreases path@.len() - k,
{
    if k >= path.len() {
        return Some(val_clone(v));
    }
    proof {
        assert(crate::ast::path_view(path@)[k as int] == path@[k as int]@);
    }
    match v {
        Val::Mapping(ps) => {
            match assoc_idx(ps, &path[k]) {
                None => None,
                Some(ix) => walk(&ps[ix].1, path, k + 1),
            }
        },
        Val::List(items) => {
            proof {
                lemma_vals_view_index(items@);
            }
            match seg_index(&path[k]) {
                None => None,
                Some(ix) => {
                    let ixu = ix as u64;
                    if ixu < items.len() as u64 {
                        let iu = ixu as usize;
                        walk(&items[iu], path, k + 1)
                    } else {
                        None
                    }
                },
            }
        },
        _ => None,
    }
}

/// Look a full path up in the context.
pub open spec fn spec_lookup(ctx: Seq<(Seq<u8>, SpecVal)>, path: Seq<Seq<u8>>) -> Option<
    SpecVal,
> {
    if path.len() == 0 {
        None
    } else {
        match spec_assoc(ctx, path[0]) {
            None => None,
            Some(v) => spec_walk(v, path, 1),
        }
    }
}

/// Look a full path up in the context.
pub fn lookup(ctx: &Vec<(Vec<u8>, Val)>, path: &Vec<Vec<u8>>) -> (r: Option<Val>)
    ensures
        match r {
            Some(out) => spec_lookup(pairs_view(ctx@), crate::ast::path_view(path@)) == Some(
                out.model(),
            ),
            None => spec_lookup(pairs_view(ctx@), crate::ast::path_view(path@))
                == None::<SpecVal>,
        },
{
    if path.len() == 0 {
        return None;
    }
    proof {
        assert(crate::ast::path_view(path@)[0] == path@[0]@);
    }
    match assoc_idx(ctx, &path[0]) {
        None => None,
        Some(ix) => walk(&ctx[ix].1, path, 1),
    }
}


/// Apply a binary operator: arithmetic and ordering on integers,
/// equality on integers, strings and booleans; anything else is a
/// `BadOperands` fault, and arithmetic leaving the 64-bit signed range
/// is `NumberOverflow`.
pub open spec fn spec_apply_op(op: BinOp, a: SpecVal, b: SpecVal) -> Result<SpecVal, SpecError> {
    match (a, b) {
        (SpecVal::Int(x), SpecVal::Int(y)) => match op {
            BinOp::Add => spec_int_result(x + y),
            BinOp::Sub => spec_int_result(x - y),
            BinOp::Mul => spec_int_result(x * y),
            BinOp::CmpEq => Ok(SpecVal::Bool(x == y)),
            BinOp::CmpNe => Ok(SpecVal::Bool(x != y)),
            BinOp::CmpLt => Ok(SpecVal::Bool(x < y)),
            BinOp::CmpLe => Ok(SpecVal::Bool(x <= y)),
            BinOp::CmpGt => Ok(SpecVal::Bool(x > y)),
            BinOp::CmpGe => Ok(SpecVal::Bool(x >= y)),
        },
        (SpecVal::Str(x), SpecVal::Str(y)) => match op {
            BinOp::CmpEq => Ok(SpecVal::Bool(x == y)),
            BinOp::CmpNe => Ok(SpecVal::Bool(x != y)),
            _ => Err(SpecError::BadOperands),
        },
        (SpecVal::Bool(x), SpecVal::Bool(y)) => match op {
            BinOp::CmpEq => Ok(SpecVal::Bool(x == y)),
            BinOp::CmpNe => Ok(SpecVal::Bool(x != y)),
            _ => Err(SpecError::BadOperands),
        },
        _ => Err(SpecError::BadOperands),
    }
}

/// An integer result, if it fits 64 signed bits.
pub open spec fn spec_int_result(v: int) -> Result<SpecVal, SpecError> {
    if -0x8000_0000_0000_0000 <= v <= 0x7fff_ffff_ffff_ffff {
        Ok(SpecVal::Int(v as i64))
    } else {
        Err(SpecError::NumberOverflow)
    }
}

/// The spec form of an executable evaluation result.
pub open spec fn eval_res(r: Result<Val, EngineError>) -> Result<SpecVal, SpecError> {
    match r {
        Ok(v) => Ok(v.model()),
        Err(e) => Err(e.model()),
    }
}

/// Apply a binary operator.
pub fn apply_op(op: BinOp, a: &Val, b: &Val) -> (r: Result<Val, EngineError>)
    ensures
        eval_res(r) == spec_apply_op(op, a.model(), b.model()),
{
    match (a, b) {
        (Val::Int(x), Val::Int(y)) => {
            let xw: i128 = *x as i128;
            let yw: i128 = *y as i128;
            match op {
                BinOp::Add => int_result(xw + yw),
                BinOp::Sub => int_result(xw - yw),
                BinOp::Mul => {
                    proof {
                        assert(-0x40000000000000000000000000000000 <= xw * yw
                            <= 0x40000000000000000000000000000000) by (nonlinear_arith)
                            requires
                                -0x8000_0000_0000_0000 <= xw <= 0x7fff_ffff_ffff_ffff,
                                -0x8000_0000_0000_0000 <= yw <= 0x7fff_ffff_ffff_ffff,
                        ;
                    }
                    int_result(xw * yw)
                },
                BinOp::CmpEq => Ok(Val::Bool(x == y)),
                BinOp::CmpNe => Ok(Val::Bool(x != y)),
                BinOp::CmpLt => Ok(Val::Bool(x < y)),
                BinOp::CmpLe => Ok(Val::Bool(x <= y)),
                BinOp::CmpGt => Ok(Val::Bool(x > y)),
                BinOp::CmpGe => Ok(Val::Bool(x >= y)),
            }
        },
        (Val::Str(x), Val::Str(y)) => match op {
            BinOp::CmpEq => Ok(Val::Bool(bytes_eq(x, y))),
            BinOp::CmpNe => Ok(Val::Bool(!bytes_eq(x, y))),
            _ => Err(EngineError::BadOperands),
        },
        (Val::Bool(x), Val::Bool(y)) => match op {
            BinOp::CmpEq => Ok(Val::Bool(x == y)),
            BinOp::CmpNe => Ok(Val::Bool(x != y)),
            _ => Err(EngineError::BadOperands),
        },
        _ => Err(EngineError::BadOperands),
    }
}

/// Narrow a wide intermediate back to 64 signed bits.
fn int_result(v: i128) -> (r: Result<Val, EngineError>)
    ensures
        eval_res(r) == spec_int_result(v as int),
{
    if -0x8000_0000_0000_0000i128 <= v && v <= 0x7fff_ffff_ffff_ffffi128 {
        Ok(Val::Int(v as i64))
    } else {
        Err(EngineError::NumberOverflow)
    }
}

/// The built-in filters.
#[derive(Clone, Copy, PartialEq, Eq, Structural, Debug)]
pub enum FilterKind {
    Upper,
    Lower,
    Length,
    Escape,
    Unknown,
}

/// The filter a name spells: `upper`, `lower`, `length`, `escape`.
pub open spec fn spec_filter_kind(s: Seq<u8>) -> FilterKind {
    if s == seq![117u8, 112u8, 112u8, 101u8, 114u8] {
        FilterKind::Upper
    } else if s == seq![108u8, 111u8, 119u8, 101u8, 114u8] {
        FilterKind::Lower
    } else if s == seq![108u8, 101u8, 110u8, 103u8, 116u8, 104u8] {
        FilterKind::Length
    } else if s == seq![101u8, 115u8, 99u8, 97u8, 112u8, 101u8] {
        FilterKind::Escape
    } else {
        FilterKind::Unknown
    }
}

/// Recognize a built-in filter name.
pub fn filter_kind_of(name: &Vec<u8>) -> (r: FilterKind)
    ensures
        r == spec_filter_kind(name@),
{
    let n = name.len();
    if n == 5 && name[0] == 117 && name[1] == 112 && name[2] == 112 && name[3] == 101 && name[4]
        == 114 {
        proof {
            assert(name@ =~= seq![117u8, 112u8, 112u8, 101u8, 114u8]);
        }
        FilterKind::Upper
    } else if n == 5 && name[0] == 108 && name[1] == 111 && name[2] == 119 && name[3] == 101
        && name[4] == 114 {
        proof {
            assert(name@ =~= seq![108u8, 111u8, 119u8, 101u8, 114u8]);
        }
        FilterKind::Lower
    } else if n == 6 && name[0] == 108 && name[1] == 101 && name[2] == 110 && name[3] == 103
        && name[4] == 116 && name[5] == 104 {
        proof {
            assert(name@ =~= seq![108u8, 101u8, 110u8, 103u8, 116u8, 104u8]);
        }
        FilterKind::Length
    } else if n == 6 && name[0] == 101 && name[1] == 115 && name[2] == 99 && name[3] == 97
        && name[4] == 112 && name[5] == 101 {
        proof {
            assert(name@ =~= seq![101u8, 115u8, 99u8, 97u8, 112u8, 101u8]);
        }
        FilterKind::Escape
    } else {
        proof {
            assert(name@ != seq![117u8, 112u8, 112u8, 101u8, 114u8]);
            assert(name@ != seq![108u8, 111u8, 119u8, 101u8, 114u8]);
            assert(name@ != seq![108u8, 101u8, 110u8, 103u8, 116u8, 104u8]);
            assert(name@ != seq![101u8, 115u8, 99u8, 97u8, 112u8, 101u8]);
        }
        FilterKind::Unknown
    }
}

/// Apply a filter to a value.
pub open spec fn spec_apply_filter(name: Seq<u8>, v: SpecVal) -> Result<SpecVal, SpecError> {
    match spec_filter_kind(name) {
        FilterKind::Upper => match v {
            SpecVal::Str(s) => Ok(SpecVal::Str(spec_upper(s))),
            _ => Err(SpecError::BadOperands),
        },
        FilterKind::Lower => match v {
            SpecVal::Str(s) => Ok(SpecVal::Str(spec_lower(s))),
            _ => Err(SpecError::BadOperands),
        },
        FilterKind::Escape => match v {
            SpecVal::Str(s) => Ok(SpecVal::Str(spec_esc(s))),
            _ => Err(SpecError::BadOperands),
        },
        FilterKind::Length => match v {
            SpecVal::Str(s) => spec_len_result(s.len() as int),
            SpecVal::List(items) => spec_len_result(items.len() as int),
            SpecVal::Mapping(ps) => spec_len_result(ps.len() as int),
            _ => Err(SpecError::BadOperands),
        },
        FilterKind::Unknown => Err(SpecError::UnknownFilter(name)),
    }
}

/// A length as an integer value, if it fits 64 signed bits.
pub open spec fn spec_len_result(n: int) -> Result<SpecVal, SpecError> {
    if n <= 0x7fff_ffff_ffff_ffff {
        Ok(SpecVal::Int(n as i64))
    } else {
        Err(SpecError::NumberOverflow)
    }
}

/// Apply a filter to a value.
pub fn apply_filter(name: &Vec<u8>, v: &Val) -> (r: Result<Val, EngineError>)
    ensures
        eval_res(r) == spec_apply_filter(name@, v.model()),
{
    let kind = filter_kind_of(name);
    if kind == FilterKind::Unknown {
        return Err(EngineError::UnknownFilter(bytes_clone(name)));
    }
    if kind == FilterKind::Length {
        let n: usize = match v {
            Val::Str(s) => s.len(),
            Val::List(items) => {
                proof {
                    lemma_vals_view_index(items@);
                }
                items.len()
            },
            Val::Mapping(ps) => {
                proof {
                    lemma_pairs_view_index(ps@);
                }
                ps.len()
            },
            _ => {
                return Err(EngineError::BadOperands);
            },
        };
        if n as u64 <= 0x7fff_ffff_ffff_ffffu64 {
            return Ok(Val::Int(n as i64));
        } else {
            return Err(EngineError::NumberOverflow);
        }
    }
    match v {
        Val::Str(s) => {
            if kind == FilterKind::Upper {
                Ok(Val::Str(crate::text::to_upper(s)))
            } else if kind == FilterKind::Lower {
                Ok(Val::Str(crate::text::to_lower(s)))
            } else {
                Ok(Val::Str(crate::text::escape_bytes(s)))
            }
        },
        _ => Err(EngineError::BadOperands),
    }
}

/// The function a name spells: `range`.
pub open spec fn spec_is_range(s: Seq<u8>) -> bool {
    s == seq![114u8, 97u8, 110u8, 103u8, 101u8]
}

/// Apply a built-in function to evaluated arguments. `range(n)` yields
/// the list of integers `0 .. n`.
pub open spec fn spec_apply_func(name: Seq<u8>, vals: Seq<SpecVal>) -> Result<
    SpecVal,
    SpecError,
> {
    if spec_is_range(name) {
        if vals.len() == 1 {
            match vals[0] {
                SpecVal::Int(n) => if n >= 0 {
                    Ok(SpecVal::List(Seq::new(n as nat, |i: int| SpecVal::Int(i as i64))))
                } else {
                    Err(SpecError::BadOperands)
                },
                _ => Err(SpecError::BadOperands),
            }
        } else {
            Err(SpecError::BadOperands)
        }
    } else {
        Err(SpecError::UnknownFunction(name))
    }
}

/// Apply a built-in function.
pub fn apply_func(name: &Vec<u8>, vals: &Vec<Val>) -> (r: Result<Val, EngineError>)
    ensures
        eval_res(r) == spec_apply_func(name@, vals_view(vals@)),
{
    let n = name.len();
    let is_range = n == 5 && name[0] == 114 && name[1] == 97 && name[2] == 110 && name[3] == 103
        && name[4] == 101;
    proof {
        if is_range {
            assert(name@ =~= seq![114u8, 97u8, 110u8, 103u8, 101u8]);
        } else {
            assert(name@ != seq![114u8, 97u8, 110u8, 103u8, 101u8]);
        }
        lemma_vals_view_index(vals@);
    }
    if !is_range {
        return Err(EngineError::UnknownFunction(bytes_clone(name)));
    }
    if vals.len() != 1 {
        return Err(EngineError::BadOperands);
    }
    match &vals[0] {
        Val::Int(bound) => {
            let b = *bound;
            if b < 0 {
                return Err(EngineError::BadOperands);
            }
            let mut out: Vec<Val> = Vec::new();
            let mut i: i64 = 0;
            while i < b
                invariant
                    0 <= i <= b,
                    vals_view(out@) == Seq::new(i as nat, |k: int| SpecVal::Int(k as i64)),
                decreases b - i,
            {
                proof {
                    lemma_vals_view_push(out@, Val::Int(i));
                    assert(vals_view(out@).push(Val::Int(i).model()) =~= Seq::new(
                        (i + 1) as nat,
                        |k: int| SpecVal::Int(k as i64),
                    ));
                }
                out.push(Val::Int(i));
                i = i + 1;
            }
            proof {
                assert(vals_view(out@) =~= Seq::new(b as nat, |k: int| SpecVal::Int(k as i64)));
            }
            Ok(Val::List(out))
        },
        _ => Err(EngineError::BadOperands),
    }
}

/// Evaluate an expression against a context. Literals are themselves;
/// variable paths are looked up, and a missing path is an
/// `UndefinedVariable` error in strict mode and null in lenient mode;
/// operators, filters and function calls apply as specified above.
pub open spec fn spec_eval(e: SpecExpr, ctx: Seq<(Seq<u8>, SpecVal)>, strict: bool) -> Result<
    SpecVal,
    SpecError,
>
    decreases e, 0int, 0int,
{
    match e {
        SpecExpr::IntLit(n) => Ok(SpecVal::Int(n)),
        SpecExpr::StrLit(s) => Ok(SpecVal::Str(s)),
        SpecExpr::BoolLit(b) => Ok(SpecVal::Bool(b)),
        SpecExpr::Var(path) => match spec_lookup(ctx, path) {
            Some(v) => Ok(v),
            None => if strict {
                Err(SpecError::UndefinedVariable(path))
            } else {
                Ok(SpecVal::Null)
            },
        },
        SpecExpr::Bin(op, l, r) => match spec_eval(*l, ctx, strict) {
            Err(er) => Err(er),
            Ok(a) => match spec_eval(*r, ctx, strict) {
                Err(er) => Err(er),
                Ok(b) => spec_apply_op(op, a, b),
            },
        },
        SpecExpr::Filter(name, arg) => match spec_eval(*arg, ctx, strict) {
            Err(er) => Err(er),
            Ok(v) => spec_apply_filter(name, v),
        },
        SpecExpr::Call(name, args) => match spec_eval_args(args, 0, ctx, strict) {
            Err(er) => Err(er),
            Ok(vals) => spec_apply_func(name, vals),
        },
    }
}

/// Evaluate the arguments from index `from` on.
pub open spec fn spec_eval_args(
    es: Seq<SpecExpr>,
    from: int,
    ctx: Seq<(Seq<u8>, SpecVal)>,
    strict: bool,
) -> Result<Seq<SpecVal>, SpecError>
    decreases es, 1int, es.len() - from,
{
    if from < 0 || from >= es.len() {
        Ok(Seq::empty())
    } else {
        match spec_eval(es[from], ctx, strict) {
            Err(er) => Err(er),
            Ok(v) => match spec_eval_args(es, from + 1, ctx, strict) {
                Err(er) => Err(er),
                Ok(rest) => Ok(seq![v] + rest),
            },
        }
    }
}

/// Evaluate an expression against a context.
pub fn eval(e: &Expr, ctx: &Vec<(Vec<u8>, Val)>, strict: bool) -> (r: Result<Val, EngineError>)
    ensures
        eval_res(r) == spec_eval(e.model(), pairs_view(ctx@), strict),
    decreases e, 0int, 0int,
{
    match e {
        Expr::IntLit(n) => Ok(Val::Int(*n)),
        Expr::StrLit(s) => Ok(Val::Str(bytes_clone(s))),
        Expr::BoolLit(b) => Ok(Val::Bool(*b)),
        Expr::Var(path) => match lookup(ctx, path) {
            Some(v) => Ok(v),
            None => if strict {
                let mut out: Vec<Vec<u8>> = Vec::new();
                for i in 0..path.len()
                    invariant
                        *e == Expr::Var(*path),
                        i <= path@.len(),
                        crate::ast::path_view(out@) == crate::ast::path_view(path@).subrange(
                            0,
                            i as int,
                        ),
                {
                    let c = bytes_clone(&path[i]);
                    proof {
                        assert(crate::ast::path_view(out@).len() == out@.len());
                        assert(crate::ast::path_view(out@.push(c)) =~= crate::ast::path_view(
                            out@,
                        ).push(c@));
                        assert(crate::ast::path_view(out@).push(c@) =~= crate::ast::path_view(
                            path@,
                        ).subrange(0, i + 1));
                    }
                    out.push(c);
                }
                proof {
                    assert(crate::ast::path_view(out@) =~= crate::ast::path_view(path@));
                }
                Err(EngineError::UndefinedVariable(out))
            } else {
                Ok(Val::Null)
            },
        },
        Expr::Bin(op, l, r) => {
            let a = match eval(l, ctx, strict) {
                Err(er) => {
                    return Err(er);
                },
                Ok(v) => v,
            };
            let b = match eval(r, ctx, strict) {
                Err(er) => {
                    return Err(er);
                },
                Ok(v) => v,
            };
            apply_op(*op, &a, &b)
        },
        Expr::Filter(name, arg) => {
            let v = match eval(arg, ctx, strict) {
                Err(er) => {
                    return Err(er);
                },
                Ok(v) => v,
            };
            apply_filter(name, &v)
        },
        Expr::Call(name, args) => {
            let vals = match eval_args(args, 0, ctx, strict) {
                Err(er) => {
                    return Err(er);
                },
                Ok(v) => v,
            };
            apply_func(name, &vals)
        },
    }
}

/// Evaluate call arguments from index `from` on.
fn eval_args(es: &Vec<Expr>, from: usize, ctx: &Vec<(Vec<u8>, Val)>, strict: bool) -> (r: Result<
    Vec<Val>,
    EngineError,
>)
    requires
        from <= es@.len(),
    ensures
        (match r {
            Ok(vals) => Ok::<_, SpecError>(vals_view(vals@)),
            Err(e) => Err(e.model()),
        }) == spec_eval_args(crate::ast::exprs_view(es@), from as int, pairs_view(ctx@), strict),
    decreases es@, 1int, es@.len() - from,
{
    proof {
        crate::ast::lemma_exprs_view_index(es@);
    }
    if from >= es.len() {
        let out: Vec<Val> = Vec::new();
        proof {
            assert(vals_view(out@) =~= Seq::<SpecVal>::empty());
        }
        return Ok(out);
    }
    proof {
        assert(decreases_to!(es@ => es@[from as int]));
    }
    let v = match eval(&es[from], ctx, strict) {
        Err(er) => {
            return Err(er);
        },
        Ok(v) => v,
    };
    match eval_args(es, from + 1, ctx, strict) {
        Err(er) => Err(er),
        Ok(rest) => {
            let ghost v_model = v.model();
            let ghost rest_models = vals_view(rest@);
            let mut out: Vec<Val> = Vec::new();
            out.push(v);
            let mut rest2 = rest;
            proof {
                lemma_vals_view_index(out@);
                lemma_vals_view_index(rest2@);
            }
            out.append(&mut rest2);
            proof {
                lemma_vals_view_index(out@);
                assert(vals_view(out@) =~= seq![v_model] + rest_models);
            }
            Ok(out)
        },
    }
}

} // verus!
