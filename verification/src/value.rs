//! Values held by a rendering context: strings, integers, booleans,
//! lists, mappings and null, together with the byte-level operations the
//! evaluator and renderer need (truthiness, deep cloning, decimal
//! formatting, HTML escaping, ASCII case mapping).

use vstd::prelude::*;

verus! {

/// Mathematical model of a context value.
pub enum SpecVal {
    Str(Seq<u8>),
    Int(i64),
    Bool(bool),
    List(Seq<SpecVal>),
    Mapping(Seq<(Seq<u8>, SpecVal)>),
    Null,
}

/// A context value: a string, a 64-bit integer, a boolean, a list, a
/// mapping from names to values, or null.
#[derive(PartialEq, Eq, Debug)]
pub enum Val {
    Str(Vec<u8>),
    Int(i64),
    Bool(bool),
    List(Vec<Val>),
    Mapping(Vec<(Vec<u8>, Val)>),
    Null,
}

impl Val {
    /// The mathematical model of a value.
    pub open spec fn model(&self) -> SpecVal
        decreases self,
    {
        match self {
            Val::Str(s) => SpecVal::Str(s@),
            Val::Int(n) => SpecVal::Int(*n),
            Val::Bool(b) => SpecVal::Bool(*b),
            Val::List(items) => SpecVal::List(vals_view(items@)),
            Val::Mapping(pairs) => SpecVal::Mapping(pairs_view(pairs@)),
            Val::Null => SpecVal::Null,
        }
    }
}

/// The model of a list of values.
pub open spec fn vals_view(vs: Seq<Val>) -> Seq<SpecVal>
    decreases vs,
{
    if vs.len() == 0 {
        Seq::empty()
    } else {
        seq![vs[0].model()] + vals_view(vs.drop_first())
    }
}

/// The model of a list of name/value pairs.
pub open spec fn pairs_view(ps: Seq<(Vec<u8>, Val)>) -> Seq<(Seq<u8>, SpecVal)>
    decreases ps,
{
    if ps.len() == 0 {
        Seq::empty()
    } else {
        seq![(ps[0].0@, ps[0].1.model())] + pairs_view(ps.drop_first())
    }
}

/// Each element of the model of a value list is the model of the
/// corresponding value.
pub proof fn lemma_vals_view_index(vs: Seq<Val>)
    ensures
        vals_view(vs).len() == vs.len(),
        forall|i: int| 0 <= i < vs.len() ==> #[trigger] vals_view(vs)[i] == vs[i].model(),
    decreases vs,
{
    if vs.len() > 0 {
        lemma_vals_view_index(vs.drop_first());
    }
}

/// Each element of the model of a pair list is the model of the
/// corresponding pair.
pub proof fn lemma_pairs_view_index(ps: Seq<(Vec<u8>, Val)>)
    ensures
        pairs_view(ps).len() == ps.len(),
        forall|i: int| 0 <= i < ps.len()
            ==> #[trigger] pairs_view(ps)[i] == (ps[i].0@, ps[i].1.model()),
    decreases ps,
{
    if ps.len() > 0 {
        lemma_pairs_view_index(ps.drop_first());
    }
}

/// Appending a pair appends its model.
pub proof fn lemma_pairs_view_push(ps: Seq<(Vec<u8>, Val)>, p: (Vec<u8>, Val))
    ensures
        pairs_view(ps.push(p)) == pairs_view(ps).push((p.0@, p.1.model())),
{
    lemma_pairs_view_index(ps.push(p));
    lemma_pairs_view_index(ps);
    assert(pairs_view(ps.push(p)) =~= pairs_view(ps).push((p.0@, p.1.model())));
}

/// Appending a value appends its model.
pub proof fn lemma_vals_view_push(vs: Seq<Val>, v: Val)
    ensures
        vals_view(vs.push(v)) == vals_view(vs).push(v.model()),
{
    lemma_vals_view_index(vs.push(v));
    lemma_vals_view_index(vs);
    assert(vals_view(vs.push(v)) =~= vals_view(vs).push(v.model()));
}

/// Truthiness of a value: null, false, zero, and empty strings, lists
/// and mappings are false; everything else is true.
pub open spec fn spec_truthy(v: SpecVal) -> bool {
    match v {
        SpecVal::Null => false,
        SpecVal::Bool(b) => b,
        SpecVal::Int(n) => n != 0,
        SpecVal::Str(s) => s.len() > 0,
        SpecVal::List(items) => items.len() > 0,
        SpecVal::Mapping(pairs) => pairs.len() > 0,
    }
}

/// Decide the truthiness of a value.
pub fn truthy(v: &Val) -> (r: bool)
    ensures
        r == spec_truthy(v.model()),
{
    match v {
        Val::Null => false,
        Val::Bool(b) => *b,
        Val::Int(n) => *n != 0,
        Val::Str(s) => s.len() > 0,
        Val::List(items) => {
            proof {
                lemma_vals_view_index(items@);
            }
            items.len() > 0
        },
        Val::Mapping(pairs) => {
            proof {
                lemma_pairs_view_index(pairs@);
            }
            pairs.len() > 0
        },
    }
}

/// Whether two byte vectors hold the same bytes.
pub fn bytes_eq(a: &Vec<u8>, b: &Vec<u8>) -> (r: bool)
    ensures
        r == (a@ == b@),
{
    if a.len() != b.len() {
        assert(a@ != b@) by {
            assert(a@.len() != b@.len());
        }
        return false;
    }
    for i in 0..a.len()
        invariant
            a@.len() == b@.len(),
            i <= a@.len(),
            forall|j: int| 0 <= j < i ==> a@[j] == b@[j],
    {
        if a[i] != b[i] {
            return false;
        }
    }
    assert(a@ =~= b@);
    true
}

/// Copy a byte vector.
pub fn bytes_clone(a: &Vec<u8>) -> (r: Vec<u8>)
    ensures
        r@ == a@,
{
    let mut out: Vec<u8> = Vec::new();
    for i in 0..a.len()
        invariant
            i <= a@.len(),
            out@ == a@.subrange(0, i as int),
    {
        out.push(a[i]);
        assert(out@ =~= a@.subrange(0, i + 1));
    }
    assert(out@ =~= a@);
    out
}

/// Copy a value, preserving its model.
pub fn val_clone(v: &Val) -> (r: Val)
    ensures
        r.model() == v.model(),
    decreases v,
{
    match v {
        Val::Str(s) => Val::Str(bytes_clone(s)),
        Val::Int(n) => Val::Int(*n),
        Val::Bool(b) => Val::Bool(*b),
        Val::Null => Val::Null,
        Val::List(items) => {
            let mut out: Vec<Val> = Vec::new();
            for i in 0..items.len()
                invariant
                    *v == Val::List(*items),
                    i <= items@.len(),
                    vals_view(out@) == vals_view(items@).subrange(0, i as int),
                decreases items@.len() - i,
            {
                proof {
                    lemma_vals_view_index(items@);
                    assert(decreases_to!(*v => v->List_0));
                    assert(decreases_to!(v->List_0 => items@[i as int]));
                    assert(decreases_to!(*v => items@[i as int]));
                }
                let c = val_clone(&items[i]);
                proof {
                    lemma_vals_view_push(out@, c);
                    lemma_vals_view_index(out@);
                    assert(vals_view(out@.push(c)) =~= vals_view(items@).subrange(0, i + 1));
                }
                out.push(c);
            }
            proof {
                lemma_vals_view_index(items@);
                assert(vals_view(out@) =~= vals_view(items@));
            }
            Val::List(out)
        },
        Val::Mapping(pairs) => {
            let mut out: Vec<(Vec<u8>, Val)> = Vec::new();
            for i in 0..pairs.len()
                invariant
                    *v == Val::Mapping(*pairs),
                    i <= pairs@.len(),
                    pairs_view(out@) == pairs_view(pairs@).subrange(0, i as int),
                decreases pairs@.len() - i,
            {
                proof {
                    lemma_pairs_view_index(pairs@);
                    assert(decreases_to!(*v => v->Mapping_0));
                    assert(decreases_to!(v->Mapping_0 => pairs@[i as int].1));
                    assert(decreases_to!(*v => pairs@[i as int].1));
                }
                let k = bytes_clone(&pairs[i].0);
                let c = val_clone(&pairs[i].1);
                proof {
                    lemma_pairs_view_push(out@, (k, c));
                    assert(pairs_view(out@.push((k, c)))
                        =~= pairs_view(pairs@).subrange(0, i + 1));
                }
                out.push((k, c));
            }
            proof {
                lemma_pairs_view_index(pairs@);
                assert(pairs_view(out@) =~= pairs_view(pairs@));
            }
            Val::Mapping(out)
        },
    }
}

} // verus!
