//! Byte-level text operations used when values are written out: decimal
//! formatting of integers, HTML escaping, ASCII case mapping, and the
//! rendering of a value to bytes.

use vstd::prelude::*;

use crate::value::{lemma_pairs_view_index, lemma_vals_view_index, pairs_view, vals_view, SpecVal,
    Val};

verus! {

/// Decimal digits of a natural number, most significant first.
pub open spec fn spec_dec_nat(n: nat) -> Seq<u8>
    decreases n,
{
    if n < 10 {
        seq![(48 + n) as u8]
    } else {
        spec_dec_nat(n / 10).push((48 + n % 10) as u8)
    }
}

/// Decimal form of an integer: a minus sign for negatives, then digits.
pub open spec fn spec_dec_int(i: int) -> Seq<u8> {
    if i >= 0 {
        spec_dec_nat(i as nat)
    } else {
        seq![45] + spec_dec_nat((-i) as nat)
    }
}

/// Write a 64-bit natural number in decimal.
pub fn dec_u64(n: u64) -> (r: Vec<u8>)
    ensures
        r@ == spec_dec_nat(n as nat),
    decreases n,
{
    if n < 10 {
        let mut out: Vec<u8> = Vec::new();
        out.push(48 + n as u8);
        proof {
            assert(out@ =~= spec_dec_nat(n as nat));
        }
        out
    } else {
        let mut out = dec_u64(n / 10);
        out.push(48 + (n % 10) as u8);
        proof {
            assert(out@ =~= spec_dec_nat(n as nat));
        }
        out
    }
}

/// Write a 64-bit signed integer in decimal.
pub fn dec_i64(i: i64) -> (r: Vec<u8>)
    ensures
        r@ == spec_dec_int(i as int),
{
    if i >= 0 {
        dec_u64(i as u64)
    } else {
        let wide: i128 = -(i as i128);
        let mag: u64 = wide as u64;
        assert(mag as int == -(i as int));
        let mut out: Vec<u8> = Vec::new();
        out.push(45);
        let mut digits = dec_u64(mag);
        out.append(&mut digits);
        proof {
            assert(out@ =~= spec_dec_int(i as int));
        }
        out
    }
}

/// The escaped form of one byte under HTML escaping: `&`, `<`, `>`, `"`
/// and `'` become entities, every other byte stands as itself.
pub open spec fn spec_esc_byte(b: u8) -> Seq<u8> {
    if b == 38 {
        seq![38, 97, 109, 112, 59]
    } else if b == 60 {
        seq![38, 108, 116, 59]
    } else if b == 62 {
        seq![38, 103, 116, 59]
    } else if b == 34 {
        seq![38, 113, 117, 111, 116, 59]
    } else if b == 39 {
        seq![38, 35, 120, 50, 55, 59]
    } else {
        seq![b]
    }
}

/// HTML escaping of a byte string.
pub open spec fn spec_esc(s: Seq<u8>) -> Seq<u8>
    decreases s.len(),
{
    if s.len() == 0 {
        Seq::empty()
    } else {
        spec_esc_byte(s[0]) + spec_esc(s.drop_first())
    }
}

/// Escaping a string one byte longer appends the escaped byte.
pub proof fn lemma_esc_push(s: Seq<u8>, b: u8)
    ensures
        spec_esc(s.push(b)) == spec_esc(s) + spec_esc_byte(b),
    decreases s.len(),
{
    if s.len() == 0 {
        assert(s.push(b).drop_first() =~= Seq::<u8>::empty());
        assert(spec_esc(s.push(b).drop_first()) =~= Seq::<u8>::empty());
        assert(spec_esc(s.push(b)) =~= spec_esc(s) + spec_esc_byte(b));
    } else {
        assert(s.push(b).drop_first() =~= s.drop_first().push(b));
        lemma_esc_push(s.drop_first(), b);
        assert(spec_esc(s.push(b)) =~= spec_esc(s) + spec_esc_byte(b));
    }
}

/// Append the escaped form of one byte.
fn push_escaped(out: &mut Vec<u8>, b: u8)
    ensures
        final(out)@ == old(out)@ + spec_esc_byte(b),
{
    if b == 38 {
        out.push(38);
        out.push(97);
        out.push(109);
        out.push(112);
        out.push(59);
    } else if b == 60 {
        out.push(38);
        out.push(108);
        out.push(116);
        out.push(59);
    } else if b == 62 {
        out.push(38);
        out.push(103);
        out.push(116);
        out.push(59);
    } else if b == 34 {
        out.push(38);
        out.push(113);
        out.push(117);
        out.push(111);
        out.push(116);
        out.push(59);
    } else if b == 39 {
        out.push(38);
        out.push(35);
        out.push(120);
        out.push(50);
        out.push(55);
        out.push(59);
    } else {
        out.push(b);
    }
    proof {
        assert(final(out)@ =~= old(out)@ + spec_esc_byte(b));
    }
}

/// HTML-escape a byte string.
pub fn escape_bytes(s: &Vec<u8>) -> (r: Vec<u8>)
    ensures
        r@ == spec_esc(s@),
{
    let mut out: Vec<u8> = Vec::new();
    for i in 0..s.len()
        invariant
            i <= s@.len(),
            out@ == spec_esc(s@.subrange(0, i as int)),
    {
        push_escaped(&mut out, s[i]);
        proof {
            assert(s@.subrange(0, i + 1) =~= s@.subrange(0, i as int).push(s@[i as int]));
            lemma_esc_push(s@.subrange(0, i as int), s@[i as int]);
        }
    }
    proof {
        assert(s@.subrange(0, s@.len() as int) =~= s@);
    }
    out
}

/// Uppercase form of one byte (ASCII letters only).
pub open spec fn spec_upper_byte(b: u8) -> u8 {
    if 97 <= b && b <= 122 {
        (b - 32) as u8
    } else {
        b
    }
}

/// Lowercase form of one byte (ASCII letters only).
pub open spec fn spec_lower_byte(b: u8) -> u8 {
    if 65 <= b && b <= 90 {
        (b + 32) as u8
    } else {
        b
    }
}

/// ASCII-uppercase a byte string, byte for byte.
pub open spec fn spec_upper(s: Seq<u8>) -> Seq<u8> {
    Seq::new(s.len(), |i: int| spec_upper_byte(s[i]))
}

/// ASCII-lowercase a byte string, byte for byte.
pub open spec fn spec_lower(s: Seq<u8>) -> Seq<u8> {
    Seq::new(s.len(), |i: int| spec_lower_byte(s[i]))
}

/// ASCII-uppercase a byte string.
pub fn to_upper(s: &Vec<u8>) -> (r: Vec<u8>)
    ensures
        r@ == spec_upper(s@),
{
    let mut out: Vec<u8> = Vec::new();
    for i in 0..s.len()
        invariant
            i <= s@.len(),
            out@.len() == i,
            forall|j: int| 0 <= j < i ==> out@[j] == spec_upper_byte(s@[j]),
    {
        let b = s[i];
        if 97 <= b && b <= 122 {
            out.push(b - 32);
        } else {
            out.push(b);
        }
    }
    proof {
        assert(out@ =~= spec_upper(s@));
    }
    out
}

/// ASCII-lowercase a byte string.
pub fn to_lower(s: &Vec<u8>) -> (r: Vec<u8>)
    ensures
        r@ == spec_lower(s@),
{
    let mut out: Vec<u8> = Vec::new();
    for i in 0..s.len()
        invariant
            i <= s@.len(),
            out@.len() == i,
            forall|j: int| 0 <= j < i ==> out@[j] == spec_lower_byte(s@[j]),
    {
        let b = s[i];
        if 65 <= b && b <= 90 {
            out.push(b + 32);
        } else {
            out.push(b);
        }
    }
    proof {
        assert(out@ =~= spec_lower(s@));
    }
    out
}

/// The bytes a value is written as: strings verbatim, integers in
/// decimal, booleans as `true`/`false`, null as nothing, lists in
/// brackets with `, ` between items, mappings in braces with `: `
/// between name and value.
pub open spec fn spec_show(v: SpecVal) -> Seq<u8>
    decreases v, 0int, 0int,
{
    match v {
        SpecVal::Str(s) => s,
        SpecVal::Int(n) => spec_dec_int(n as int),
        SpecVal::Bool(b) => if b {
            seq![116, 114, 117, 101]
        } else {
            seq![102, 97, 108, 115, 101]
        },
        SpecVal::Null => Seq::empty(),
        SpecVal::List(items) => seq![91] + spec_show_items(items, 0) + seq![93],
        SpecVal::Mapping(ps) => seq![123] + spec_show_entries(ps, 0) + seq![125],
    }
}

/// The items of a list from index `from` on, written and joined by `, `.
pub open spec fn spec_show_items(items: Seq<SpecVal>, from: int) -> Seq<u8>
    decreases items, 1int, items.len() - from,
{
    if from < 0 || from >= items.len() {
        Seq::empty()
    } else if from == items.len() - 1 {
        spec_show(items[from])
    } else {
        spec_show(items[from]) + seq![44, 32] + spec_show_items(items, from + 1)
    }
}

/// The entries of a mapping from index `from` on, written `name: value`
/// and joined by `, `.
pub open spec fn spec_show_entries(ps: Seq<(Seq<u8>, SpecVal)>, from: int) -> Seq<u8>
    decreases ps, 1int, ps.len() - from,
{
    if from < 0 || from >= ps.len() {
        Seq::empty()
    } else if from == ps.len() - 1 {
        ps[from].0 + seq![58, 32] + spec_show(ps[from].1)
    } else {
        ps[from].0 + seq![58, 32] + spec_show(ps[from].1) + seq![44, 32]
            + spec_show_entries(ps, from + 1)
    }
}

/// Write a value as bytes.
pub fn show(v: &Val) -> (r: Vec<u8>)
    ensures
        r@ == spec_show(v.model()),
    decreases v, 0int, 0int,
{
    match v {
        Val::Str(s) => crate::value::bytes_clone(s),
        Val::Int(n) => dec_i64(*n),
        Val::Bool(b) => {
            let mut out: Vec<u8> = Vec::new();
            if *b {
                out.push(116);
                out.push(114);
                out.push(117);
                out.push(101);
                proof {
                    assert(out@ =~= seq![116, 114, 117, 101]);
                }
            } else {
                out.push(102);
                out.push(97);
                out.push(108);
                out.push(115);
                out.push(101);
                proof {
                    assert(out@ =~= seq![102, 97, 108, 115, 101]);
                }
            }
            out
        },
        Val::Null => Vec::new(),
        Val::List(items) => {
            let mut out: Vec<u8> = Vec::new();
            out.push(91);
            let mut tail = show_items(items, 0);
            out.append(&mut tail);
            out.push(93);
            proof {
                assert(out@ =~= seq![91] + spec_show_items(vals_view(items@), 0)
                    + seq![93]);
            }
            out
        },
        Val::Mapping(ps) => {
            let mut out: Vec<u8> = Vec::new();
            out.push(123);
            let mut tail = show_entries(ps, 0);
            out.append(&mut tail);
            out.push(125);
            proof {
                assert(out@ =~= seq![123] + spec_show_entries(pairs_view(ps@), 0)
                    + seq![125]);
            }
            out
        },
    }
}

/// Write the items of a list from index `from` on.
fn show_items(items: &Vec<Val>, from: usize) -> (r: Vec<u8>)
    requires
        from <= items@.len(),
    ensures
        r@ == spec_show_items(vals_view(items@), from as int),
    decreases items@, 1int, items@.len() - from,
{
    proof {
        lemma_vals_view_index(items@);
    }
    if from >= items.len() {
        Vec::new()
    } else {
        proof {
            assert(decreases_to!(items@ => items@[from as int]));
        }
        let mut out = show(&items[from]);
        if from + 1 < items.len() {
            out.push(44);
            out.push(32);
            let mut tail = show_items(items, from + 1);
            out.append(&mut tail);
            proof {
                assert(out@ =~= spec_show(vals_view(items@)[from as int])
                    + seq![44, 32] + spec_show_items(vals_view(items@), from + 1));
            }
        }
        out
    }
}

/// Write the entries of a mapping from index `from` on.
fn show_entries(ps: &Vec<(Vec<u8>, Val)>, from: usize) -> (r: Vec<u8>)
    requires
        from <= ps@.len(),
    ensures
        r@ == spec_show_entries(pairs_view(ps@), from as int),
    decreases ps@, 1int, ps@.len() - from,
{
    proof {
        lemma_pairs_view_index(ps@);
    }
    if from >= ps.len() {
        Vec::new()
    } else {
        proof {
            assert(decreases_to!(ps@ => ps@[from as int]));
            assert(decreases_to!(ps@[from as int] => ps@[from as int].1));
        }
        let mut out = crate::value::bytes_clone(&ps[from].0);
        out.push(58);
        out.push(32);
        let mut shown = show(&ps[from].1);
        out.append(&mut shown);
        if from + 1 < ps.len() {
            out.push(44);
            out.push(32);
            let mut tail = show_entries(ps, from + 1);
            out.append(&mut tail);
            proof {
                assert(out@ =~= pairs_view(ps@)[from as int].0 + seq![58, 32]
                    + spec_show(pairs_view(ps@)[from as int].1) + seq![44, 32]
                    + spec_show_entries(pairs_view(ps@), from + 1));
            }
        } else {
            proof {
                assert(out@ =~= pairs_view(ps@)[from as int].0 + seq![58, 32]
                    + spec_show(pairs_view(ps@)[from as int].1));
            }
        }
        out
    }
}

} // verus!
