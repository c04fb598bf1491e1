//! The template parser: it turns raw source bytes into a template body,
//! a parent reference and nodes, or a parse error with the byte offset
//! of the fault. Parsing is a pure function of the source: the
//! executable parser is proved to return exactly `spec_parse` of it.
//!
//! Grammar: literal text runs up to `{{` or `{%`; `{{ expr }}`
//! interpolates; `{% if e %} .. {% else %} .. {% endif %}`,
//! `{% for x in e %} .. {% endfor %}`, `{% block name %} .. {% endblock %}`
//! nest; `{% extends "name" %}` may stand only at the very start.
//! Expressions are literals, dotted paths, `name(args)` calls, a single
//! binary operator, and `| filter` applications.

use vstd::prelude::*;

use crate::ast::{nodes_view, exprs_view, lemma_nodes_view_index, lemma_exprs_view_index, BinOp,
    Expr, Node, SpecExpr, SpecNode, Template};
use crate::errors::{EngineError, ParseFault, SpecError};

verus! {

/// `{`
pub const OPEN_BRACE: u8 = 123;

/// `}`
pub const CLOSE_BRACE: u8 = 125;

/// `%`
pub const PERCENT: u8 = 37;

/// `"`
pub const QUOTE: u8 = 34;

/// `|`
pub const PIPE: u8 = 124;

/// `.`
pub const DOT: u8 = 46;

/// `,`
pub const COMMA: u8 = 44;

/// `(`
pub const LPAREN: u8 = 40;

/// `)`
pub const RPAREN: u8 = 41;

/// `-`
pub const MINUS: u8 = 45;

/// ASCII whitespace: space, tab, newline, carriage return.
pub open spec fn is_ws(b: u8) -> bool {
    b == 32 || b == 9 || b == 10 || b == 13
}

/// An ASCII decimal digit.
pub open spec fn is_digit(b: u8) -> bool {
    48 <= b && b <= 57
}

/// A byte that may start an identifier: a letter or underscore.
pub open spec fn is_ident_start(b: u8) -> bool {
    (65 <= b && b <= 90) || (97 <= b && b <= 122) || b == 95
}

/// A byte that may continue an identifier.
pub open spec fn is_ident_byte(b: u8) -> bool {
    is_ident_start(b) || is_digit(b)
}

/// Whether a tag opener (`{{` or `{%`) stands at position `i`.
pub open spec fn spec_is_marker(s: Seq<u8>, i: int) -> bool {
    0 <= i && i + 1 < s.len() && s[i] == OPEN_BRACE
        && (s[i + 1] == OPEN_BRACE || s[i + 1] == PERCENT)
}

/// The position of the first tag opener at or after `i`, or the length
/// of the source if there is none.
pub open spec fn spec_scan_text(s: Seq<u8>, i: int) -> int
    decreases s.len() - i,
{
    if !(0 <= i && i < s.len()) {
        s.len() as int
    } else if spec_is_marker(s, i) {
        i
    } else {
        spec_scan_text(s, i + 1)
    }
}

/// A text scan ends at the source's end or at a tag opener.
pub proof fn lemma_scan_text_marker(s: Seq<u8>, i: int)
    requires
        0 <= i <= s.len(),
    ensures
        i <= spec_scan_text(s, i) <= s.len(),
        spec_scan_text(s, i) < s.len() ==> spec_is_marker(s, spec_scan_text(s, i)),
    decreases s.len() - i,
{
    if 0 <= i && i < s.len() && !spec_is_marker(s, i) {
        lemma_scan_text_marker(s, i + 1);
    }
}

/// Find the first tag opener at or after `from`.
pub fn scan_text(src: &Vec<u8>, from: usize) -> (r: usize)
    requires
        from <= src@.len(),
    ensures
        r as int == spec_scan_text(src@, from as int),
        from <= r <= src@.len(),
{
    let mut i = from;
    while i < src.len() && !(i + 1 < src.len() && src[i] == OPEN_BRACE && (src[i + 1]
        == OPEN_BRACE || src[i + 1] == PERCENT))
        invariant
            from <= i <= src@.len(),
            spec_scan_text(src@, from as int) == spec_scan_text(src@, i as int),
        decreases src@.len() - i,
    {
        i = i + 1;
    }
    proof {
        assert(spec_scan_text(src@, i as int) == i as int || i == src@.len());
    }
    i
}

/// The position of the first `X}` pair (`X` given by `first`) at or
/// after `i`, or none.
pub open spec fn spec_find_close(s: Seq<u8>, i: int, first: u8) -> Option<int>
    decreases s.len() - i,
{
    if !(0 <= i && i + 2 <= s.len()) {
        None
    } else if s[i] == first && s[i + 1] == CLOSE_BRACE {
        Some(i)
    } else {
        spec_find_close(s, i + 1, first)
    }
}

/// The spec form of an optional position.
pub open spec fn opt_pos(r: Option<usize>) -> Option<int> {
    match r {
        Some(p) => Some(p as int),
        None => None,
    }
}

/// Find the first `X}` pair at or after `from`.
pub fn find_close(src: &Vec<u8>, from: usize, first: u8) -> (r: Option<usize>)
    requires
        from <= src@.len(),
    ensures
        opt_pos(r) == spec_find_close(src@, from as int, first),
        r matches Some(p) ==> from <= p && p + 2 <= src@.len(),
{
    let mut i = from;
    while i < src.len() && i + 1 < src.len() && !(src[i] == first && src[i + 1] == CLOSE_BRACE)
        invariant
            from <= i <= src@.len(),
            spec_find_close(src@, from as int, first) == spec_find_close(src@, i as int, first),
        decreases src@.len() - i,
    {
        i = i + 1;
    }
    if i < src.len() && i + 1 < src.len() {
        Some(i)
    } else {
        None
    }
}

/// The first non-whitespace position in `[i, end)`, or `end`.
pub open spec fn spec_skip_ws(s: Seq<u8>, i: int, end: int) -> int
    decreases end - i,
{
    if 0 <= i && i < end && end <= s.len() && is_ws(s[i]) {
        spec_skip_ws(s, i + 1, end)
    } else {
        i
    }
}

/// Skip whitespace within `[from, end)`.
pub fn skip_ws(src: &Vec<u8>, from: usize, end: usize) -> (r: usize)
    requires
        from <= end,
        end <= src@.len(),
    ensures
        r as int == spec_skip_ws(src@, from as int, end as int),
        from <= r <= end,
{
    let mut i = from;
    while i < end && (src[i] == 32 || src[i] == 9 || src[i] == 10 || src[i] == 13)
        invariant
            from <= i <= end,
            end <= src@.len(),
            spec_skip_ws(src@, from as int, end as int) == spec_skip_ws(src@, i as int, end as int),
        decreases end - i,
    {
        i = i + 1;
    }
    i
}

/// The first position in `[i, end)` whose byte cannot continue an
/// identifier, or `end`.
pub open spec fn spec_scan_ident(s: Seq<u8>, i: int, end: int) -> int
    decreases end - i,
{
    if 0 <= i && i < end && end <= s.len() && is_ident_byte(s[i]) {
        spec_scan_ident(s, i + 1, end)
    } else {
        i
    }
}

/// Scan past identifier bytes within `[from, end)`.
pub fn scan_ident(src: &Vec<u8>, from: usize, end: usize) -> (r: usize)
    requires
        from <= end,
        end <= src@.len(),
    ensures
        r as int == spec_scan_ident(src@, from as int, end as int),
        from <= r <= end,
{
    let mut i = from;
    while i < end && ((65 <= src[i] && src[i] <= 90) || (97 <= src[i] && src[i] <= 122) || src[i]
        == 95 || (48 <= src[i] && src[i] <= 57))
        invariant
            from <= i <= end,
            end <= src@.len(),
            spec_scan_ident(src@, from as int, end as int) == spec_scan_ident(
                src@,
                i as int,
                end as int,
            ),
        decreases end - i,
    {
        i = i + 1;
    }
    i
}

/// The first position in `[i, end)` whose byte is not a digit, or `end`.
pub open spec fn spec_scan_digits(s: Seq<u8>, i: int, end: int) -> int
    decreases end - i,
{
    if 0 <= i && i < end && end <= s.len() && is_digit(s[i]) {
        spec_scan_digits(s, i + 1, end)
    } else {
        i
    }
}

/// Scan past digits within `[from, end)`.
pub fn scan_digits(src: &Vec<u8>, from: usize, end: usize) -> (r: usize)
    requires
        from <= end,
        end <= src@.len(),
    ensures
        r as int == spec_scan_digits(src@, from as int, end as int),
        from <= r <= end,
{
    let mut i = from;
    while i < end && 48 <= src[i] && src[i] <= 57
        invariant
            from <= i <= end,
            end <= src@.len(),
            spec_scan_digits(src@, from as int, end as int) == spec_scan_digits(
                src@,
                i as int,
                end as int,
            ),
        decreases end - i,
    {
        i = i + 1;
    }
    i
}

/// The first position in `[i, end)` holding byte `b`, or none.
pub open spec fn spec_find_byte(s: Seq<u8>, i: int, end: int, b: u8) -> Option<int>
    decreases end - i,
{
    if !(0 <= i && i < end && end <= s.len()) {
        None
    } else if s[i] == b {
        Some(i)
    } else {
        spec_find_byte(s, i + 1, end, b)
    }
}

/// Find byte `b` within `[from, end)`.
pub fn find_byte(src: &Vec<u8>, from: usize, end: usize, b: u8) -> (r: Option<usize>)
    requires
        from <= end,
        end <= src@.len(),
    ensures
        opt_pos(r) == spec_find_byte(src@, from as int, end as int, b),
        r matches Some(p) ==> from <= p && p < end,
{
    let mut i = from;
    while i < end && src[i] != b
        invariant
            from <= i <= end,
            end <= src@.len(),
            spec_find_byte(src@, from as int, end as int, b) == spec_find_byte(
                src@,
                i as int,
                end as int,
                b,
            ),
        decreases end - i,
    {
        i = i + 1;
    }
    if i < end {
        Some(i)
    } else {
        None
    }
}

/// Copy the bytes of `[from, to)` out of the source.
pub fn copy_range(src: &Vec<u8>, from: usize, to: usize) -> (r: Vec<u8>)
    requires
        from <= to,
        to <= src@.len(),
    ensures
        r@ == src@.subrange(from as int, to as int),
{
    let mut out: Vec<u8> = Vec::new();
    let mut i = from;
    while i < to
        invariant
            from <= i <= to,
            to <= src@.len(),
            out@ == src@.subrange(from as int, i as int),
        decreases to - i,
    {
        out.push(src[i]);
        proof {
            assert(src@.subrange(from as int, i + 1) =~= src@.subrange(
                from as int,
                i as int,
            ).push(src@[i as int]));
        }
        i = i + 1;
    }
    out
}

/// The tag and literal keywords the parser knows.
#[derive(Clone, Copy, PartialEq, Eq, Structural, Debug)]
pub enum Kw {
    If,
    Else,
    EndIf,
    For,
    In,
    EndFor,
    Block,
    EndBlock,
    Extends,
    True,
    False,
    Other,
}

/// The keyword a byte string spells, if any.
pub open spec fn spec_kw(s: Seq<u8>) -> Kw {
    if s == seq![105u8, 102u8] {
        Kw::If
    } else if s == seq![101u8, 108u8, 115u8, 101u8] {
        Kw::Else
    } else if s == seq![101u8, 110u8, 100u8, 105u8, 102u8] {
        Kw::EndIf
    } else if s == seq![102u8, 111u8, 114u8] {
        Kw::For
    } else if s == seq![105u8, 110u8] {
        Kw::In
    } else if s == seq![101u8, 110u8, 100u8, 102u8, 111u8, 114u8] {
        Kw::EndFor
    } else if s == seq![98u8, 108u8, 111u8, 99u8, 107u8] {
        Kw::Block
    } else if s == seq![101u8, 110u8, 100u8, 98u8, 108u8, 111u8, 99u8, 107u8] {
        Kw::EndBlock
    } else if s == seq![101u8, 120u8, 116u8, 101u8, 110u8, 100u8, 115u8] {
        Kw::Extends
    } else if s == seq![116u8, 114u8, 117u8, 101u8] {
        Kw::True
    } else if s == seq![102u8, 97u8, 108u8, 115u8, 101u8] {
        Kw::False
    } else {
        Kw::Other
    }
}

/// Recognize a keyword; spells out `if`, `else`, `endif`, `for`, `in`,
/// `endfor`, `block`, `endblock`, `extends`, `true`, `false`.
pub fn kw_of(id: &Vec<u8>) -> (r: Kw)
    ensures
        r == spec_kw(id@),
{
    let n = id.len();
    if n == 2 && id[0] == 105 && id[1] == 102 {
        proof {
            assert(id@ =~= seq![105u8, 102u8]);
        }
        Kw::If
    } else if n == 2 && id[0] == 105 && id[1] == 110 {
        proof {
            assert(id@ =~= seq![105u8, 110u8]);
        }
        Kw::In
    } else if n == 4 && id[0] == 101 && id[1] == 108 && id[2] == 115 && id[3] == 101 {
        proof {
            assert(id@ =~= seq![101u8, 108u8, 115u8, 101u8]);
        }
        Kw::Else
    } else if n == 4 && id[0] == 116 && id[1] == 114 && id[2] == 117 && id[3] == 101 {
        proof {
            assert(id@ =~= seq![116u8, 114u8, 117u8, 101u8]);
        }
        Kw::True
    } else if n == 5 && id[0] == 101 && id[1] == 110 && id[2] == 100 && id[3] == 105 && id[4]
        == 102 {
        proof {
            assert(id@ =~= seq![101u8, 110u8, 100u8, 105u8, 102u8]);
        }
        Kw::EndIf
    } else if n == 5 && id[0] == 98 && id[1] == 108 && id[2] == 111 && id[3] == 99 && id[4]
        == 107 {
        proof {
            assert(id@ =~= seq![98u8, 108u8, 111u8, 99u8, 107u8]);
        }
        Kw::Block
    } else if n == 5 && id[0] == 102 && id[1] == 97 && id[2] == 108 && id[3] == 115 && id[4]
        == 101 {
        proof {
            assert(id@ =~= seq![102u8, 97u8, 108u8, 115u8, 101u8]);
        }
        Kw::False
    } else if n == 3 && id[0] == 102 && id[1] == 111 && id[2] == 114 {
        proof {
            assert(id@ =~= seq![102u8, 111u8, 114u8]);
        }
        Kw::For
    } else if n == 6 && id[0] == 101 && id[1] == 110 && id[2] == 100 && id[3] == 102 && id[4]
        == 111 && id[5] == 114 {
        proof {
            assert(id@ =~= seq![101u8, 110u8, 100u8, 102u8, 111u8, 114u8]);
        }
        Kw::EndFor
    } else if n == 8 && id[0] == 101 && id[1] == 110 && id[2] == 100 && id[3] == 98 && id[4]
        == 108 && id[5] == 111 && id[6] == 99 && id[7] == 107 {
        proof {
            assert(id@ =~= seq![101u8, 110u8, 100u8, 98u8, 108u8, 111u8, 99u8, 107u8]);
        }
        Kw::EndBlock
    } else if n == 7 && id[0] == 101 && id[1] == 120 && id[2] == 116 && id[3] == 101 && id[4]
        == 110 && id[5] == 100 && id[6] == 115 {
        proof {
            assert(id@ =~= seq![101u8, 120u8, 116u8, 101u8, 110u8, 100u8, 115u8]);
        }
        Kw::Extends
    } else {
        proof {
            assert(id@ != seq![105u8, 102u8]);
            assert(id@ != seq![101u8, 108u8, 115u8, 101u8]);
            assert(id@ != seq![101u8, 110u8, 100u8, 105u8, 102u8]);
            assert(id@ != seq![102u8, 111u8, 114u8]);
            assert(id@ != seq![105u8, 110u8]);
            assert(id@ != seq![101u8, 110u8, 100u8, 102u8, 111u8, 114u8]);
            assert(id@ != seq![98u8, 108u8, 111u8, 99u8, 107u8]);
            assert(id@ != seq![101u8, 110u8, 100u8, 98u8, 108u8, 111u8, 99u8, 107u8]);
            assert(id@ != seq![101u8, 120u8, 116u8, 101u8, 110u8, 100u8, 115u8]);
            assert(id@ != seq![116u8, 114u8, 117u8, 101u8]);
            assert(id@ != seq![102u8, 97u8, 108u8, 115u8, 101u8]);
        }
        Kw::Other
    }
}

/// The value of the digits in `[i, j)`, read most significant first,
/// accumulated onto `acc`; none if it would leave the 64-bit signed
/// range.
pub open spec fn spec_digits_val(s: Seq<u8>, i: int, j: int, acc: int) -> Option<int>
    decreases j - i,
{
    if !(0 <= i && i < j && j <= s.len()) {
        Some(acc)
    } else {
        let d = s[i] - 48;
        if acc > (0x7fff_ffff_ffff_ffff - d) / 10 {
            None
        } else {
            spec_digits_val(s, i + 1, j, acc * 10 + d)
        }
    }
}

/// Read the decimal value of the digit run `[from, to)`.
pub fn digits_val(src: &Vec<u8>, from: usize, to: usize) -> (r: Option<i64>)
    requires
        from <= to,
        to <= src@.len(),
        forall|k: int| from <= k < to ==> is_digit(src@[k]),
    ensures
        match r {
            Some(v) => spec_digits_val(src@, from as int, to as int, 0) == Some(v as int) && 0
                <= v,
            None => spec_digits_val(src@, from as int, to as int, 0) == None::<int>,
        },
{
    let mut acc: i64 = 0;
    let mut i = from;
    while i < to
        invariant
            from <= i <= to,
            to <= src@.len(),
            0 <= acc,
            forall|k: int| from <= k < to ==> is_digit(src@[k]),
            spec_digits_val(src@, from as int, to as int, 0) == spec_digits_val(
                src@,
                i as int,
                to as int,
                acc as int,
            ),
        decreases to - i,
    {
        let d = (src[i] - 48) as i64;
        if acc > (0x7fff_ffff_ffff_ffffi64 - d) / 10 {
            return None;
        }
        proof {
            assert(acc * 10 + d <= 0x7fff_ffff_ffff_ffff) by (nonlinear_arith)
                requires
                    0 <= acc,
                    0 <= d <= 9,
                    acc <= (0x7fff_ffff_ffff_ffff - d) / 10,
            ;
        }
        acc = acc * 10 + d;
        i = i + 1;
    }
    Some(acc)
}


/// The binary operator starting at `i`, with the position after it.
pub open spec fn spec_op_at(s: Seq<u8>, i: int, end: int) -> Option<(BinOp, int)> {
    if !(0 <= i && i < end && end <= s.len()) {
        None
    } else if i + 1 < end && s[i] == 61 && s[i + 1] == 61 {
        Some((BinOp::CmpEq, i + 2))
    } else if i + 1 < end && s[i] == 33 && s[i + 1] == 61 {
        Some((BinOp::CmpNe, i + 2))
    } else if i + 1 < end && s[i] == 60 && s[i + 1] == 61 {
        Some((BinOp::CmpLe, i + 2))
    } else if i + 1 < end && s[i] == 62 && s[i + 1] == 61 {
        Some((BinOp::CmpGe, i + 2))
    } else if s[i] == 60 {
        Some((BinOp::CmpLt, i + 1))
    } else if s[i] == 62 {
        Some((BinOp::CmpGt, i + 1))
    } else if s[i] == 43 {
        Some((BinOp::Add, i + 1))
    } else if s[i] == 45 {
        Some((BinOp::Sub, i + 1))
    } else if s[i] == 42 {
        Some((BinOp::Mul, i + 1))
    } else {
        None
    }
}

/// The spec form of an optional operator and position.
pub open spec fn opt_op(r: Option<(BinOp, usize)>) -> Option<(BinOp, int)> {
    match r {
        Some((op, p)) => Some((op, p as int)),
        None => None,
    }
}

/// Recognize a binary operator at `from`: `==`, `!=`, `<=`, `>=`, `<`,
/// `>`, `+`, `-`, `*`.
pub fn op_at(src: &Vec<u8>, from: usize, end: usize) -> (r: Option<(BinOp, usize)>)
    requires
        end <= src@.len(),
    ensures
        opt_op(r) == spec_op_at(src@, from as int, end as int),
        r matches Some((_, p)) ==> from < p && p <= end,
{
    if !(from < end) {
        return None;
    }
    let b = src[from];
    if from + 1 < end && b == 61 && src[from + 1] == 61 {
        Some((BinOp::CmpEq, from + 2))
    } else if from + 1 < end && b == 33 && src[from + 1] == 61 {
        Some((BinOp::CmpNe, from + 2))
    } else if from + 1 < end && b == 60 && src[from + 1] == 61 {
        Some((BinOp::CmpLe, from + 2))
    } else if from + 1 < end && b == 62 && src[from + 1] == 61 {
        Some((BinOp::CmpGe, from + 2))
    } else if b == 60 {
        Some((BinOp::CmpLt, from + 1))
    } else if b == 62 {
        Some((BinOp::CmpGt, from + 1))
    } else if b == 43 {
        Some((BinOp::Add, from + 1))
    } else if b == 45 {
        Some((BinOp::Sub, from + 1))
    } else if b == 42 {
        Some((BinOp::Mul, from + 1))
    } else {
        None
    }
}

/// A full expression in `[i, end)`: an operand, optionally followed by
/// one binary operator and a second operand.
pub open spec fn spec_parse_expr(s: Seq<u8>, i: int, end: int, fuel: nat) -> Result<
    (SpecExpr, int),
    SpecError,
>
    decreases fuel,
{
    if fuel == 0 {
        Err(SpecError::Parse(ParseFault::TooDeep, i))
    } else {
        match spec_parse_operand(s, i, end, (fuel - 1) as nat) {
            Err(e) => Err(e),
            Ok((e1, p)) => {
                let p2 = spec_skip_ws(s, p, end);
                match spec_op_at(s, p2, end) {
                    None => Ok((e1, p)),
                    Some((op, p3)) => match spec_parse_operand(s, p3, end, (fuel - 1) as nat) {
                        Err(e) => Err(e),
                        Ok((e2, q)) => Ok(
                            (SpecExpr::Bin(op, Box::new(e1), Box::new(e2)), q),
                        ),
                    },
                }
            },
        }
    }
}

/// One operand: an integer, string or boolean literal, a function call,
/// or a dotted variable path, followed by any `| filter` applications.
pub open spec fn spec_parse_operand(s: Seq<u8>, i: int, end: int, fuel: nat) -> Result<
    (SpecExpr, int),
    SpecError,
>
    decreases fuel,
{
    if fuel == 0 {
        Err(SpecError::Parse(ParseFault::TooDeep, i))
    } else {
        let p = spec_skip_ws(s, i, end);
        if !(0 <= p && p < end && end <= s.len()) {
            Err(SpecError::Parse(ParseFault::BadExpression, p))
        } else {
            let b = s[p];
            if is_digit(b) || (b == MINUS && p + 1 < end && is_digit(s[p + 1])) {
                let neg = b == MINUS;
                let d0 = if neg {
                    p + 1
                } else {
                    p
                };
                let j = spec_scan_digits(s, d0, end);
                match spec_digits_val(s, d0, j, 0) {
                    None => Err(SpecError::Parse(ParseFault::BadNumber, p)),
                    Some(v) => {
                        let v2 = if neg {
                            -v
                        } else {
                            v
                        };
                        spec_parse_filters(s, j, end, SpecExpr::IntLit(v2 as i64), (fuel - 1) as nat)
                    },
                }
            } else if b == QUOTE {
                match spec_find_byte(s, p + 1, end, QUOTE) {
                    None => Err(SpecError::Parse(ParseFault::UnclosedString, p)),
                    Some(q) => spec_parse_filters(
                        s,
                        q + 1,
                        end,
                        SpecExpr::StrLit(s.subrange(p + 1, q)),
                        (fuel - 1) as nat,
                    ),
                }
            } else if is_ident_start(b) {
                let j = spec_scan_ident(s, p, end);
                let name = s.subrange(p, j);
                if spec_kw(name) == Kw::True {
                    spec_parse_filters(s, j, end, SpecExpr::BoolLit(true), (fuel - 1) as nat)
                } else if spec_kw(name) == Kw::False {
                    spec_parse_filters(s, j, end, SpecExpr::BoolLit(false), (fuel - 1) as nat)
                } else if j < end && s[j] == LPAREN {
                    match spec_parse_args(s, j + 1, end, (fuel - 1) as nat) {
                        Err(e) => Err(e),
                        Ok((args, q)) => spec_parse_filters(
                            s,
                            q,
                            end,
                            SpecExpr::Call(name, args),
                            (fuel - 1) as nat,
                        ),
                    }
                } else {
                    match spec_parse_path(s, j, end, seq![name], (fuel - 1) as nat) {
                        Err(e) => Err(e),
                        Ok((segs, q)) => spec_parse_filters(
                            s,
                            q,
                            end,
                            SpecExpr::Var(segs),
                            (fuel - 1) as nat,
                        ),
                    }
                }
            } else {
                Err(SpecError::Parse(ParseFault::BadExpression, p))
            }
        }
    }
}

/// Further `.segment` parts of a variable path, appended to `segs`.
pub open spec fn spec_parse_path(
    s: Seq<u8>,
    i: int,
    end: int,
    segs: Seq<Seq<u8>>,
    fuel: nat,
) -> Result<(Seq<Seq<u8>>, int), SpecError>
    decreases fuel,
{
    if fuel == 0 {
        Err(SpecError::Parse(ParseFault::TooDeep, i))
    } else if 0 <= i && i < end && end <= s.len() && s[i] == DOT {
        let p = i + 1;
        if p < end && is_ident_byte(s[p]) {
            let j = if is_digit(s[p]) {
                spec_scan_digits(s, p, end)
            } else {
                spec_scan_ident(s, p, end)
            };
            spec_parse_path(s, j, end, segs.push(s.subrange(p, j)), (fuel - 1) as nat)
        } else {
            Err(SpecError::Parse(ParseFault::BadExpression, p))
        }
    } else {
        Ok((segs, i))
    }
}

/// Any `| name` filter applications wrapped around `e`.
pub open spec fn spec_parse_filters(
    s: Seq<u8>,
    i: int,
    end: int,
    e: SpecExpr,
    fuel: nat,
) -> Result<(SpecExpr, int), SpecError>
    decreases fuel,
{
    if fuel == 0 {
        Err(SpecError::Parse(ParseFault::TooDeep, i))
    } else {
        let p = spec_skip_ws(s, i, end);
        if 0 <= p && p < end && end <= s.len() && s[p] == PIPE {
            let p2 = spec_skip_ws(s, p + 1, end);
            if p2 < end && is_ident_start(s[p2]) {
                let j = spec_scan_ident(s, p2, end);
                spec_parse_filters(
                    s,
                    j,
                    end,
                    SpecExpr::Filter(s.subrange(p2, j), Box::new(e)),
                    (fuel - 1) as nat,
                )
            } else {
                Err(SpecError::Parse(ParseFault::BadExpression, p2))
            }
        } else {
            Ok((e, i))
        }
    }
}

/// Call arguments after `(`: expressions separated by commas, up to the
/// closing parenthesis.
pub open spec fn spec_parse_args(s: Seq<u8>, i: int, end: int, fuel: nat) -> Result<
    (Seq<SpecExpr>, int),
    SpecError,
>
    decreases fuel,
{
    if fuel == 0 {
        Err(SpecError::Parse(ParseFault::TooDeep, i))
    } else {
        let p = spec_skip_ws(s, i, end);
        if !(0 <= p && p < end && end <= s.len()) {
            Err(SpecError::Parse(ParseFault::BadExpression, p))
        } else if s[p] == RPAREN {
            Ok((Seq::empty(), p + 1))
        } else {
            match spec_parse_expr(s, p, end, (fuel - 1) as nat) {
                Err(e) => Err(e),
                Ok((e, q)) => {
                    let q2 = spec_skip_ws(s, q, end);
                    if q2 < end && s[q2] == COMMA {
                        match spec_parse_args(s, q2 + 1, end, (fuel - 1) as nat) {
                            Err(er) => Err(er),
                            Ok((rest, r2)) => Ok((seq![e] + rest, r2)),
                        }
                    } else if q2 < end && s[q2] == RPAREN {
                        Ok((seq![e], q2 + 1))
                    } else {
                        Err(SpecError::Parse(ParseFault::BadExpression, q2))
                    }
                },
            }
        }
    }
}

/// The spec form of an executable expression-parse result.
pub open spec fn expr_res(r: Result<(Expr, usize), EngineError>) -> Result<
    (SpecExpr, int),
    SpecError,
> {
    match r {
        Ok((e, p)) => Ok((e.model(), p as int)),
        Err(e) => Err(e.model()),
    }
}

/// The spec form of an executable path-parse result.
pub open spec fn segs_res(r: Result<(Vec<Vec<u8>>, usize), EngineError>) -> Result<
    (Seq<Seq<u8>>, int),
    SpecError,
> {
    match r {
        Ok((vs, p)) => Ok((crate::ast::path_view(vs@), p as int)),
        Err(e) => Err(e.model()),
    }
}

/// The spec form of an executable argument-list parse result.
pub open spec fn args_res(r: Result<(Vec<Expr>, usize), EngineError>) -> Result<
    (Seq<SpecExpr>, int),
    SpecError,
> {
    match r {
        Ok((es, p)) => Ok((exprs_view(es@), p as int)),
        Err(e) => Err(e.model()),
    }
}

/// Parse a full expression in `[from, end)`.
pub fn parse_expr(src: &Vec<u8>, from: usize, end: usize, fuel: usize) -> (r: Result<
    (Expr, usize),
    EngineError,
>)
    requires
        from <= end,
        end <= src@.len(),
    ensures
        expr_res(r) == spec_parse_expr(src@, from as int, end as int, fuel as nat),
        r matches Ok((_, p)) ==> p <= end,
    decreases fuel,
{
    if fuel == 0 {
        return Err(EngineError::Parse(ParseFault::TooDeep, from));
    }
    let (e1, p) = match parse_operand(src, from, end, fuel - 1) {
        Ok(v) => v,
        Err(e) => {
            return Err(e);
        },
    };
    let p2 = skip_ws(src, p, end);
    match op_at(src, p2, end) {
        None => Ok((e1, p)),
        Some((op, p3)) => {
            let (e2, q) = match parse_operand(src, p3, end, fuel - 1) {
                Ok(v) => v,
                Err(e) => {
                    return Err(e);
                },
            };
            Ok((Expr::Bin(op, Box::new(e1), Box::new(e2)), q))
        },
    }
}

/// Parse one operand with its filters.
pub fn parse_operand(src: &Vec<u8>, from: usize, end: usize, fuel: usize) -> (r: Result<
    (Expr, usize),
    EngineError,
>)
    requires
        from <= end,
        end <= src@.len(),
    ensures
        expr_res(r) == spec_parse_operand(src@, from as int, end as int, fuel as nat),
        r matches Ok((_, p)) ==> p <= end,
    decreases fuel,
{
    if fuel == 0 {
        return Err(EngineError::Parse(ParseFault::TooDeep, from));
    }
    let p = skip_ws(src, from, end);
    if !(p < end) {
        return Err(EngineError::Parse(ParseFault::BadExpression, p));
    }
    let b = src[p];
    if (48 <= b && b <= 57) || (b == MINUS && p + 1 < end && 48 <= src[p + 1] && src[p + 1]
        <= 57) {
        let neg = b == MINUS;
        let d0 = if neg {
            p + 1
        } else {
            p
        };
        let j = scan_digits(src, d0, end);
        proof {
            lemma_scan_digits_range(src@, d0 as int, end as int);
        }
        match digits_val(src, d0, j) {
            None => Err(EngineError::Parse(ParseFault::BadNumber, p)),
            Some(v) => {
                let v2 = if neg {
                    -v
                } else {
                    v
                };
                parse_filters(src, j, end, Expr::IntLit(v2), fuel - 1)
            },
        }
    } else if b == QUOTE {
        match find_byte(src, p + 1, end, QUOTE) {
            None => Err(EngineError::Parse(ParseFault::UnclosedString, p)),
            Some(q) => {
                let content = copy_range(src, p + 1, q);
                parse_filters(src, q + 1, end, Expr::StrLit(content), fuel - 1)
            },
        }
    } else if (65 <= b && b <= 90) || (97 <= b && b <= 122) || b == 95 {
        let j = scan_ident(src, p, end);
        let name = copy_range(src, p, j);
        let kw = kw_of(&name);
        if kw == Kw::True {
            parse_filters(src, j, end, Expr::BoolLit(true), fuel - 1)
        } else if kw == Kw::False {
            parse_filters(src, j, end, Expr::BoolLit(false), fuel - 1)
        } else if j < end && src[j] == LPAREN {
            match parse_args(src, j + 1, end, fuel - 1) {
                Err(e) => Err(e),
                Ok((args, q)) => parse_filters(src, q, end, Expr::Call(name, args), fuel - 1),
            }
        } else {
            let mut segs: Vec<Vec<u8>> = Vec::new();
            segs.push(name);
            proof {
                assert(crate::ast::path_view(segs@) =~= seq![src@.subrange(p as int, j as int)]);
            }
            match parse_path(src, j, end, segs, fuel - 1) {
                Err(e) => Err(e),
                Ok((segs2, q)) => parse_filters(src, q, end, Expr::Var(segs2), fuel - 1),
            }
        }
    } else {
        Err(EngineError::Parse(ParseFault::BadExpression, p))
    }
}

/// Digits scanned by `spec_scan_digits` are digits.
proof fn lemma_scan_digits_range(s: Seq<u8>, i: int, end: int)
    requires
        0 <= i,
        end <= s.len(),
    ensures
        forall|k: int| i <= k < spec_scan_digits(s, i, end) ==> is_digit(s[k]),
        decreases end - i,
{
    if 0 <= i && i < end && end <= s.len() && is_digit(s[i]) {
        lemma_scan_digits_range(s, i + 1, end);
    }
}

/// Parse further `.segment` parts of a path onto `segs`.
pub fn parse_path(src: &Vec<u8>, from: usize, end: usize, segs: Vec<Vec<u8>>, fuel: usize) -> (r:
    Result<(Vec<Vec<u8>>, usize), EngineError>)
    requires
        from <= end,
        end <= src@.len(),
    ensures
        segs_res(r) == spec_parse_path(
            src@,
            from as int,
            end as int,
            crate::ast::path_view(segs@),
            fuel as nat,
        ),
        r matches Ok((_, p)) ==> p <= end,
    decreases fuel,
{
    if fuel == 0 {
        return Err(EngineError::Parse(ParseFault::TooDeep, from));
    }
    if from < end && src[from] == DOT {
        let p = from + 1;
        if p < end && ((65 <= src[p] && src[p] <= 90) || (97 <= src[p] && src[p] <= 122) || src[p]
            == 95 || (48 <= src[p] && src[p] <= 57)) {
            let j = if 48 <= src[p] && src[p] <= 57 {
                scan_digits(src, p, end)
            } else {
                scan_ident(src, p, end)
            };
            let seg = copy_range(src, p, j);
            let mut segs2 = segs;
            proof {
                let ghost old_segs = segs2@;
                assert(crate::ast::path_view(old_segs.push(seg)) =~= crate::ast::path_view(
                    old_segs,
                ).push(seg@));
            }
            segs2.push(seg);
            parse_path(src, j, end, segs2, fuel - 1)
        } else {
            Err(EngineError::Parse(ParseFault::BadExpression, p))
        }
    } else {
        Ok((segs, from))
    }
}

/// Parse any `| name` filter applications around `e`.
pub fn parse_filters(src: &Vec<u8>, from: usize, end: usize, e: Expr, fuel: usize) -> (r: Result<
    (Expr, usize),
    EngineError,
>)
    requires
        from <= end,
        end <= src@.len(),
    ensures
        expr_res(r) == spec_parse_filters(src@, from as int, end as int, e.model(), fuel as nat),
        r matches Ok((_, p)) ==> p <= end,
    decreases fuel,
{
    if fuel == 0 {
        return Err(EngineError::Parse(ParseFault::TooDeep, from));
    }
    let p = skip_ws(src, from, end);
    if p < end && src[p] == PIPE {
        let p2 = skip_ws(src, p + 1, end);
        if p2 < end && ((65 <= src[p2] && src[p2] <= 90) || (97 <= src[p2] && src[p2] <= 122)
            || src[p2] == 95) {
            let j = scan_ident(src, p2, end);
            let name = copy_range(src, p2, j);
            parse_filters(src, j, end, Expr::Filter(name, Box::new(e)), fuel - 1)
        } else {
            Err(EngineError::Parse(ParseFault::BadExpression, p2))
        }
    } else {
        Ok((e, from))
    }
}

/// Parse call arguments after `(`.
pub fn parse_args(src: &Vec<u8>, from: usize, end: usize, fuel: usize) -> (r: Result<
    (Vec<Expr>, usize),
    EngineError,
>)
    requires
        from <= end,
        end <= src@.len(),
    ensures
        args_res(r) == spec_parse_args(src@, from as int, end as int, fuel as nat),
        r matches Ok((_, p)) ==> p <= end,
    decreases fuel,
{
    if fuel == 0 {
        return Err(EngineError::Parse(ParseFault::TooDeep, from));
    }
    let p = skip_ws(src, from, end);
    if !(p < end) {
        return Err(EngineError::Parse(ParseFault::BadExpression, p));
    }
    if src[p] == RPAREN {
        let out: Vec<Expr> = Vec::new();
        proof {
            assert(exprs_view(out@) =~= Seq::<SpecExpr>::empty());
        }
        return Ok((out, p + 1));
    }
    let (e, q) = match parse_expr(src, p, end, fuel - 1) {
        Ok(v) => v,
        Err(er) => {
            return Err(er);
        },
    };
    let q2 = skip_ws(src, q, end);
    if q2 < end && src[q2] == COMMA {
        match parse_args(src, q2 + 1, end, fuel - 1) {
            Err(er) => Err(er),
            Ok((rest, r2)) => {
                let mut out: Vec<Expr> = Vec::new();
                out.push(e);
                let mut rest2 = rest;
                proof {
                    lemma_exprs_view_index(out@);
                    lemma_exprs_view_index(rest2@);
                }
                let ghost e_model = (out@[0]).model();
                let ghost rest_models = exprs_view(rest2@);
                out.append(&mut rest2);
                proof {
                    lemma_exprs_view_index(out@);
                    assert(exprs_view(out@) =~= seq![e_model] + rest_models);
                }
                Ok((out, r2))
            },
        }
    } else if q2 < end && src[q2] == RPAREN {
        let mut out: Vec<Expr> = Vec::new();
        out.push(e);
        proof {
            lemma_exprs_view_index(out@);
            assert(exprs_view(out@) =~= seq![(out@[0]).model()]);
        }
        Ok((out, q2 + 1))
    } else {
        Err(EngineError::Parse(ParseFault::BadExpression, q2))
    }
}


/// What stopped a run of node parsing: the end of the source, or one of
/// the closing tags.
#[derive(Clone, Copy, PartialEq, Eq, Structural, Debug)]
pub enum Closer {
    AtEnd,
    OnElse,
    OnEndIf,
    OnEndFor,
    OnEndBlock,
}

/// A run of nodes starting at `i`, up to the end of the source or a
/// closing tag; returns the nodes, the position after what was
/// consumed, and what stopped the run.
pub open spec fn spec_parse_nodes(s: Seq<u8>, i: int, fuel: nat) -> Result<
    (Seq<SpecNode>, int, Closer),
    SpecError,
>
    decreases fuel, 2int,
{
    if fuel == 0 {
        Err(SpecError::Parse(ParseFault::TooDeep, i))
    } else {
        let t = spec_scan_text(s, i);
        let pre: Seq<SpecNode> = if t > i {
            seq![SpecNode::Text(s.subrange(i, t))]
        } else {
            Seq::empty()
        };
        if t >= s.len() {
            Ok((pre, s.len() as int, Closer::AtEnd))
        } else if s[t + 1] == OPEN_BRACE {
            match spec_find_close(s, t + 2, CLOSE_BRACE) {
                None => Err(SpecError::Parse(ParseFault::UnclosedTag, t)),
                Some(c) => match spec_parse_expr(s, t + 2, c, (fuel - 1) as nat) {
                    Err(e) => Err(e),
                    Ok((e, p)) => {
                        let p2 = spec_skip_ws(s, p, c);
                        if p2 != c {
                            Err(SpecError::Parse(ParseFault::BadExpression, p2))
                        } else {
                            match spec_parse_nodes(s, c + 2, (fuel - 1) as nat) {
                                Err(er) => Err(er),
                                Ok((ns, q, cl)) => Ok((pre + seq![SpecNode::Emit(e)] + ns, q, cl)),
                            }
                        }
                    },
                },
            }
        } else {
            match spec_find_close(s, t + 2, PERCENT) {
                None => Err(SpecError::Parse(ParseFault::UnclosedTag, t)),
                Some(c) => {
                    let p = spec_skip_ws(s, t + 2, c);
                    if !(p < c && is_ident_start(s[p])) {
                        Err(SpecError::Parse(ParseFault::UnknownTag, p))
                    } else {
                        let j = spec_scan_ident(s, p, c);
                        spec_parse_tag(s, i, t, c, p, j, fuel)
                    }
                },
            }
        }
    }
}

/// One `{% .. %}` tag whose keyword spans `[p, j)`, with the tag closed
/// by `%}` at `c`; `i` and `t` are where the containing run and the tag
/// started.
pub open spec fn spec_parse_tag(
    s: Seq<u8>,
    i: int,
    t: int,
    c: int,
    p: int,
    j: int,
    fuel: nat,
) -> Result<(Seq<SpecNode>, int, Closer), SpecError>
    decreases fuel, 1int,
{
    let pre: Seq<SpecNode> = if t > i {
        seq![SpecNode::Text(s.subrange(i, t))]
    } else {
        Seq::empty()
    };
    let kw = spec_kw(s.subrange(p, j));
    if fuel == 0 {
        Err(SpecError::Parse(ParseFault::TooDeep, i))
    } else if kw == Kw::If {
        spec_tag_if(s, pre, t, c, j, (fuel - 1) as nat)
    } else if kw == Kw::For {
        spec_tag_for(s, pre, t, c, j, (fuel - 1) as nat)
    } else if kw == Kw::Block {
        spec_tag_block(s, pre, t, c, j, (fuel - 1) as nat)
    } else if kw == Kw::Else || kw == Kw::EndIf || kw == Kw::EndFor || kw == Kw::EndBlock {
        let p1 = spec_skip_ws(s, j, c);
        if p1 != c {
            Err(SpecError::Parse(ParseFault::BadExpression, p1))
        } else {
            let cl = if kw == Kw::Else {
                Closer::OnElse
            } else if kw == Kw::EndIf {
                Closer::OnEndIf
            } else if kw == Kw::EndFor {
                Closer::OnEndFor
            } else {
                Closer::OnEndBlock
            };
            Ok((pre, c + 2, cl))
        }
    } else if kw == Kw::Extends {
        Err(SpecError::Parse(ParseFault::MisplacedExtends, t))
    } else {
        Err(SpecError::Parse(ParseFault::UnknownTag, p))
    }
}

/// An `if` construct: condition, body, optional `else` body, `endif`.
pub open spec fn spec_tag_if(s: Seq<u8>, pre: Seq<SpecNode>, t: int, c: int, j: int, fm: nat)
    -> Result<(Seq<SpecNode>, int, Closer), SpecError>
    decreases fm, 4int,
{
    match spec_parse_expr(s, j, c, fm) {
        Err(e) => Err(e),
        Ok((cond, p1)) => {
            let p2 = spec_skip_ws(s, p1, c);
            if p2 != c {
                Err(SpecError::Parse(ParseFault::BadExpression, p2))
            } else {
                match spec_parse_nodes(s, c + 2, fm) {
                    Err(e) => Err(e),
                    Ok((yes, q, cl)) => {
                        if cl == Closer::OnElse {
                            match spec_parse_nodes(s, q, fm) {
                                Err(e) => Err(e),
                                Ok((no, q2, cl2)) => {
                                    if cl2 == Closer::OnEndIf {
                                        spec_parse_after(
                                            s,
                                            pre,
                                            SpecNode::Cond(cond, yes, no),
                                            q2,
                                            fm,
                                        )
                                    } else if cl2 == Closer::AtEnd {
                                        Err(SpecError::Parse(ParseFault::UnclosedTag, t))
                                    } else {
                                        Err(SpecError::Parse(ParseFault::MismatchedEnd, q2))
                                    }
                                },
                            }
                        } else if cl == Closer::OnEndIf {
                            spec_parse_after(
                                s,
                                pre,
                                SpecNode::Cond(cond, yes, Seq::empty()),
                                q,
                                fm,
                            )
                        } else if cl == Closer::AtEnd {
                            Err(SpecError::Parse(ParseFault::UnclosedTag, t))
                        } else {
                            Err(SpecError::Parse(ParseFault::MismatchedEnd, q))
                        }
                    },
                }
            }
        },
    }
}

/// A `for` construct: loop variable, `in`, iterable, body, `endfor`.
pub open spec fn spec_tag_for(s: Seq<u8>, pre: Seq<SpecNode>, t: int, c: int, j: int, fm: nat)
    -> Result<(Seq<SpecNode>, int, Closer), SpecError>
    decreases fm, 4int,
{
    let p1 = spec_skip_ws(s, j, c);
    if !(p1 < c && is_ident_start(s[p1])) {
        Err(SpecError::Parse(ParseFault::BadExpression, p1))
    } else {
        let j1 = spec_scan_ident(s, p1, c);
        let var = s.subrange(p1, j1);
        let p2 = spec_skip_ws(s, j1, c);
        if !(p2 < c && is_ident_start(s[p2])) {
            Err(SpecError::Parse(ParseFault::BadExpression, p2))
        } else {
            let j2 = spec_scan_ident(s, p2, c);
            if spec_kw(s.subrange(p2, j2)) != Kw::In {
                Err(SpecError::Parse(ParseFault::BadExpression, p2))
            } else {
                match spec_parse_expr(s, j2, c, fm) {
                    Err(e) => Err(e),
                    Ok((iter, p3)) => {
                        let p4 = spec_skip_ws(s, p3, c);
                        if p4 != c {
                            Err(SpecError::Parse(ParseFault::BadExpression, p4))
                        } else {
                            match spec_parse_nodes(s, c + 2, fm) {
                                Err(e) => Err(e),
                                Ok((body, q, cl)) => {
                                    if cl == Closer::OnEndFor {
                                        spec_parse_after(
                                            s,
                                            pre,
                                            SpecNode::Loop(var, iter, body),
                                            q,
                                            fm,
                                        )
                                    } else if cl == Closer::AtEnd {
                                        Err(SpecError::Parse(ParseFault::UnclosedTag, t))
                                    } else {
                                        Err(SpecError::Parse(ParseFault::MismatchedEnd, q))
                                    }
                                },
                            }
                        }
                    },
                }
            }
        }
    }
}

/// A `block` construct: name, body, `endblock`.
pub open spec fn spec_tag_block(s: Seq<u8>, pre: Seq<SpecNode>, t: int, c: int, j: int, fm: nat)
    -> Result<(Seq<SpecNode>, int, Closer), SpecError>
    decreases fm, 4int,
{
    let p1 = spec_skip_ws(s, j, c);
    if !(p1 < c && is_ident_start(s[p1])) {
        Err(SpecError::Parse(ParseFault::BadExpression, p1))
    } else {
        let j1 = spec_scan_ident(s, p1, c);
        let name = s.subrange(p1, j1);
        let p2 = spec_skip_ws(s, j1, c);
        if p2 != c {
            Err(SpecError::Parse(ParseFault::BadExpression, p2))
        } else {
            match spec_parse_nodes(s, c + 2, fm) {
                Err(e) => Err(e),
                Ok((body, q, cl)) => {
                    if cl == Closer::OnEndBlock {
                        spec_parse_after(s, pre, SpecNode::Block(name, body), q, fm)
                    } else if cl == Closer::AtEnd {
                        Err(SpecError::Parse(ParseFault::UnclosedTag, t))
                    } else {
                        Err(SpecError::Parse(ParseFault::MismatchedEnd, q))
                    }
                },
            }
        }
    }
}

/// The rest of a run after a finished construct: the nodes so far, the
/// construct's node, then whatever follows from `after`.
pub open spec fn spec_parse_after(
    s: Seq<u8>,
    pre: Seq<SpecNode>,
    node: SpecNode,
    after: int,
    fuel: nat,
) -> Result<(Seq<SpecNode>, int, Closer), SpecError>
    decreases fuel, 3int,
{
    match spec_parse_nodes(s, after, fuel) {
        Err(e) => Err(e),
        Ok((ns, q, cl)) => Ok((pre + seq![node] + ns, q, cl)),
    }
}

/// The spec form of an executable node-parse result.
pub open spec fn nodes_res(r: Result<(Vec<Node>, usize, Closer), EngineError>) -> Result<
    (Seq<SpecNode>, int, Closer),
    SpecError,
> {
    match r {
        Ok((ns, p, cl)) => Ok((nodes_view(ns@), p as int, cl)),
        Err(e) => Err(e.model()),
    }
}


/// Parse a run of nodes starting at `from`.
pub fn parse_nodes(src: &Vec<u8>, from: usize, fuel: usize) -> (r: Result<
    (Vec<Node>, usize, Closer),
    EngineError,
>)
    requires
        from <= src@.len(),
    ensures
        nodes_res(r) == spec_parse_nodes(src@, from as int, fuel as nat),
        r matches Ok((_, p, _)) ==> p <= src@.len(),
    decreases fuel, 2int,
{
    if fuel == 0 {
        return Err(EngineError::Parse(ParseFault::TooDeep, from));
    }
    let t = scan_text(src, from);
    let mut pre: Vec<Node> = Vec::new();
    if t > from {
        pre.push(Node::Text(copy_range(src, from, t)));
    }
    let ghost pre_model: Seq<SpecNode> = if t > from {
        seq![SpecNode::Text(src@.subrange(from as int, t as int))]
    } else {
        Seq::empty()
    };
    proof {
        lemma_nodes_view_index(pre@);
        assert(nodes_view(pre@) =~= pre_model);
    }
    if t >= src.len() {
        return Ok((pre, src.len(), Closer::AtEnd));
    }
    proof {
        lemma_scan_text_marker(src@, from as int);
    }
    if src[t + 1] == OPEN_BRACE {
        let c = match find_close(src, t + 2, CLOSE_BRACE) {
            None => {
                return Err(EngineError::Parse(ParseFault::UnclosedTag, t));
            },
            Some(c) => c,
        };
        let (e, p) = match parse_expr(src, t + 2, c, fuel - 1) {
            Err(er) => {
                return Err(er);
            },
            Ok(v) => v,
        };
        let p2 = skip_ws(src, p, c);
        if p2 != c {
            return Err(EngineError::Parse(ParseFault::BadExpression, p2));
        }
        parse_rest(src, pre, Node::Emit(e), c + 2, fuel - 1)
    } else {
        let c = match find_close(src, t + 2, PERCENT) {
            None => {
                return Err(EngineError::Parse(ParseFault::UnclosedTag, t));
            },
            Some(c) => c,
        };
        let p = skip_ws(src, t + 2, c);
        if !(p < c && ((65 <= src[p] && src[p] <= 90) || (97 <= src[p] && src[p] <= 122) || src[p]
            == 95)) {
            return Err(EngineError::Parse(ParseFault::UnknownTag, p));
        }
        let j = scan_ident(src, p, c);
        parse_tag(src, pre, from, t, c, p, j, fuel)
    }
}

/// Parse one `{% .. %}` tag whose keyword spans `[p, j)`.
fn parse_tag(
    src: &Vec<u8>,
    pre: Vec<Node>,
    from: usize,
    t: usize,
    c: usize,
    p: usize,
    j: usize,
    fuel: usize,
) -> (r: Result<(Vec<Node>, usize, Closer), EngineError>)
    requires
        from <= t,
        t <= src@.len(),
        p <= j <= c,
        c + 2 <= src@.len(),
        nodes_view(pre@) == (if t > from {
            seq![SpecNode::Text(src@.subrange(from as int, t as int))]
        } else {
            Seq::<SpecNode>::empty()
        }),
    ensures
        nodes_res(r) == spec_parse_tag(
            src@,
            from as int,
            t as int,
            c as int,
            p as int,
            j as int,
            fuel as nat,
        ),
        r matches Ok((_, q, _)) ==> q <= src@.len(),
    decreases fuel, 1int,
{
    if fuel == 0 {
        return Err(EngineError::Parse(ParseFault::TooDeep, from));
    }
    let total = src.len();
    proof {
        assert(c + 2 <= total);
    }
    let kwname = copy_range(src, p, j);
    let kw = kw_of(&kwname);
    if kw == Kw::If {
        tag_if(src, pre, from, t, c, j, fuel)
    } else if kw == Kw::For {
        tag_for(src, pre, from, t, c, j, fuel)
    } else if kw == Kw::Block {
        tag_block(src, pre, from, t, c, j, fuel)
    } else if kw == Kw::Else || kw == Kw::EndIf || kw == Kw::EndFor || kw == Kw::EndBlock {
        let p1 = skip_ws(src, j, c);
        if p1 != c {
            return Err(EngineError::Parse(ParseFault::BadExpression, p1));
        }
        let cl = if kw == Kw::Else {
            Closer::OnElse
        } else if kw == Kw::EndIf {
            Closer::OnEndIf
        } else if kw == Kw::EndFor {
            Closer::OnEndFor
        } else {
            Closer::OnEndBlock
        };
        Ok((pre, c + 2, cl))
    } else if kw == Kw::Extends {
        Err(EngineError::Parse(ParseFault::MisplacedExtends, t))
    } else {
        Err(EngineError::Parse(ParseFault::UnknownTag, p))
    }
}

/// Parse the body of an `if` tag whose condition starts at `j`.
fn tag_if(
    src: &Vec<u8>,
    pre: Vec<Node>,
    from: usize,
    t: usize,
    c: usize,
    j: usize,
    fuel: usize,
) -> (r: Result<(Vec<Node>, usize, Closer), EngineError>)
    requires
        1 <= fuel,
        from <= t,
        t <= src@.len(),
        j <= c,
        c + 2 <= src@.len(),
        nodes_view(pre@) == (if t > from {
            seq![SpecNode::Text(src@.subrange(from as int, t as int))]
        } else {
            Seq::<SpecNode>::empty()
        }),
    ensures
        nodes_res(r) == spec_tag_if(
            src@,
            nodes_view(pre@),
            t as int,
            c as int,
            j as int,
            (fuel - 1) as nat,
        ),
        r matches Ok((_, q, _)) ==> q <= src@.len(),
    decreases fuel, 0int,
{
    let total = src.len();
    proof {
        assert(c + 2 <= total);
    }
    let (cond, p1) = match parse_expr(src, j, c, fuel - 1) {
        Err(e) => {
            return Err(e);
        },
        Ok(v) => v,
    };
    let p2 = skip_ws(src, p1, c);
    if p2 != c {
        return Err(EngineError::Parse(ParseFault::BadExpression, p2));
    }
    let (yes, q, cl) = match parse_nodes(src, c + 2, fuel - 1) {
        Err(e) => {
            return Err(e);
        },
        Ok(v) => v,
    };
    if cl == Closer::OnElse {
        let (no, q2, cl2) = match parse_nodes(src, q, fuel - 1) {
            Err(e) => {
                return Err(e);
            },
            Ok(v) => v,
        };
        if cl2 == Closer::OnEndIf {
            parse_rest(src, pre, Node::Cond(cond, yes, no), q2, fuel - 1)
        } else if cl2 == Closer::AtEnd {
            Err(EngineError::Parse(ParseFault::UnclosedTag, t))
        } else {
            Err(EngineError::Parse(ParseFault::MismatchedEnd, q2))
        }
    } else if cl == Closer::OnEndIf {
        let no: Vec<Node> = Vec::new();
        proof {
            assert(nodes_view(no@) =~= Seq::<SpecNode>::empty());
        }
        parse_rest(src, pre, Node::Cond(cond, yes, no), q, fuel - 1)
    } else if cl == Closer::AtEnd {
        Err(EngineError::Parse(ParseFault::UnclosedTag, t))
    } else {
        Err(EngineError::Parse(ParseFault::MismatchedEnd, q))
    }
}

/// Parse the body of a `for` tag from the loop variable on.
fn tag_for(
    src: &Vec<u8>,
    pre: Vec<Node>,
    from: usize,
    t: usize,
    c: usize,
    j: usize,
    fuel: usize,
) -> (r: Result<(Vec<Node>, usize, Closer), EngineError>)
    requires
        1 <= fuel,
        from <= t,
        t <= src@.len(),
        j <= c,
        c + 2 <= src@.len(),
        nodes_view(pre@) == (if t > from {
            seq![SpecNode::Text(src@.subrange(from as int, t as int))]
        } else {
            Seq::<SpecNode>::empty()
        }),
    ensures
        nodes_res(r) == spec_tag_for(
            src@,
            nodes_view(pre@),
            t as int,
            c as int,
            j as int,
            (fuel - 1) as nat,
        ),
        r matches Ok((_, q, _)) ==> q <= src@.len(),
    decreases fuel, 0int,
{
    let total = src.len();
    proof {
        assert(c + 2 <= total);
    }
    let p1 = skip_ws(src, j, c);
    if !(p1 < c && ((65 <= src[p1] && src[p1] <= 90) || (97 <= src[p1] && src[p1] <= 122)
        || src[p1] == 95)) {
        return Err(EngineError::Parse(ParseFault::BadExpression, p1));
    }
    let j1 = scan_ident(src, p1, c);
    let var = copy_range(src, p1, j1);
    let p2 = skip_ws(src, j1, c);
    if !(p2 < c && ((65 <= src[p2] && src[p2] <= 90) || (97 <= src[p2] && src[p2] <= 122)
        || src[p2] == 95)) {
        return Err(EngineError::Parse(ParseFault::BadExpression, p2));
    }
    let j2 = scan_ident(src, p2, c);
    let inword = copy_range(src, p2, j2);
    if !(kw_of(&inword) == Kw::In) {
        return Err(EngineError::Parse(ParseFault::BadExpression, p2));
    }
    let (iter, p3) = match parse_expr(src, j2, c, fuel - 1) {
        Err(e) => {
            return Err(e);
        },
        Ok(v) => v,
    };
    let p4 = skip_ws(src, p3, c);
    if p4 != c {
        return Err(EngineError::Parse(ParseFault::BadExpression, p4));
    }
    let (body, q, cl) = match parse_nodes(src, c + 2, fuel - 1) {
        Err(e) => {
            return Err(e);
        },
        Ok(v) => v,
    };
    if cl == Closer::OnEndFor {
        parse_rest(src, pre, Node::Loop(var, iter, body), q, fuel - 1)
    } else if cl == Closer::AtEnd {
        Err(EngineError::Parse(ParseFault::UnclosedTag, t))
    } else {
        Err(EngineError::Parse(ParseFault::MismatchedEnd, q))
    }
}

/// Parse the body of a `block` tag from the block name on.
fn tag_block(
    src: &Vec<u8>,
    pre: Vec<Node>,
    from: usize,
    t: usize,
    c: usize,
    j: usize,
    fuel: usize,
) -> (r: Result<(Vec<Node>, usize, Closer), EngineError>)
    requires
        1 <= fuel,
        from <= t,
        t <= src@.len(),
        j <= c,
        c + 2 <= src@.len(),
        nodes_view(pre@) == (if t > from {
            seq![SpecNode::Text(src@.subrange(from as int, t as int))]
        } else {
            Seq::<SpecNode>::empty()
        }),
    ensures
        nodes_res(r) == spec_tag_block(
            src@,
            nodes_view(pre@),
            t as int,
            c as int,
            j as int,
            (fuel - 1) as nat,
        ),
        r matches Ok((_, q, _)) ==> q <= src@.len(),
    decreases fuel, 0int,
{
    let total = src.len();
    proof {
        assert(c + 2 <= total);
    }
    let p1 = skip_ws(src, j, c);
    if !(p1 < c && ((65 <= src[p1] && src[p1] <= 90) || (97 <= src[p1] && src[p1] <= 122)
        || src[p1] == 95)) {
        return Err(EngineError::Parse(ParseFault::BadExpression, p1));
    }
    let j1 = scan_ident(src, p1, c);
    let name = copy_range(src, p1, j1);
    let p2 = skip_ws(src, j1, c);
    if p2 != c {
        return Err(EngineError::Parse(ParseFault::BadExpression, p2));
    }
    let (body, q, cl) = match parse_nodes(src, c + 2, fuel - 1) {
        Err(e) => {
            return Err(e);
        },
        Ok(v) => v,
    };
    if cl == Closer::OnEndBlock {
        parse_rest(src, pre, Node::Block(name, body), q, fuel - 1)
    } else if cl == Closer::AtEnd {
        Err(EngineError::Parse(ParseFault::UnclosedTag, t))
    } else {
        Err(EngineError::Parse(ParseFault::MismatchedEnd, q))
    }
}

/// Parse the rest of a run after a finished construct and stitch the
/// pieces together.
fn parse_rest(src: &Vec<u8>, pre: Vec<Node>, node: Node, after: usize, fuel: usize) -> (r: Result<
    (Vec<Node>, usize, Closer),
    EngineError,
>)
    requires
        after <= src@.len(),
    ensures
        nodes_res(r) == spec_parse_after(
            src@,
            nodes_view(pre@),
            node.model(),
            after as int,
            fuel as nat,
        ),
        r matches Ok((_, q, _)) ==> q <= src@.len(),
    decreases fuel, 3int,
{
    let (rest, q, cl) = match parse_nodes(src, after, fuel) {
        Err(e) => {
            return Err(e);
        },
        Ok(v) => v,
    };
    let ghost pre_models = nodes_view(pre@);
    let ghost node_model = node.model();
    let ghost rest_models = nodes_view(rest@);
    let mut out = pre;
    out.push(node);
    let mut rest2 = rest;
    proof {
        lemma_nodes_view_index(out@);
        lemma_nodes_view_index(pre@);
        lemma_nodes_view_index(rest2@);
    }
    out.append(&mut rest2);
    proof {
        lemma_nodes_view_index(out@);
        assert(nodes_view(out@) =~= pre_models + seq![node_model] + rest_models);
    }
    Ok((out, q, cl))
}

/// The fuel the parser starts with: ample for any nesting the source
/// can hold, saturating at the machine word.
pub open spec fn spec_initial_fuel(n: nat) -> nat {
    if 4 * n + 64 > usize::MAX as nat {
        usize::MAX as nat
    } else {
        4 * n + 64
    }
}

/// Compute the parser's starting fuel.
pub fn initial_fuel(n: usize) -> (r: usize)
    ensures
        r as nat == spec_initial_fuel(n as nat),
{
    if n > (usize::MAX - 64) / 4 {
        proof {
            assert(4 * (n as nat) + 64 > usize::MAX as nat) by (nonlinear_arith)
                requires
                    n as nat > ((usize::MAX - 64) / 4) as nat,
                    ((usize::MAX - 64) as nat) / 4 == ((usize::MAX - 64) / 4) as nat,
            ;
        }
        usize::MAX
    } else {
        proof {
            assert(4 * (n as nat) + 64 <= usize::MAX as nat) by (nonlinear_arith)
                requires
                    n as nat <= ((usize::MAX - 64) / 4) as nat,
                    ((usize::MAX - 64) as nat) / 4 == ((usize::MAX - 64) / 4) as nat,
            ;
        }
        4 * n + 64
    }
}

/// What parsing a whole source yields: the parent named by a leading
/// `extends` tag, and the template body.
pub open spec fn spec_parse(s: Seq<u8>) -> Result<(Option<Seq<u8>>, Seq<SpecNode>), SpecError> {
    let fuel = spec_initial_fuel(s.len());
    if s.len() >= 2 && s[0] == OPEN_BRACE && s[1] == PERCENT {
        match spec_find_close(s, 2, PERCENT) {
            None => Err(SpecError::Parse(ParseFault::UnclosedTag, 0)),
            Some(c) => {
                let p = spec_skip_ws(s, 2, c);
                let j = spec_scan_ident(s, p, c);
                if p < c && is_ident_start(s[p]) && spec_kw(s.subrange(p, j)) == Kw::Extends {
                    let p1 = spec_skip_ws(s, j, c);
                    if !(p1 < c && s[p1] == QUOTE) {
                        Err(SpecError::Parse(ParseFault::BadExpression, p1))
                    } else {
                        match spec_find_byte(s, p1 + 1, c, QUOTE) {
                            None => Err(SpecError::Parse(ParseFault::UnclosedString, p1)),
                            Some(q) => {
                                let p2 = spec_skip_ws(s, q + 1, c);
                                if p2 != c {
                                    Err(SpecError::Parse(ParseFault::BadExpression, p2))
                                } else {
                                    match spec_parse_nodes(s, c + 2, fuel) {
                                        Err(e) => Err(e),
                                        Ok((ns, qq, cl)) => if cl == Closer::AtEnd {
                                            Ok((Some(s.subrange(p1 + 1, q)), ns))
                                        } else {
                                            Err(SpecError::Parse(ParseFault::MismatchedEnd, qq))
                                        },
                                    }
                                }
                            },
                        }
                    }
                } else {
                    spec_parse_plain(s, fuel)
                }
            },
        }
    } else {
        spec_parse_plain(s, fuel)
    }
}

/// Parsing a source with no leading `extends` tag.
pub open spec fn spec_parse_plain(s: Seq<u8>, fuel: nat) -> Result<
    (Option<Seq<u8>>, Seq<SpecNode>),
    SpecError,
> {
    match spec_parse_nodes(s, 0, fuel) {
        Err(e) => Err(e),
        Ok((ns, q, cl)) => if cl == Closer::AtEnd {
            Ok((None, ns))
        } else {
            Err(SpecError::Parse(ParseFault::MismatchedEnd, q))
        },
    }
}

/// Parse a template source under a registry name.
///
/// Parsing is deterministic: the result is exactly `spec_parse` of the
/// source bytes, so equal sources always yield equal templates.
pub fn parse(name: &Vec<u8>, source: &Vec<u8>) -> (r: Result<Template, EngineError>)
    ensures
        match r {
            Ok(t) => {
                &&& t.name@ == name@
                &&& t.source@ == source@
                &&& spec_parse(source@) == Ok::<_, SpecError>(
                    (t.model().parent, t.model().body),
                )
            },
            Err(e) => spec_parse(source@) == Err::<(Option<Seq<u8>>, Seq<SpecNode>), _>(
                e.model(),
            ),
        },
{
    let fuel = initial_fuel(source.len());
    if source.len() >= 2 && source[0] == OPEN_BRACE && source[1] == PERCENT {
        let c = match find_close(source, 2, PERCENT) {
            None => {
                return Err(EngineError::Parse(ParseFault::UnclosedTag, 0));
            },
            Some(c) => c,
        };
        let p = skip_ws(source, 2, c);
        let j = scan_ident(source, p, c);
        let kwname = copy_range(source, p, j);
        if p < c && ((65 <= source[p] && source[p] <= 90) || (97 <= source[p] && source[p] <= 122)
            || source[p] == 95) && kw_of(&kwname) == Kw::Extends {
            let p1 = skip_ws(source, j, c);
            if !(p1 < c && source[p1] == QUOTE) {
                return Err(EngineError::Parse(ParseFault::BadExpression, p1));
            }
            let q = match find_byte(source, p1 + 1, c, QUOTE) {
                None => {
                    return Err(EngineError::Parse(ParseFault::UnclosedString, p1));
                },
                Some(q) => q,
            };
            let p2 = skip_ws(source, q + 1, c);
            if p2 != c {
                return Err(EngineError::Parse(ParseFault::BadExpression, p2));
            }
            match parse_nodes(source, c + 2, fuel) {
                Err(e) => Err(e),
                Ok((ns, _qq, cl)) => {
                    if cl == Closer::AtEnd {
                        Ok(Template {
                            name: crate::value::bytes_clone(name),
                            source: crate::value::bytes_clone(source),
                            parent: Some(copy_range(source, p1 + 1, q)),
                            body: ns,
                        })
                    } else {
                        Err(EngineError::Parse(ParseFault::MismatchedEnd, _qq))
                    }
                },
            }
        } else {
            parse_plain(name, source, fuel)
        }
    } else {
        parse_plain(name, source, fuel)
    }
}

/// Parse a source with no leading `extends` tag.
fn parse_plain(name: &Vec<u8>, source: &Vec<u8>, fuel: usize) -> (r: Result<Template, EngineError>)
    ensures
        match r {
            Ok(t) => {
                &&& t.name@ == name@
                &&& t.source@ == source@
                &&& spec_parse_plain(source@, fuel as nat) == Ok::<_, SpecError>(
                    (t.model().parent, t.model().body),
                )
            },
            Err(e) => spec_parse_plain(source@, fuel as nat) == Err::<
                (Option<Seq<u8>>, Seq<SpecNode>),
                _,
            >(e.model()),
        },
{
    match parse_nodes(source, 0, fuel) {
        Err(e) => Err(e),
        Ok((ns, q, cl)) => {
            if cl == Closer::AtEnd {
                Ok(Template {
                    name: crate::value::bytes_clone(name),
                    source: crate::value::bytes_clone(source),
                    parent: None,
                    body: ns,
                })
            } else {
                Err(EngineError::Parse(ParseFault::MismatchedEnd, q))
            }
        },
    }
}


/// The 1-based line and column of a byte offset: walking the source
/// from position `i` with the counters at `line` and `col`, a newline
/// byte starts the next line. The counters stop at the machine word,
/// which no real source reaches.
pub open spec fn spec_line_col(s: Seq<u8>, at: int, i: int, line: int, col: int) -> (int, int)
    decreases at - i,
{
    if !(0 <= i && i < at && at <= s.len()) {
        (line, col)
    } else if s[i] == 10 {
        spec_line_col(s, at, i + 1, if line < usize::MAX as int {
            line + 1
        } else {
            line
        }, 1)
    } else {
        spec_line_col(s, at, i + 1, line, if col < usize::MAX as int {
            col + 1
        } else {
            col
        })
    }
}

/// Locate a byte offset (such as the one carried by a parse error) in
/// its source, as a 1-based line and column.
pub fn line_col(source: &Vec<u8>, at: usize) -> (r: (usize, usize))
    requires
        at <= source@.len(),
    ensures
        (r.0 as int, r.1 as int) == spec_line_col(source@, at as int, 0, 1, 1),
{
    let mut i: usize = 0;
    let mut line: usize = 1;
    let mut col: usize = 1;
    while i < at
        invariant
            i <= at,
            at <= source@.len(),
            1 <= line,
            1 <= col,
            spec_line_col(source@, at as int, 0, 1, 1) == spec_line_col(
                source@,
                at as int,
                i as int,
                line as int,
                col as int,
            ),
        decreases at - i,
    {
        if source[i] == 10 {
            if line < usize::MAX {
                line = line + 1;
            }
            col = 1;
        } else {
            if col < usize::MAX {
                col = col + 1;
            }
        }
        i = i + 1;
    }
    (line, col)
}

} // verus!
