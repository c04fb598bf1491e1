//! The abstract syntax tree of a parsed template, in two forms: the
//! executable form built by the parser, and a mathematical model of it
//! (`Spec*` types over `Seq`) that the contracts speak about.

use vstd::prelude::*;

verus! {

/// A binary operator inside an expression.
#[derive(Clone, Copy, PartialEq, Eq, Structural, Debug)]
pub enum BinOp {
    Add,
    Sub,
    Mul,
    CmpEq,
    CmpNe,
    CmpLt,
    CmpLe,
    CmpGt,
    CmpGe,
}

/// Mathematical model of an expression.
pub enum SpecExpr {
    IntLit(i64),
    StrLit(Seq<u8>),
    BoolLit(bool),
    Var(Seq<Seq<u8>>),
    Bin(BinOp, Box<SpecExpr>, Box<SpecExpr>),
    Filter(Seq<u8>, Box<SpecExpr>),
    Call(Seq<u8>, Seq<SpecExpr>),
}

/// Mathematical model of one node of a template body.
pub enum SpecNode {
    Text(Seq<u8>),
    Emit(SpecExpr),
    Cond(SpecExpr, Seq<SpecNode>, Seq<SpecNode>),
    Loop(Seq<u8>, SpecExpr, Seq<SpecNode>),
    Block(Seq<u8>, Seq<SpecNode>),
}

/// An expression, as parsed: a literal, a dotted variable path, a binary
/// operation, a filter application, or a function call.
#[derive(PartialEq, Eq, Debug)]
pub enum Expr {
    IntLit(i64),
    StrLit(Vec<u8>),
    BoolLit(bool),
    Var(Vec<Vec<u8>>),
    Bin(BinOp, Box<Expr>, Box<Expr>),
    Filter(Vec<u8>, Box<Expr>),
    Call(Vec<u8>, Vec<Expr>),
}

/// One node of a template body: literal text, an interpolated expression,
/// a conditional with its two branches, a loop, or a named block.
#[derive(PartialEq, Eq, Debug)]
pub enum Node {
    Text(Vec<u8>),
    Emit(Expr),
    Cond(Expr, Vec<Node>, Vec<Node>),
    Loop(Vec<u8>, Expr, Vec<Node>),
    Block(Vec<u8>, Vec<Node>),
}

/// The model of a dotted path: each segment as a byte sequence.
pub open spec fn path_view(p: Seq<Vec<u8>>) -> Seq<Seq<u8>> {
    Seq::new(p.len(), |i: int| p[i]@)
}

impl Expr {
    /// The mathematical model of an expression.
    pub open spec fn model(&self) -> SpecExpr
        decreases self,
    {
        match self {
            Expr::IntLit(n) => SpecExpr::IntLit(*n),
            Expr::StrLit(s) => SpecExpr::StrLit(s@),
            Expr::BoolLit(b) => SpecExpr::BoolLit(*b),
            Expr::Var(p) => SpecExpr::Var(path_view(p@)),
            Expr::Bin(op, l, r) => SpecExpr::Bin(*op, Box::new(l.model()), Box::new(r.model())),
            Expr::Filter(name, arg) => SpecExpr::Filter(name@, Box::new(arg.model())),
            Expr::Call(name, args) => SpecExpr::Call(name@, exprs_view(args@)),
        }
    }
}

/// The model of a list of expressions.
pub open spec fn exprs_view(es: Seq<Expr>) -> Seq<SpecExpr>
    decreases es,
{
    if es.len() == 0 {
        Seq::empty()
    } else {
        seq![es[0].model()] + exprs_view(es.drop_first())
    }
}

impl Node {
    /// The mathematical model of a node.
    pub open spec fn model(&self) -> SpecNode
        decreases self,
    {
        match self {
            Node::Text(t) => SpecNode::Text(t@),
            Node::Emit(e) => SpecNode::Emit(e.model()),
            Node::Cond(c, yes, no) => SpecNode::Cond(c.model(), nodes_view(yes@), nodes_view(no@)),
            Node::Loop(var, iter, body) => SpecNode::Loop(var@, iter.model(), nodes_view(body@)),
            Node::Block(name, body) => SpecNode::Block(name@, nodes_view(body@)),
        }
    }
}

/// The model of a template body.
pub open spec fn nodes_view(ns: Seq<Node>) -> Seq<SpecNode>
    decreases ns,
{
    if ns.len() == 0 {
        Seq::empty()
    } else {
        seq![ns[0].model()] + nodes_view(ns.drop_first())
    }
}

/// Each element of the model of a list of nodes is the model of the
/// corresponding node.
pub proof fn lemma_nodes_view_index(ns: Seq<Node>)
    ensures
        nodes_view(ns).len() == ns.len(),
        forall|i: int| 0 <= i < ns.len() ==> #[trigger] nodes_view(ns)[i] == ns[i].model(),
    decreases ns,
{
    if ns.len() > 0 {
        lemma_nodes_view_index(ns.drop_first());
    }
}

/// Each element of the model of a list of expressions is the model of the
/// corresponding expression.
pub proof fn lemma_exprs_view_index(es: Seq<Expr>)
    ensures
        exprs_view(es).len() == es.len(),
        forall|i: int| 0 <= i < es.len() ==> #[trigger] exprs_view(es)[i] == es[i].model(),
    decreases es,
{
    if es.len() > 0 {
        lemma_exprs_view_index(es.drop_first());
    }
}

impl View for Expr {
    type V = SpecExpr;

    open spec fn view(&self) -> SpecExpr {
        self.model()
    }
}

impl View for Node {
    type V = SpecNode;

    open spec fn view(&self) -> SpecNode {
        self.model()
    }
}


/// The spec form of an optional byte vector.
pub open spec fn opt_bytes_view(o: Option<Vec<u8>>) -> Option<Seq<u8>> {
    match o {
        Some(v) => Some(v@),
        None => None,
    }
}

/// Mathematical model of a template.
pub struct SpecTemplate {
    pub name: Seq<u8>,
    pub source: Seq<u8>,
    pub parent: Option<Seq<u8>>,
    pub body: Seq<SpecNode>,
}

/// A parsed template: its registry name, the source it was parsed from,
/// the parent named by a leading `extends` tag if any, and its body.
#[derive(PartialEq, Eq, Debug)]
pub struct Template {
    pub name: Vec<u8>,
    pub source: Vec<u8>,
    pub parent: Option<Vec<u8>>,
    pub body: Vec<Node>,
}

impl Template {
    /// The mathematical model of a template.
    pub open spec fn model(&self) -> SpecTemplate {
        SpecTemplate {
            name: self.name@,
            source: self.source@,
            parent: opt_bytes_view(self.parent),
            body: nodes_view(self.body@),
        }
    }
}


/// Copy a byte vector.
pub fn bytes_copy(a: &Vec<u8>) -> (r: Vec<u8>)
    ensures
        r@ == a@,
{
    let mut out: Vec<u8> = Vec::new();
    for i in 0..a.len()
        invariant
            i <= a@.len(),
            out@ == a@.subrange(0, i as int),
    {
        out.push(a[i]);
        proof {
            assert(out@ =~= a@.subrange(0, i + 1));
        }
    }
    proof {
        assert(out@ =~= a@);
    }
    out
}

/// Copy an expression, preserving its model.
pub fn expr_clone(e: &Expr) -> (r: Expr)
    ensures
        r.model() == e.model(),
    decreases e, 0int, 0int,
{
    match e {
        Expr::IntLit(n) => Expr::IntLit(*n),
        Expr::StrLit(s) => Expr::StrLit(bytes_copy(s)),
        Expr::BoolLit(b) => Expr::BoolLit(*b),
        Expr::Var(p) => {
            let mut segs: Vec<Vec<u8>> = Vec::new();
            for i in 0..p.len()
                invariant
                    *e == Expr::Var(*p),
                    i <= p@.len(),
                    path_view(segs@) == path_view(p@).subrange(0, i as int),
            {
                let c = bytes_copy(&p[i]);
                proof {
                    assert(path_view(segs@).len() == segs@.len());
                    assert(segs@.len() == i as int);
                    let svc = segs@.push(c);
                    assert forall|k2: int| 0 <= k2 < svc.len() implies path_view(svc)[k2]
                        == path_view(p@).subrange(0, i + 1)[k2] by {
                        if k2 < i as int {
                            assert(svc[k2] == segs@[k2]);
                            assert(path_view(segs@)[k2] == segs@[k2]@);
                        } else {
                            assert(svc[k2] == c);
                        }
                    }
                    assert(path_view(svc) =~= path_view(p@).subrange(0, i + 1));
                }
                segs.push(c);
            }
            proof {
                assert(path_view(segs@) =~= path_view(p@));
            }
            Expr::Var(segs)
        },
        Expr::Bin(op, l, rr) => Expr::Bin(*op, Box::new(expr_clone(l)), Box::new(expr_clone(rr))),
        Expr::Filter(name, arg) => Expr::Filter(bytes_copy(name), Box::new(expr_clone(arg))),
        Expr::Call(name, args) => {
            let mut out: Vec<Expr> = Vec::new();
            for i in 0..args.len()
                invariant
                    *e == Expr::Call(*name, *args),
                    i <= args@.len(),
                    exprs_view(out@) == exprs_view(args@).subrange(0, i as int),
            {
                proof {
                    lemma_exprs_view_index(args@);
                    assert(decreases_to!(*e => e->Call_1));
                    assert(decreases_to!(e->Call_1 => args@[i as int]));
                    assert(decreases_to!(*e => args@[i as int]));
                }
                let c = expr_clone(&args[i]);
                proof {
                    lemma_exprs_view_index(out@);
                    lemma_exprs_view_index(out@.push(c));
                    assert(exprs_view(out@.push(c)) =~= exprs_view(args@).subrange(0, i + 1));
                }
                out.push(c);
            }
            proof {
                lemma_exprs_view_index(args@);
                assert(exprs_view(out@) =~= exprs_view(args@));
            }
            Expr::Call(bytes_copy(name), out)
        },
    }
}

/// Copy a list of nodes, preserving its model.
pub fn nodes_clone(ns: &Vec<Node>) -> (r: Vec<Node>)
    ensures
        nodes_view(r@) == nodes_view(ns@),
    decreases ns@, 0int, 1int,
{
    let mut out: Vec<Node> = Vec::new();
    for i in 0..ns.len()
        invariant
            i <= ns@.len(),
            nodes_view(out@) == nodes_view(ns@).subrange(0, i as int),
        decreases ns@.len() - i,
    {
        proof {
            lemma_nodes_view_index(ns@);
            assert(decreases_to!(ns@ => ns@[i as int]));
        }
        let c = node_clone(&ns[i]);
        proof {
            lemma_nodes_view_index(out@);
            lemma_nodes_view_index(out@.push(c));
            assert(nodes_view(out@.push(c)) =~= nodes_view(ns@).subrange(0, i + 1));
        }
        out.push(c);
    }
    proof {
        lemma_nodes_view_index(ns@);
        assert(nodes_view(out@) =~= nodes_view(ns@));
    }
    out
}

/// Copy one node, preserving its model.
pub fn node_clone(n: &Node) -> (r: Node)
    ensures
        r.model() == n.model(),
    decreases n, 0int, 0int,
{
    match n {
        Node::Text(t) => Node::Text(bytes_copy(t)),
        Node::Emit(e) => Node::Emit(expr_clone(e)),
        Node::Cond(c, yes, no) => Node::Cond(expr_clone(c), nodes_clone(yes), nodes_clone(no)),
        Node::Loop(var, iter, body) => Node::Loop(
            bytes_copy(var),
            expr_clone(iter),
            nodes_clone(body),
        ),
        Node::Block(name, body) => Node::Block(bytes_copy(name), nodes_clone(body)),
    }
}

} // verus!
