//! The syntax-tree model that the rewrite engine works on.
//!
//! The engine only ever inspects a small, closed set of expression shapes:
//! calls, array and object literals, conditionals, unary and binary
//! expressions, identifiers, string literals, member accesses and arrow
//! functions.  Every other node kind is carried through untouched as an
//! opaque tag, so a host can map its own richer tree onto this one losslessly
//! and map the result back.
use vstd::prelude::*;

verus! {

broadcast use vstd::std_specs::vec::group_vec_axioms, vstd::seq::group_seq_axioms;

/// Binary operators the matchers care about; every other operator is opaque.
#[derive(Clone, Copy, Debug, PartialEq, Eq, Structural)]
pub enum BinOp {
    /// Strict equality, `===`.
    StrictEq,
    /// Logical or, `||`.
    Or,
    /// Any other binary operator, tagged by the host.
    OpaqueOp(u64),
}

/// Unary operators the matchers care about; every other operator is opaque.
#[derive(Clone, Copy, Debug, PartialEq, Eq, Structural)]
pub enum UnaryOp {
    /// The `typeof` operator.
    TypeOf,
    /// Any other unary operator, tagged by the host.
    OpaqueOp(u64),
}

/// The body of an arrow function: either a single expression, or a block.
/// Blocks are never inspected or rewritten, so they stay opaque.
#[derive(Debug, PartialEq, Eq)]
pub enum ArrowBody {
    ExprBody(Box<Expr>),
    BlockBody(u64),
}

/// A property of an object literal.  Only key-value properties with an
/// identifier or string key are ever inspected.
#[derive(Debug, PartialEq, Eq)]
pub enum Prop {
    KeyValue(PropKey, Expr),
    Opaque(u64),
}

/// The key of a key-value property.
#[derive(Debug, PartialEq, Eq)]
pub enum PropKey {
    Ident(String),
    StrLit(String),
    Opaque(u64),
}

/// An expression.  `Opaque` stands for any node kind the rewrites never
/// inspect; the tag lets a host recover the original node.
#[derive(Debug, PartialEq, Eq)]
pub enum Expr {
    Ident(String),
    StrLit(String),
    /// A member access such as `Foo.Bar`; never inspected inside.
    Member(u64),
    Array(Vec<Expr>),
    Object(Vec<Prop>),
    /// A call: callee and arguments.
    Call(Box<Expr>, Vec<Expr>),
    /// A conditional: test, consequent, alternate.
    Cond(Box<Expr>, Box<Expr>, Box<Expr>),
    Bin(BinOp, Box<Expr>, Box<Expr>),
    Unary(UnaryOp, Box<Expr>),
    /// An arrow function: parameter count and body.
    Arrow(usize, ArrowBody),
    Opaque(u64),
}

/// Mathematical counterpart of `ArrowBody`.
#[verifier::ext_equal]
pub enum ArrowBodyV {
    ExprBody(Box<ExprV>),
    BlockBody(u64),
}

/// Mathematical counterpart of `Prop`.
#[verifier::ext_equal]
pub enum PropV {
    KeyValue(PropKeyV, ExprV),
    Opaque(u64),
}

/// Mathematical counterpart of `PropKey`.
#[verifier::ext_equal]
pub enum PropKeyV {
    Ident(Seq<char>),
    StrLit(Seq<char>),
    Opaque(u64),
}

/// Mathematical counterpart of `Expr`: strings become character sequences
/// and vectors become sequences.  All contracts speak of this type.
#[verifier::ext_equal]
pub enum ExprV {
    Ident(Seq<char>),
    StrLit(Seq<char>),
    Member(u64),
    Array(Seq<ExprV>),
    Object(Seq<PropV>),
    Call(Box<ExprV>, Seq<ExprV>),
    Cond(Box<ExprV>, Box<ExprV>, Box<ExprV>),
    Bin(BinOp, Box<ExprV>, Box<ExprV>),
    Unary(UnaryOp, Box<ExprV>),
    Arrow(usize, ArrowBodyV),
    Opaque(u64),
}

/// The mathematical value of an expression.
pub open spec fn expr_model(e: Expr) -> ExprV
    decreases e,
{
    match e {
        Expr::Ident(s) => ExprV::Ident(s@),
        Expr::StrLit(s) => ExprV::StrLit(s@),
        Expr::Member(t) => ExprV::Member(t),
        Expr::Array(es) => ExprV::Array(exprs_model(es@)),
        Expr::Object(ps) => ExprV::Object(props_model(ps@)),
        Expr::Call(callee, args) => ExprV::Call(Box::new(expr_model(*callee)), exprs_model(args@)),
        Expr::Cond(t, c, a) => ExprV::Cond(
            Box::new(expr_model(*t)),
            Box::new(expr_model(*c)),
            Box::new(expr_model(*a)),
        ),
        Expr::Bin(op, l, r) => ExprV::Bin(op, Box::new(expr_model(*l)), Box::new(expr_model(*r))),
        Expr::Unary(op, a) => ExprV::Unary(op, Box::new(expr_model(*a))),
        Expr::Arrow(params, body) => ExprV::Arrow(params, body_model(body)),
        Expr::Opaque(t) => ExprV::Opaque(t),
    }
}

/// The mathematical value of a list of expressions, element by element.
pub open spec fn exprs_model(es: Seq<Expr>) -> Seq<ExprV>
    decreases es,
{
    Seq::new(
        es.len(),
        |i: int| if 0 <= i < es.len() { expr_model(es[i]) } else { ExprV::Opaque(0) },
    )
}

/// The mathematical value of an arrow-function body.
pub open spec fn body_model(b: ArrowBody) -> ArrowBodyV
    decreases b,
{
    match b {
        ArrowBody::ExprBody(e) => ArrowBodyV::ExprBody(Box::new(expr_model(*e))),
        ArrowBody::BlockBody(t) => ArrowBodyV::BlockBody(t),
    }
}

/// The mathematical value of an object property.
pub open spec fn prop_model(p: Prop) -> PropV
    decreases p,
{
    match p {
        Prop::KeyValue(k, v) => PropV::KeyValue(key_model(k), expr_model(v)),
        Prop::Opaque(t) => PropV::Opaque(t),
    }
}

/// The mathematical value of a property list, element by element.
pub open spec fn props_model(ps: Seq<Prop>) -> Seq<PropV>
    decreases ps,
{
    Seq::new(
        ps.len(),
        |i: int| if 0 <= i < ps.len() { prop_model(ps[i]) } else { PropV::Opaque(0) },
    )
}

/// The model of an expression list has the same length as the list.
pub broadcast proof fn lemma_exprs_model_len(es: Seq<Expr>)
    ensures
        #[trigger] exprs_model(es).len() == es.len(),
{
}

/// The model of an expression list is the model of its elements.
pub broadcast proof fn lemma_exprs_model_index(es: Seq<Expr>, i: int)
    requires
        0 <= i < es.len(),
    ensures
        #[trigger] exprs_model(es)[i] == expr_model(es[i]),
{
}

/// The model of a property list has the same length as the list.
pub broadcast proof fn lemma_props_model_len(ps: Seq<Prop>)
    ensures
        #[trigger] props_model(ps).len() == ps.len(),
{
}

/// The model of a property list is the model of its elements.
pub broadcast proof fn lemma_props_model_index(ps: Seq<Prop>, i: int)
    requires
        0 <= i < ps.len(),
    ensures
        #[trigger] props_model(ps)[i] == prop_model(ps[i]),
{
}

/// The model of an expression has the same variant as the expression.
pub broadcast proof fn lemma_expr_model_variants(e: Expr)
    ensures
        (#[trigger] expr_model(e)) is Ident <==> e is Ident,
        expr_model(e) is StrLit <==> e is StrLit,
        expr_model(e) is Member <==> e is Member,
        expr_model(e) is Array <==> e is Array,
        expr_model(e) is Object <==> e is Object,
        expr_model(e) is Call <==> e is Call,
        expr_model(e) is Cond <==> e is Cond,
        expr_model(e) is Bin <==> e is Bin,
        expr_model(e) is Unary <==> e is Unary,
        expr_model(e) is Arrow <==> e is Arrow,
        expr_model(e) is Opaque <==> e is Opaque,
{
    match e {
        Expr::Ident(_) => {},
        Expr::StrLit(_) => {},
        Expr::Member(_) => {},
        Expr::Array(_) => {},
        Expr::Object(_) => {},
        Expr::Call(_, _) => {},
        Expr::Cond(_, _, _) => {},
        Expr::Bin(_, _, _) => {},
        Expr::Unary(_, _) => {},
        Expr::Arrow(_, _) => {},
        Expr::Opaque(_) => {},
    }
}

/// The model of an arrow body has the same variant as the body.
pub broadcast proof fn lemma_body_model_variants(b: ArrowBody)
    ensures
        (#[trigger] body_model(b)) is ExprBody <==> b is ExprBody,
        body_model(b) is BlockBody <==> b is BlockBody,
{
    match b {
        ArrowBody::ExprBody(_) => {},
        ArrowBody::BlockBody(_) => {},
    }
}

/// All the facts above, for broadcast use.
pub broadcast group group_model_lemmas {
    lemma_exprs_model_len,
    lemma_exprs_model_index,
    lemma_props_model_len,
    lemma_props_model_index,
    lemma_expr_model_variants,
    lemma_body_model_variants,
}

/// The mathematical value of a property key.
pub open spec fn key_model(k: PropKey) -> PropKeyV {
    match k {
        PropKey::Ident(s) => PropKeyV::Ident(s@),
        PropKey::StrLit(s) => PropKeyV::StrLit(s@),
        PropKey::Opaque(t) => PropKeyV::Opaque(t),
    }
}

} // verus!
