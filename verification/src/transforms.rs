//! The rewrite passes over a decorator array: metadata stripping, arrow
//! unwrapping in decorator arguments and `type:` properties, and typeof-guard
//! simplification inside metadata arguments.
use vstd::prelude::*;

use crate::ast::{ArrowBody, ArrowBodyV, Expr, ExprV, Prop, PropKey, PropKeyV, PropV, expr_model,
    exprs_model, prop_model, props_model, key_model};
use crate::detection::{is_simple_body, is_ts_metadata_call, is_typeof_guard_conditional, str_eq,
    spec_is_simple_arrow, spec_is_ts_metadata_call, spec_is_typeof_guard_conditional};

verus! {

broadcast use vstd::std_specs::vec::group_vec_axioms, vstd::seq::group_seq_axioms, crate::ast::group_model_lemmas;

/// The single returned expression of a simple arrow function.
pub open spec fn arrow_expr_body(a: ExprV) -> ExprV {
    *(a->Arrow_1->ExprBody_0)
}

/// An element survives metadata stripping when it is not a metadata call.
pub open spec fn spec_keeps_elem(e: ExprV) -> bool {
    !spec_is_ts_metadata_call(e)
}

/// Metadata stripping: every array element that is itself a call to the
/// type-metadata helper is removed; everything else stays, in order.
pub open spec fn spec_strip_metadata(es: Seq<ExprV>) -> Seq<ExprV> {
    es.filter(|e: ExprV| spec_keeps_elem(e))
}

/// Stripping one more element keeps it exactly when it is not a metadata
/// call.
proof fn lemma_strip_push(es: Seq<ExprV>, x: ExprV)
    ensures
        spec_strip_metadata(es.push(x)) == if spec_keeps_elem(x) {
            spec_strip_metadata(es).push(x)
        } else {
            spec_strip_metadata(es)
        },
{
    reveal(Seq::filter);
    assert(es.push(x).drop_last() =~= es);
}

/// Remove `_ts_metadata(...)` calls from a decorators array.
///
/// Before: `[decorator1, _ts_metadata("design:type", Function), decorator2]`
/// After:  `[decorator1, decorator2]`
#[verifier::loop_isolation(false)]
pub fn strip_metadata_calls(elems: &mut Vec<Expr>)
    ensures
        exprs_model(final(elems)@) == spec_strip_metadata(exprs_model(old(elems)@)),
{
    let ghost orig = elems@;
    let mut out: Vec<Expr> = Vec::new();
    while elems.len() > 0
        invariant
            orig == old(elems)@,
            out@.len() + elems@.len() <= orig.len(),
            elems@ =~= orig.skip(orig.len() - elems@.len()),
            exprs_model(out@) == spec_strip_metadata(
                exprs_model(orig.take(orig.len() - elems@.len())),
            ),
        decreases elems@.len(),
    {
        let ghost k = orig.len() - elems@.len();
        let x = elems.remove(0);
        let keep = !is_ts_metadata_call(&x);
        proof {
            assert(x == orig[k]);
            assert(elems@ =~= orig.skip(k + 1));
            assert(orig.take(k + 1) =~= orig.take(k).push(x));
            assert(exprs_model(orig.take(k).push(x)) =~= exprs_model(orig.take(k)).push(
                expr_model(x),
            ));
            lemma_strip_push(exprs_model(orig.take(k)), expr_model(x));
            if keep {
                assert(exprs_model(out@.push(x)) =~= exprs_model(out@).push(expr_model(x)));
            }
        }
        if keep {
            out.push(x);
        }
    }
    proof {
        assert(orig.take(orig.len() - elems@.len()) =~= orig);
    }
    *elems = out;
}

/// Unwrapping of one call argument: a simple arrow is replaced by its body;
/// anything else is recursively unwrapped.
pub open spec fn spec_unwrap_arg(a: ExprV) -> ExprV
    decreases a, 1int,
{
    if spec_is_simple_arrow(a) {
        arrow_expr_body(a)
    } else {
        spec_unwrap_arrows(a)
    }
}

/// Arrow unwrapping inside a call: every argument is unwrapped; every other
/// expression shape is left untouched.
pub open spec fn spec_unwrap_arrows(e: ExprV) -> ExprV
    decreases e, 0int,
{
    match e {
        ExprV::Call(callee, args) => ExprV::Call(
            callee,
            Seq::new(
                args.len(),
                |i: int| if 0 <= i < args.len() { spec_unwrap_arg(args[i]) } else { e },
            ),
        ),
        _ => e,
    }
}

/// Arrow unwrapping applied to every element of a decorator array.
pub open spec fn spec_unwrap_arrows_elems(es: Seq<ExprV>) -> Seq<ExprV> {
    es.map_values(|e: ExprV| spec_unwrap_arrows(e))
}

/// Unwrap one argument of a call: a no-parameter arrow whose body is a
/// single identifier, member access or array literal is replaced by that
/// body; everything else is recursively unwrapped.
fn unwrap_call_arg(a: Expr) -> (r: Expr)
    ensures
        expr_model(r) == spec_unwrap_arg(expr_model(a)),
    decreases a, 1int,
{
    let ghost a0 = a;
    match a {
        Expr::Arrow(params, body) => match body {
            ArrowBody::ExprBody(b) => {
                proof {
                    assert(a0 == Expr::Arrow(params, ArrowBody::ExprBody(b)));
                    assert(expr_model(a0) == ExprV::Arrow(
                        params,
                        crate::ast::body_model(ArrowBody::ExprBody(b)),
                    ));
                    assert(crate::ast::body_model(ArrowBody::ExprBody(b))
                        == ArrowBodyV::ExprBody(Box::new(expr_model(*b))));
                }
                if params == 0 && is_simple_body(&b) {
                    proof {
                        assert(spec_is_simple_arrow(expr_model(a0)));
                        assert(arrow_expr_body(expr_model(a0)) == expr_model(*b));
                    }
                    *b
                } else {
                    proof {
                        assert(!spec_is_simple_arrow(expr_model(a0)));
                    }
                    Expr::Arrow(params, ArrowBody::ExprBody(b))
                }
            },
            ArrowBody::BlockBody(t) => {
                proof {
                    assert(a0 == Expr::Arrow(params, ArrowBody::BlockBody(t)));
                    assert(expr_model(a0) == ExprV::Arrow(
                        params,
                        crate::ast::body_model(ArrowBody::BlockBody(t)),
                    ));
                    assert(!spec_is_simple_arrow(expr_model(a0)));
                }
                Expr::Arrow(params, ArrowBody::BlockBody(t))
            },
        },
        Expr::Call(callee, args) => unwrap_arrows_in_call_args(Expr::Call(callee, args)),
        Expr::Ident(s) => Expr::Ident(s),
        Expr::StrLit(s) => Expr::StrLit(s),
        Expr::Member(t) => Expr::Member(t),
        Expr::Array(es) => Expr::Array(es),
        Expr::Object(ps) => Expr::Object(ps),
        Expr::Cond(t, c, alt) => Expr::Cond(t, c, alt),
        Expr::Bin(op, l, rr) => Expr::Bin(op, l, rr),
        Expr::Unary(op, arg) => Expr::Unary(op, arg),
        Expr::Opaque(t) => Expr::Opaque(t),
    }
}

/// Recursively unwrap simple arrow-function arguments inside a call
/// expression; inner wrapper calls are unwrapped before outer ones.  On
/// anything that is not a call this is the identity.
#[verifier::loop_isolation(false)]
fn unwrap_arrows_in_call_args(e: Expr) -> (r: Expr)
    ensures
        expr_model(r) == spec_unwrap_arrows(expr_model(e)),
    decreases e, 0int,
{
    let ghost e0 = e;
    match e {
        Expr::Call(callee, args) => {
            let ghost argsvec = args;
            let ghost orig = args@;
            let mut rest = args;
            let mut out: Vec<Expr> = Vec::new();
            while rest.len() > 0
                invariant
                    e0 == Expr::Call(e0->Call_0, argsvec),
                    argsvec@ == orig,
                    out@.len() + rest@.len() == orig.len(),
                    rest@ =~= orig.skip(out@.len() as int),
                    forall|j: int|
                        0 <= j < out@.len() ==> expr_model(#[trigger] out@[j]) == spec_unwrap_arg(
                            expr_model(orig[j]),
                        ),
                decreases rest@.len(),
            {
                let ghost k = out@.len() as int;
                let x = rest.remove(0);
                proof {
                    assert(x == orig[k]);
                    assert(rest@ =~= orig.skip(k + 1));
                    assert(decreases_to!(e0 => e0->Call_1));
                    assert(x == argsvec[k]);
                    assert(decreases_to!(argsvec => argsvec[k]));
                    assert(decreases_to!(e0 => x));
                }
                let y = unwrap_call_arg(x);
                out.push(y);
            }
            let ghost outv = out@;
            let r = Expr::Call(callee, out);
            proof {
                assert(expr_model(r) == ExprV::Call(
                    Box::new(expr_model(*(e0->Call_0))),
                    exprs_model(outv),
                ));
                assert(expr_model(e0) == ExprV::Call(
                    Box::new(expr_model(*(e0->Call_0))),
                    exprs_model(orig),
                ));
                let m1 = expr_model(r)->Call_1;
                let m2 = spec_unwrap_arrows(expr_model(e0))->Call_1;
                assert(m1.len() == outv.len());
                assert(m2.len() == orig.len());
                assert forall|j: int| 0 <= j < m1.len() implies m1[j] == #[trigger] m2[j] by {
                    assert(m1[j] == expr_model(outv[j]));
                    assert(exprs_model(orig)[j] == expr_model(orig[j]));
                }
                assert(m1 =~= m2);
                assert(expr_model(r) =~= spec_unwrap_arrows(expr_model(e0)));
            }
            r
        },
        Expr::Ident(s) => Expr::Ident(s),
        Expr::StrLit(s) => Expr::StrLit(s),
        Expr::Member(t) => Expr::Member(t),
        Expr::Array(es) => Expr::Array(es),
        Expr::Object(ps) => Expr::Object(ps),
        Expr::Cond(t, c, alt) => Expr::Cond(t, c, alt),
        Expr::Bin(op, l, rr) => Expr::Bin(op, l, rr),
        Expr::Unary(op, arg) => Expr::Unary(op, arg),
        Expr::Arrow(params, body) => Expr::Arrow(params, body),
        Expr::Opaque(t) => Expr::Opaque(t),
    }
}

/// Unwrap arrow-function arguments passed directly to decorator calls.
///
/// Before: `(0, _graphql.ResolveField)(() => String)`
/// After:  `(0, _graphql.ResolveField)(String)`
///
/// Also handles nested calls like `_ts_param(0, (0, _graphql.Args)(() => String))`.
#[verifier::loop_isolation(false)]
pub fn unwrap_decorator_arrow_args(elems: &mut Vec<Expr>)
    ensures
        exprs_model(final(elems)@) == spec_unwrap_arrows_elems(exprs_model(old(elems)@)),
{
    let ghost orig = elems@;
    let mut out: Vec<Expr> = Vec::new();
    while elems.len() > 0
        invariant
            orig == old(elems)@,
            out@.len() + elems@.len() == orig.len(),
            elems@ =~= orig.skip(out@.len() as int),
            forall|j: int|
                0 <= j < out@.len() ==> expr_model(#[trigger] out@[j]) == spec_unwrap_arrows(
                    expr_model(orig[j]),
                ),
        decreases elems@.len(),
    {
        let ghost k = out@.len() as int;
        let x = elems.remove(0);
        proof {
            assert(x == orig[k]);
            assert(elems@ =~= orig.skip(k + 1));
        }
        let y = unwrap_arrows_in_call_args(x);
        out.push(y);
    }
    let ghost outv = out@;
    *elems = out;
    proof {
        let m1 = exprs_model(outv);
        let m2 = spec_unwrap_arrows_elems(exprs_model(orig));
        assert forall|j: int| 0 <= j < m1.len() implies m1[j] == #[trigger] m2[j] by {
            assert(m1[j] == expr_model(outv[j]));
            assert(exprs_model(orig)[j] == expr_model(orig[j]));
        }
        assert(m1 =~= m2);
    }
}

/// Whether a property key is literally `type`, as an identifier or a string.
pub open spec fn spec_is_type_key(k: PropKeyV) -> bool {
    ||| (k matches PropKeyV::Ident(s) && s == "type"@)
    ||| (k matches PropKeyV::StrLit(s) && s == "type"@)
}

/// Check if a property key is literally `type`.
fn is_type_key(k: &PropKey) -> (r: bool)
    ensures
        r == spec_is_type_key(key_model(*k)),
{
    match k {
        PropKey::Ident(s) => str_eq(s.as_str(), "type"),
        PropKey::StrLit(s) => str_eq(s.as_str(), "type"),
        _ => false,
    }
}

/// Unwrapping of one object property: the value of a `type` key that is a
/// simple arrow is replaced by the arrow's body; every other property is
/// untouched.
pub open spec fn spec_unwrap_type_prop(p: PropV) -> PropV {
    match p {
        PropV::KeyValue(k, v) => if spec_is_type_key(k) && spec_is_simple_arrow(v) {
            PropV::KeyValue(k, arrow_expr_body(v))
        } else {
            p
        },
        _ => p,
    }
}

/// Arrow unwrapping for `type:` properties: calls are descended into
/// argument by argument; at every object literal, each `type` key-value
/// property gets the unwrap treatment.  Everything else is untouched.
pub open spec fn spec_unwrap_type_props(e: ExprV) -> ExprV
    decreases e,
{
    match e {
        ExprV::Call(callee, args) => ExprV::Call(
            callee,
            Seq::new(
                args.len(),
                |i: int| if 0 <= i < args.len() { spec_unwrap_type_props(args[i]) } else { e },
            ),
        ),
        ExprV::Object(props) => ExprV::Object(
            props.map_values(|p: PropV| spec_unwrap_type_prop(p)),
        ),
        _ => e,
    }
}

/// Type-property unwrapping applied to every element of a decorator array.
pub open spec fn spec_unwrap_type_props_elems(es: Seq<ExprV>) -> Seq<ExprV> {
    es.map_values(|e: ExprV| spec_unwrap_type_props(e))
}

fn unwrap_type_prop(p: Prop) -> (r: Prop)
    ensures
        prop_model(r) == spec_unwrap_type_prop(prop_model(p)),
{
    let ghost p0 = p;
    match p {
        Prop::KeyValue(k, v) => {
            if is_type_key(&k) {
                let ghost v0 = v;
                match v {
                    Expr::Arrow(params, body) => match body {
                        ArrowBody::ExprBody(b) => {
                            proof {
                                assert(v0 == Expr::Arrow(params, ArrowBody::ExprBody(b)));
                                assert(expr_model(v0) == ExprV::Arrow(
                                    params,
                                    crate::ast::body_model(ArrowBody::ExprBody(b)),
                                ));
                                assert(crate::ast::body_model(ArrowBody::ExprBody(b))
                                    == ArrowBodyV::ExprBody(Box::new(expr_model(*b))));
                            }
                            if params == 0 && is_simple_body(&b) {
                                proof {
                                    assert(spec_is_simple_arrow(expr_model(v0)));
                                    assert(arrow_expr_body(expr_model(v0)) == expr_model(*b));
                                }
                                Prop::KeyValue(k, *b)
                            } else {
                                proof {
                                    assert(!spec_is_simple_arrow(expr_model(v0)));
                                }
                                Prop::KeyValue(k, Expr::Arrow(params, ArrowBody::ExprBody(b)))
                            }
                        },
                        ArrowBody::BlockBody(t) => {
                            proof {
                                assert(v0 == Expr::Arrow(params, ArrowBody::BlockBody(t)));
                                assert(expr_model(v0) == ExprV::Arrow(
                                    params,
                                    crate::ast::body_model(ArrowBody::BlockBody(t)),
                                ));
                                assert(!spec_is_simple_arrow(expr_model(v0)));
                            }
                            Prop::KeyValue(k, Expr::Arrow(params, ArrowBody::BlockBody(t)))
                        },
                    },
                    other => {
                        proof {
                            assert(!spec_is_simple_arrow(expr_model(v0)));
                        }
                        Prop::KeyValue(k, other)
                    },
                }
            } else {
                Prop::KeyValue(k, v)
            }
        },
        Prop::Opaque(t) => Prop::Opaque(t),
    }
}

/// Recursively unwrap `type:` arrow properties inside the arguments of a
/// call expression; at every object literal reached this way, each `type`
/// key-value property whose value is a simple arrow is unwrapped.
#[verifier::loop_isolation(false)]
fn unwrap_type_props_in_expr(e: Expr) -> (r: Expr)
    ensures
        expr_model(r) == spec_unwrap_type_props(expr_model(e)),
    decreases e,
{
    let ghost e0 = e;
    match e {
        Expr::Call(callee, args) => {
            let ghost argsvec = args;
            let ghost orig = args@;
            let mut rest = args;
            let mut out: Vec<Expr> = Vec::new();
            while rest.len() > 0
                invariant
                    e0 == Expr::Call(e0->Call_0, argsvec),
                    argsvec@ == orig,
                    out@.len() + rest@.len() == orig.len(),
                    rest@ =~= orig.skip(out@.len() as int),
                    forall|j: int|
                        0 <= j < out@.len() ==> expr_model(#[trigger] out@[j])
                            == spec_unwrap_type_props(expr_model(orig[j])),
                decreases rest@.len(),
            {
                let ghost k = out@.len() as int;
                let x = rest.remove(0);
                proof {
                    assert(x == orig[k]);
                    assert(rest@ =~= orig.skip(k + 1));
                    assert(decreases_to!(e0 => e0->Call_1));
                    assert(decreases_to!(argsvec => argsvec[k]));
                }
                let y = unwrap_type_props_in_expr(x);
                out.push(y);
            }
            let ghost outv = out@;
            let r = Expr::Call(callee, out);
            proof {
                assert(expr_model(r) == ExprV::Call(
                    Box::new(expr_model(*(e0->Call_0))),
                    exprs_model(outv),
                ));
                assert(expr_model(e0) == ExprV::Call(
                    Box::new(expr_model(*(e0->Call_0))),
                    exprs_model(orig),
                ));
                let m1 = expr_model(r)->Call_1;
                let m2 = spec_unwrap_type_props(expr_model(e0))->Call_1;
                assert(m1.len() == outv.len());
                assert(m2.len() == orig.len());
                assert forall|j: int| 0 <= j < m1.len() implies m1[j] == #[trigger] m2[j] by {
                    assert(m1[j] == expr_model(outv[j]));
                    assert(exprs_model(orig)[j] == expr_model(orig[j]));
                }
                assert(m1 =~= m2);
                assert(expr_model(r) =~= spec_unwrap_type_props(expr_model(e0)));
            }
            r
        },
        Expr::Object(props) => {
            let ghost propsvec = props;
            let ghost orig = props@;
            let mut rest = props;
            let mut out: Vec<Prop> = Vec::new();
            while rest.len() > 0
                invariant
                    e0 == Expr::Object(propsvec),
                    propsvec@ == orig,
                    out@.len() + rest@.len() == orig.len(),
                    rest@ =~= orig.skip(out@.len() as int),
                    forall|j: int|
                        0 <= j < out@.len() ==> prop_model(#[trigger] out@[j])
                            == spec_unwrap_type_prop(prop_model(orig[j])),
                decreases rest@.len(),
            {
                let ghost k = out@.len() as int;
                let x = rest.remove(0);
                proof {
                    assert(x == orig[k]);
                    assert(rest@ =~= orig.skip(k + 1));
                }
                let y = unwrap_type_prop(x);
                out.push(y);
            }
            let ghost outv = out@;
            let r = Expr::Object(out);
            proof {
                assert(expr_model(r) == ExprV::Object(props_model(outv)));
                assert(expr_model(e0) == ExprV::Object(props_model(orig)));
                let m1 = expr_model(r)->Object_0;
                let m2 = spec_unwrap_type_props(expr_model(e0))->Object_0;
                assert(m1.len() == outv.len());
                assert(m2.len() == orig.len());
                assert forall|j: int| 0 <= j < m1.len() implies m1[j] == #[trigger] m2[j] by {
                    assert(m1[j] == prop_model(outv[j]));
                    assert(props_model(orig)[j] == prop_model(orig[j]));
                }
                assert(m1 =~= m2);
                assert(expr_model(r) =~= spec_unwrap_type_props(expr_model(e0)));
            }
            r
        },
        Expr::Ident(s) => Expr::Ident(s),
        Expr::StrLit(s) => Expr::StrLit(s),
        Expr::Member(t) => Expr::Member(t),
        Expr::Array(es) => Expr::Array(es),
        Expr::Cond(t, c, alt) => Expr::Cond(t, c, alt),
        Expr::Bin(op, l, rr) => Expr::Bin(op, l, rr),
        Expr::Unary(op, arg) => Expr::Unary(op, arg),
        Expr::Arrow(params, body) => Expr::Arrow(params, body),
        Expr::Opaque(t) => Expr::Opaque(t),
    }
}

/// Unwrap arrow functions in `type:` key-value properties within decorator
/// option objects.
///
/// Before: `_ts_param(0, (0, _graphql.Args)('id', { type: () => String }))`
/// After:  `_ts_param(0, (0, _graphql.Args)('id', { type: String }))`
#[verifier::loop_isolation(false)]
pub fn unwrap_type_arrow_props(elems: &mut Vec<Expr>)
    ensures
        exprs_model(final(elems)@) == spec_unwrap_type_props_elems(exprs_model(old(elems)@)),
{
    let ghost orig = elems@;
    let mut out: Vec<Expr> = Vec::new();
    while elems.len() > 0
        invariant
            orig == old(elems)@,
            out@.len() + elems@.len() == orig.len(),
            elems@ =~= orig.skip(out@.len() as int),
            forall|j: int|
                0 <= j < out@.len() ==> expr_model(#[trigger] out@[j]) == spec_unwrap_type_props(
                    expr_model(orig[j]),
                ),
        decreases elems@.len(),
    {
        let ghost k = out@.len() as int;
        let x = elems.remove(0);
        proof {
            assert(x == orig[k]);
            assert(elems@ =~= orig.skip(k + 1));
        }
        let y = unwrap_type_props_in_expr(x);
        out.push(y);
    }
    let ghost outv = out@;
    *elems = out;
    proof {
        let m1 = exprs_model(outv);
        let m2 = spec_unwrap_type_props_elems(exprs_model(orig));
        assert forall|j: int| 0 <= j < m1.len() implies m1[j] == #[trigger] m2[j] by {
            assert(m1[j] == expr_model(outv[j]));
            assert(exprs_model(orig)[j] == expr_model(orig[j]));
        }
        assert(m1 =~= m2);
    }
}

/// Typeof-guard simplification: a typeof-guard conditional collapses to the
/// bare identifier `Object`; array literals are walked element by element;
/// everything else is untouched.
pub open spec fn spec_simplify_typeofs(e: ExprV) -> ExprV
    decreases e,
{
    if spec_is_typeof_guard_conditional(e) {
        ExprV::Ident("Object"@)
    } else {
        match e {
            ExprV::Array(es) => ExprV::Array(
                Seq::new(
                    es.len(),
                    |i: int| if 0 <= i < es.len() { spec_simplify_typeofs(es[i]) } else { e },
                ),
            ),
            _ => e,
        }
    }
}

/// Replace typeof-guard conditionals with `Object` inside an expression,
/// walking through nested array literals.
#[verifier::loop_isolation(false)]
fn simplify_typeofs_in_expr(e: Expr) -> (r: Expr)
    ensures
        expr_model(r) == spec_simplify_typeofs(expr_model(e)),
    decreases e,
{
    let ghost e0 = e;
    if is_typeof_guard_conditional(&e) {
        let obj = new_object_ident();
        proof {
            assert(expr_model(obj) =~= spec_simplify_typeofs(expr_model(e0)));
        }
        return obj;
    }
    match e {
        Expr::Array(es) => {
            let ghost esvec = es;
            let ghost orig = es@;
            let mut rest = es;
            let mut out: Vec<Expr> = Vec::new();
            while rest.len() > 0
                invariant
                    e0 == Expr::Array(esvec),
                    !spec_is_typeof_guard_conditional(expr_model(e0)),
                    esvec@ == orig,
                    out@.len() + rest@.len() == orig.len(),
                    rest@ =~= orig.skip(out@.len() as int),
                    forall|j: int|
                        0 <= j < out@.len() ==> expr_model(#[trigger] out@[j])
                            == spec_simplify_typeofs(expr_model(orig[j])),
                decreases rest@.len(),
            {
                let ghost k = out@.len() as int;
                let x = rest.remove(0);
                proof {
                    assert(x == orig[k]);
                    assert(rest@ =~= orig.skip(k + 1));
                    assert(decreases_to!(e0 => e0->Array_0));
                    assert(decreases_to!(esvec => esvec[k]));
                }
                let y = simplify_typeofs_in_expr(x);
                out.push(y);
            }
            let ghost outv = out@;
            let r = Expr::Array(out);
            proof {
                assert(expr_model(r) == ExprV::Array(exprs_model(outv)));
                assert(expr_model(e0) == ExprV::Array(exprs_model(orig)));
                let m1 = expr_model(r)->Array_0;
                let m2 = spec_simplify_typeofs(expr_model(e0))->Array_0;
                assert(m1.len() == outv.len());
                assert(m2.len() == orig.len());
                assert forall|j: int| 0 <= j < m1.len() implies m1[j] == #[trigger] m2[j] by {
                    assert(m1[j] == expr_model(outv[j]));
                    assert(exprs_model(orig)[j] == expr_model(orig[j]));
                }
                assert(m1 =~= m2);
                assert(expr_model(r) =~= spec_simplify_typeofs(expr_model(e0)));
            }
            r
        },
        Expr::Ident(s) => Expr::Ident(s),
        Expr::StrLit(s) => Expr::StrLit(s),
        Expr::Member(t) => Expr::Member(t),
        Expr::Object(ps) => Expr::Object(ps),
        Expr::Call(callee, args) => Expr::Call(callee, args),
        Expr::Cond(t, c, alt) => Expr::Cond(t, c, alt),
        Expr::Bin(op, l, rr) => Expr::Bin(op, l, rr),
        Expr::Unary(op, arg) => Expr::Unary(op, arg),
        Expr::Arrow(params, body) => Expr::Arrow(params, body),
        Expr::Opaque(t) => Expr::Opaque(t),
    }
}

/// A fresh `Object` identifier, the reflection-safe catch-all that a
/// collapsed typeof guard leaves behind.
fn new_object_ident() -> (r: Expr)
    ensures
        expr_model(r) == ExprV::Ident("Object"@),
{
    Expr::Ident(object_name())
}

/// The one identifier the rewrites ever introduce.
fn object_name() -> (r: String)
    ensures
        r@ == "Object"@,
{
    let s = "Object";
    s.to_owned()
}

/// Whether the call's first argument is the given string literal.
pub open spec fn spec_metadata_key_is(e: ExprV, key: Seq<char>) -> bool {
    &&& e matches ExprV::Call(_, args)
    &&& args.len() > 0
    &&& args[0] matches ExprV::StrLit(s)
    &&& s == key
}

/// Check if a call's first argument is the given string literal.
fn metadata_key_equals(e: &Expr, key: &str) -> (r: bool)
    ensures
        r == spec_metadata_key_is(expr_model(*e), key@),
{
    match e {
        Expr::Call(c, args) => {
            proof {
                assert(expr_model(*e) == ExprV::Call(
                    Box::new(expr_model(**c)),
                    exprs_model(args@),
                ));
            }
            if args.len() == 0 {
                false
            } else {
                proof {
                    assert(exprs_model(args@)[0] == expr_model(args@[0]));
                }
                match &args[0] {
                    Expr::StrLit(s) => str_eq(s.as_str(), key),
                    _ => false,
                }
            }
        },
        _ => false,
    }
}

/// Typeof-guard simplification of one array element: in a metadata call
/// whose key is `key`, every argument after the key is simplified; any other
/// element is untouched.
pub open spec fn spec_simp_meta_elem(e: ExprV, key: Seq<char>) -> ExprV {
    if spec_is_ts_metadata_call(e) && spec_metadata_key_is(e, key) {
        match e {
            ExprV::Call(callee, args) => ExprV::Call(
                callee,
                Seq::new(
                    args.len(),
                    |i: int| if i == 0 { args[0] } else { spec_simplify_typeofs(args[i]) },
                ),
            ),
            _ => e,
        }
    } else {
        e
    }
}

/// Typeof-guard simplification applied to every element of a decorator
/// array, scoped to metadata calls with the given key.
pub open spec fn spec_simp_meta(es: Seq<ExprV>, key: Seq<char>) -> Seq<ExprV> {
    es.map_values(|e: ExprV| spec_simp_meta_elem(e, key))
}

#[verifier::loop_isolation(false)]
fn simp_meta_elem(e: Expr, key: &str) -> (r: Expr)
    ensures
        expr_model(r) == spec_simp_meta_elem(expr_model(e), key@),
{
    let ghost e0 = e;
    let relevant = is_ts_metadata_call(&e) && metadata_key_equals(&e, key);
    if !relevant {
        return e;
    }
    match e {
        Expr::Call(callee, args) => {
            let ghost argsvec = args;
            let ghost orig = args@;
            let mut rest = args;
            let mut out: Vec<Expr> = Vec::new();
            while rest.len() > 0
                invariant
                    e0 == Expr::Call(e0->Call_0, argsvec),
                    argsvec@ == orig,
                    out@.len() + rest@.len() == orig.len(),
                    rest@ =~= orig.skip(out@.len() as int),
                    forall|j: int|
                        1 <= j < out@.len() ==> expr_model(#[trigger] out@[j])
                            == spec_simplify_typeofs(expr_model(orig[j])),
                    out@.len() > 0 ==> out@[0] == orig[0],
                decreases rest@.len(),
            {
                let ghost k = out@.len() as int;
                let x = rest.remove(0);
                proof {
                    assert(x == orig[k]);
                    assert(rest@ =~= orig.skip(k + 1));
                }
                if out.len() == 0 {
                    out.push(x);
                } else {
                    let y = simplify_typeofs_in_expr(x);
                    out.push(y);
                }
            }
            let ghost outv = out@;
            let r = Expr::Call(callee, out);
            proof {
                assert(expr_model(r) == ExprV::Call(
                    Box::new(expr_model(*(e0->Call_0))),
                    exprs_model(outv),
                ));
                assert(expr_model(e0) == ExprV::Call(
                    Box::new(expr_model(*(e0->Call_0))),
                    exprs_model(orig),
                ));
                let m1 = expr_model(r)->Call_1;
                let m2 = spec_simp_meta_elem(expr_model(e0), key@)->Call_1;
                assert(m1.len() == outv.len());
                assert(m2.len() == orig.len());
                assert forall|j: int| 0 <= j < m1.len() implies m1[j] == #[trigger] m2[j] by {
                    assert(m1[j] == expr_model(outv[j]));
                    assert(exprs_model(orig)[j] == expr_model(orig[j]));
                }
                assert(m1 =~= m2);
                assert(expr_model(r) =~= spec_simp_meta_elem(expr_model(e0), key@));
            }
            r
        },
        other => other,
    }
}

/// Simplify typeof guards inside the arguments of metadata calls whose key
/// is `key`, for every element of a decorator array.
#[verifier::loop_isolation(false)]
fn simplify_typeof_guards_for_metadata(elems: &mut Vec<Expr>, key: &str)
    ensures
        exprs_model(final(elems)@) == spec_simp_meta(exprs_model(old(elems)@), key@),
{
    let ghost orig = elems@;
    let mut out: Vec<Expr> = Vec::new();
    while elems.len() > 0
        invariant
            orig == old(elems)@,
            out@.len() + elems@.len() == orig.len(),
            elems@ =~= orig.skip(out@.len() as int),
            forall|j: int|
                0 <= j < out@.len() ==> expr_model(#[trigger] out@[j]) == spec_simp_meta_elem(
                    expr_model(orig[j]),
                    key@,
                ),
        decreases elems@.len(),
    {
        let ghost k = out@.len() as int;
        let x = elems.remove(0);
        proof {
            assert(x == orig[k]);
            assert(elems@ =~= orig.skip(k + 1));
        }
        let y = simp_meta_elem(x, key);
        out.push(y);
    }
    let ghost outv = out@;
    *elems = out;
    proof {
        let m1 = exprs_model(outv);
        let m2 = spec_simp_meta(exprs_model(orig), key@);
        assert forall|j: int| 0 <= j < m1.len() implies m1[j] == #[trigger] m2[j] by {
            assert(m1[j] == expr_model(outv[j]));
            assert(exprs_model(orig)[j] == expr_model(orig[j]));
        }
        assert(m1 =~= m2);
    }
}

/// Simplify typeof-guard conditionals inside
/// `_ts_metadata("design:paramtypes", ...)` arguments.
///
/// Before: `_ts_metadata("design:paramtypes", [typeof X === "undefined" ? Object : X])`
/// After:  `_ts_metadata("design:paramtypes", [Object])`
pub fn simplify_metadata_typeof_guards(elems: &mut Vec<Expr>)
    ensures
        exprs_model(final(elems)@) == spec_simp_meta(
            exprs_model(old(elems)@),
            "design:paramtypes"@,
        ),
{
    simplify_typeof_guards_for_metadata(elems, "design:paramtypes");
}

/// Simplify typeof-guard conditionals inside `_ts_metadata("design:type", ...)`
/// arguments.  Opt-in: design-type metadata may carry member-expression types
/// that schema-inference tooling reads, so this pass is gated separately.
///
/// Before: `_ts_metadata("design:type", typeof m === "undefined" || ... ? Object : m.Types.ObjectId)`
/// After:  `_ts_metadata("design:type", Object)`
pub fn simplify_design_type_typeof_guards(elems: &mut Vec<Expr>)
    ensures
        exprs_model(final(elems)@) == spec_simp_meta(exprs_model(old(elems)@), "design:type"@),
{
    simplify_typeof_guards_for_metadata(elems, "design:type");
}

} // verus!
