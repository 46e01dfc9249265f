//! A size measure on the tree model.  The tree rewriter recurses into the
//! output of the rewrite pipeline, which is not a structural subterm of its
//! input, so both its termination and the idempotence law rest on the fact
//! that no pass ever grows a tree.
use vstd::prelude::*;

use crate::ast::{ArrowBodyV, ExprV, PropV};
use crate::detection::{spec_is_simple_arrow, spec_is_ts_metadata_call,
    spec_is_typeof_guard_conditional};
use crate::transforms::{spec_keeps_elem, spec_metadata_key_is, spec_simp_meta,
    spec_simp_meta_elem, spec_simplify_typeofs, spec_strip_metadata, spec_unwrap_arg,
    spec_unwrap_arrows, spec_unwrap_arrows_elems, spec_unwrap_type_prop, spec_unwrap_type_props,
    spec_unwrap_type_props_elems};

verus! {

broadcast use vstd::std_specs::vec::group_vec_axioms, vstd::seq::group_seq_axioms;

/// The number of nodes in an expression.
pub open spec fn expr_size(e: ExprV) -> nat
    decreases e,
{
    match e {
        ExprV::Ident(_) => 1,
        ExprV::StrLit(_) => 1,
        ExprV::Member(_) => 1,
        ExprV::Array(es) => 1 + exprs_size(es),
        ExprV::Object(ps) => 1 + props_size(ps),
        ExprV::Call(callee, args) => 1 + expr_size(*callee) + exprs_size(args),
        ExprV::Cond(t, c, a) => 1 + expr_size(*t) + expr_size(*c) + expr_size(*a),
        ExprV::Bin(_, l, r) => 1 + expr_size(*l) + expr_size(*r),
        ExprV::Unary(_, a) => 1 + expr_size(*a),
        ExprV::Arrow(_, body) => 1 + body_size(body),
        ExprV::Opaque(_) => 1,
    }
}

/// The number of nodes in a list of expressions.
pub open spec fn exprs_size(es: Seq<ExprV>) -> nat
    decreases es,
{
    if es.len() == 0 {
        0
    } else {
        exprs_size(es.drop_last()) + expr_size(es.last())
    }
}

/// The number of nodes in an arrow body.
pub open spec fn body_size(b: ArrowBodyV) -> nat
    decreases b,
{
    match b {
        ArrowBodyV::ExprBody(e) => 1 + expr_size(*e),
        ArrowBodyV::BlockBody(_) => 1,
    }
}

/// The number of nodes in an object property.
pub open spec fn prop_size(p: PropV) -> nat
    decreases p,
{
    match p {
        PropV::KeyValue(_, v) => 1 + expr_size(v),
        PropV::Opaque(_) => 1,
    }
}

/// The number of nodes in a property list.
pub open spec fn props_size(ps: Seq<PropV>) -> nat
    decreases ps,
{
    if ps.len() == 0 {
        0
    } else {
        props_size(ps.drop_last()) + prop_size(ps.last())
    }
}

/// Appending one expression adds its size.
pub proof fn lemma_exprs_size_push(es: Seq<ExprV>, x: ExprV)
    ensures
        exprs_size(es.push(x)) == exprs_size(es) + expr_size(x),
{
    assert(es.push(x).drop_last() =~= es);
}

/// Every element weighs no more than its list.
pub proof fn lemma_exprs_size_index(es: Seq<ExprV>, i: int)
    requires
        0 <= i < es.len(),
    ensures
        expr_size(es[i]) <= exprs_size(es),
    decreases es.len(),
{
    if i < es.len() - 1 {
        assert(es.drop_last()[i] == es[i]);
        lemma_exprs_size_index(es.drop_last(), i);
    }
}

/// A pointwise bound on elements bounds the lists.
pub proof fn lemma_exprs_size_pointwise(a: Seq<ExprV>, b: Seq<ExprV>)
    requires
        a.len() == b.len(),
        forall|i: int| 0 <= i < a.len() ==> expr_size(#[trigger] a[i]) <= expr_size(b[i]),
    ensures
        exprs_size(a) <= exprs_size(b),
    decreases a.len(),
{
    if a.len() > 0 {
        assert(forall|i: int|
            0 <= i < a.drop_last().len() ==> expr_size(#[trigger] a.drop_last()[i]) <= expr_size(
                b.drop_last()[i],
            ));
        lemma_exprs_size_pointwise(a.drop_last(), b.drop_last());
    }
}

/// Every property weighs no more than its list.
pub proof fn lemma_props_size_index(ps: Seq<PropV>, i: int)
    requires
        0 <= i < ps.len(),
    ensures
        prop_size(ps[i]) <= props_size(ps),
    decreases ps.len(),
{
    if i < ps.len() - 1 {
        assert(ps.drop_last()[i] == ps[i]);
        lemma_props_size_index(ps.drop_last(), i);
    }
}

/// A pointwise bound on properties bounds the lists.
pub proof fn lemma_props_size_pointwise(a: Seq<PropV>, b: Seq<PropV>)
    requires
        a.len() == b.len(),
        forall|i: int| 0 <= i < a.len() ==> prop_size(#[trigger] a[i]) <= prop_size(b[i]),
    ensures
        props_size(a) <= props_size(b),
    decreases a.len(),
{
    if a.len() > 0 {
        assert(forall|i: int|
            0 <= i < a.drop_last().len() ==> prop_size(#[trigger] a.drop_last()[i]) <= prop_size(
                b.drop_last()[i],
            ));
        lemma_props_size_pointwise(a.drop_last(), b.drop_last());
    }
}

/// Argument unwrapping never grows an argument.
pub proof fn lemma_unwrap_arg_size(a: ExprV)
    ensures
        expr_size(spec_unwrap_arg(a)) <= expr_size(a),
    decreases a, 1int,
{
    if spec_is_simple_arrow(a) {
        assert(expr_size(a) == 1 + body_size(a->Arrow_1));
        assert(body_size(a->Arrow_1) == 1 + expr_size(*(a->Arrow_1->ExprBody_0)));
    } else {
        lemma_unwrap_size(a);
    }
}

/// Arrow unwrapping never grows a call.
pub proof fn lemma_unwrap_size(e: ExprV)
    ensures
        expr_size(spec_unwrap_arrows(e)) <= expr_size(e),
    decreases e, 0int,
{
    if e is Call {
        let args = e->Call_1;
        let out = spec_unwrap_arrows(e)->Call_1;
        assert forall|i: int| 0 <= i < out.len() implies expr_size(#[trigger] out[i]) <= expr_size(
            args[i],
        ) by {
            assert(decreases_to!(e => args));
            assert(decreases_to!(args => args[i]));
            lemma_unwrap_arg_size(args[i]);
        }
        lemma_exprs_size_pointwise(out, args);
    }
}

/// Type-property unwrapping never grows a property.
pub proof fn lemma_type_prop_size(p: PropV)
    ensures
        prop_size(spec_unwrap_type_prop(p)) <= prop_size(p),
{
}

/// Type-property unwrapping never grows an expression.
pub proof fn lemma_type_size(e: ExprV)
    ensures
        expr_size(spec_unwrap_type_props(e)) <= expr_size(e),
    decreases e,
{
    if e is Call {
        let args = e->Call_1;
        let out = spec_unwrap_type_props(e)->Call_1;
        assert forall|i: int| 0 <= i < out.len() implies expr_size(#[trigger] out[i]) <= expr_size(
            args[i],
        ) by {
            assert(decreases_to!(e => args));
            assert(decreases_to!(args => args[i]));
            lemma_type_size(args[i]);
        }
        lemma_exprs_size_pointwise(out, args);
    } else if e is Object {
        let props = e->Object_0;
        let out = spec_unwrap_type_props(e)->Object_0;
        assert forall|i: int| 0 <= i < out.len() implies prop_size(#[trigger] out[i]) <= prop_size(
            props[i],
        ) by {
            lemma_type_prop_size(props[i]);
        }
        lemma_props_size_pointwise(out, props);
    }
}

/// Typeof simplification never grows an expression.
pub proof fn lemma_simp_size(x: ExprV)
    ensures
        expr_size(spec_simplify_typeofs(x)) <= expr_size(x),
    decreases x,
{
    if spec_is_typeof_guard_conditional(x) {
    } else if x is Array {
        let es = x->Array_0;
        let out = spec_simplify_typeofs(x)->Array_0;
        assert forall|i: int| 0 <= i < out.len() implies expr_size(#[trigger] out[i]) <= expr_size(
            es[i],
        ) by {
            assert(decreases_to!(x => es));
            assert(decreases_to!(es => es[i]));
            lemma_simp_size(es[i]);
        }
        lemma_exprs_size_pointwise(out, es);
    }
}

/// Typeof simplification of a metadata element never grows it.
pub proof fn lemma_simp_meta_elem_size(e: ExprV, key: Seq<char>)
    ensures
        expr_size(spec_simp_meta_elem(e, key)) <= expr_size(e),
{
    if spec_is_ts_metadata_call(e) && spec_metadata_key_is(e, key) {
        let args = e->Call_1;
        let out = spec_simp_meta_elem(e, key)->Call_1;
        assert forall|i: int| 0 <= i < out.len() implies expr_size(#[trigger] out[i]) <= expr_size(
            args[i],
        ) by {
            if i > 0 {
                lemma_simp_size(args[i]);
            }
        }
        lemma_exprs_size_pointwise(out, args);
    }
}

/// Metadata stripping never grows a decorator array.
pub proof fn lemma_strip_size(es: Seq<ExprV>)
    ensures
        exprs_size(spec_strip_metadata(es)) <= exprs_size(es),
    decreases es.len(),
{
    reveal(Seq::filter);
    if es.len() > 0 {
        lemma_strip_size(es.drop_last());
        if spec_keeps_elem(es.last()) {
            lemma_exprs_size_push(spec_strip_metadata(es.drop_last()), es.last());
        }
    }
}

/// The whole pipeline never grows a decorator array.
pub proof fn lemma_pipeline_size(es: Seq<ExprV>, c: crate::config::Config)
    ensures
        exprs_size(crate::rewrite::spec_pipeline(es, c)) <= exprs_size(es),
{
    let s1 = if crate::rewrite::strip_metadata_enabled(c) {
        spec_strip_metadata(es)
    } else {
        es
    };
    let s2 = if crate::rewrite::unwrap_decorator_arrows_enabled(c) {
        spec_unwrap_arrows_elems(s1)
    } else {
        s1
    };
    let s3 = if crate::rewrite::unwrap_type_arrows_enabled(c) {
        spec_unwrap_type_props_elems(s2)
    } else {
        s2
    };
    let s4 = if crate::rewrite::simplify_metadata_typeofs_enabled(c) {
        spec_simp_meta(s3, "design:paramtypes"@)
    } else {
        s3
    };
    lemma_strip_size(es);
    assert forall|i: int| 0 <= i < s1.len() implies expr_size(
        #[trigger] spec_unwrap_arrows_elems(s1)[i],
    ) <= expr_size(s1[i]) by {
        lemma_unwrap_size(s1[i]);
    }
    lemma_exprs_size_pointwise(spec_unwrap_arrows_elems(s1), s1);
    assert forall|i: int| 0 <= i < s2.len() implies expr_size(
        #[trigger] spec_unwrap_type_props_elems(s2)[i],
    ) <= expr_size(s2[i]) by {
        lemma_type_size(s2[i]);
    }
    lemma_exprs_size_pointwise(spec_unwrap_type_props_elems(s2), s2);
    assert forall|i: int| 0 <= i < s3.len() implies expr_size(
        #[trigger] spec_simp_meta(s3, "design:paramtypes"@)[i],
    ) <= expr_size(s3[i]) by {
        lemma_simp_meta_elem_size(s3[i], "design:paramtypes"@);
    }
    lemma_exprs_size_pointwise(spec_simp_meta(s3, "design:paramtypes"@), s3);
    assert forall|i: int| 0 <= i < s4.len() implies expr_size(
        #[trigger] spec_simp_meta(s4, "design:type"@)[i],
    ) <= expr_size(s4[i]) by {
        lemma_simp_meta_elem_size(s4[i], "design:type"@);
    }
    lemma_exprs_size_pointwise(spec_simp_meta(s4, "design:type"@), s4);
}

} // verus!
