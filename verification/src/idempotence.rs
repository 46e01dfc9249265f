//! Idempotence of the rewriter: running the enabled passes twice over a
//! decorator array, or the whole tree rewrite twice over a tree, changes
//! nothing the second time.  Every pass's predicate requires the original,
//! unrewritten shape to trigger, and neither the passes nor the traversal
//! re-create a shape that an earlier step rewrites.
use vstd::prelude::*;

use crate::ast::{ArrowBodyV, ExprV, PropV};
use crate::config::Config;
use crate::detection::{spec_is_simple_arrow, spec_is_ts_metadata_call,
    spec_is_typeof_guard_conditional};
use crate::detection::{spec_is_ts_decorate_call, spec_is_typeof_undefined_check};
use crate::measure::{expr_size, exprs_size, lemma_exprs_size_index, lemma_props_size_index,
    prop_size, props_size};
use crate::rewrite::{lemma_piped_args_size, simplify_design_type_typeofs_enabled,
    simplify_metadata_typeofs_enabled, spec_pipeline, spec_piped_args, spec_rewrite,
    spec_rewrite_elems, spec_rewrite_prop, spec_rewrite_props, strip_metadata_enabled,
    unwrap_decorator_arrows_enabled, unwrap_type_arrows_enabled};
use crate::transforms::{arrow_expr_body, spec_is_type_key, spec_keeps_elem, spec_metadata_key_is, spec_simp_meta,
    spec_simp_meta_elem, spec_simplify_typeofs, spec_strip_metadata, spec_unwrap_arg,
    spec_unwrap_arrows, spec_unwrap_arrows_elems, spec_unwrap_type_prop, spec_unwrap_type_props,
    spec_unwrap_type_props_elems};

verus! {

broadcast use vstd::std_specs::vec::group_vec_axioms, vstd::seq::group_seq_axioms;

// ---------------------------------------------------------------------------
// Heads: no pass changes what an element's callee or metadata key look like.
// ---------------------------------------------------------------------------

/// Argument unwrapping keeps an argument's string-literal shape and value.
proof fn lemma_unwrap_arg_keeps_strlit(a: ExprV)
    ensures
        spec_unwrap_arg(a) is StrLit <==> a is StrLit,
        a is StrLit ==> spec_unwrap_arg(a) == a,
{
}

/// Argument unwrapping keeps whether an element is a metadata call, and
/// which key it carries.
proof fn lemma_unwrap_keeps_head(e: ExprV, key: Seq<char>)
    ensures
        spec_is_ts_metadata_call(spec_unwrap_arrows(e)) == spec_is_ts_metadata_call(e),
        spec_metadata_key_is(spec_unwrap_arrows(e), key) == spec_metadata_key_is(e, key),
{
    if e is Call {
        let args = e->Call_1;
        if args.len() > 0 {
            lemma_unwrap_arg_keeps_strlit(args[0]);
        }
    }
}

/// Type-property unwrapping keeps an argument's string-literal shape and
/// value.
proof fn lemma_type_keeps_strlit(a: ExprV)
    ensures
        spec_unwrap_type_props(a) is StrLit <==> a is StrLit,
        a is StrLit ==> spec_unwrap_type_props(a) == a,
{
}

/// Type-property unwrapping keeps whether an element is a metadata call, and
/// which key it carries.
proof fn lemma_type_keeps_head(e: ExprV, key: Seq<char>)
    ensures
        spec_is_ts_metadata_call(spec_unwrap_type_props(e)) == spec_is_ts_metadata_call(e),
        spec_metadata_key_is(spec_unwrap_type_props(e), key) == spec_metadata_key_is(e, key),
{
    if e is Call {
        let args = e->Call_1;
        if args.len() > 0 {
            lemma_type_keeps_strlit(args[0]);
        }
    }
}

/// Typeof simplification of a metadata element keeps the callee and the key
/// argument of every element.
proof fn lemma_simp_meta_keeps_head(e: ExprV, key: Seq<char>, target: Seq<char>)
    ensures
        spec_is_ts_metadata_call(spec_simp_meta_elem(e, target)) == spec_is_ts_metadata_call(e),
        spec_metadata_key_is(spec_simp_meta_elem(e, target), key) == spec_metadata_key_is(e, key),
{
}

// ---------------------------------------------------------------------------
// Stripping: a list without metadata calls is already stripped.
// ---------------------------------------------------------------------------

/// Stripping a list in which every element is kept changes nothing.
proof fn lemma_strip_of_kept_is_identity(es: Seq<ExprV>)
    requires
        forall|i: int| 0 <= i < es.len() ==> spec_keeps_elem(#[trigger] es[i]),
    ensures
        spec_strip_metadata(es) == es,
    decreases es.len(),
{
    reveal(Seq::filter);
    if es.len() > 0 {
        lemma_strip_of_kept_is_identity(es.drop_last());
        assert(spec_keeps_elem(es.last()));
        assert(es.drop_last().push(es.last()) =~= es);
    }
}

/// A stripped list holds no metadata call.
proof fn lemma_strip_leaves_no_metadata(es: Seq<ExprV>)
    ensures
        forall|i: int|
            0 <= i < spec_strip_metadata(es).len() ==> spec_keeps_elem(
                #[trigger] spec_strip_metadata(es)[i],
            ),
{
    broadcast use vstd::seq_lib::group_seq_lib_default;

    assert forall|i: int| 0 <= i < spec_strip_metadata(es).len() implies spec_keeps_elem(
        #[trigger] spec_strip_metadata(es)[i],
    ) by {
        es.lemma_filter_pred(|e: ExprV| spec_keeps_elem(e), i);
    }
}

// ---------------------------------------------------------------------------
// Argument unwrapping is idempotent.
// ---------------------------------------------------------------------------

/// Unwrapping an already unwrapped argument changes nothing.
proof fn lemma_unwrap_arg_idempotent(a: ExprV)
    ensures
        spec_unwrap_arg(spec_unwrap_arg(a)) == spec_unwrap_arg(a),
    decreases a, 1int,
{
    if spec_is_simple_arrow(a) {
        // The body of a simple arrow is an identifier, member access or
        // array literal: not an arrow, not a call.
    } else {
        if a is Call {
            lemma_unwrap_arrows_idempotent(a);
        }
    }
}

/// Unwrapping an already unwrapped call changes nothing.
proof fn lemma_unwrap_arrows_idempotent(e: ExprV)
    ensures
        spec_unwrap_arrows(spec_unwrap_arrows(e)) == spec_unwrap_arrows(e),
    decreases e, 0int,
{
    if e is Call {
        let args = e->Call_1;
        let once = spec_unwrap_arrows(e);
        let twice = spec_unwrap_arrows(once);
        assert forall|i: int| 0 <= i < args.len() implies #[trigger] twice->Call_1[i]
            == once->Call_1[i] by {
            assert(decreases_to!(e => args));
            assert(decreases_to!(args => args[i]));
            lemma_unwrap_arg_idempotent(args[i]);
        }
        assert(twice->Call_1 =~= once->Call_1);
        assert(twice =~= once);
    }
}

// ---------------------------------------------------------------------------
// Type-property unwrapping is idempotent.
// ---------------------------------------------------------------------------

/// Unwrapping an already unwrapped type property changes nothing.
proof fn lemma_type_prop_idempotent(p: crate::ast::PropV)
    ensures
        spec_unwrap_type_prop(spec_unwrap_type_prop(p)) == spec_unwrap_type_prop(p),
{
}

/// Unwrapping type properties twice changes nothing the second time.
proof fn lemma_type_idempotent(e: ExprV)
    ensures
        spec_unwrap_type_props(spec_unwrap_type_props(e)) == spec_unwrap_type_props(e),
    decreases e,
{
    let once = spec_unwrap_type_props(e);
    let twice = spec_unwrap_type_props(once);
    if e is Call {
        let args = e->Call_1;
        assert forall|i: int| 0 <= i < args.len() implies #[trigger] twice->Call_1[i]
            == once->Call_1[i] by {
            assert(decreases_to!(e => args));
            assert(decreases_to!(args => args[i]));
            lemma_type_idempotent(args[i]);
        }
        assert(twice->Call_1 =~= once->Call_1);
        assert(twice =~= once);
    } else if e is Object {
        let props = e->Object_0;
        assert forall|i: int| 0 <= i < props.len() implies #[trigger] twice->Object_0[i]
            == once->Object_0[i] by {
            lemma_type_prop_idempotent(props[i]);
        }
        assert(twice->Object_0 =~= once->Object_0);
        assert(twice =~= once);
    }
}

// ---------------------------------------------------------------------------
// Typeof simplification is idempotent.
// ---------------------------------------------------------------------------

/// Simplifying an already simplified expression changes nothing.
proof fn lemma_simp_idempotent(x: ExprV)
    ensures
        spec_simplify_typeofs(spec_simplify_typeofs(x)) == spec_simplify_typeofs(x),
    decreases x,
{
    if spec_is_typeof_guard_conditional(x) {
        // The replacement is a bare identifier: neither a conditional nor an
        // array.
    } else if x is Array {
        let es = x->Array_0;
        let once = spec_simplify_typeofs(x);
        let twice = spec_simplify_typeofs(once);
        assert forall|i: int| 0 <= i < es.len() implies #[trigger] twice->Array_0[i]
            == once->Array_0[i] by {
            assert(decreases_to!(x => es));
            assert(decreases_to!(es => es[i]));
            lemma_simp_idempotent(es[i]);
        }
        assert(twice->Array_0 =~= once->Array_0);
        assert(twice =~= once);
    }
}

/// Simplifying a metadata element twice for the same key changes nothing
/// the second time.
proof fn lemma_simp_meta_elem_idempotent(e: ExprV, key: Seq<char>)
    ensures
        spec_simp_meta_elem(spec_simp_meta_elem(e, key), key) == spec_simp_meta_elem(e, key),
{
    if spec_is_ts_metadata_call(e) && spec_metadata_key_is(e, key) {
        let args = e->Call_1;
        let once = spec_simp_meta_elem(e, key);
        let twice = spec_simp_meta_elem(once, key);
        assert forall|i: int| 0 <= i < args.len() implies #[trigger] twice->Call_1[i]
            == once->Call_1[i] by {
            if i > 0 {
                lemma_simp_idempotent(args[i]);
            }
        }
        assert(twice->Call_1 =~= once->Call_1);
        assert(twice =~= once);
    }
}

// ---------------------------------------------------------------------------
// No later pass re-creates a shape that an earlier pass rewrites: each
// pass's fixed points are preserved by the passes that follow it.
// ---------------------------------------------------------------------------

/// A call whose arguments are all unwrapped stays unwrapped under
/// type-property unwrapping: that pass never puts a simple arrow into a
/// call-argument position.
proof fn lemma_unwrap_fixed_after_type(e: ExprV)
    requires
        spec_unwrap_arrows(e) == e,
    ensures
        spec_unwrap_arrows(spec_unwrap_type_props(e)) == spec_unwrap_type_props(e),
    decreases e,
{
    let te = spec_unwrap_type_props(e);
    if e is Call {
        let args = e->Call_1;
        assert forall|i: int| 0 <= i < args.len() implies spec_unwrap_arg(
            #[trigger] te->Call_1[i],
        ) == te->Call_1[i] by {
            assert(spec_unwrap_arg(args[i]) == args[i]);
            let ti = spec_unwrap_type_props(args[i]);
            assert(te->Call_1[i] == ti);
            if args[i] is Call {
                assert(spec_unwrap_arrows(args[i]) == args[i]);
                assert(decreases_to!(e => args));
                assert(decreases_to!(args => args[i]));
                lemma_unwrap_fixed_after_type(args[i]);
                assert(ti is Call);
                assert(!spec_is_simple_arrow(ti));
            } else if args[i] is Object {
                assert(ti is Object);
            } else {
                assert(ti == args[i]);
            }
        }
        assert(spec_unwrap_arrows(te)->Call_1 =~= te->Call_1);
        assert(spec_unwrap_arrows(te) =~= te);
    } else if e is Object {
        assert(te is Object);
    } else {
        assert(te == e);
    }
}

/// A call whose arguments are all unwrapped stays unwrapped under typeof
/// simplification: that pass only puts identifiers and array literals into
/// argument positions.
proof fn lemma_unwrap_fixed_after_simp_meta(e: ExprV, key: Seq<char>)
    requires
        spec_unwrap_arrows(e) == e,
    ensures
        spec_unwrap_arrows(spec_simp_meta_elem(e, key)) == spec_simp_meta_elem(e, key),
{
    let m = spec_simp_meta_elem(e, key);
    if spec_is_ts_metadata_call(e) && spec_metadata_key_is(e, key) {
        let args = e->Call_1;
        assert forall|i: int| 0 <= i < args.len() implies spec_unwrap_arg(
            #[trigger] m->Call_1[i],
        ) == m->Call_1[i] by {
            assert(spec_unwrap_arg(args[i]) == args[i]);
            if i > 0 {
                let si = spec_simplify_typeofs(args[i]);
                assert(m->Call_1[i] == si);
                if spec_is_typeof_guard_conditional(args[i]) {
                    assert(si is Ident);
                } else if args[i] is Array {
                    assert(si is Array);
                } else {
                    assert(si == args[i]);
                }
            }
        }
        assert(spec_unwrap_arrows(m)->Call_1 =~= m->Call_1);
        assert(spec_unwrap_arrows(m) =~= m);
    }
}

/// A tree whose type properties are all unwrapped stays that way under
/// typeof simplification: that pass never descends into objects and never
/// creates one.
proof fn lemma_type_fixed_after_simp_meta(e: ExprV, key: Seq<char>)
    requires
        spec_unwrap_type_props(e) == e,
    ensures
        spec_unwrap_type_props(spec_simp_meta_elem(e, key)) == spec_simp_meta_elem(e, key),
{
    let m = spec_simp_meta_elem(e, key);
    if spec_is_ts_metadata_call(e) && spec_metadata_key_is(e, key) {
        let args = e->Call_1;
        assert forall|i: int| 0 <= i < args.len() implies spec_unwrap_type_props(
            #[trigger] m->Call_1[i],
        ) == m->Call_1[i] by {
            assert(spec_unwrap_type_props(args[i]) == args[i]);
            if i > 0 {
                let si = spec_simplify_typeofs(args[i]);
                assert(m->Call_1[i] == si);
                if spec_is_typeof_guard_conditional(args[i]) {
                    assert(si is Ident);
                } else if args[i] is Array {
                    assert(si is Array);
                    assert(spec_unwrap_type_props(si) == si);
                } else {
                    assert(si == args[i]);
                }
            }
        }
        assert(spec_unwrap_type_props(m)->Call_1 =~= m->Call_1);
        assert(spec_unwrap_type_props(m) =~= m);
    }
}

/// An element already simplified for one key stays that way under
/// simplification for a different key: the two passes look at disjoint
/// elements.
proof fn lemma_simp_meta_fixed_after_other_key(e: ExprV, key: Seq<char>, other: Seq<char>)
    requires
        key != other,
        spec_simp_meta_elem(e, key) == e,
    ensures
        spec_simp_meta_elem(spec_simp_meta_elem(e, other), key) == spec_simp_meta_elem(e, other),
{
    let m = spec_simp_meta_elem(e, other);
    lemma_simp_meta_keeps_head(e, key, other);
    if spec_is_ts_metadata_call(e) && spec_metadata_key_is(e, other) {
        assert(!spec_metadata_key_is(e, key));
        assert(!spec_metadata_key_is(m, key));
    }
}

// ---------------------------------------------------------------------------
// The same facts lifted to whole decorator arrays.
// ---------------------------------------------------------------------------

/// No element of the list is a metadata call.
pub open spec fn no_metadata_calls(es: Seq<ExprV>) -> bool {
    forall|i: int| 0 <= i < es.len() ==> spec_keeps_elem(#[trigger] es[i])
}

proof fn lemma_no_metadata_after_unwrap(es: Seq<ExprV>)
    requires
        no_metadata_calls(es),
    ensures
        no_metadata_calls(spec_unwrap_arrows_elems(es)),
{
    let us = spec_unwrap_arrows_elems(es);
    assert forall|i: int| 0 <= i < us.len() implies spec_keeps_elem(#[trigger] us[i]) by {
        lemma_unwrap_keeps_head(es[i], Seq::empty());
    }
}

proof fn lemma_no_metadata_after_type(es: Seq<ExprV>)
    requires
        no_metadata_calls(es),
    ensures
        no_metadata_calls(spec_unwrap_type_props_elems(es)),
{
    let ts = spec_unwrap_type_props_elems(es);
    assert forall|i: int| 0 <= i < ts.len() implies spec_keeps_elem(#[trigger] ts[i]) by {
        lemma_type_keeps_head(es[i], Seq::empty());
    }
}

proof fn lemma_no_metadata_after_simp_meta(es: Seq<ExprV>, key: Seq<char>)
    requires
        no_metadata_calls(es),
    ensures
        no_metadata_calls(spec_simp_meta(es, key)),
{
    let ms = spec_simp_meta(es, key);
    assert forall|i: int| 0 <= i < ms.len() implies spec_keeps_elem(#[trigger] ms[i]) by {
        lemma_simp_meta_keeps_head(es[i], Seq::empty(), key);
    }
}

proof fn lemma_unwrap_elems_idempotent(es: Seq<ExprV>)
    ensures
        spec_unwrap_arrows_elems(spec_unwrap_arrows_elems(es)) == spec_unwrap_arrows_elems(es),
{
    let once = spec_unwrap_arrows_elems(es);
    let twice = spec_unwrap_arrows_elems(once);
    assert forall|i: int| 0 <= i < es.len() implies #[trigger] twice[i] == once[i] by {
        lemma_unwrap_arrows_idempotent(es[i]);
    }
    assert(twice =~= once);
}

proof fn lemma_unwrap_elems_fixed_after_type(es: Seq<ExprV>)
    requires
        spec_unwrap_arrows_elems(es) == es,
    ensures
        spec_unwrap_arrows_elems(spec_unwrap_type_props_elems(es)) == spec_unwrap_type_props_elems(
            es,
        ),
{
    let ts = spec_unwrap_type_props_elems(es);
    let uts = spec_unwrap_arrows_elems(ts);
    assert forall|i: int| 0 <= i < ts.len() implies #[trigger] uts[i] == ts[i] by {
        assert(spec_unwrap_arrows_elems(es)[i] == spec_unwrap_arrows(es[i]));
        lemma_unwrap_fixed_after_type(es[i]);
    }
    assert(uts =~= ts);
}

proof fn lemma_unwrap_elems_fixed_after_simp_meta(es: Seq<ExprV>, key: Seq<char>)
    requires
        spec_unwrap_arrows_elems(es) == es,
    ensures
        spec_unwrap_arrows_elems(spec_simp_meta(es, key)) == spec_simp_meta(es, key),
{
    let ms = spec_simp_meta(es, key);
    let ums = spec_unwrap_arrows_elems(ms);
    assert forall|i: int| 0 <= i < ms.len() implies #[trigger] ums[i] == ms[i] by {
        assert(spec_unwrap_arrows_elems(es)[i] == spec_unwrap_arrows(es[i]));
        lemma_unwrap_fixed_after_simp_meta(es[i], key);
    }
    assert(ums =~= ms);
}

proof fn lemma_type_elems_idempotent(es: Seq<ExprV>)
    ensures
        spec_unwrap_type_props_elems(spec_unwrap_type_props_elems(es))
            == spec_unwrap_type_props_elems(es),
{
    let once = spec_unwrap_type_props_elems(es);
    let twice = spec_unwrap_type_props_elems(once);
    assert forall|i: int| 0 <= i < es.len() implies #[trigger] twice[i] == once[i] by {
        lemma_type_idempotent(es[i]);
    }
    assert(twice =~= once);
}

proof fn lemma_type_elems_fixed_after_simp_meta(es: Seq<ExprV>, key: Seq<char>)
    requires
        spec_unwrap_type_props_elems(es) == es,
    ensures
        spec_unwrap_type_props_elems(spec_simp_meta(es, key)) == spec_simp_meta(es, key),
{
    let ms = spec_simp_meta(es, key);
    let tms = spec_unwrap_type_props_elems(ms);
    assert forall|i: int| 0 <= i < ms.len() implies #[trigger] tms[i] == ms[i] by {
        assert(spec_unwrap_type_props_elems(es)[i] == spec_unwrap_type_props(es[i]));
        lemma_type_fixed_after_simp_meta(es[i], key);
    }
    assert(tms =~= ms);
}

proof fn lemma_simp_meta_idempotent(es: Seq<ExprV>, key: Seq<char>)
    ensures
        spec_simp_meta(spec_simp_meta(es, key), key) == spec_simp_meta(es, key),
{
    let once = spec_simp_meta(es, key);
    let twice = spec_simp_meta(once, key);
    assert forall|i: int| 0 <= i < es.len() implies #[trigger] twice[i] == once[i] by {
        lemma_simp_meta_elem_idempotent(es[i], key);
    }
    assert(twice =~= once);
}

proof fn lemma_simp_meta_fixed_after_other(es: Seq<ExprV>, key: Seq<char>, other: Seq<char>)
    requires
        key != other,
        spec_simp_meta(es, key) == es,
    ensures
        spec_simp_meta(spec_simp_meta(es, other), key) == spec_simp_meta(es, other),
{
    let ms = spec_simp_meta(es, other);
    let kms = spec_simp_meta(ms, key);
    assert forall|i: int| 0 <= i < ms.len() implies #[trigger] kms[i] == ms[i] by {
        assert(spec_simp_meta(es, key)[i] == spec_simp_meta_elem(es[i], key));
        lemma_simp_meta_fixed_after_other_key(es[i], key, other);
    }
    assert(kms =~= ms);
}

// ---------------------------------------------------------------------------
// The laws themselves.
// ---------------------------------------------------------------------------

/// Every enabled pass is at a fixed point on this decorator array.
pub open spec fn pipeline_fixed(es: Seq<ExprV>, c: Config) -> bool {
    &&& (strip_metadata_enabled(c) ==> no_metadata_calls(es))
    &&& (unwrap_decorator_arrows_enabled(c) ==> spec_unwrap_arrows_elems(es) == es)
    &&& (unwrap_type_arrows_enabled(c) ==> spec_unwrap_type_props_elems(es) == es)
    &&& (simplify_metadata_typeofs_enabled(c) ==> spec_simp_meta(es, "design:paramtypes"@) == es)
    &&& (simplify_design_type_typeofs_enabled(c) ==> spec_simp_meta(es, "design:type"@) == es)
}

/// The pipeline's output is a fixed point of every enabled pass: each pass
/// leaves its own output alone, and no later pass re-creates a shape that an
/// earlier one rewrites.
pub proof fn lemma_pipeline_output_fixed(es: Seq<ExprV>, c: Config)
    ensures
        pipeline_fixed(spec_pipeline(es, c), c),
{
    let pk = "design:paramtypes"@;
    let dk = "design:type"@;
    let s1 = if strip_metadata_enabled(c) {
        spec_strip_metadata(es)
    } else {
        es
    };
    let s2 = if unwrap_decorator_arrows_enabled(c) {
        spec_unwrap_arrows_elems(s1)
    } else {
        s1
    };
    let s3 = if unwrap_type_arrows_enabled(c) {
        spec_unwrap_type_props_elems(s2)
    } else {
        s2
    };
    let s4 = if simplify_metadata_typeofs_enabled(c) {
        spec_simp_meta(s3, pk)
    } else {
        s3
    };
    let l = if simplify_design_type_typeofs_enabled(c) {
        spec_simp_meta(s4, dk)
    } else {
        s4
    };
    assert(l == spec_pipeline(es, c));

    if strip_metadata_enabled(c) {
        lemma_strip_leaves_no_metadata(es);
        assert(no_metadata_calls(s1));
        if unwrap_decorator_arrows_enabled(c) {
            lemma_no_metadata_after_unwrap(s1);
        }
        assert(no_metadata_calls(s2));
        if unwrap_type_arrows_enabled(c) {
            lemma_no_metadata_after_type(s2);
        }
        assert(no_metadata_calls(s3));
        if simplify_metadata_typeofs_enabled(c) {
            lemma_no_metadata_after_simp_meta(s3, pk);
        }
        assert(no_metadata_calls(s4));
        if simplify_design_type_typeofs_enabled(c) {
            lemma_no_metadata_after_simp_meta(s4, dk);
        }
        assert(no_metadata_calls(l));
    }
    if unwrap_decorator_arrows_enabled(c) {
        lemma_unwrap_elems_idempotent(s1);
        assert(spec_unwrap_arrows_elems(s2) == s2);
        if unwrap_type_arrows_enabled(c) {
            lemma_unwrap_elems_fixed_after_type(s2);
        }
        assert(spec_unwrap_arrows_elems(s3) == s3);
        if simplify_metadata_typeofs_enabled(c) {
            lemma_unwrap_elems_fixed_after_simp_meta(s3, pk);
        }
        assert(spec_unwrap_arrows_elems(s4) == s4);
        if simplify_design_type_typeofs_enabled(c) {
            lemma_unwrap_elems_fixed_after_simp_meta(s4, dk);
        }
        assert(spec_unwrap_arrows_elems(l) == l);
    }
    if unwrap_type_arrows_enabled(c) {
        lemma_type_elems_idempotent(s2);
        assert(spec_unwrap_type_props_elems(s3) == s3);
        if simplify_metadata_typeofs_enabled(c) {
            lemma_type_elems_fixed_after_simp_meta(s3, pk);
        }
        assert(spec_unwrap_type_props_elems(s4) == s4);
        if simplify_design_type_typeofs_enabled(c) {
            lemma_type_elems_fixed_after_simp_meta(s4, dk);
        }
        assert(spec_unwrap_type_props_elems(l) == l);
    }
    if simplify_metadata_typeofs_enabled(c) {
        lemma_simp_meta_idempotent(s3, pk);
        assert(spec_simp_meta(s4, pk) == s4);
        if simplify_design_type_typeofs_enabled(c) {
            crate::laws::lemma_metadata_keys_distinct();
            lemma_simp_meta_fixed_after_other(s4, pk, dk);
        }
        assert(spec_simp_meta(l, pk) == l);
    }
    if simplify_design_type_typeofs_enabled(c) {
        lemma_simp_meta_idempotent(s4, dk);
        assert(spec_simp_meta(l, dk) == l);
    }
}

/// The pipeline leaves a decorator array alone when every enabled pass is at
/// a fixed point on it.
pub proof fn lemma_pipeline_of_fixed_is_identity(es: Seq<ExprV>, c: Config)
    requires
        pipeline_fixed(es, c),
    ensures
        spec_pipeline(es, c) == es,
{
    let r1 = if strip_metadata_enabled(c) {
        spec_strip_metadata(es)
    } else {
        es
    };
    if strip_metadata_enabled(c) {
        lemma_strip_of_kept_is_identity(es);
    }
    assert(r1 == es);
    let r2 = if unwrap_decorator_arrows_enabled(c) {
        spec_unwrap_arrows_elems(r1)
    } else {
        r1
    };
    assert(r2 == es);
    let r3 = if unwrap_type_arrows_enabled(c) {
        spec_unwrap_type_props_elems(r2)
    } else {
        r2
    };
    assert(r3 == es);
    let r4 = if simplify_metadata_typeofs_enabled(c) {
        spec_simp_meta(r3, "design:paramtypes"@)
    } else {
        r3
    };
    assert(r4 == es);
    let r5 = if simplify_design_type_typeofs_enabled(c) {
        spec_simp_meta(r4, "design:type"@)
    } else {
        r4
    };
    assert(r5 == es);
    assert(spec_pipeline(es, c) == r5);
}

/// Idempotence of the rewrite pipeline: for any decorator array and any
/// configuration, running the enabled passes a second time over the result
/// of the first run changes nothing.  Every pass's predicate requires the
/// original, unrewritten shape to trigger, and no pass re-creates a shape
/// that an earlier pass rewrites.
pub proof fn lemma_pipeline_idempotent(es: Seq<ExprV>, c: Config)
    ensures
        spec_pipeline(spec_pipeline(es, c), c) == spec_pipeline(es, c),
{
    lemma_pipeline_output_fixed(es, c);
    lemma_pipeline_of_fixed_is_identity(spec_pipeline(es, c), c);
}

// ---------------------------------------------------------------------------
// The tree rewrite keeps every shape the passes' predicates look at.
// ---------------------------------------------------------------------------

/// The tree rewrite keeps a node's kind; it leaves identifiers, string
/// literals, member accesses and opaque nodes untouched; and it keeps
/// whether a node is a simple arrow, a metadata call, a decorator-application
/// call, or a metadata call with a given key.
proof fn lemma_rewrite_keeps_shape(x: ExprV, c: Config, key: Seq<char>)
    ensures
        spec_rewrite(x, c) is Ident <==> x is Ident,
        spec_rewrite(x, c) is StrLit <==> x is StrLit,
        spec_rewrite(x, c) is Member <==> x is Member,
        spec_rewrite(x, c) is Array <==> x is Array,
        spec_rewrite(x, c) is Object <==> x is Object,
        spec_rewrite(x, c) is Call <==> x is Call,
        spec_rewrite(x, c) is Cond <==> x is Cond,
        spec_rewrite(x, c) is Bin <==> x is Bin,
        spec_rewrite(x, c) is Unary <==> x is Unary,
        spec_rewrite(x, c) is Arrow <==> x is Arrow,
        spec_rewrite(x, c) is Opaque <==> x is Opaque,
        x is Ident ==> spec_rewrite(x, c) == x,
        x is StrLit ==> spec_rewrite(x, c) == x,
        x is Member ==> spec_rewrite(x, c) == x,
        x is Opaque ==> spec_rewrite(x, c) == x,
        spec_is_simple_arrow(spec_rewrite(x, c)) == spec_is_simple_arrow(x),
        spec_is_ts_metadata_call(spec_rewrite(x, c)) == spec_is_ts_metadata_call(x),
        spec_is_ts_decorate_call(spec_rewrite(x, c)) == spec_is_ts_decorate_call(x),
        spec_metadata_key_is(spec_rewrite(x, c), key) == spec_metadata_key_is(x, key),
    decreases x,
{
    broadcast use crate::rewrite::group_rewrite_lemmas;

    match x {
        ExprV::Call(callee, args) => {
            lemma_rewrite_keeps_shape(*callee, c, key);
            let piped = spec_piped_args(x, c);
            let out = spec_rewrite(x, c)->Call_1;
            assert(out == spec_rewrite_elems(piped, c));
            assert(piped.len() == args.len());
            if args.len() > 0 {
                assert(out[0] == spec_rewrite(piped[0], c));
                if spec_is_ts_decorate_call(x) && args[0] is Array {
                    assert(piped[0] is Array);
                    assert(spec_rewrite(piped[0], c) is Array);
                } else {
                    assert(piped[0] == args[0]);
                    assert(decreases_to!(x => args));
                    assert(decreases_to!(args => args[0]));
                    lemma_rewrite_keeps_shape(args[0], c, key);
                }
            }
        },
        ExprV::Arrow(params, body) => {
            match body {
                ArrowBodyV::ExprBody(b) => {
                    lemma_rewrite_keeps_shape(*b, c, key);
                },
                ArrowBodyV::BlockBody(_) => {},
            }
        },
        _ => {},
    }
}

/// The tree rewrite keeps whether an expression is a `typeof ... ===
/// "undefined"` check, or a chain of such checks joined by logical-OR.
proof fn lemma_rewrite_keeps_chain(x: ExprV, c: Config)
    ensures
        spec_is_typeof_undefined_check(spec_rewrite(x, c)) == spec_is_typeof_undefined_check(x),
        crate::detection::spec_is_typeof_or_chain(spec_rewrite(x, c))
            == crate::detection::spec_is_typeof_or_chain(x),
    decreases x,
{
    match x {
        ExprV::Bin(op, l, r) => {
            lemma_rewrite_keeps_shape(*l, c, Seq::empty());
            lemma_rewrite_keeps_shape(*r, c, Seq::empty());
            lemma_rewrite_keeps_chain(*l, c);
            lemma_rewrite_keeps_chain(*r, c);
        },
        _ => {
            lemma_rewrite_keeps_shape(x, c, Seq::empty());
        },
    }
}

/// The tree rewrite keeps whether an expression is a typeof-guard
/// conditional.
proof fn lemma_rewrite_keeps_guard(x: ExprV, c: Config)
    ensures
        spec_is_typeof_guard_conditional(spec_rewrite(x, c)) == spec_is_typeof_guard_conditional(
            x,
        ),
    decreases x,
{
    match x {
        ExprV::Cond(t, cs, a) => {
            lemma_rewrite_keeps_chain(*t, c);
            lemma_rewrite_keeps_shape(*cs, c, Seq::empty());
        },
        _ => {
            lemma_rewrite_keeps_shape(x, c, Seq::empty());
        },
    }
}

// ---------------------------------------------------------------------------
// The tree rewrite keeps every pass's fixed points: rewriting the children
// of an already pipelined decorator array cannot wake any pass up again.
// ---------------------------------------------------------------------------

/// An expression whose reachable call arguments hold no simple arrow stays
/// that way under the tree rewrite.
proof fn lemma_unwrap_fixed_after_rewrite(x: ExprV, c: Config)
    requires
        spec_unwrap_arrows(x) == x,
    ensures
        spec_unwrap_arrows(spec_rewrite(x, c)) == spec_rewrite(x, c),
    decreases x,
{
    broadcast use crate::rewrite::group_rewrite_lemmas;

    let rx = spec_rewrite(x, c);
    lemma_rewrite_keeps_shape(x, c, Seq::empty());
    if x is Call {
        let args = x->Call_1;
        let piped = spec_piped_args(x, c);
        let out = rx->Call_1;
        assert(out == spec_rewrite_elems(piped, c));
        assert forall|i: int| 0 <= i < out.len() implies spec_unwrap_arg(#[trigger] out[i])
            == out[i] by {
            assert(spec_unwrap_arg(args[i]) == args[i]);
            assert(out[i] == spec_rewrite(piped[i], c));
            if spec_is_ts_decorate_call(x) && args.len() > 0 && args[0] is Array && i == 0 {
                assert(piped[0] is Array);
                assert(out[0] is Array);
                assert(!spec_is_simple_arrow(out[0]));
            } else {
                assert(piped[i] == args[i]);
                assert(decreases_to!(x => args));
                assert(decreases_to!(args => args[i]));
                lemma_rewrite_keeps_shape(args[i], c, Seq::empty());
                if spec_is_simple_arrow(args[i]) {
                    assert(spec_unwrap_arg(args[i]) == arrow_expr_body(args[i]));
                    assert(!(arrow_expr_body(args[i]) is Arrow));
                    assert(false);
                }
                assert(spec_unwrap_arrows(args[i]) == args[i]);
                if args[i] is Call {
                    lemma_unwrap_fixed_after_rewrite(args[i], c);
                }
            }
        }
        assert(spec_unwrap_arrows(rx)->Call_1 =~= out);
        assert(spec_unwrap_arrows(rx) =~= rx);
    }
}

/// An expression whose reachable `type` properties hold no simple arrow
/// stays that way under the tree rewrite.
proof fn lemma_type_fixed_after_rewrite(x: ExprV, c: Config)
    requires
        spec_unwrap_type_props(x) == x,
    ensures
        spec_unwrap_type_props(spec_rewrite(x, c)) == spec_rewrite(x, c),
    decreases x,
{
    broadcast use crate::rewrite::group_rewrite_lemmas;

    let rx = spec_rewrite(x, c);
    lemma_rewrite_keeps_shape(x, c, Seq::empty());
    if x is Call {
        let args = x->Call_1;
        let piped = spec_piped_args(x, c);
        let out = rx->Call_1;
        assert(out == spec_rewrite_elems(piped, c));
        assert forall|i: int| 0 <= i < out.len() implies spec_unwrap_type_props(
            #[trigger] out[i],
        ) == out[i] by {
            assert(spec_unwrap_type_props(args[i]) == args[i]);
            assert(out[i] == spec_rewrite(piped[i], c));
            if spec_is_ts_decorate_call(x) && args.len() > 0 && args[0] is Array && i == 0 {
                assert(piped[0] is Array);
                assert(out[0] is Array);
            } else {
                assert(piped[i] == args[i]);
                assert(decreases_to!(x => args));
                assert(decreases_to!(args => args[i]));
                lemma_type_fixed_after_rewrite(args[i], c);
            }
        }
        assert(spec_unwrap_type_props(rx)->Call_1 =~= out);
        assert(spec_unwrap_type_props(rx) =~= rx);
    } else if x is Object {
        let props = x->Object_0;
        let out = rx->Object_0;
        assert(out == spec_rewrite_props(props, c));
        assert forall|i: int| 0 <= i < out.len() implies spec_unwrap_type_prop(#[trigger] out[i])
            == out[i] by {
            assert(spec_unwrap_type_prop(props[i]) == props[i]);
            assert(out[i] == spec_rewrite_prop(props[i], c));
            match props[i] {
                PropV::KeyValue(k, v) => {
                    lemma_rewrite_keeps_shape(v, c, Seq::empty());
                    if spec_is_type_key(k) && spec_is_simple_arrow(v) {
                        assert(!(arrow_expr_body(v) is Arrow));
                        assert(false);
                    }
                },
                PropV::Opaque(_) => {},
            }
        }
        assert(spec_unwrap_type_props(rx)->Object_0 =~= out);
        assert(spec_unwrap_type_props(rx) =~= rx);
    }
}

/// An expression with no typeof guard at a reachable position stays that way
/// under the tree rewrite.
proof fn lemma_simp_fixed_after_rewrite(x: ExprV, c: Config)
    requires
        spec_simplify_typeofs(x) == x,
    ensures
        spec_simplify_typeofs(spec_rewrite(x, c)) == spec_rewrite(x, c),
    decreases x,
{
    broadcast use crate::rewrite::group_rewrite_lemmas;

    let rx = spec_rewrite(x, c);
    lemma_rewrite_keeps_shape(x, c, Seq::empty());
    lemma_rewrite_keeps_guard(x, c);
    if spec_is_typeof_guard_conditional(x) {
        assert(spec_simplify_typeofs(x) is Ident);
        assert(false);
    } else if x is Array {
        let es = x->Array_0;
        let out = rx->Array_0;
        assert(out == spec_rewrite_elems(es, c));
        assert forall|i: int| 0 <= i < out.len() implies spec_simplify_typeofs(#[trigger] out[i])
            == out[i] by {
            assert(spec_simplify_typeofs(es[i]) == es[i]);
            assert(out[i] == spec_rewrite(es[i], c));
            assert(decreases_to!(x => es));
            assert(decreases_to!(es => es[i]));
            lemma_simp_fixed_after_rewrite(es[i], c);
        }
        assert(spec_simplify_typeofs(rx)->Array_0 =~= out);
        assert(spec_simplify_typeofs(rx) =~= rx);
    }
}

/// A metadata element already simplified for a key stays that way under the
/// tree rewrite.
proof fn lemma_simp_meta_fixed_after_rewrite(y: ExprV, c: Config, key: Seq<char>)
    requires
        spec_simp_meta_elem(y, key) == y,
    ensures
        spec_simp_meta_elem(spec_rewrite(y, c), key) == spec_rewrite(y, c),
{
    broadcast use crate::rewrite::group_rewrite_lemmas;

    let ry = spec_rewrite(y, c);
    lemma_rewrite_keeps_shape(y, c, key);
    if spec_is_ts_metadata_call(y) && spec_metadata_key_is(y, key) {
        lemma_helper_names_distinct();
        assert(!spec_is_ts_decorate_call(y));
        let args = y->Call_1;
        assert(spec_piped_args(y, c) == args);
        let out = ry->Call_1;
        assert(out == spec_rewrite_elems(args, c));
        assert forall|i: int|
            0 <= i < out.len() implies #[trigger] spec_simp_meta_elem(ry, key)->Call_1[i]
            == out[i] by {
            assert(out[i] == spec_rewrite(args[i], c));
            if i > 0 {
                assert(args[i] == spec_simp_meta_elem(y, key)->Call_1[i]);
                assert(spec_simplify_typeofs(args[i]) == args[i]);
                lemma_simp_fixed_after_rewrite(args[i], c);
            }
        }
        assert(spec_simp_meta_elem(ry, key)->Call_1 =~= out);
        assert(spec_simp_meta_elem(ry, key) =~= ry);
    }
}

/// The decorator-application helper and the type-metadata helper have
/// different names.
proof fn lemma_helper_names_distinct()
    ensures
        "_ts_decorate"@ != "_ts_metadata"@,
{
    reveal_strlit("_ts_decorate");
    reveal_strlit("_ts_metadata");
    assert("_ts_decorate"@[4] == 'd');
    assert("_ts_metadata"@[4] == 'm');
}

/// Rewriting every element of a decorator array keeps the fixed points of
/// every enabled pass.
proof fn lemma_pipeline_fixed_after_rewrite_elems(es: Seq<ExprV>, c: Config)
    requires
        pipeline_fixed(es, c),
    ensures
        pipeline_fixed(spec_rewrite_elems(es, c), c),
{
    broadcast use crate::rewrite::group_rewrite_lemmas;

    let out = spec_rewrite_elems(es, c);
    if strip_metadata_enabled(c) {
        assert forall|i: int| 0 <= i < out.len() implies spec_keeps_elem(#[trigger] out[i]) by {
            lemma_rewrite_keeps_shape(es[i], c, Seq::empty());
        }
    }
    if unwrap_decorator_arrows_enabled(c) {
        let second = spec_unwrap_arrows_elems(out);
        assert forall|i: int| 0 <= i < out.len() implies #[trigger] second[i] == out[i] by {
            assert(spec_unwrap_arrows_elems(es)[i] == spec_unwrap_arrows(es[i]));
            lemma_unwrap_fixed_after_rewrite(es[i], c);
        }
        assert(second =~= out);
    }
    if unwrap_type_arrows_enabled(c) {
        let second = spec_unwrap_type_props_elems(out);
        assert forall|i: int| 0 <= i < out.len() implies #[trigger] second[i] == out[i] by {
            assert(spec_unwrap_type_props_elems(es)[i] == spec_unwrap_type_props(es[i]));
            lemma_type_fixed_after_rewrite(es[i], c);
        }
        assert(second =~= out);
    }
    if simplify_metadata_typeofs_enabled(c) {
        let second = spec_simp_meta(out, "design:paramtypes"@);
        assert forall|i: int| 0 <= i < out.len() implies #[trigger] second[i] == out[i] by {
            assert(spec_simp_meta(es, "design:paramtypes"@)[i] == spec_simp_meta_elem(
                es[i],
                "design:paramtypes"@,
            ));
            lemma_simp_meta_fixed_after_rewrite(es[i], c, "design:paramtypes"@);
        }
        assert(second =~= out);
    }
    if simplify_design_type_typeofs_enabled(c) {
        let second = spec_simp_meta(out, "design:type"@);
        assert forall|i: int| 0 <= i < out.len() implies #[trigger] second[i] == out[i] by {
            assert(spec_simp_meta(es, "design:type"@)[i] == spec_simp_meta_elem(
                es[i],
                "design:type"@,
            ));
            lemma_simp_meta_fixed_after_rewrite(es[i], c, "design:type"@);
        }
        assert(second =~= out);
    }
}

// ---------------------------------------------------------------------------
// Idempotence of the whole tree rewrite.
// ---------------------------------------------------------------------------

/// Idempotence: for any tree and any configuration, rewriting the tree a
/// second time under the same configuration changes nothing.  Every pass's
/// predicate requires the original, unrewritten shape to trigger, and neither
/// the passes nor the traversal re-create a shape that an earlier step
/// rewrites.
pub proof fn lemma_rewrite_idempotent(e: ExprV, c: Config)
    ensures
        spec_rewrite(spec_rewrite(e, c), c) == spec_rewrite(e, c),
    decreases expr_size(e), 1int,
{
    broadcast use crate::rewrite::group_rewrite_lemmas;

    let re = spec_rewrite(e, c);
    match e {
        ExprV::Call(callee, args) => {
            assert(expr_size(e) == 1 + expr_size(*callee) + exprs_size(args));
            lemma_rewrite_keeps_shape(e, c, Seq::empty());
            let piped = spec_piped_args(e, c);
            lemma_piped_args_size(e, c);
            let b = spec_rewrite_elems(piped, c);
            assert(re == ExprV::Call(Box::new(spec_rewrite(*callee, c)), b));
            lemma_rewrite_idempotent(*callee, c);
            lemma_rewrite_elems_idempotent(piped, c);
            let piped2 = spec_piped_args(re, c);
            if spec_is_ts_decorate_call(e) && args.len() > 0 && args[0] is Array {
                let xs = args[0]->Array_0;
                assert(piped[0] == ExprV::Array(spec_pipeline(xs, c)));
                assert(b[0] == spec_rewrite(piped[0], c));
                let ys = spec_rewrite_elems(spec_pipeline(xs, c), c);
                assert(b[0] == ExprV::Array(ys));
                lemma_pipeline_output_fixed(xs, c);
                lemma_pipeline_fixed_after_rewrite_elems(spec_pipeline(xs, c), c);
                lemma_pipeline_of_fixed_is_identity(ys, c);
                assert(spec_pipeline(ys, c) == ys);
                assert(piped2 == b.update(0, ExprV::Array(spec_pipeline(b[0]->Array_0, c))));
                assert(piped2 =~= b);
                assert(spec_rewrite(re, c) == ExprV::Call(
                    Box::new(spec_rewrite(spec_rewrite(*callee, c), c)),
                    spec_rewrite_elems(piped2, c),
                ));
                assert(spec_rewrite_elems(piped2, c) == spec_rewrite_elems(b, c));
                assert(spec_rewrite(re, c) =~= re);
            } else {
                assert(piped == args);
                if spec_is_ts_decorate_call(re) && b.len() > 0 {
                    assert(b[0] == spec_rewrite(args[0], c));
                    assert(decreases_to!(e => args));
                    assert(decreases_to!(args => args[0]));
                    lemma_rewrite_keeps_shape(args[0], c, Seq::empty());
                    assert(!(b[0] is Array));
                }
                assert(piped2 == b);
                assert(spec_rewrite(re, c) == ExprV::Call(
                    Box::new(spec_rewrite(spec_rewrite(*callee, c), c)),
                    spec_rewrite_elems(b, c),
                ));
                assert(spec_rewrite(re, c) =~= re);
            }
        },
        ExprV::Array(es) => {
            assert(expr_size(e) == 1 + exprs_size(es));
            lemma_rewrite_elems_idempotent(es, c);
            assert(spec_rewrite(re, c) =~= re);
        },
        ExprV::Object(ps) => {
            assert(expr_size(e) == 1 + props_size(ps));
            lemma_rewrite_props_idempotent(ps, c);
            assert(spec_rewrite(re, c) =~= re);
        },
        ExprV::Cond(t, cs, a) => {
            assert(expr_size(e) == 1 + expr_size(*t) + expr_size(*cs) + expr_size(*a));
            lemma_rewrite_idempotent(*t, c);
            lemma_rewrite_idempotent(*cs, c);
            lemma_rewrite_idempotent(*a, c);
        },
        ExprV::Bin(op, l, r) => {
            assert(expr_size(e) == 1 + expr_size(*l) + expr_size(*r));
            lemma_rewrite_idempotent(*l, c);
            lemma_rewrite_idempotent(*r, c);
        },
        ExprV::Unary(op, a) => {
            assert(expr_size(e) == 1 + expr_size(*a));
            lemma_rewrite_idempotent(*a, c);
        },
        ExprV::Arrow(params, body) => {
            match body {
                ArrowBodyV::ExprBody(bb) => {
                    assert(expr_size(e) == 1 + crate::measure::body_size(body));
                    assert(crate::measure::body_size(body) == 1 + expr_size(*bb));
                    lemma_rewrite_idempotent(*bb, c);
                },
                ArrowBodyV::BlockBody(_) => {},
            }
        },
        _ => {},
    }
}

/// Idempotence, element by element over a list of expressions.
proof fn lemma_rewrite_elems_idempotent(es: Seq<ExprV>, c: Config)
    ensures
        spec_rewrite_elems(spec_rewrite_elems(es, c), c) == spec_rewrite_elems(es, c),
    decreases exprs_size(es), 2int,
{
    broadcast use crate::rewrite::group_rewrite_lemmas;

    let once = spec_rewrite_elems(es, c);
    let twice = spec_rewrite_elems(once, c);
    assert forall|i: int| 0 <= i < es.len() implies #[trigger] twice[i] == once[i] by {
        lemma_exprs_size_index(es, i);
        lemma_rewrite_idempotent(es[i], c);
    }
    assert(twice =~= once);
}

/// Idempotence, property by property over an object's property list.
proof fn lemma_rewrite_props_idempotent(ps: Seq<PropV>, c: Config)
    ensures
        spec_rewrite_props(spec_rewrite_props(ps, c), c) == spec_rewrite_props(ps, c),
    decreases props_size(ps), 2int,
{
    broadcast use crate::rewrite::group_rewrite_lemmas;

    let once = spec_rewrite_props(ps, c);
    let twice = spec_rewrite_props(once, c);
    assert forall|i: int| 0 <= i < ps.len() implies #[trigger] twice[i] == once[i] by {
        lemma_props_size_index(ps, i);
        match ps[i] {
            PropV::KeyValue(k, v) => {
                assert(prop_size(ps[i]) == 1 + expr_size(v));
                lemma_rewrite_idempotent(v, c);
            },
            PropV::Opaque(_) => {},
        }
    }
    assert(twice =~= once);
}

} // verus!