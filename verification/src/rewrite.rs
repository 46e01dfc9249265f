//! The tree rewriter: drives the rewrite passes over every
//! decorator-application call in a tree, under a resolved configuration.
use vstd::prelude::*;

use crate::ast::{ArrowBody, ArrowBodyV, Expr, ExprV, Prop, PropV, expr_model, exprs_model,
    prop_model, props_model};
use crate::config::Config;
use crate::detection::{ident_equals, spec_is_ts_decorate_call};
use crate::measure::{expr_size, exprs_size, lemma_exprs_size_index, lemma_exprs_size_pointwise,
    lemma_pipeline_size, lemma_props_size_index, prop_size, props_size};
use crate::transforms::{spec_simp_meta, spec_strip_metadata, spec_unwrap_arrows_elems,
    spec_unwrap_type_props_elems, simplify_design_type_typeof_guards,
    simplify_metadata_typeof_guards, strip_metadata_calls, unwrap_decorator_arrow_args,
    unwrap_type_arrow_props};

verus! {

broadcast use vstd::std_specs::vec::group_vec_axioms, vstd::seq::group_seq_axioms, crate::ast::group_model_lemmas;

/// Metadata stripping runs only when switched on explicitly (default off).
pub open spec fn strip_metadata_enabled(c: Config) -> bool {
    c.strip_metadata == Some(true)
}

/// Decorator-argument arrow unwrapping runs unless switched off (default on).
pub open spec fn unwrap_decorator_arrows_enabled(c: Config) -> bool {
    c.unwrap_decorator_arrows != Some(false)
}

/// Type-property arrow unwrapping runs unless switched off (default on).
pub open spec fn unwrap_type_arrows_enabled(c: Config) -> bool {
    c.unwrap_type_arrows != Some(false)
}

/// Parameter-type typeof simplification runs unless switched off (default on).
pub open spec fn simplify_metadata_typeofs_enabled(c: Config) -> bool {
    c.simplify_metadata_typeofs != Some(false)
}

/// Design-type typeof simplification runs only when switched on (default off).
pub open spec fn simplify_design_type_typeofs_enabled(c: Config) -> bool {
    c.simplify_design_type_typeofs == Some(true)
}

/// The enabled rewrites applied to one decorator array, in the fixed order:
/// metadata stripping, decorator-argument arrow unwrapping, type-property
/// arrow unwrapping, then typeof-guard simplification for parameter-type and
/// design-type metadata.
pub open spec fn spec_pipeline(es: Seq<ExprV>, c: Config) -> Seq<ExprV> {
    let s1 = if strip_metadata_enabled(c) {
        spec_strip_metadata(es)
    } else {
        es
    };
    let s2 = if unwrap_decorator_arrows_enabled(c) {
        spec_unwrap_arrows_elems(s1)
    } else {
        s1
    };
    let s3 = if unwrap_type_arrows_enabled(c) {
        spec_unwrap_type_props_elems(s2)
    } else {
        s2
    };
    let s4 = if simplify_metadata_typeofs_enabled(c) {
        spec_simp_meta(s3, "design:paramtypes"@)
    } else {
        s3
    };
    if simplify_design_type_typeofs_enabled(c) {
        spec_simp_meta(s4, "design:type"@)
    } else {
        s4
    }
}

/// Apply the enabled rewrites, in their fixed order, to the elements of one
/// decorator array.
pub fn rewrite_decorator_array(elems: &mut Vec<Expr>, config: &Config)
    ensures
        exprs_model(final(elems)@) == spec_pipeline(exprs_model(old(elems)@), *config),
{
    let do_strip = match config.strip_metadata {
        Some(v) => v,
        None => false,
    };
    if do_strip {
        strip_metadata_calls(elems);
    }
    let do_unwrap = match config.unwrap_decorator_arrows {
        Some(v) => v,
        None => true,
    };
    if do_unwrap {
        unwrap_decorator_arrow_args(elems);
    }
    let do_types = match config.unwrap_type_arrows {
        Some(v) => v,
        None => true,
    };
    if do_types {
        unwrap_type_arrow_props(elems);
    }
    let do_meta = match config.simplify_metadata_typeofs {
        Some(v) => v,
        None => true,
    };
    if do_meta {
        simplify_metadata_typeof_guards(elems);
    }
    let do_design = match config.simplify_design_type_typeofs {
        Some(v) => v,
        None => false,
    };
    if do_design {
        simplify_design_type_typeof_guards(elems);
    }
}

/// The rewritten argument list of a call: at a decorator-application call
/// whose first argument is an array, the rewrite passes run over that array
/// first; the traversal then descends into the (now rewritten) children.
pub open spec fn spec_piped_args(e: ExprV, c: Config) -> Seq<ExprV> {
    let args = e->Call_1;
    if spec_is_ts_decorate_call(e) && args.len() > 0 && args[0] is Array {
        args.update(0, ExprV::Array(spec_pipeline(args[0]->Array_0, c)))
    } else {
        args
    }
}

/// One full rewrite of an expression tree: matches are recognized top-down,
/// so at every decorator-application call whose first argument is an array
/// the rewrite passes run over that array in place, and the traversal then
/// descends into the rewritten children.
pub open spec fn spec_rewrite(e: ExprV, c: Config) -> ExprV
    decreases expr_size(e), 1int,
    via spec_rewrite_decreases
{
    match e {
        ExprV::Call(callee, args) => ExprV::Call(
            Box::new(spec_rewrite(*callee, c)),
            spec_rewrite_elems(spec_piped_args(e, c), c),
        ),
        ExprV::Array(es) => ExprV::Array(spec_rewrite_elems(es, c)),
        ExprV::Object(ps) => ExprV::Object(spec_rewrite_props(ps, c)),
        ExprV::Cond(t, cs, a) => ExprV::Cond(
            Box::new(spec_rewrite(*t, c)),
            Box::new(spec_rewrite(*cs, c)),
            Box::new(spec_rewrite(*a, c)),
        ),
        ExprV::Bin(op, l, r) => ExprV::Bin(
            op,
            Box::new(spec_rewrite(*l, c)),
            Box::new(spec_rewrite(*r, c)),
        ),
        ExprV::Unary(op, a) => ExprV::Unary(op, Box::new(spec_rewrite(*a, c))),
        ExprV::Arrow(params, body) => ExprV::Arrow(
            params,
            match body {
                ArrowBodyV::ExprBody(b) => ArrowBodyV::ExprBody(Box::new(spec_rewrite(*b, c))),
                ArrowBodyV::BlockBody(t) => ArrowBodyV::BlockBody(t),
            },
        ),
        _ => e,
    }
}

#[via_fn]
proof fn spec_rewrite_decreases(e: ExprV, c: Config) {
    match e {
        ExprV::Call(callee, args) => {
            lemma_piped_args_size(e, c);
            assert(expr_size(e) == 1 + expr_size(*callee) + exprs_size(args));
        },
        ExprV::Arrow(params, body) => {
            match body {
                ArrowBodyV::ExprBody(b) => {
                    assert(expr_size(e) == 1 + crate::measure::body_size(body));
                    assert(crate::measure::body_size(body) == 1 + expr_size(*b));
                },
                ArrowBodyV::BlockBody(_) => {},
            }
        },
        _ => {},
    }
}

/// The rewritten argument list weighs no more than the original.
pub proof fn lemma_piped_args_size(e: ExprV, c: Config)
    requires
        e is Call,
    ensures
        exprs_size(spec_piped_args(e, c)) <= exprs_size(e->Call_1),
{
    let args = e->Call_1;
    let piped = spec_piped_args(e, c);
    if spec_is_ts_decorate_call(e) && args.len() > 0 && args[0] is Array {
        let xs = args[0]->Array_0;
        lemma_pipeline_size(xs, c);
        assert(expr_size(args[0]) == 1 + exprs_size(xs));
        assert forall|i: int| 0 <= i < piped.len() implies expr_size(#[trigger] piped[i])
            <= expr_size(args[i]) by {}
        lemma_exprs_size_pointwise(piped, args);
    }
}

/// The full rewrite applied to a list of expressions, element by element.
pub open spec fn spec_rewrite_elems(es: Seq<ExprV>, c: Config) -> Seq<ExprV>
    decreases exprs_size(es), 2int,
    via spec_rewrite_elems_decreases
{
    Seq::new(
        es.len(),
        |i: int| if 0 <= i < es.len() { spec_rewrite(es[i], c) } else { ExprV::Opaque(0) },
    )
}

#[via_fn]
proof fn spec_rewrite_elems_decreases(es: Seq<ExprV>, c: Config) {
    assert forall|i: int| 0 <= i < es.len() implies expr_size(#[trigger] es[i]) <= exprs_size(
        es,
    ) by {
        lemma_exprs_size_index(es, i);
    }
}

/// The full rewrite applied to a property list, element by element.
pub open spec fn spec_rewrite_props(ps: Seq<PropV>, c: Config) -> Seq<PropV>
    decreases props_size(ps), 2int,
    via spec_rewrite_props_decreases
{
    Seq::new(
        ps.len(),
        |i: int| if 0 <= i < ps.len() { spec_rewrite_prop(ps[i], c) } else { PropV::Opaque(0) },
    )
}

#[via_fn]
proof fn spec_rewrite_props_decreases(ps: Seq<PropV>, c: Config) {
    assert forall|i: int| 0 <= i < ps.len() implies prop_size(#[trigger] ps[i]) <= props_size(
        ps,
    ) by {
        lemma_props_size_index(ps, i);
    }
}

/// One full rewrite of an object property: the value is rewritten; the key
/// stays.
pub open spec fn spec_rewrite_prop(p: PropV, c: Config) -> PropV
    decreases prop_size(p), 1int,
{
    match p {
        PropV::KeyValue(k, v) => PropV::KeyValue(k, spec_rewrite(v, c)),
        PropV::Opaque(t) => PropV::Opaque(t),
    }
}

/// The elementwise rewrite has the length of its input.
pub broadcast proof fn lemma_rewrite_elems_len(es: Seq<ExprV>, c: Config)
    ensures
        #[trigger] spec_rewrite_elems(es, c).len() == es.len(),
{
}

/// The elementwise rewrite is the rewrite of each element.
pub broadcast proof fn lemma_rewrite_elems_index(es: Seq<ExprV>, c: Config, i: int)
    requires
        0 <= i < es.len(),
    ensures
        #[trigger] spec_rewrite_elems(es, c)[i] == spec_rewrite(es[i], c),
{
}

/// The elementwise property rewrite has the length of its input.
pub broadcast proof fn lemma_rewrite_props_len(ps: Seq<PropV>, c: Config)
    ensures
        #[trigger] spec_rewrite_props(ps, c).len() == ps.len(),
{
}

/// The elementwise property rewrite is the rewrite of each element.
pub broadcast proof fn lemma_rewrite_props_index(ps: Seq<PropV>, c: Config, i: int)
    requires
        0 <= i < ps.len(),
    ensures
        #[trigger] spec_rewrite_props(ps, c)[i] == spec_rewrite_prop(ps[i], c),
{
}

fn rewrite_prop(p: Prop, config: &Config) -> (r: Prop)
    ensures
        prop_model(r) == spec_rewrite_prop(prop_model(p), *config),
    decreases prop_size(prop_model(p)), 1int,
{
    match p {
        Prop::KeyValue(k, v) => {
            proof {
                assert(prop_model(p) == PropV::KeyValue(crate::ast::key_model(k), expr_model(v)));
                assert(prop_size(prop_model(p)) == 1 + expr_size(expr_model(v)));
            }
            Prop::KeyValue(k, rewrite_expr(v, config))
        },
        Prop::Opaque(t) => Prop::Opaque(t),
    }
}

/// Rewrite a whole tree under a resolved configuration: every call
/// expression is visited once, depth first; at every decorator-application
/// call whose first argument is an array, the enabled passes run over that
/// array in place before the traversal descends into the rewritten children.
/// Unmatched shapes are passed through unchanged.
#[verifier::loop_isolation(false)]
#[verifier::rlimit(60)]
pub fn rewrite_expr(e: Expr, config: &Config) -> (r: Expr)
    ensures
        expr_model(r) == spec_rewrite(expr_model(e), *config),
    decreases expr_size(expr_model(e)), 1int,
{
    broadcast use group_rewrite_lemmas;

    let ghost e0 = e;
    match e {
        Expr::Call(callee, args) => {
            let is_dec = ident_equals(&callee, "_ts_decorate");
            let ghost em = expr_model(e0);
            let ghost argsm = exprs_model(args@);
            proof {
                assert(em == ExprV::Call(Box::new(expr_model(*callee)), argsm));
                assert(is_dec == spec_is_ts_decorate_call(em));
                assert(expr_size(em) == 1 + expr_size(expr_model(*callee)) + exprs_size(argsm));
            }
            let mut work = args;
            if is_dec && work.len() > 0 {
                let ghost before = work@;
                let first = work.remove(0);
                proof {
                    assert(first == before[0]);
                    assert(expr_model(first) == argsm[0]);
                }
                match first {
                    Expr::Array(mut elems) => {
                        proof {
                            assert(argsm[0] == ExprV::Array(exprs_model(elems@)));
                            assert(argsm[0]->Array_0 == exprs_model(elems@));
                        }
                        rewrite_decorator_array(&mut elems, config);
                        work.insert(0, Expr::Array(elems));
                        proof {
                            assert(work@ =~= before.update(0, work@[0]));
                            assert forall|j: int|
                                0 <= j < work@.len() implies exprs_model(work@)[j]
                                == #[trigger] spec_piped_args(em, *config)[j] by {
                                assert(exprs_model(work@)[j] == expr_model(work@[j]));
                                if j > 0 {
                                    assert(work@[j] == before[j]);
                                    assert(exprs_model(before)[j] == expr_model(before[j]));
                                }
                            }
                            assert(exprs_model(work@) =~= spec_piped_args(em, *config));
                        }
                    },
                    other => {
                        proof {
                            assert(!(argsm[0] is Array));
                        }
                        work.insert(0, other);
                        proof {
                            assert(work@ =~= before);
                            assert(exprs_model(work@) =~= spec_piped_args(em, *config));
                        }
                    },
                }
            } else {
                proof {
                    assert(exprs_model(work@) =~= spec_piped_args(em, *config));
                }
            }
            let ghost piped = spec_piped_args(em, *config);
            proof {
                lemma_piped_args_size(em, *config);
            }
            let callee2 = rewrite_expr(*callee, config);
            let ghost worksnap = work@;
            let mut rest = work;
            let mut out: Vec<Expr> = Vec::new();
            while rest.len() > 0
                invariant
                    out@.len() + rest@.len() == worksnap.len(),
                    rest@ =~= worksnap.skip(out@.len() as int),
                    forall|j: int|
                        0 <= j < out@.len() ==> expr_model(#[trigger] out@[j]) == spec_rewrite(
                            expr_model(worksnap[j]),
                            *config,
                        ),
                decreases rest@.len(),
            {
                let ghost k = out@.len() as int;
                let x = rest.remove(0);
                proof {
                    assert(x == worksnap[k]);
                    assert(rest@ =~= worksnap.skip(k + 1));
                    assert(expr_model(x) == piped[k]);
                    lemma_exprs_size_index(piped, k);
                    assert(expr_size(expr_model(x)) < expr_size(em));
                }
                let y = rewrite_expr(x, config);
                out.push(y);
            }
            let ghost outv = out@;
            let r = Expr::Call(Box::new(callee2), out);
            proof {
                assert(expr_model(r) == ExprV::Call(
                    Box::new(expr_model(callee2)),
                    exprs_model(outv),
                ));
                let m2 = spec_rewrite_elems(piped, *config);
                assert forall|j: int| 0 <= j < outv.len() implies exprs_model(outv)[j]
                    == #[trigger] m2[j] by {
                    assert(exprs_model(outv)[j] == expr_model(outv[j]));
                    assert(exprs_model(worksnap)[j] == expr_model(worksnap[j]));
                }
                assert(exprs_model(outv) =~= m2);
                assert(expr_model(r) =~= spec_rewrite(em, *config));
            }
            r
        },
        Expr::Array(es) => {
            let ghost orig = es@;
            proof {
                assert(expr_model(e0) == ExprV::Array(exprs_model(orig)));
                assert(expr_size(expr_model(e0)) == 1 + exprs_size(exprs_model(orig)));
            }
            let mut rest = es;
            let mut out: Vec<Expr> = Vec::new();
            while rest.len() > 0
                invariant
                    out@.len() + rest@.len() == orig.len(),
                    rest@ =~= orig.skip(out@.len() as int),
                    forall|j: int|
                        0 <= j < out@.len() ==> expr_model(#[trigger] out@[j]) == spec_rewrite(
                            expr_model(orig[j]),
                            *config,
                        ),
                decreases rest@.len(),
            {
                let ghost k = out@.len() as int;
                let x = rest.remove(0);
                proof {
                    assert(x == orig[k]);
                    assert(rest@ =~= orig.skip(k + 1));
                    assert(exprs_model(orig)[k] == expr_model(orig[k]));
                    lemma_exprs_size_index(exprs_model(orig), k);
                    assert(expr_size(expr_model(x)) < expr_size(expr_model(e0)));
                }
                let y = rewrite_expr(x, config);
                out.push(y);
            }
            let ghost outv = out@;
            let r = Expr::Array(out);
            proof {
                assert(expr_model(r) == ExprV::Array(exprs_model(outv)));
                let m2 = spec_rewrite_elems(exprs_model(orig), *config);
                assert forall|j: int| 0 <= j < outv.len() implies exprs_model(outv)[j]
                    == #[trigger] m2[j] by {
                    assert(exprs_model(outv)[j] == expr_model(outv[j]));
                    assert(exprs_model(orig)[j] == expr_model(orig[j]));
                }
                assert(exprs_model(outv) =~= m2);
                assert(expr_model(r) =~= spec_rewrite(expr_model(e0), *config));
            }
            r
        },
        Expr::Object(ps) => {
            let ghost orig = ps@;
            proof {
                assert(expr_model(e0) == ExprV::Object(props_model(orig)));
                assert(expr_size(expr_model(e0)) == 1 + props_size(props_model(orig)));
            }
            let mut rest = ps;
            let mut out: Vec<Prop> = Vec::new();
            while rest.len() > 0
                invariant
                    out@.len() + rest@.len() == orig.len(),
                    rest@ =~= orig.skip(out@.len() as int),
                    forall|j: int|
                        0 <= j < out@.len() ==> prop_model(#[trigger] out@[j]) == spec_rewrite_prop(
                            prop_model(orig[j]),
                            *config,
                        ),
                decreases rest@.len(),
            {
                let ghost k = out@.len() as int;
                let x = rest.remove(0);
                proof {
                    assert(x == orig[k]);
                    assert(rest@ =~= orig.skip(k + 1));
                    assert(props_model(orig)[k] == prop_model(orig[k]));
                    lemma_props_size_index(props_model(orig), k);
                    assert(prop_size(prop_model(x)) <= props_size(props_model(orig)));
                }
                let y = rewrite_prop(x, config);
                out.push(y);
            }
            let ghost outv = out@;
            let r = Expr::Object(out);
            proof {
                assert(expr_model(r) == ExprV::Object(props_model(outv)));
                let m2 = spec_rewrite_props(props_model(orig), *config);
                assert forall|j: int| 0 <= j < outv.len() implies props_model(outv)[j]
                    == #[trigger] m2[j] by {
                    assert(props_model(outv)[j] == prop_model(outv[j]));
                    assert(props_model(orig)[j] == prop_model(orig[j]));
                }
                assert(props_model(outv) =~= m2);
                assert(expr_model(r) =~= spec_rewrite(expr_model(e0), *config));
            }
            r
        },
        Expr::Cond(t, cs, a) => {
            proof {
                assert(expr_model(e0) == ExprV::Cond(
                    Box::new(expr_model(*t)),
                    Box::new(expr_model(*cs)),
                    Box::new(expr_model(*a)),
                ));
                assert(expr_size(expr_model(e0)) == 1 + expr_size(expr_model(*t)) + expr_size(
                    expr_model(*cs),
                ) + expr_size(expr_model(*a)));
            }
            Expr::Cond(
                Box::new(rewrite_expr(*t, config)),
                Box::new(rewrite_expr(*cs, config)),
                Box::new(rewrite_expr(*a, config)),
            )
        },
        Expr::Bin(op, l, rr) => {
            proof {
                assert(expr_model(e0) == ExprV::Bin(
                    op,
                    Box::new(expr_model(*l)),
                    Box::new(expr_model(*rr)),
                ));
                assert(expr_size(expr_model(e0)) == 1 + expr_size(expr_model(*l)) + expr_size(
                    expr_model(*rr),
                ));
            }
            Expr::Bin(op, Box::new(rewrite_expr(*l, config)), Box::new(rewrite_expr(*rr, config)))
        },
        Expr::Unary(op, a) => {
            proof {
                assert(expr_model(e0) == ExprV::Unary(op, Box::new(expr_model(*a))));
                assert(expr_size(expr_model(e0)) == 1 + expr_size(expr_model(*a)));
            }
            Expr::Unary(op, Box::new(rewrite_expr(*a, config)))
        },
        Expr::Arrow(params, body) => match body {
            ArrowBody::ExprBody(b) => {
                let ghost bv = *b;
                proof {
                    assert(e0 == Expr::Arrow(params, ArrowBody::ExprBody(b)));
                    assert(expr_model(e0) == ExprV::Arrow(
                        params,
                        crate::ast::body_model(ArrowBody::ExprBody(b)),
                    ));
                    assert(crate::ast::body_model(ArrowBody::ExprBody(b))
                        == ArrowBodyV::ExprBody(Box::new(expr_model(bv))));
                    assert(expr_size(expr_model(e0)) == 1 + crate::measure::body_size(
                        ArrowBodyV::ExprBody(Box::new(expr_model(bv))),
                    ));
                }
                let inner = rewrite_expr(*b, config);
                proof {
                    assert(expr_model(inner) == spec_rewrite(expr_model(bv), *config));
                }
                let r = Expr::Arrow(params, ArrowBody::ExprBody(Box::new(inner)));
                proof {
                    assert(crate::ast::body_model(ArrowBody::ExprBody(Box::new(inner)))
                        == ArrowBodyV::ExprBody(Box::new(expr_model(inner))));
                    assert(expr_model(r) == ExprV::Arrow(
                        params,
                        crate::ast::body_model(ArrowBody::ExprBody(Box::new(inner))),
                    ));
                    assert(spec_rewrite(expr_model(e0), *config) == ExprV::Arrow(
                        params,
                        ArrowBodyV::ExprBody(Box::new(spec_rewrite(expr_model(bv), *config))),
                    ));
                }
                r
            },
            ArrowBody::BlockBody(t) => {
                proof {
                    assert(e0 == Expr::Arrow(params, ArrowBody::BlockBody(t)));
                    assert(expr_model(e0) == ExprV::Arrow(
                        params,
                        crate::ast::body_model(ArrowBody::BlockBody(t)),
                    ));
                    assert(crate::ast::body_model(ArrowBody::BlockBody(t))
                        == ArrowBodyV::BlockBody(t));
                }
                Expr::Arrow(params, ArrowBody::BlockBody(t))
            },
        },
        Expr::Ident(s) => Expr::Ident(s),
        Expr::StrLit(s) => Expr::StrLit(s),
        Expr::Member(t) => Expr::Member(t),
        Expr::Opaque(t) => Expr::Opaque(t),
    }
}

/// All the facts above, for broadcast use.
pub broadcast group group_rewrite_lemmas {
    lemma_rewrite_elems_len,
    lemma_rewrite_elems_index,
    lemma_rewrite_props_len,
    lemma_rewrite_props_index,
}

} // verus!
