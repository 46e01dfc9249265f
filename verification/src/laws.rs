//! Laws of the resolver and the rewrite passes, stated over the same spec
//! functions that the executable functions' contracts use.
use vstd::prelude::*;

use crate::ast::ExprV;
use crate::config::{Config, OverrideRuleV, PluginConfigV, spec_apply_overrides, spec_merge,
    spec_normalize, spec_resolve, spec_rule_matches};
use crate::detection::{spec_is_simple_arrow, spec_is_ts_metadata_call};
use crate::transforms::{arrow_expr_body, spec_keeps_elem, spec_metadata_key_is,
    spec_simp_meta_elem, spec_strip_metadata, spec_unwrap_arg};

verus! {

broadcast use vstd::std_specs::vec::group_vec_axioms, vstd::seq::group_seq_axioms;

/// Merge right-bias: resolving against a single matching override rule
/// takes every switch the rule sets explicitly from the rule, and every
/// switch it leaves unset from the base, untouched.
pub proof fn lemma_single_override_right_bias(
    base: Config,
    rule: OverrideRuleV,
    path: Seq<char>,
)
    requires
        path.len() > 0,
        spec_rule_matches(rule, spec_normalize(path)),
    ensures
        spec_resolve(
            PluginConfigV { base, overrides: seq![rule] },
            Some(path),
        ) == spec_merge(base, rule.config),
{
    let rules = seq![rule];
    let norm = spec_normalize(path);
    assert(rules.drop_first() =~= Seq::<OverrideRuleV>::empty());
    assert(spec_apply_overrides(spec_merge(base, rule.config), rules.drop_first(), norm)
        == spec_merge(base, rule.config));
}

/// Later wins: with two rules that both match the path, a switch that the
/// later rule sets explicitly ends up with the later rule's value, whatever
/// the earlier rule says.
pub proof fn lemma_later_override_wins(
    base: Config,
    first: OverrideRuleV,
    second: OverrideRuleV,
    path: Seq<char>,
)
    requires
        path.len() > 0,
        spec_rule_matches(first, spec_normalize(path)),
        spec_rule_matches(second, spec_normalize(path)),
    ensures
        spec_resolve(
            PluginConfigV { base, overrides: seq![first, second] },
            Some(path),
        ) == spec_merge(spec_merge(base, first.config), second.config),
{
    let rules = seq![first, second];
    let norm = spec_normalize(path);
    let once = spec_merge(base, first.config);
    assert(rules.drop_first() =~= seq![second]);
    assert(seq![second].drop_first() =~= Seq::<OverrideRuleV>::empty());
    assert(spec_apply_overrides(spec_merge(once, second.config), seq![second].drop_first(), norm)
        == spec_merge(once, second.config));
    assert(spec_apply_overrides(once, seq![second], norm) == spec_merge(once, second.config));
}

/// No-path fallback: without a path, or with an empty one, resolution
/// returns exactly the base configuration; no override is consulted.
pub proof fn lemma_no_path_fallback(p: PluginConfigV)
    ensures
        spec_resolve(p, None::<Seq<char>>) == p.base,
        spec_resolve(p, Some(Seq::<char>::empty())) == p.base,
{
}

/// Path separator invariance: two paths that normalize to the same string
/// resolve identically, whatever separator style each was written in.
pub proof fn lemma_separator_invariance(p: PluginConfigV, path1: Seq<char>, path2: Seq<char>)
    requires
        spec_normalize(path1) == spec_normalize(path2),
        path1.len() > 0,
        path2.len() > 0,
    ensures
        spec_resolve(p, Some(path1)) == spec_resolve(p, Some(path2)),
{
}

/// Conservative arrow unwrap: an arrow function with no parameters and a
/// single returned identifier, member access or array literal is always
/// replaced by that body; any other arrow function - a block body, a
/// parameter list, any other body shape - passes through untouched.
pub proof fn lemma_conservative_arrow_unwrap(a: ExprV)
    ensures
        spec_is_simple_arrow(a) ==> spec_unwrap_arg(a) == arrow_expr_body(a),
        a is Arrow && !spec_is_simple_arrow(a) ==> spec_unwrap_arg(a) == a,
{
}

/// Typeof-guard scoping: the simplification pass for one metadata key never
/// touches an element whose key is a different one; in particular a
/// parameter-type pass leaves design-type metadata calls untouched, and the
/// other way round.
pub proof fn lemma_typeof_guard_scoping(e: ExprV, key: Seq<char>, other: Seq<char>)
    requires
        key != other,
        spec_metadata_key_is(e, other),
    ensures
        spec_simp_meta_elem(e, key) == e,
{
    assert(!spec_metadata_key_is(e, key));
}

/// The two metadata keys that the engine scopes its typeof simplification
/// by are distinct.
pub proof fn lemma_metadata_keys_distinct()
    ensures
        "design:paramtypes"@ != "design:type"@,
{
    reveal_strlit("design:paramtypes");
    reveal_strlit("design:type");
    assert("design:paramtypes"@.len() == 17);
    assert("design:type"@.len() == 11);
}

/// Metadata stripping removes only metadata calls: the result is never
/// longer, holds no metadata call, and keeps every element that is not a
/// metadata call.
pub proof fn lemma_strip_removes_only_metadata(es: Seq<ExprV>)
    ensures
        spec_strip_metadata(es).len() <= es.len(),
        forall|i: int|
            0 <= i < spec_strip_metadata(es).len() ==> !spec_is_ts_metadata_call(
                #[trigger] spec_strip_metadata(es)[i],
            ),
        forall|i: int|
            0 <= i < es.len() && !spec_is_ts_metadata_call(#[trigger] es[i])
                ==> spec_strip_metadata(es).contains(es[i]),
{
    broadcast use vstd::seq_lib::group_seq_lib_default;

    assert forall|i: int| 0 <= i < spec_strip_metadata(es).len() implies !spec_is_ts_metadata_call(
        #[trigger] spec_strip_metadata(es)[i],
    ) by {
        es.lemma_filter_pred(|e: ExprV| spec_keeps_elem(e), i);
    }
    assert forall|i: int|
        0 <= i < es.len() && !spec_is_ts_metadata_call(#[trigger] es[i]) implies spec_strip_metadata(
        es,
    ).contains(es[i]) by {
        es.lemma_filter_contains(|e: ExprV| spec_keeps_elem(e), i);
    }
}

} // verus!
