//! The layered configuration resolver: a base configuration of five
//! tri-state switches, overlaid by ordered glob-scoped override rules.
use vstd::prelude::*;

verus! {

broadcast use vstd::std_specs::vec::group_vec_axioms, vstd::seq::group_seq_axioms;

/// The five independent switches that gate the rewrites.  `None` means
/// unset-inherit: the value falls through to whatever lies under it in the
/// merge chain.
#[derive(Clone, Copy, Debug)]
pub struct Config {
    /// Unwrap simple arrow functions in decorator type params (default: true),
    /// e.g. `type: () => String` -> `type: String`.
    pub unwrap_type_arrows: Option<bool>,
    /// Strip `_ts_metadata` calls from `_ts_decorate` arrays (default: false).
    pub strip_metadata: Option<bool>,
    /// Unwrap arrow-function arguments to decorator calls (default: true),
    /// e.g. `ResolveField(() => String)` -> `ResolveField(String)`.
    pub unwrap_decorator_arrows: Option<bool>,
    /// Simplify typeof-guard conditionals inside
    /// `_ts_metadata("design:paramtypes", ...)` arguments to `Object`
    /// (default: true).
    pub simplify_metadata_typeofs: Option<bool>,
    /// Simplify typeof-guard conditionals inside
    /// `_ts_metadata("design:type", ...)` arguments (default: false; the
    /// real member-expression type may be consumed by schema-inference
    /// tooling).
    pub simplify_design_type_typeofs: Option<bool>,
}

/// The default configuration: every switch explicitly set, `true` except
/// metadata stripping and design-type typeof simplification.
pub open spec fn default_config() -> Config {
    Config {
        unwrap_type_arrows: Some(true),
        strip_metadata: Some(false),
        unwrap_decorator_arrows: Some(true),
        simplify_metadata_typeofs: Some(true),
        simplify_design_type_typeofs: Some(false),
    }
}

impl Default for Config {
    /// The documented defaults.
    fn default() -> (r: Self)
        ensures
            r == default_config(),
    {
        Config {
            unwrap_type_arrows: Some(true),
            strip_metadata: Some(false),
            unwrap_decorator_arrows: Some(true),
            simplify_metadata_typeofs: Some(true),
            simplify_design_type_typeofs: Some(false),
        }
    }
}

/// Right-biased merge of one switch: an explicit value in the overriding
/// side wins; an unset one inherits the underlying value untouched.
pub open spec fn merged_field(base: Option<bool>, over: Option<bool>) -> Option<bool> {
    if over is Some {
        over
    } else {
        base
    }
}

/// Right-biased, strictly per-field merge of a whole configuration.
pub open spec fn spec_merge(base: Config, over: Config) -> Config {
    Config {
        unwrap_type_arrows: merged_field(base.unwrap_type_arrows, over.unwrap_type_arrows),
        strip_metadata: merged_field(base.strip_metadata, over.strip_metadata),
        unwrap_decorator_arrows: merged_field(
            base.unwrap_decorator_arrows,
            over.unwrap_decorator_arrows,
        ),
        simplify_metadata_typeofs: merged_field(
            base.simplify_metadata_typeofs,
            over.simplify_metadata_typeofs,
        ),
        simplify_design_type_typeofs: merged_field(
            base.simplify_design_type_typeofs,
            over.simplify_design_type_typeofs,
        ),
    }
}

fn field_or(over: Option<bool>, base: Option<bool>) -> (r: Option<bool>)
    ensures
        r == merged_field(base, over),
{
    match over {
        Some(v) => Some(v),
        None => base,
    }
}

impl Config {
    /// Merge an override on top of self.  The override's explicit values
    /// win; unset ones inherit from self.
    pub fn merge_override(&self, override_config: &Config) -> (r: Config)
        ensures
            r == spec_merge(*self, *override_config),
    {
        Config {
            unwrap_type_arrows: field_or(override_config.unwrap_type_arrows, self.unwrap_type_arrows),
            strip_metadata: field_or(override_config.strip_metadata, self.strip_metadata),
            unwrap_decorator_arrows: field_or(
                override_config.unwrap_decorator_arrows,
                self.unwrap_decorator_arrows,
            ),
            simplify_metadata_typeofs: field_or(
                override_config.simplify_metadata_typeofs,
                self.simplify_metadata_typeofs,
            ),
            simplify_design_type_typeofs: field_or(
                override_config.simplify_design_type_typeofs,
                self.simplify_design_type_typeofs,
            ),
        }
    }
}

/// A single override rule: glob patterns plus the switches to apply when
/// any pattern matches the file's normalized path.
pub struct OverrideRule {
    /// Glob patterns matched against the whole normalized path; any match
    /// triggers the override.
    pub files: Vec<String>,
    /// Switches to override; only explicit (`Some`) fields are applied.
    pub config: Config,
}

/// Mathematical value of an override rule.
#[verifier::ext_equal]
pub struct OverrideRuleV {
    pub files: Seq<Seq<char>>,
    pub config: Config,
}

/// The mathematical value of a pattern list, element by element.
pub open spec fn patterns_model(ss: Seq<String>) -> Seq<Seq<char>> {
    Seq::new(ss.len(), |i: int| if 0 <= i < ss.len() { ss[i]@ } else { Seq::empty() })
}

/// The mathematical value of an override rule.
pub open spec fn rule_model(r: OverrideRule) -> OverrideRuleV {
    OverrideRuleV { files: patterns_model(r.files@), config: r.config }
}

/// The mathematical value of a rule list, element by element.
pub open spec fn rules_model(rs: Seq<OverrideRule>) -> Seq<OverrideRuleV> {
    Seq::new(
        rs.len(),
        |i: int|
            if 0 <= i < rs.len() {
                rule_model(rs[i])
            } else {
                OverrideRuleV { files: Seq::empty(), config: default_config() }
            },
    )
}

/// What `glob_match::glob_match` returns: whether the glob pattern matches
/// the whole path.  On paths free of backslashes the result depends on the
/// two strings alone.
pub uninterp spec fn glob_matches(pattern: Seq<char>, path: Seq<char>) -> bool;

/// Relies on glob_match::glob_match: whether the glob pattern matches the
/// whole path, with `*`, `**` and `{a,b}` wildcards.  The crate treats a
/// platform path separator inside the path specially, so only paths without
/// backslashes are admitted; on those the result is a function of the two
/// strings alone.
#[verifier::external_body]
fn glob_match_str(pattern: &str, path: &str) -> (r: bool)
    requires
        !path@.contains('\\'),
    ensures
        r == glob_matches(pattern@, path@),
{
    glob_match::glob_match(pattern, path)
}

/// Deterministic, lossless path normalization: every backslash becomes a
/// forward slash, so the same logical path always evaluates identically
/// regardless of separator style.
pub open spec fn spec_normalize(s: Seq<char>) -> Seq<char> {
    s.map_values(|c: char| if c == '\\' { '/' } else { c })
}

/// Relies on str::replace with a single-character pattern: every backslash
/// in the string is replaced by a forward slash, character for character.
#[verifier::external_body]
fn replace_backslashes(s: &str) -> (r: String)
    ensures
        r@ == spec_normalize(s@),
{
    s.replace('\\', "/")
}

/// A normalized path holds no backslash.
proof fn lemma_normalize_no_backslash(s: Seq<char>)
    ensures
        !spec_normalize(s).contains('\\'),
{
    assert forall|i: int| 0 <= i < spec_normalize(s).len() implies spec_normalize(s)[i]
        != '\\' by {
        assert(spec_normalize(s)[i] == if s[i] == '\\' {
            '/'
        } else {
            s[i]
        });
    }
}

/// Whether any of the rule's patterns matches the given normalized path.
pub open spec fn spec_rule_matches(r: OverrideRuleV, normalized: Seq<char>) -> bool {
    exists|i: int| 0 <= i < r.files.len() && glob_matches(#[trigger] r.files[i], normalized)
}

impl OverrideRule {
    /// Check if any of this rule's patterns matches the given filename,
    /// after path normalization.
    fn matches(&self, filename: &str) -> (r: bool)
        ensures
            r == spec_rule_matches(rule_model(*self), spec_normalize(filename@)),
    {
        let normalized = replace_backslashes(filename);
        proof {
            lemma_normalize_no_backslash(filename@);
        }
        let mut i: usize = 0;
        while i < self.files.len()
            invariant
                i <= self.files@.len(),
                normalized@ == spec_normalize(filename@),
                !normalized@.contains('\\'),
                forall|j: int|
                    0 <= j < i ==> !glob_matches(
                        #[trigger] rule_model(*self).files[j],
                        normalized@,
                    ),
            decreases self.files@.len() - i,
        {
            if glob_match_str(self.files[i].as_str(), normalized.as_str()) {
                proof {
                    assert(glob_matches(rule_model(*self).files[i as int], normalized@));
                }
                return true;
            }
            i = i + 1;
        }
        false
    }
}

/// The top-level configuration: base switches plus ordered per-file
/// override rules, applied in declaration order (later wins).
pub struct PluginConfig {
    /// Base switches.
    pub base: Config,
    /// Per-file override rules, applied in order.
    pub overrides: Vec<OverrideRule>,
}

/// Mathematical value of the top-level configuration.
#[verifier::ext_equal]
pub struct PluginConfigV {
    pub base: Config,
    pub overrides: Seq<OverrideRuleV>,
}

/// The mathematical value of the top-level configuration.
pub open spec fn plugin_model(p: PluginConfig) -> PluginConfigV {
    PluginConfigV { base: p.base, overrides: rules_model(p.overrides@) }
}

impl Default for PluginConfig {
    /// Default base switches and no overrides.
    fn default() -> (r: Self)
        ensures
            r.base == default_config(),
            r.overrides@.len() == 0,
    {
        PluginConfig { base: Config::default(), overrides: Vec::new() }
    }
}

/// Left-to-right fold of the override rules over the running configuration:
/// each rule whose pattern set matches the path merges its explicit fields
/// on top of the running result.
pub open spec fn spec_apply_overrides(
    cur: Config,
    rules: Seq<OverrideRuleV>,
    normalized: Seq<char>,
) -> Config
    decreases rules.len(),
{
    if rules.len() == 0 {
        cur
    } else {
        let next = if spec_rule_matches(rules[0], normalized) {
            spec_merge(cur, rules[0].config)
        } else {
            cur
        };
        spec_apply_overrides(next, rules.drop_first(), normalized)
    }
}

/// The resolved configuration for a file: the base when there is no path
/// context, otherwise the base folded with every matching override rule,
/// in order, against the normalized path.
pub open spec fn spec_resolve(p: PluginConfigV, filename: Option<Seq<char>>) -> Config {
    match filename {
        Option::None => p.base,
        Option::Some(f) => if f.len() == 0 {
            p.base
        } else {
            spec_apply_overrides(p.base, p.overrides, spec_normalize(f))
        },
    }
}

impl PluginConfig {
    /// Resolve the final `Config` for a given filename by applying all
    /// matching overrides, in declaration order.  Without a filename (or
    /// with an empty one) the base configuration is returned unchanged and
    /// no override is consulted.
    pub fn resolve(&self, filename: Option<&str>) -> (r: Config)
        ensures
            filename is None ==> r == self.base,
            filename matches Some(f) ==> r == spec_resolve(plugin_model(*self), Some(f@)),
    {
        let mut config = self.base;

        let filename = match filename {
            Some(f) => {
                if f.is_empty() {
                    return config;
                } else {
                    f
                }
            },
            None => {
                return config;
            },
        };

        let ghost norm = spec_normalize(filename@);
        let ghost all = plugin_model(*self).overrides;
        proof {
            assert(all.skip(0) =~= all);
        }
        let mut i: usize = 0;
        while i < self.overrides.len()
            invariant
                i <= self.overrides@.len(),
                all == rules_model(self.overrides@),
                norm == spec_normalize(filename@),
                spec_apply_overrides(config, all.skip(i as int), norm) == spec_apply_overrides(
                    self.base,
                    all,
                    norm,
                ),
            decreases self.overrides@.len() - i,
        {
            let ghost rest = all.skip(i as int);
            let ghost cfg0 = config;
            proof {
                assert(rest[0] == rule_model(self.overrides@[i as int]));
                assert(rest.drop_first() =~= all.skip(i as int + 1));
            }
            let matched = self.overrides[i].matches(filename);
            proof {
                assert(rest.len() > 0);
                assert(matched == spec_rule_matches(rest[0], norm));
            }
            if matched {
                config = config.merge_override(&self.overrides[i].config);
                proof {
                    assert(rest[0].config == self.overrides@[i as int].config);
                    assert(config == spec_merge(cfg0, rest[0].config));
                }
            }
            proof {
                assert(spec_apply_overrides(cfg0, rest, norm) == spec_apply_overrides(
                    config,
                    rest.drop_first(),
                    norm,
                ));
            }
            i = i + 1;
        }
        proof {
            assert(all.skip(i as int) =~= Seq::<OverrideRuleV>::empty());
        }
        config
    }
}

} // verus!
