//! Allow/disallow rules of version manifests, and `${name}` placeholders.
use vstd::prelude::*;

use crate::error::{error_with, rv, LauncherError, LauncherResult};
use crate::patterns::{
    placeholder_at, placeholder_split, placeholder_split_from, regex_split, regex_split_captures,
    split_view, SplitView,
};
use crate::text::{chars_of, starts_with};

verus! {

/// One rule of a library or argument: it matches an OS and a set of features.
pub struct Rule {
    pub action: RuleAction,
    pub os: Option<RuleOs>,
    /// Feature flags the rule asks for; each name once (`well_formed`).
    pub features: Vec<(String, bool)>,
}

/// No key occurs twice in an association list, as in the JSON object or map
/// it stands for.
pub open spec fn keys_distinct<V>(entries: Seq<(String, V)>) -> bool {
    forall|i: int, j: int| 0 <= i < j < entries.len() ==> #[trigger] entries[i].0@ != #[trigger] entries[j].0@
}

impl Rule {
    /// Each feature the rule asks for is named once.
    pub open spec fn well_formed(&self) -> bool {
        keys_distinct(self.features@)
    }
}

pub enum RuleAction {
    Allow,
    Disallow,
}

pub struct RuleOs {
    pub name: Option<String>,
    pub arch: Option<String>,
    /// A regular expression the OS version must match.
    pub version: Option<String>,
}

/// The platform the rules are evaluated against.
pub struct RuntimeEnvironment {
    pub os_name: String,
    pub os_arch: String,
    pub arch_bits: String,
    pub os_version: Option<String>,
    /// Enabled feature flags; each name once (`well_formed`).
    pub features: Vec<(String, bool)>,
}

/// The OS name a manifest uses for a Rust target OS: `macos` is `osx`.
pub open spec fn manifest_os_name(os: Seq<char>) -> Seq<char> {
    if os == "macos"@ {
        "osx"@
    } else {
        os
    }
}

impl RuntimeEnvironment {
    /// Each enabled feature is named once.
    pub open spec fn well_formed(&self) -> bool {
        keys_distinct(self.features@)
    }

    /// The environment of a host, given its Rust target OS and architecture
    /// names and whether pointers are 64 bits wide.
    pub fn from_host(os: &str, arch: &str, pointer_64: bool) -> (e: Self)
        ensures
            e.os_name@ == manifest_os_name(os@),
            e.os_arch@ == arch@,
            e.arch_bits@ == (if pointer_64 {
                "64"@
            } else {
                "32"@
            }),
            e.os_version is None,
            e.features@.len() == 0,
            e.well_formed(),
    {
        let os_chars = chars_of(os);
        let macos = chars_of("macos");
        let os_name = if os_chars.len() == macos.len() && starts_with(&os_chars, &macos) {
            proof {
                assert(os@ == "macos"@);
            }
            String::from_str("osx")
        } else {
            proof {
                if os@ == "macos"@ {
                    assert(os_chars@.subrange(0, macos@.len() as int) =~= os_chars@);
                }
            }
            String::from_str(os)
        };
        let arch_bits = if pointer_64 {
            String::from_str("64")
        } else {
            String::from_str("32")
        };
        RuntimeEnvironment {
            os_name,
            os_arch: String::from_str(arch),
            arch_bits,
            os_version: None,
            features: Vec::new(),
        }
    }
}

/// The value of feature `name` in the environment: the first entry with that
/// name, `false` when there is none.
pub open spec fn feature_value(features: Seq<(String, bool)>, name: Seq<char>) -> bool
    decreases features.len(),
{
    if features.len() == 0 {
        false
    } else if features[0].0@ == name {
        features[0].1
    } else {
        feature_value(features.drop_first(), name)
    }
}

/// Every feature the rule asks for has the asked value in the environment.
pub open spec fn features_match(wanted: Seq<(String, bool)>, have: Seq<(String, bool)>) -> bool {
    forall|i: int| 0 <= i < wanted.len() ==> feature_value(have, wanted[i].0@) == wanted[i].1
}

/// The message for an OS version pattern that does not compile.
pub open spec fn bad_version_regex_message(error: Seq<char>) -> Seq<char> {
    "Invalid OS version rule regex: "@ + error
}

/// Whether a rule matches the environment.
pub open spec fn rule_matches_spec(rule: Rule, env: RuntimeEnvironment) -> Result<bool, Seq<char>> {
    let feats = features_match(rule.features@, env.features@);
    match rule.os {
        None => Ok(feats),
        Some(os) => {
            if os.name is Some && os.name->0@ != env.os_name@ {
                Ok(false)
            } else if os.arch is Some && os.arch->0@ != env.os_arch@ {
                Ok(false)
            } else {
                match os.version {
                    None => Ok(feats),
                    Some(pattern) => match env.os_version {
                        None => Ok(false),
                        Some(version) => match regex_split(pattern@, version@) {
                            Err(e) => Err(bad_version_regex_message(e)),
                            Ok(m) => if m.0.len() == 0 {
                                Ok(false)
                            } else {
                                Ok(feats)
                            },
                        },
                    },
                }
            }
        },
    }
}

/// The outcome of the first `n` rules: the action of the last one that
/// matches (`false` when none does), or the first error met.
pub open spec fn rules_outcome(rules: Seq<Rule>, env: RuntimeEnvironment, n: nat) -> Result<
    bool,
    Seq<char>,
>
    decreases n,
{
    if n == 0 {
        Ok(false)
    } else {
        match rules_outcome(rules, env, (n - 1) as nat) {
            Err(e) => Err(e),
            Ok(acc) => match rule_matches_spec(rules[n - 1], env) {
                Err(e) => Err(e),
                Ok(true) => Ok(rules[n - 1].action is Allow),
                Ok(false) => Ok(acc),
            },
        }
    }
}

/// Whether a rule list allows the environment: an empty list allows it;
/// otherwise the last matching rule decides, and with none matching it is
/// not allowed.
pub open spec fn rules_allow_spec(rules: Seq<Rule>, env: RuntimeEnvironment) -> Result<bool, Seq<char>> {
    if rules.len() == 0 {
        Ok(true)
    } else {
        rules_outcome(rules, env, rules.len())
    }
}

proof fn lemma_outcome_prefix(rules: Seq<Rule>, rule: Rule, env: RuntimeEnvironment, n: nat)
    requires
        n <= rules.len(),
    ensures
        rules_outcome(rules.push(rule), env, n) == rules_outcome(rules, env, n),
    decreases n,
{
    if n > 0 {
        lemma_outcome_prefix(rules, rule, env, (n - 1) as nat);
        assert(rules.push(rule)[n - 1] == rules[n - 1]);
    }
}

/// A rule added after the others decides when it matches, whatever they
/// said (so a later disallow overrides an allow); one that does not match
/// leaves a non-empty list's outcome as it was.
pub proof fn lemma_later_rule_overrides(rules: Seq<Rule>, rule: Rule, env: RuntimeEnvironment)
    requires
        rules_outcome(rules, env, rules.len()) is Ok,
    ensures
        rule_matches_spec(rule, env) == Ok::<bool, Seq<char>>(true) ==> rules_allow_spec(rules.push(rule), env)
            == Ok::<bool, Seq<char>>(rule.action is Allow),
        rule_matches_spec(rule, env) == Ok::<bool, Seq<char>>(false) && rules.len() > 0 ==> rules_allow_spec(
            rules.push(rule),
            env,
        ) == rules_allow_spec(rules, env),
{
    lemma_outcome_prefix(rules, rule, env, rules.len());
    assert(rules.push(rule)[rules.len() as int] == rule);
}

/// With each name once, a feature list reads as the map it stands for:
/// every entry gives the value of its name, whichever order the entries
/// come in.
pub proof fn lemma_feature_value_of_entry(features: Seq<(String, bool)>, k: int)
    requires
        keys_distinct(features),
        0 <= k < features.len(),
    ensures
        feature_value(features, features[k].0@) == features[k].1,
    decreases k,
{
    if k > 0 {
        assert(features[0].0@ != features[k].0@);
        let rest = features.drop_first();
        assert(keys_distinct(rest)) by {
            assert forall|i: int, j: int| 0 <= i < j < rest.len() implies #[trigger] rest[i].0@ != #[trigger] rest[j].0@ by {
                assert(rest[i] == features[i + 1] && rest[j] == features[j + 1]);
            }
        }
        assert(rest[k - 1] == features[k]);
        lemma_feature_value_of_entry(rest, k - 1);
    }
}

/// `name` is enabled among `features`: some entry names it with `true`.
pub open spec fn feature_enabled(features: Seq<(String, bool)>, name: Seq<char>) -> bool {
    exists|k: int| 0 <= k < features.len() && #[trigger] features[k].0@ == name && features[k].1
}

proof fn lemma_feature_value_absent(features: Seq<(String, bool)>, name: Seq<char>)
    requires
        forall|k: int| 0 <= k < features.len() ==> #[trigger] features[k].0@ != name,
    ensures
        !feature_value(features, name),
    decreases features.len(),
{
    if features.len() > 0 {
        assert(features[0].0@ != name);
        let rest = features.drop_first();
        assert forall|k: int| 0 <= k < rest.len() implies #[trigger] rest[k].0@ != name by {
            assert(rest[k] == features[k + 1]);
        }
        lemma_feature_value_absent(rest, name);
    }
}

/// With each name once, the value of a feature is whether it is enabled:
/// an absent feature counts as disabled.
pub proof fn lemma_feature_value_is_enabled(features: Seq<(String, bool)>, name: Seq<char>)
    requires
        keys_distinct(features),
    ensures
        feature_value(features, name) == feature_enabled(features, name),
{
    if exists|k: int| 0 <= k < features.len() && #[trigger] features[k].0@ == name {
        let k = choose|k: int| 0 <= k < features.len() && #[trigger] features[k].0@ == name;
        lemma_feature_value_of_entry(features, k);
        if feature_enabled(features, name) {
            let j = choose|j: int| 0 <= j < features.len() && #[trigger] features[j].0@ == name && features[j].1;
            if j != k {
                if j < k {
                    assert(features[j].0@ != features[k].0@);
                } else {
                    assert(features[k].0@ != features[j].0@);
                }
            }
        }
    } else {
        lemma_feature_value_absent(features, name);
    }
}

/// A rule matches only when every feature it asks for has the asked value
/// in the environment, a feature the environment does not list counting as
/// disabled: a rule asking for `is_demo_user = true` never matches a host
/// with no features enabled.
pub proof fn lemma_rule_needs_its_features(rule: Rule, env: RuntimeEnvironment)
    requires
        env.well_formed(),
        rule_matches_spec(rule, env) == Ok::<bool, Seq<char>>(true),
    ensures
        forall|i: int|
            0 <= i < rule.features@.len() ==> #[trigger] rule.features@[i].1 == feature_enabled(
                env.features@,
                rule.features@[i].0@,
            ),
{
    assert forall|i: int| 0 <= i < rule.features@.len() implies #[trigger] rule.features@[i].1
        == feature_enabled(env.features@, rule.features@[i].0@) by {
        lemma_feature_value_is_enabled(env.features@, rule.features@[i].0@);
    }
}

/// A rule with no OS condition, alone in its list, allows exactly when it is
/// an allow rule and every feature it asks for has the asked value in the
/// environment (an unlisted feature counting as disabled).
pub proof fn lemma_feature_gated_rule(rule: Rule, env: RuntimeEnvironment)
    requires
        rule.os is None,
        env.well_formed(),
    ensures
        rules_allow_spec(seq![rule], env) == Ok::<bool, Seq<char>>(
            rule.action is Allow && forall|i: int|
                0 <= i < rule.features@.len() ==> #[trigger] rule.features@[i].1 == feature_enabled(
                    env.features@,
                    rule.features@[i].0@,
                ),
        ),
{
    let all = forall|i: int|
        0 <= i < rule.features@.len() ==> #[trigger] rule.features@[i].1 == feature_enabled(
            env.features@,
            rule.features@[i].0@,
        );
    assert(features_match(rule.features@, env.features@) == all) by {
        assert forall|i: int| 0 <= i < rule.features@.len() implies feature_value(
            env.features@,
            rule.features@[i].0@,
        ) == feature_enabled(env.features@, rule.features@[i].0@) by {
            lemma_feature_value_is_enabled(env.features@, rule.features@[i].0@);
        }
    }
    assert(seq![rule][0] == rule);
    assert(rules_outcome(seq![rule], env, 0) == Ok::<bool, Seq<char>>(false));
}

fn lookup_feature(features: &Vec<(String, bool)>, name: &String) -> (r: bool)
    ensures
        r == feature_value(features@, name@),
{
    let mut i: usize = 0;
    assert(features@.skip(0) =~= features@);
    while i < features.len()
        invariant
            i <= features.len(),
            feature_value(features@, name@) == feature_value(features@.skip(i as int), name@),
        decreases features.len() - i,
    {
        assert(features@.skip(i as int).drop_first() =~= features@.skip(i + 1));
        if features[i].0 == *name {
            return features[i].1;
        }
        i = i + 1;
    }
    false
}

fn features_all_match(wanted: &Vec<(String, bool)>, have: &Vec<(String, bool)>) -> (r: bool)
    ensures
        r == features_match(wanted@, have@),
{
    let mut i: usize = 0;
    while i < wanted.len()
        invariant
            i <= wanted.len(),
            forall|j: int|
                0 <= j < i ==> feature_value(have@, wanted@[j].0@) == wanted@[j].1,
        decreases wanted.len() - i,
    {
        if lookup_feature(have, &wanted[i].0) != wanted[i].1 {
            return false;
        }
        i = i + 1;
    }
    true
}

fn rule_matches(rule: &Rule, env: &RuntimeEnvironment) -> (r: LauncherResult<bool>)
    ensures
        rv(r) == rule_matches_spec(*rule, *env),
{
    if let Some(os_rule) = &rule.os {
        if let Some(name) = &os_rule.name {
            if *name != env.os_name {
                return Ok(false);
            }
        }
        if let Some(arch) = &os_rule.arch {
            if *arch != env.os_arch {
                return Ok(false);
            }
        }
        if let Some(pattern) = &os_rule.version {
            let version = match &env.os_version {
                Some(v) => v,
                None => {
                    return Ok(false);
                },
            };
            match regex_split_captures(pattern.as_str(), version.as_str()) {
                Err(e) => {
                    return Err(error_with("Invalid OS version rule regex: ", e.as_str()));
                },
                Ok(found) => {
                    if found.0.len() == 0 {
                        return Ok(false);
                    }
                },
            }
        }
    }
    Ok(features_all_match(&rule.features, &env.features))
}

/// Evaluates a rule list against the environment.
pub fn rules_allow(rules: &Vec<Rule>, environment: &RuntimeEnvironment) -> (r: LauncherResult<bool>)
    ensures
        rv(r) == rules_allow_spec(rules@, *environment),
{
    if rules.len() == 0 {
        return Ok(true);
    }
    let mut allowed = false;
    let mut i: usize = 0;
    while i < rules.len()
        invariant
            i <= rules.len(),
            rules_outcome(rules@, *environment, i as nat) == Ok::<bool, Seq<char>>(allowed),
        decreases rules.len() - i,
    {
        let m = rule_matches(&rules[i], environment);
        match m {
            Err(e) => {
                proof {
                    lemma_outcome_error_persists(rules@, *environment, (i + 1) as nat, rules.len() as nat);
                }
                return Err(e);
            },
            Ok(true) => {
                allowed = match rules[i].action {
                    RuleAction::Allow => true,
                    RuleAction::Disallow => false,
                };
            },
            Ok(false) => {},
        }
        i = i + 1;
    }
    Ok(allowed)
}

/// Once an error is met, it stays the outcome.
pub proof fn lemma_outcome_error_persists(rules: Seq<Rule>, env: RuntimeEnvironment, k: nat, n: nat)
    requires
        k <= n,
        rules_outcome(rules, env, k) is Err,
    ensures
        rules_outcome(rules, env, n) == rules_outcome(rules, env, k),
    decreases n - k,
{
    if k < n {
        lemma_outcome_error_persists(rules, env, k, (n - 1) as nat);
    }
}


/// The name each match of a placeholder split stands for: its first group.
pub open spec fn split_names(m: SplitView) -> Seq<Seq<char>> {
    m.0.map_values(|p: (Seq<char>, Seq<Option<Seq<char>>>)| p.1[0]->Some_0)
}

/// The literal text and resolved values of the first `n` matches, in order.
pub open spec fn render_prefix(
    pieces: Seq<(Seq<char>, Seq<Option<Seq<char>>>)>,
    vals: Seq<Seq<char>>,
    n: nat,
) -> Seq<char>
    decreases n,
{
    if n == 0 {
        Seq::empty()
    } else {
        render_prefix(pieces, vals, (n - 1) as nat) + pieces[n - 1].0 + vals[n - 1]
    }
}

/// The text with every match replaced by its value.
pub open spec fn render_split(m: SplitView, vals: Seq<Seq<char>>) -> Seq<char> {
    render_prefix(m.0, vals, m.0.len()) + m.1
}

/// The placeholder names of `raw`, leftmost first.
pub open spec fn placeholder_names(raw: Seq<char>) -> Seq<Seq<char>> {
    split_names(placeholder_split(raw))
}

/// A call of the resolver on `name` may return `Ok(value)`.
pub open spec fn resolver_gives<F: Fn(&str) -> LauncherResult<String>>(
    f: F,
    name: Seq<char>,
    value: Seq<char>,
) -> bool {
    exists|a: &str, o: String|
        #![trigger call_ensures(f, (a,), Ok::<String, LauncherError>(o))]
        a@ == name && o@ == value && call_ensures(f, (a,), Ok::<String, LauncherError>(o))
}

/// `out` is `raw` with each placeholder replaced by a value the resolver
/// gave for its name.
pub open spec fn resolved_render<F: Fn(&str) -> LauncherResult<String>>(
    f: F,
    raw: Seq<char>,
    out: Seq<char>,
) -> bool {
    exists|vals: Seq<Seq<char>>|
        #![trigger render_split(placeholder_split(raw), vals)]
        vals.len() == placeholder_names(raw).len() && (forall|i: int|
            0 <= i < vals.len() ==> resolver_gives(f, placeholder_names(raw)[i], #[trigger] vals[i]))
            && out == render_split(placeholder_split(raw), vals)
}

/// The resolver gave `vals[k]` for each of the first `j` names.
pub open spec fn resolved_names<F: Fn(&str) -> LauncherResult<String>>(
    f: F,
    names: Seq<Seq<char>>,
    vals: Seq<Seq<char>>,
    j: int,
) -> bool {
    vals.len() == j && forall|k: int| 0 <= k < j ==> resolver_gives(f, names[k], #[trigger] vals[k])
}

/// The resolver returned `e` for the `j`-th placeholder name of `raw`, after
/// returning a value for each name before it: `e` is the first failure,
/// names being resolved leftmost first.
pub open spec fn resolver_failed_at<F: Fn(&str) -> LauncherResult<String>>(
    f: F,
    raw: Seq<char>,
    e: LauncherError,
    j: int,
) -> bool {
    &&& 0 <= j < placeholder_names(raw).len()
    &&& exists|vals: Seq<Seq<char>>| #[trigger] resolved_names(f, placeholder_names(raw), vals, j)
    &&& exists|a: &str|
        #![trigger call_ensures(f, (a,), Err::<String, LauncherError>(e))]
        a@ == placeholder_names(raw)[j] && call_ensures(f, (a,), Err::<String, LauncherError>(e))
}

/// The resolver's first failure on the names of `raw` was `e`.
pub open spec fn resolver_failed<F: Fn(&str) -> LauncherResult<String>>(
    f: F,
    raw: Seq<char>,
    e: LauncherError,
) -> bool {
    exists|j: int| resolver_failed_at(f, raw, e, j)
}

/// Every match of a placeholder split has exactly one group, and it is set.
pub proof fn lemma_placeholder_split_shape(s: Seq<char>, start: int, i: int)
    ensures
        forall|k: int|
            0 <= k < placeholder_split_from(s, start, i).0.len() ==> {
                &&& (#[trigger] placeholder_split_from(s, start, i).0[k]).1.len() == 1
                &&& placeholder_split_from(s, start, i).0[k].1[0] is Some
            },
    decreases s.len() - i,
{
    if i < 0 || i >= s.len() {
    } else if placeholder_at(s, i) {
        let c = crate::patterns::close_brace(s, i + 2);
        lemma_placeholder_split_shape(s, c + 1, c + 1);
        let rest = placeholder_split_from(s, c + 1, c + 1);
        let all = placeholder_split_from(s, start, i);
        assert forall|k: int| 0 <= k < all.0.len() implies (#[trigger] all.0[k]).1.len() == 1
            && all.0[k].1[0] is Some by {
            if k > 0 {
                assert(all.0[k] == rest.0[k - 1]);
            }
        }
    } else {
        lemma_placeholder_split_shape(s, start, i + 1);
    }
}

/// Replaces every `${name}` in `raw_value` by what `resolver` returns for
/// `name`, left to right; the resolver is called once per match in that
/// order and the first error it returns is returned, no later name being
/// asked for.
pub fn replace_placeholders<F: Fn(&str) -> LauncherResult<String>>(
    raw_value: &str,
    resolver: F,
) -> (r: LauncherResult<String>)
    requires
        forall|a: &str| resolver.requires((a,)),
    ensures
        r is Ok ==> resolved_render(resolver, raw_value@, r->Ok_0@),
        r is Err ==> resolver_failed(resolver, raw_value@, r->Err_0),
{
    let found = regex_split_captures("\\$\\{([^}]+)\\}", raw_value);
    let split = match found {
        Ok(x) => x,
        Err(e) => {
            proof {
                assert(false);
            }
            return Err(LauncherError::new(e));
        },
    };
    let ghost m = placeholder_split(raw_value@);
    assert(split_view(split) == m);
    proof {
        lemma_placeholder_split_shape(raw_value@, 0, 0);
    }
    let ghost names = placeholder_names(raw_value@);
    let mut out = String::new();
    let ghost mut vals: Seq<Seq<char>> = Seq::empty();
    let mut i: usize = 0;
    while i < split.0.len()
        invariant
            forall|a: &str| resolver.requires((a,)),
            split_view(split) == m,
            m == placeholder_split(raw_value@),
            names == split_names(m),
            forall|k: int| 0 <= k < m.0.len() ==> (#[trigger] m.0[k]).1.len() == 1 && m.0[k].1[0] is Some,
            i <= split.0.len(),
            vals.len() == i,
            forall|k: int| 0 <= k < i ==> resolver_gives(resolver, names[k], #[trigger] vals[k]),
            out@ == render_prefix(m.0, vals, i as nat),
        decreases split.0.len() - i,
    {
        let piece = &split.0[i];
        assert(m.0[i as int] == (piece.0@, piece.1@.map_values(|o: Option<String>| crate::patterns::opt_view(o))));
        assert(piece.1@.len() == 1);
        let name: &String = match &piece.1[0] {
            Some(n) => n,
            None => {
                proof {
                    assert(m.0[i as int].1[0] is None);
                }
                return Err(LauncherError::new(String::new()));
            },
        };
        assert(names[i as int] == name@);
        let name_str: &str = name.as_str();
        let res = resolver(name_str);
        match res {
            Ok(value) => {
                proof {
                    assert(call_ensures(resolver, (name_str,), Ok::<String, LauncherError>(value)));
                    assert(resolver_gives(resolver, names[i as int], value@));
                }
                out.append(piece.0.as_str());
                out.append(value.as_str());
                proof {
                    let nv = vals.push(value@);
                    assert(render_prefix(m.0, nv, (i + 1) as nat) == render_prefix(m.0, nv, i as nat) + m.0[i as int].0 + nv[i as int]);
                    assert(render_prefix(m.0, nv, i as nat) == render_prefix(m.0, vals, i as nat)) by {
                        lemma_render_prefix_ext(m.0, vals, nv, i as nat);
                    }
                    vals = nv;
                }
                i = i + 1;
            },
            Err(e) => {
                proof {
                    assert(call_ensures(resolver, (name_str,), Err::<String, LauncherError>(e)));
                    assert(names[i as int] == name@);
                    assert(resolved_names(resolver, names, vals, i as int));
                    assert(resolver_failed_at(resolver, raw_value@, e, i as int));
                }
                return Err(e);
            },
        }
    }
    out.append(split.1.as_str());
    assert(out@ == render_split(m, vals));
    Ok(out)
}

/// Rendering the first `n` matches reads only the first `n` values.
pub proof fn lemma_render_prefix_ext(
    pieces: Seq<(Seq<char>, Seq<Option<Seq<char>>>)>,
    a: Seq<Seq<char>>,
    b: Seq<Seq<char>>,
    n: nat,
)
    requires
        n <= a.len(),
        n <= b.len(),
        forall|k: int| 0 <= k < n ==> a[k] == b[k],
    ensures
        render_prefix(pieces, a, n) == render_prefix(pieces, b, n),
    decreases n,
{
    if n > 0 {
        lemma_render_prefix_ext(pieces, a, b, (n - 1) as nat);
    }
}

} // verus!
