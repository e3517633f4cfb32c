//! Building the environment of a spawned command from a policy and the
//! parent's variables.

use crate::config::ShellEnvironmentPolicy;
use crate::config::ShellEnvironmentPolicyInherit;
use crate::text::str_eq;
use vstd::prelude::*;
use wildmatch::WildMatchPattern;

verus! {

/// Whether a wildcard pattern (`*` any run, `?` one character) matches a
/// name when case is ignored.
pub uninterp spec fn wildcard_matches(pattern: Seq<char>, name: Seq<char>) -> bool;

/// Relies on wildmatch's `WildMatchPattern::<'*', '?'>::new_case_insensitive`
/// and `matches`: the answer depends on the pattern and the name alone.
#[verifier::external_body]
fn pattern_matches(pattern: &str, name: &str) -> (r: bool)
    ensures
        r == wildcard_matches(pattern@, name@),
{
    WildMatchPattern::<'*', '?'>::new_case_insensitive(pattern).matches(name)
}

pub open spec fn matches_any(patterns: Seq<String>, name: Seq<char>) -> bool {
    exists|i: int| 0 <= i < patterns.len() && wildcard_matches(patterns[i]@, name)
}

fn matches_any_exec(patterns: &Vec<String>, name: &str) -> (r: bool)
    ensures
        r == matches_any(patterns@, name@),
{
    let mut i: usize = 0;
    while i < patterns.len()
        invariant
            i <= patterns@.len(),
            forall|j: int| 0 <= j < i ==> !wildcard_matches(patterns@[j]@, name@),
        decreases patterns@.len() - i,
    {
        if pattern_matches(patterns[i].as_str(), name) {
            return true;
        }
        i += 1;
    }
    false
}

/// The variables that the `Core` policy keeps.
pub open spec fn is_core_var(name: Seq<char>) -> bool {
    name == "HOME"@ || name == "LOGNAME"@ || name == "PATH"@ || name == "SHELL"@
        || name == "USER"@ || name == "USERNAME"@ || name == "TMPDIR"@ || name == "TEMP"@
        || name == "TMP"@
}

fn is_core_var_exec(name: &str) -> (r: bool)
    ensures
        r == is_core_var(name@),
{
    str_eq(name, "HOME") || str_eq(name, "LOGNAME") || str_eq(name, "PATH") || str_eq(
        name,
        "SHELL",
    ) || str_eq(name, "USER") || str_eq(name, "USERNAME") || str_eq(name, "TMPDIR") || str_eq(
        name,
        "TEMP",
    ) || str_eq(name, "TMP")
}

/// Names that hold secrets unless the policy says otherwise.
pub open spec fn is_default_excluded(name: Seq<char>) -> bool {
    wildcard_matches("*KEY*"@, name) || wildcard_matches("*TOKEN*"@, name)
}

/// What each step of the policy does to one variable.
pub enum EnvStep {
    KeepCore,
    DropDefaultExcluded,
    DropExcluded,
    KeepIncluded,
}

pub open spec fn step_keeps(step: EnvStep, p: ShellEnvironmentPolicy, name: Seq<char>) -> bool {
    match step {
        EnvStep::KeepCore => is_core_var(name),
        EnvStep::DropDefaultExcluded => !is_default_excluded(name),
        EnvStep::DropExcluded => !matches_any(p.exclude@, name),
        EnvStep::KeepIncluded => matches_any(p.include_only@, name),
    }
}

/// The entries of `env` that a step keeps, in order.
pub open spec fn filter_env(env: Seq<(String, String)>, step: EnvStep, p: ShellEnvironmentPolicy) -> Seq<(String, String)>
    decreases env.len(),
{
    if env.len() == 0 {
        env
    } else {
        let rest = filter_env(env.drop_last(), step, p);
        if step_keeps(step, p, env.last().0@) {
            rest.push(env.last())
        } else {
            rest
        }
    }
}

/// `env` without any entry named `name`.
pub open spec fn without_var(env: Seq<(String, String)>, name: Seq<char>) -> Seq<(String, String)>
    decreases env.len(),
{
    if env.len() == 0 {
        env
    } else {
        let rest = without_var(env.drop_last(), name);
        if env.last().0@ != name {
            rest.push(env.last())
        } else {
            rest
        }
    }
}

/// `env` with each of `vars` set in turn; a later assignment replaces an earlier one.
pub open spec fn overlay_vars(env: Seq<(String, String)>, vars: Seq<(String, String)>) -> Seq<(String, String)>
    decreases vars.len(),
{
    if vars.len() == 0 {
        env
    } else {
        let before = overlay_vars(env, vars.drop_last());
        without_var(before, vars.last().0@).push(vars.last())
    }
}

pub open spec fn inherited_env(p: ShellEnvironmentPolicy, parent: Seq<(String, String)>) -> Seq<(String, String)> {
    match p.inherit {
        ShellEnvironmentPolicyInherit::All => parent,
        ShellEnvironmentPolicyInherit::Empty => Seq::empty(),
        ShellEnvironmentPolicyInherit::Core => filter_env(parent, EnvStep::KeepCore, p),
    }
}

/// The environment that a policy builds from the parent's variables.
pub open spec fn built_env(p: ShellEnvironmentPolicy, parent: Seq<(String, String)>) -> Seq<(String, String)> {
    let start = inherited_env(p, parent);
    let after_default = if p.ignore_default_excludes {
        start
    } else {
        filter_env(start, EnvStep::DropDefaultExcluded, p)
    };
    let after_exclude = filter_env(after_default, EnvStep::DropExcluded, p);
    let after_set = overlay_vars(after_exclude, p.set@);
    if p.include_only@.len() == 0 {
        after_set
    } else {
        filter_env(after_set, EnvStep::KeepIncluded, p)
    }
}

/// The variables of an environment as a map; a later entry wins.
pub open spec fn env_map(env: Seq<(String, String)>) -> Map<Seq<char>, Seq<char>>
    decreases env.len(),
{
    if env.len() == 0 {
        Map::empty()
    } else {
        env_map(env.drop_last()).insert(env.last().0@, env.last().1@)
    }
}

fn keeps_exec(step: &EnvStep, p: &ShellEnvironmentPolicy, name: &str) -> (r: bool)
    ensures
        r == step_keeps(*step, *p, name@),
{
    match step {
        EnvStep::KeepCore => is_core_var_exec(name),
        EnvStep::DropDefaultExcluded => !(pattern_matches("*KEY*", name) || pattern_matches("*TOKEN*", name)),
        EnvStep::DropExcluded => !matches_any_exec(&p.exclude, name),
        EnvStep::KeepIncluded => matches_any_exec(&p.include_only, name),
    }
}

fn filter_env_exec(env: Vec<(String, String)>, step: EnvStep, p: &ShellEnvironmentPolicy) -> (r: Vec<(String, String)>)
    ensures
        r@ == filter_env(env@, step, *p),
{
    let mut out: Vec<(String, String)> = Vec::new();
    let mut i: usize = 0;
    while i < env.len()
        invariant
            i <= env@.len(),
            out@ == filter_env(env@.subrange(0, i as int), step, *p),
        decreases env@.len() - i,
    {
        let entry = &env[i];
        assert(env@.subrange(0, i as int + 1).drop_last() == env@.subrange(0, i as int));
        if keeps_exec(&step, p, entry.0.as_str()) {
            out.push((entry.0.clone(), entry.1.clone()));
        }
        i += 1;
    }
    assert(env@.subrange(0, env@.len() as int) == env@);
    out
}

fn without_var_exec(env: Vec<(String, String)>, name: &str) -> (r: Vec<(String, String)>)
    ensures
        r@ == without_var(env@, name@),
{
    let mut out: Vec<(String, String)> = Vec::new();
    let mut i: usize = 0;
    while i < env.len()
        invariant
            i <= env@.len(),
            out@ == without_var(env@.subrange(0, i as int), name@),
        decreases env@.len() - i,
    {
        let entry = &env[i];
        assert(env@.subrange(0, i as int + 1).drop_last() == env@.subrange(0, i as int));
        if !str_eq(entry.0.as_str(), name) {
            out.push((entry.0.clone(), entry.1.clone()));
        }
        i += 1;
    }
    assert(env@.subrange(0, env@.len() as int) == env@);
    out
}

/// Sets each of `vars` in turn on `env`.
pub fn overlay_vars_exec(env: Vec<(String, String)>, vars: &Vec<(String, String)>) -> (r: Vec<(String, String)>)
    ensures
        r@ == overlay_vars(env@, vars@),
{
    let mut out = env;
    let ghost env0 = out@;
    let mut i: usize = 0;
    while i < vars.len()
        invariant
            i <= vars@.len(),
            out@ == overlay_vars(env0, vars@.subrange(0, i as int)),
        decreases vars@.len() - i,
    {
        assert(vars@.subrange(0, i as int + 1).drop_last() == vars@.subrange(0, i as int));
        let k = vars[i].0.clone();
        let v = vars[i].1.clone();
        out = without_var_exec(out, k.as_str());
        out.push((k, v));
        i += 1;
    }
    assert(vars@.subrange(0, vars@.len() as int) == vars@);
    out
}

/// Builds the environment of a spawned command from `policy` and the
/// parent's variables.
pub fn create_env(policy: &ShellEnvironmentPolicy, parent: Vec<(String, String)>) -> (r: Vec<(String, String)>)
    ensures
        r@ == built_env(*policy, parent@),
{
    let start = match policy.inherit {
        ShellEnvironmentPolicyInherit::All => parent,
        ShellEnvironmentPolicyInherit::Empty => Vec::new(),
        ShellEnvironmentPolicyInherit::Core => filter_env_exec(parent, EnvStep::KeepCore, policy),
    };
    let after_default = if policy.ignore_default_excludes {
        start
    } else {
        filter_env_exec(start, EnvStep::DropDefaultExcluded, policy)
    };
    let after_exclude = filter_env_exec(after_default, EnvStep::DropExcluded, policy);
    let after_set = overlay_vars_exec(after_exclude, &policy.set);
    if policy.include_only.len() == 0 {
        after_set
    } else {
        filter_env_exec(after_set, EnvStep::KeepIncluded, policy)
    }
}

/// Building the environment twice from the same policy and the same parent
/// variables yields the same variables.
pub proof fn lemma_create_env_deterministic(
    policy: ShellEnvironmentPolicy,
    parent1: Seq<(String, String)>,
    parent2: Seq<(String, String)>,
)
    requires
        parent1 == parent2,
    ensures
        built_env(policy, parent1) == built_env(policy, parent2),
        env_map(built_env(policy, parent1)) == env_map(built_env(policy, parent2)),
{
}

} // verus!
