use vstd::prelude::*;

use crate::environment::{
    Environment, spec_all_ascii, spec_ascii_upper, spec_to_uppercase, to_uppercase, concat_str,
};
use crate::text::{replace_char, spec_replace_char, spec_starts_with, spec_views, str_eq, str_starts_with};

verus! {

impl Environment {
    /// Whether the variable with the uppercase version of `name` is set to `1`
    pub open spec fn spec_flag_active(self, name: Seq<char>) -> bool {
        self.spec_var(spec_to_uppercase(name)) == Ok::<Seq<char>, crate::environment::VarError>("1"@)
    }

    /// The name of the variable cargo sets for the feature `name`
    pub open spec fn spec_feature_variable(name: Seq<char>) -> Seq<char> {
        "CARGO_FEATURE_"@ + spec_replace_char(name, '-', '_')
    }
}

/// Checks if a flag is set to 1 in current env
pub fn is_env_flag_active(name: &str, env: &Environment) -> (r: bool)
    ensures
        r == env.spec_flag_active(name@),
        spec_all_ascii(name@) ==> r == (env.spec_var(spec_ascii_upper(name@)) == Ok::<
            Seq<char>,
            crate::environment::VarError,
        >("1"@)),
{
    let key = to_uppercase(name);
    match env.var(key.as_str()) {
        Ok(v) => str_eq(v.as_str(), "1"),
        Err(_) => false,
    }
}

/// Checks if a feature flag is currently activated
///
/// Also returns false when a flag doesn't exist
pub fn is_feature_active(name: &str, env: &Environment) -> (r: bool)
    ensures
        r == env.spec_flag_active(Environment::spec_feature_variable(name@)),
{
    let replaced = replace_char(name, '-', '_');
    let key = concat_str("CARGO_FEATURE_", replaced.as_str());
    is_env_flag_active(key.as_str(), env)
}

/// The names of the first `entries` that start with `CARGO_FEATURE_` and are set to `1`
pub open spec fn spec_active_features(entries: Seq<(String, Option<String>)>) -> Seq<Seq<char>>
    decreases entries.len(),
{
    if entries.len() == 0 {
        Seq::empty()
    } else {
        let earlier = spec_active_features(entries.drop_last());
        let e = entries.last();
        if spec_starts_with(e.0@, "CARGO_FEATURE_"@) && (e.1 matches Some(v) && v@ == "1"@) {
            earlier.push(e.0@)
        } else {
            earlier
        }
    }
}

/// Get all active cargo features: the names of the variables that start with
/// `CARGO_FEATURE_` and are set to `1`, in the order of the environment
pub fn get_all_active_features(env: &Environment) -> (r: Vec<String>)
    requires
        env.spec_all_unicode(),
    ensures
        spec_views(r@) == spec_active_features(env.vars@),
{
    let mut output: Vec<String> = Vec::new();
    let mut i: usize = 0;
    while i < env.vars.len()
        invariant
            i <= env.vars@.len(),
            env.spec_all_unicode(),
            spec_views(output@) == spec_active_features(env.vars@.take(i as int)),
        decreases env.vars@.len() - i,
    {
        assert(env.vars@.take(i + 1).drop_last() =~= env.vars@.take(i as int));
        let name = &env.vars[i].0;
        assert(env.vars@[i as int].1 is Some);
        let active = match &env.vars[i].1 {
            Some(val) => str_starts_with(name.as_str(), "CARGO_FEATURE_") && str_eq(val.as_str(), "1"),
            None => false,
        };
        if active {
            let ghost before = spec_views(output@);
            output.push(name.clone());
            assert(spec_views(output@) =~= before.push(name@));
        }
        i = i + 1;
    }
    assert(env.vars@.take(i as int) =~= env.vars@);
    output
}

} // verus!
