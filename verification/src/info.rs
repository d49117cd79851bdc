use vstd::prelude::*;

use crate::environment::{Environment, VarError};
use crate::text::{spec_split, spec_views, split_str};

verus! {

/// Fetches the environment variable key and splits the result at every comma
pub fn get_env_list(key: &str, env: &Environment) -> (r: Result<Vec<String>, VarError>)
    ensures
        match env.spec_var(key@) {
            Ok(v) => r matches Ok(list) && spec_views(list@) == spec_split(v, ','),
            Err(e) => r == Err::<Vec<String>, VarError>(e),
        },
{
    let output = env.var(key)?;
    Ok(split_str(output.as_str(), ','))
}

/// Get the behaviour set for what happens when the program panics
pub fn get_behavior_for_panic(env: &Environment) -> (r: Result<String, VarError>)
    ensures
        match env.spec_var("CARGO_CFG_PANIC"@) {
            Ok(v) => r matches Ok(s) && s@ == v,
            Err(e) => r == Err::<String, VarError>(e),
        },
{
    env.var("CARGO_CFG_PANIC")
}

/// Get the behaviour set for overflow checks
pub fn get_behavior_for_overflow_checks(env: &Environment) -> (r: Result<String, VarError>)
    ensures
        match env.spec_var("CARGO_CFG_OVERFLOW_CHECKS"@) {
            Ok(v) => r matches Ok(s) && s@ == v,
            Err(e) => r == Err::<String, VarError>(e),
        },
{
    env.var("CARGO_CFG_OVERFLOW_CHECKS")
}

} // verus!
