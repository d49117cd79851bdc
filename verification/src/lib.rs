//! Helpers for `build.rs` scripts of the Mirl crates, with a small text
//! formatter for boxed console messages.

/// Prettify text for nice visuals in the console
pub mod pretty_print;
/// Character and byte level helpers
pub mod text;
/// Settings
pub mod settings;
/// A snapshot of the process environment
pub mod environment;
/// Detect/Modify feature flags
pub mod features;
/// All the info you can extract at build time
pub mod info;
/// Searching and slicing by byte offsets
pub mod bytes;
/// cargo.toml related functions
pub mod toml;
/// cargo.lock related functions
pub mod lock;
/// Nightly related functions
pub mod nightly;
/// JSON documents as the dependency check reads them
pub mod json;
/// Lists of named values used as maps
pub mod assoc;
/// Cargo metadata related functions
pub mod metadata;
/// Stable sorting by insertion
pub mod sorting;
/// The warnings of the dependency check
pub mod report;
/// Expand the functionality of rust using the creation of custom libs
pub mod prelude_features;
/// Properties that hold across the operations of the library
pub mod laws;

use vstd::prelude::*;
use vstd::string::*;

use crate::environment::{spec_all_ascii, spec_ascii_upper, spec_to_uppercase, to_uppercase, Environment};
use crate::settings::{FlagConditionCheck, NightlySettings};
use crate::text::{push_str, replace_char, spec_replace_char};
use crate::toml::{has_flag_or_dependency, spec_has_flag_or_dependency};

verus! {

/// Check if current execution is running through cargo test
pub fn is_executing_using_test(env: &Environment) -> (r: bool)
    ensures
        r == env.spec_flag_active("CARGO_CFG_TEST"@),
        r == (env.spec_var("CARGO_CFG_TEST"@) == Ok::<Seq<char>, environment::VarError>("1"@)),
{
    proof {
        reveal_strlit("CARGO_CFG_TEST");
        assert(spec_ascii_upper("CARGO_CFG_TEST"@) =~= "CARGO_CFG_TEST"@);
    }
    features::is_env_flag_active("CARGO_CFG_TEST", env)
}

/// Check if current execution is running through miri
pub fn is_executing_using_miri(env: &Environment) -> (r: bool)
    ensures
        r == env.spec_flag_active("CARGO_MIRI"@),
        r == (env.spec_var("CARGO_MIRI"@) == Ok::<Seq<char>, environment::VarError>("1"@)),
{
    proof {
        reveal_strlit("CARGO_MIRI");
        assert(spec_ascii_upper("CARGO_MIRI"@) =~= "CARGO_MIRI"@);
    }
    features::is_env_flag_active("CARGO_MIRI", env)
}

/// Whether the manifest declares `name` as a flag or dependency, the
/// condition holds, and the feature `name` is not active
pub open spec fn spec_flag_checked(toml: &str, name: &str, condition: bool, env: Environment) -> bool {
    spec_has_flag_or_dependency(toml.spec_bytes(), name.spec_bytes()) && condition
        && !env.spec_flag_active(Environment::spec_feature_variable(name@))
}

/// Handle the known flag checking for as single item: whether the manifest
/// declares `name`, the condition holds and the feature `name` is not active
pub fn is_flag_checked_under_condition(toml: &str, name: &str, condition: bool, env: &Environment) -> (r: bool)
    requires
        toml.spec_bytes().len() <= isize::MAX,
    ensures
        r == spec_flag_checked(toml, name, condition, *env),
{
    has_flag_or_dependency(toml, name) && condition && !features::is_feature_active(name, env)
}

/// Handle the known flag checking: running under miri (or tests) while the
/// crate declares a `miri` (or `test`) flag that is not active is an error,
/// with the message that names the crate `name`
pub fn handle_flag_check(settings: FlagConditionCheck, toml: &str, name: &str, env: &Environment) -> (r: Result<(), String>)
    requires
        toml.spec_bytes().len() <= isize::MAX,
    ensures
        match r {
            Ok(_) => !(settings.miri && spec_flag_checked(
                toml,
                "miri",
                env.spec_flag_active("CARGO_MIRI"@),
                *env,
            )) && !(settings.test && spec_flag_checked(
                toml,
                "test",
                env.spec_flag_active("CARGO_CFG_TEST"@),
                *env,
            )),
            Err(m) => if settings.miri && spec_flag_checked(
                toml,
                "miri",
                env.spec_flag_active("CARGO_MIRI"@),
                *env,
            ) {
                m@ == "Miri used inside "@ + name@ + " without the miri flag being activated"@
            } else {
                settings.test && spec_flag_checked(
                    toml,
                    "test",
                    env.spec_flag_active("CARGO_CFG_TEST"@),
                    *env,
                ) && m@ == "Test used inside "@ + name@ + " without the test flag being activated"@
            },
        },
{
    if settings.miri && is_flag_checked_under_condition(toml, "miri", is_executing_using_miri(env), env) {
        let mut m = String::new();
        push_str(&mut m, "Miri used inside ");
        push_str(&mut m, name);
        push_str(&mut m, " without the miri flag being activated");
        assert(m@ =~= "Miri used inside "@ + name@ + " without the miri flag being activated"@);
        return Err(m);
    }
    if settings.test && is_flag_checked_under_condition(toml, "test", is_executing_using_test(env), env) {
        let mut m = String::new();
        push_str(&mut m, "Test used inside ");
        push_str(&mut m, name);
        push_str(&mut m, " without the test flag being activated");
        assert(m@ =~= "Test used inside "@ + name@ + " without the test flag being activated"@);
        return Err(m);
    }
    Ok(())
}

/// Whether nightly is required, as [`handle_nightly`] decides it
pub open spec fn spec_nightly(settings: NightlySettings, detected: bool) -> bool {
    match settings {
        NightlySettings::DetectAutomatically => detected,
        NightlySettings::OverwriteWithNightly => true,
        NightlySettings::OverwriteWithStable => false,
    }
}

/// Handle nightly behavior with the given settings: whether nightly is
/// required, fixed by the settings or, where they ask for detection, what
/// the detection over the sources of the crate found
pub fn handle_nightly(settings: NightlySettings, detected: bool) -> (r: bool)
    ensures
        r == spec_nightly(settings, detected),
{
    match settings {
        NightlySettings::DetectAutomatically => detected,
        NightlySettings::OverwriteWithNightly => true,
        NightlySettings::OverwriteWithStable => false,
    }
}

/// The compile time flag that tells that the crate `name` is present:
/// `CRATE_PRESENT_` and the name in upper case with `-` as `_`
pub fn crate_present_flag(name: &str) -> (r: String)
    ensures
        r@ == "CRATE_PRESENT_"@ + spec_replace_char(spec_to_uppercase(name@), '-', '_'),
        spec_all_ascii(name@) ==> r@ == "CRATE_PRESENT_"@ + spec_replace_char(
            spec_ascii_upper(name@),
            '-',
            '_',
        ),
{
    let upper = to_uppercase(name);
    let replaced = replace_char(upper.as_str(), '-', '_');
    let mut r = String::new();
    push_str(&mut r, "CRATE_PRESENT_");
    push_str(&mut r, replaced.as_str());
    assert(r@ =~= "CRATE_PRESENT_"@ + replaced@);
    r
}

} // verus!
