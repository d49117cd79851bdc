use mirl_build_tools::environment::{Environment, VarError};
use mirl_build_tools::features::{get_all_active_features, is_env_flag_active, is_feature_active};
use mirl_build_tools::info::{get_behavior_for_overflow_checks, get_behavior_for_panic, get_env_list};
use mirl_build_tools::settings::{FlagConditionCheck, NightlySettings};
use mirl_build_tools::toml::get_toml_path;
use mirl_build_tools::{
    crate_present_flag, handle_flag_check, handle_nightly, is_executing_using_miri,
    is_executing_using_test, is_flag_checked_under_condition,
};

fn env(vars: &[(&str, Option<&str>)]) -> Environment {
    Environment {
        vars: vars
            .iter()
            .map(|(k, v)| (k.to_string(), v.map(|x| x.to_string())))
            .collect(),
    }
}

const TOML: &str = "[package]\nname = \"demo\"\n\n[features]\nmiri = []\ntest = []\n";

#[test]
fn var_reads_the_first_entry() {
    let e = env(&[("A", Some("1")), ("B", None), ("A", Some("2"))]);
    assert_eq!(e.var("A"), Ok("1".to_string()));
    assert_eq!(e.var("B"), Err(VarError::NotUnicode));
    assert_eq!(e.var("C"), Err(VarError::NotPresent));
}

#[test]
fn env_flags_are_upper_case_and_one() {
    let e = env(&[("CARGO_MIRI", Some("1")), ("OTHER", Some("true"))]);
    assert!(is_env_flag_active("cargo_miri", &e));
    assert!(!is_env_flag_active("OTHER", &e));
    assert!(!is_env_flag_active("MISSING", &e));
}

#[test]
fn features_are_read_from_cargo_feature_variables() {
    let e = env(&[("CARGO_FEATURE_MY_FLAG", Some("1")), ("CARGO_FEATURE_STD", Some("0"))]);
    assert!(is_feature_active("my-flag", &e));
    assert!(is_feature_active("my_flag", &e));
    assert!(!is_feature_active("std", &e));
    assert!(!is_feature_active("alloc", &e));
}

#[test]
fn active_features_keep_the_order_of_the_environment() {
    let e = env(&[
        ("CARGO_FEATURE_B", Some("1")),
        ("PATH", Some("/bin")),
        ("CARGO_FEATURE_A", Some("1")),
        ("CARGO_FEATURE_C", Some("yes")),
    ]);
    assert_eq!(
        get_all_active_features(&e),
        vec!["CARGO_FEATURE_B".to_string(), "CARGO_FEATURE_A".to_string()]
    );
}

#[test]
fn info_reads_cargo_variables() {
    let e = env(&[
        ("CARGO_CFG_PANIC", Some("unwind")),
        ("LIST", Some("a,b,,c")),
    ]);
    assert_eq!(get_behavior_for_panic(&e), Ok("unwind".to_string()));
    assert_eq!(get_behavior_for_overflow_checks(&e), Err(VarError::NotPresent));
    assert_eq!(
        get_env_list("LIST", &e),
        Ok(vec!["a".to_string(), "b".to_string(), String::new(), "c".to_string()])
    );
    assert_eq!(get_env_list("NONE", &e), Err(VarError::NotPresent));
}

#[test]
fn execution_modes() {
    let e = env(&[("CARGO_CFG_TEST", Some("1"))]);
    assert!(is_executing_using_test(&e));
    assert!(!is_executing_using_miri(&e));
}

#[test]
fn flag_checked_only_when_declared_and_inactive() {
    let none = env(&[]);
    assert!(is_flag_checked_under_condition(TOML, "miri", true, &none));
    assert!(!is_flag_checked_under_condition(TOML, "miri", false, &none));
    assert!(!is_flag_checked_under_condition(TOML, "other", true, &none));
    let active = env(&[("CARGO_FEATURE_MIRI", Some("1"))]);
    assert!(!is_flag_checked_under_condition(TOML, "miri", true, &active));
}

#[test]
fn flag_check_errors_name_the_crate() {
    let miri = env(&[("CARGO_MIRI", Some("1"))]);
    assert_eq!(
        handle_flag_check(FlagConditionCheck { miri: true, test: true }, TOML, "demo", &miri),
        Err("Miri used inside demo without the miri flag being activated".to_string())
    );
    assert_eq!(
        handle_flag_check(FlagConditionCheck { miri: false, test: true }, TOML, "demo", &miri),
        Ok(())
    );
    let test = env(&[("CARGO_CFG_TEST", Some("1")), ("CARGO_MIRI", Some("1"))]);
    assert_eq!(
        handle_flag_check(FlagConditionCheck { miri: false, test: true }, TOML, "demo", &test),
        Err("Test used inside demo without the test flag being activated".to_string())
    );
    let test_active = env(&[("CARGO_CFG_TEST", Some("1")), ("CARGO_FEATURE_TEST", Some("1"))]);
    assert_eq!(
        handle_flag_check(FlagConditionCheck { miri: true, test: true }, TOML, "demo", &test_active),
        Ok(())
    );
}

#[test]
fn nightly_decision() {
    assert!(handle_nightly(NightlySettings::OverwriteWithNightly, false));
    assert!(!handle_nightly(NightlySettings::OverwriteWithStable, true));
    assert!(handle_nightly(NightlySettings::DetectAutomatically, true));
    assert!(!handle_nightly(NightlySettings::DetectAutomatically, false));
}

#[test]
fn crate_present_flag_is_upper_case() {
    assert_eq!(crate_present_flag("mirl-build_tools"), "CRATE_PRESENT_MIRL_BUILD_TOOLS");
}

#[test]
fn toml_path_is_in_the_manifest_dir() {
    let e = env(&[("CARGO_MANIFEST_DIR", Some("/work/demo"))]);
    assert_eq!(get_toml_path(&e), Ok("/work/demo/Cargo.toml".to_string()));
    assert_eq!(get_toml_path(&env(&[])), Err(VarError::NotPresent));
}
