use mirl_build_tools::settings::{
    DependencyCheck, DependencyCheckSettings, FlagConditionCheck, NightlySettings,
    SelectedDependencyType, SetupSettings,
};

#[test]
fn setup_defaults() {
    let s = SetupSettings::default();
    assert_eq!(s.nightly, NightlySettings::OverwriteWithNightly);
    assert!(s.set_crate_present_cfg);
    assert_eq!(s.flag_condition_check, FlagConditionCheck { miri: true, test: true });
    assert_eq!(s.dependency_check, DependencyCheck::Check(DependencyCheckSettings::default()));
}

#[test]
fn dependency_check_settings_defaults() {
    let d = DependencyCheckSettings::default();
    assert!(d.exclude_default);
    assert!(d.exclude_flags_with_leading_underscore);
    assert_eq!(
        d.blacklisted_dependency_kind,
        SelectedDependencyType { normal: true, build: false, dev: false }
    );
    assert!(d.blacklisted_dependency_kind_is_whitelist);
    assert!(d.blacklisted_dependencies.is_empty());
    assert!(!d.blacklisted_dependencies_is_whitelist);
    assert!(d.blacklisted_features.is_empty());
    assert!(!d.blacklisted_features_is_whitelist);
    assert!(d.blacklisted_dependency_features_combination.is_empty());
}

#[test]
fn setup_builders_chain() {
    let mut s = SetupSettings::default();
    s.set_nightly_detect_automatically()
        .disable_crate_present_cfg()
        .disable_dependency_check();
    assert_eq!(s.nightly, NightlySettings::DetectAutomatically);
    assert!(!s.set_crate_present_cfg);
    assert_eq!(s.dependency_check, DependencyCheck::DoNotCheck);
    s.enable_dependency_check();
    assert_eq!(s.dependency_check, DependencyCheck::Check(DependencyCheckSettings::default()));
    s.set_nightly_overwrite_with_stable();
    assert_eq!(s.nightly, NightlySettings::OverwriteWithStable);
    s.reset();
    assert_eq!(s, SetupSettings::default());
}

#[test]
fn enabled_dependency_check_settings_applies_closure() {
    let mut s = SetupSettings::default();
    s.disable_dependency_check();
    s.with_enabled_dependency_check_settings(|d| {
        d.set_exclude_default(false);
    });
    match &s.dependency_check {
        DependencyCheck::Check(d) => {
            assert!(!d.exclude_default);
            assert!(d.exclude_flags_with_leading_underscore);
        }
        DependencyCheck::DoNotCheck => panic!("the check should be on"),
    }
}

#[test]
fn flag_condition_check_builders() {
    let mut f = FlagConditionCheck::default();
    f.disable_miri();
    assert_eq!(f, FlagConditionCheck { miri: false, test: true });
    f.disable_test().enable_miri();
    assert_eq!(f, FlagConditionCheck { miri: true, test: false });
    f.set_all(false);
    assert_eq!(f, FlagConditionCheck { miri: false, test: false });
    f.enable_all();
    assert_eq!(f, FlagConditionCheck { miri: true, test: true });
}

#[test]
fn nightly_settings_builders() {
    let mut n = NightlySettings::default();
    assert_eq!(n, NightlySettings::OverwriteWithNightly);
    n.set_detect_automatically();
    assert_eq!(n, NightlySettings::DetectAutomatically);
    n.set(NightlySettings::OverwriteWithStable);
    assert_eq!(n, NightlySettings::OverwriteWithStable);
}

#[test]
fn blacklist_add_is_idempotent_and_remove_removes() {
    let mut d = DependencyCheckSettings::default();
    d.add_blacklisted_dependency("serde").add_blacklisted_dependency("serde");
    assert_eq!(d.blacklisted_dependencies, vec!["serde".to_string()]);
    d.add_blacklisted_dependencies(&["rand", "serde", "log"]);
    assert_eq!(
        d.blacklisted_dependencies,
        vec!["serde".to_string(), "rand".to_string(), "log".to_string()]
    );
    d.remove_blacklisted_dependency("rand");
    assert_eq!(d.blacklisted_dependencies, vec!["serde".to_string(), "log".to_string()]);
    d.clear_blacklisted_dependencies();
    assert!(d.blacklisted_dependencies.is_empty());
}

#[test]
fn feature_blacklist_and_combinations() {
    let mut d = DependencyCheckSettings::default();
    d.add_blacklisted_features(&["std", "alloc"]).add_blacklisted_feature("std");
    assert_eq!(d.blacklisted_features, vec!["std".to_string(), "alloc".to_string()]);
    d.remove_blacklisted_feature("std");
    assert_eq!(d.blacklisted_features, vec!["alloc".to_string()]);
    d.add_blacklisted_dependency_feature_combination("serde", "std");
    d.add_blacklisted_dependency_feature_combination("serde", "std");
    assert_eq!(
        d.blacklisted_dependency_features_combination,
        vec![("serde".to_string(), "std".to_string())]
    );
    d.remove_blacklisted_dependency_feature_combination("serde", "std");
    assert!(d.blacklisted_dependency_features_combination.is_empty());
    d.set_blacklisted_features_is_whitelist(true).set_exclude_default(false);
    assert!(d.blacklisted_features_is_whitelist);
    assert!(!d.exclude_default);
    d.reset();
    assert_eq!(d, DependencyCheckSettings::default());
}

#[test]
fn selected_dependency_type_toggles() {
    let mut k = SelectedDependencyType::default();
    k.toggle_build().toggle_normal();
    assert_eq!(k, SelectedDependencyType { normal: false, build: true, dev: false });
    k.enable_all();
    assert_eq!(k, SelectedDependencyType { normal: true, build: true, dev: true });
    k.toggle_dev().toggle_dev();
    assert_eq!(k, SelectedDependencyType { normal: true, build: true, dev: true });
    k.disable_all();
    assert_eq!(k, SelectedDependencyType { normal: false, build: false, dev: false });
}

#[test]
fn dependency_check_variants() {
    let mut c = DependencyCheck::default();
    assert!(c.settings_mut().is_some());
    c.set_do_not_check();
    assert!(c.settings_mut().is_none());
    c.ensure_check_mut().set_exclude_default(false);
    match c {
        DependencyCheck::Check(d) => assert!(!d.exclude_default),
        DependencyCheck::DoNotCheck => panic!("expected the check"),
    }
}

#[test]
fn removing_after_adding_restores_the_list() {
    let mut d = DependencyCheckSettings::default();
    d.add_blacklisted_features(&["a", "b"]);
    let before = d.blacklisted_features.clone();
    d.add_blacklisted_feature("c").remove_blacklisted_feature("c");
    assert_eq!(d.blacklisted_features, before);
}

#[test]
fn adding_several_dependencies_keeps_them_once() {
    let mut s = DependencyCheckSettings::default();
    s.add_blacklisted_dependency("a").add_blacklisted_dependency("b");
    s.add_blacklisted_dependencies(&["c", "a", "c", "d"]);
    assert_eq!(s.blacklisted_dependencies, vec!["a", "b", "c", "d"]);
    assert_eq!(s.blacklisted_features, Vec::<String>::new());
}
