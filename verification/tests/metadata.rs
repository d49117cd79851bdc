use std::borrow::Cow;

use mirl_build_tools::json::{array_items, get, str_at, JsonNode, JsonValue};
use mirl_build_tools::metadata::{
    do_all_features_call_dependency_features_with_same_name,
    do_dep_feature_check_for_metadata, ActivateFeature, CargoMetaDataPackageInfo, CrateDependencies,
    CrateDependency, CrateFeature, CrateFeatures, DependencyKind, DoDepCheckError,
    FeatureFlagsMissingDependencies, GetCargoInfoError,
};
use mirl_build_tools::report::dependency_check_messages;
use mirl_build_tools::settings::{DependencyCheckSettings, SelectedDependencyType};

const METADATA: &str = r#"{
 "packages": [
  {"name": "app", "version": "0.1.0",
   "dependencies": [
     {"name": "lib", "req": "^1", "kind": null, "optional": false, "uses_default_features": true, "features": []},
     {"name": "opt", "req": "^2", "kind": null, "optional": true, "uses_default_features": false, "features": ["x"]},
     {"name": "tool", "req": "^3", "kind": "build", "optional": false, "uses_default_features": true, "features": []},
     {"name": "tst", "req": "*", "kind": "dev", "optional": false, "uses_default_features": true, "features": []}
   ],
   "features": {"default": ["std"], "std": ["lib/std"], "fast": [], "opt": ["dep:opt"], "extra": ["opt?/extra", "fast"], "_hidden": []}
  },
  {"name": "lib", "dependencies": [], "features": {"default": [], "std": [], "fast": [], "extra": [], "_hidden": []}},
  {"name": "opt", "dependencies": [], "features": {"extra": [], "fast": []}},
  {"name": "broken", "dependencies": [{"name": "x", "req": "1", "kind": "weird", "optional": false, "uses_default_features": true, "features": []}], "features": {}}
 ]
}"#;

const TOML: &str = "[package]\nname = \"app\"\n\n[features]\ndefault = [\"std\"]\nstd = [\"lib/std\"]\nfast = []\nextra = [\"opt?/extra\", \"fast\"]\n";

fn packages() -> CargoMetaDataPackageInfo {
    let value = JsonValue::parse(METADATA).expect("valid JSON");
    let p = get(&value.tape, value.root, "packages").expect("packages");
    CargoMetaDataPackageInfo::new_from_packages(JsonValue { tape: value.tape, root: p })
        .expect("array of objects")
}

fn flags_of(m: &FeatureFlagsMissingDependencies, name: &str) -> Option<Vec<(String, bool)>> {
    m.flags.iter().find(|(k, _)| k == name).map(|(_, v)| v.clone())
}

#[test]
fn json_tape_accessors() {
    let v = JsonValue::parse(r#"{"a": [1, "x", true], "b": "y"}"#).unwrap();
    assert_eq!(v.root, 0);
    let a = get(&v.tape, v.root, "a").unwrap();
    let items = array_items(&v.tape, a).unwrap();
    assert_eq!(items.len(), 3);
    assert_eq!(str_at(&v.tape, items[1]), Some("x"));
    assert_eq!(v.tape[items[2]], JsonNode::Bool(true));
    assert_eq!(v.tape[items[0]], JsonNode::Number);
    let b = get(&v.tape, v.root, "b").unwrap();
    assert_eq!(str_at(&v.tape, b), Some("y"));
    assert_eq!(get(&v.tape, v.root, "c"), None);
    assert!(JsonValue::parse("{not json").is_err());
}

#[test]
fn packages_must_be_an_array_of_objects() {
    let v = JsonValue::parse(r#"[{"name": "a"}, 3]"#).unwrap();
    assert!(matches!(
        CargoMetaDataPackageInfo::new_from_packages(v),
        Err(DoDepCheckError::InvalidPackagesFormat)
    ));
    let v = JsonValue::parse(r#"{"name": "a"}"#).unwrap();
    assert!(matches!(
        CargoMetaDataPackageInfo::new_from_packages(v),
        Err(DoDepCheckError::InvalidPackagesFormat)
    ));
}

#[test]
fn packages_are_found_by_name() {
    let m = packages();
    assert_eq!(m.get_idx_of_package("app"), Some(0));
    assert_eq!(m.get_idx_of_package("opt"), Some(2));
    assert_eq!(m.get_idx_of_package("none"), None);
}

#[test]
fn process_reads_dependencies_and_features() {
    let mut m = packages();
    let deps = m.get_dependencies_of_package("app").unwrap().clone();
    assert_eq!(
        deps.dependencies[0],
        CrateDependency {
            name: "lib".to_string(),
            version: "^1".to_string(),
            optional: false,
            kind: DependencyKind::Normal,
            active_features: vec![],
            use_default_features: true,
        }
    );
    assert_eq!(deps.dependencies[1].active_features, vec!["x".to_string()]);
    assert!(deps.dependencies[1].optional);
    assert_eq!(deps.dependencies[2].kind, DependencyKind::Build);
    assert_eq!(deps.dependencies[3].kind, DependencyKind::Dev);
    assert_eq!(
        deps.get_all_optional_dependency_names(),
        vec![&"opt".to_string()]
    );
    assert_eq!(deps.get_all_non_optional_dependency_names().len(), 3);
    let mut split: Vec<&String> = deps.get_all_optional_dependency_names();
    split.extend(deps.get_all_non_optional_dependency_names());
    let mut all = deps.get_all_dependency_names();
    split.sort();
    all.sort();
    assert_eq!(split, all);
    assert!(deps.contains_dep("tool"));
    assert!(!deps.contains_dep("app"));

    let features = m.get_features_of_package("app").unwrap().clone();
    let names: Vec<String> = features.get_feature_names().into_iter().cloned().collect();
    assert_eq!(names, ["default", "std", "fast", "opt", "extra", "_hidden"]);
    assert_eq!(
        features.get_flag("default").unwrap().activating,
        vec![ActivateFeature::Feature("std".to_string())]
    );
    assert_eq!(
        features.get_flag("std").unwrap().activating,
        vec![ActivateFeature::DependencyFeature {
            dep: "lib".to_string(),
            feature: "std".to_string(),
            weak: false
        }]
    );
    assert_eq!(
        features.get_flag("opt").unwrap().activating,
        vec![ActivateFeature::Dependency("opt".to_string())]
    );
    assert_eq!(
        features.get_flag("extra").unwrap().activating,
        vec![
            ActivateFeature::DependencyFeature {
                dep: "opt".to_string(),
                feature: "extra".to_string(),
                weak: true
            },
            ActivateFeature::Feature("fast".to_string())
        ]
    );
    assert!(features.get_flag("none").is_none());
    // processed packages leave the list
    assert_eq!(m.get_idx_of_package("app"), None);
    assert_eq!(m.get_idx_of_package("lib"), Some(0));
}

#[test]
fn unknown_package_is_not_found() {
    let mut m = packages();
    match m.process_package("none") {
        Err(DoDepCheckError::PackageNotFound(p)) => assert_eq!(p, "none"),
        other => panic!("unexpected {:?}", other),
    }
}

#[test]
fn unknown_dependency_kind_is_malformed() {
    let mut m = packages();
    match m.process_package("broken") {
        Err(DoDepCheckError::MalformedPackageField { package, field }) => {
            assert_eq!(package, "Package: broken, Found value: 'weird'");
            assert_eq!(field, "dependencies[].kind");
        }
        other => panic!("unexpected {:?}", other),
    }
    // the package left the list all the same
    assert_eq!(m.get_idx_of_package("broken"), None);
}

#[test]
fn missing_field_is_malformed() {
    let v = JsonValue::parse(r#"[{"name": "a", "features": {}}]"#).unwrap();
    let mut m = CargoMetaDataPackageInfo::new_from_packages(v).unwrap();
    match m.process_package("a") {
        Err(DoDepCheckError::MalformedPackageField { package, field }) => {
            assert_eq!(package, "a");
            assert_eq!(field, "dependencies");
        }
        other => panic!("unexpected {:?}", other),
    }
    let v = JsonValue::parse(r#"[{"name": "a", "dependencies": [], "features": {"f": ["x", 1]}}]"#)
        .unwrap();
    let mut m = CargoMetaDataPackageInfo::new_from_packages(v).unwrap();
    match m.process_package("a") {
        Err(DoDepCheckError::MalformedPackageField { field, .. }) => {
            assert_eq!(field, "features[].<value>[]")
        }
        other => panic!("unexpected {:?}", other),
    }
}

#[test]
fn dependency_named_like_a_feature_activates_the_feature() {
    let v = JsonValue::parse(
        r#"[{"name": "a", "dependencies": [{"name": "serde", "req": "1", "kind": null, "optional": true, "uses_default_features": true, "features": []}], "features": {"serde": ["serde"], "json": ["serde"], "plain": ["other"]}}]"#,
    )
    .unwrap();
    let mut m = CargoMetaDataPackageInfo::new_from_packages(v).unwrap();
    let f = m.get_features_of_package("a").unwrap();
    assert_eq!(
        f.get_flag("serde").unwrap().activating,
        vec![ActivateFeature::Dependency("serde".to_string())]
    );
    assert_eq!(
        f.get_flag("json").unwrap().activating,
        vec![ActivateFeature::Feature("serde".to_string())]
    );
    assert_eq!(
        f.get_flag("plain").unwrap().activating,
        vec![ActivateFeature::Feature("other".to_string())]
    );
}

#[test]
fn check_reports_shared_features_without_activation() {
    let mut m = packages();
    let settings = DependencyCheckSettings::default();
    let missing =
        do_all_features_call_dependency_features_with_same_name(&mut m, "app", &settings).unwrap();
    assert_eq!(missing.flags.len(), 2);
    assert_eq!(
        flags_of(&missing, "fast"),
        Some(vec![("lib".to_string(), false), ("opt".to_string(), true)])
    );
    assert_eq!(flags_of(&missing, "extra"), Some(vec![("lib".to_string(), false)]));
    assert_eq!(missing.parent_features.features.len(), 6);
}

#[test]
fn check_settings_change_the_report() {
    let mut m = packages();
    let mut settings = DependencyCheckSettings::default();
    settings
        .set_exclude_default(false)
        .set_exclude_flags_with_leading_underscore(false)
        .add_blacklisted_dependency("opt")
        .add_blacklisted_feature("extra");
    let missing =
        do_all_features_call_dependency_features_with_same_name(&mut m, "app", &settings).unwrap();
    assert_eq!(flags_of(&missing, "default"), Some(vec![("lib".to_string(), false)]));
    assert_eq!(flags_of(&missing, "fast"), Some(vec![("lib".to_string(), false)]));
    assert_eq!(flags_of(&missing, "_hidden"), Some(vec![("lib".to_string(), false)]));
    assert_eq!(flags_of(&missing, "extra"), None);
    assert_eq!(missing.flags.len(), 3);
}

#[test]
fn check_over_metadata_text() {
    let settings = DependencyCheckSettings::default();
    let missing = do_dep_feature_check_for_metadata(METADATA, "app", &settings)
        .expect("the check can be made")
        .unwrap();
    assert_eq!(missing.flags.len(), 2);
    match do_dep_feature_check_for_metadata("{oops", "app", &settings) {
        Some(Err(DoDepCheckError::Parsing(_))) => {}
        other => panic!("unexpected {:?}", other),
    }
    match do_dep_feature_check_for_metadata("{}", "app", &settings) {
        Some(Err(DoDepCheckError::InvalidPackagesFormat)) => {}
        other => panic!("unexpected {:?}", other),
    }
    match do_dep_feature_check_for_metadata(METADATA, "nothing", &settings) {
        Some(Err(DoDepCheckError::PackageNotFound(p))) => assert_eq!(p, "nothing"),
        other => panic!("unexpected {:?}", other),
    }
}

#[test]
fn report_lists_features_by_line() {
    let mut m = packages();
    let missing = do_all_features_call_dependency_features_with_same_name(
        &mut m,
        "app",
        &DependencyCheckSettings::default(),
    )
    .unwrap();
    let messages = dependency_check_messages(&missing, TOML, "/p/Cargo.toml").unwrap().unwrap();
    assert_eq!(
        messages,
        vec![
            "This crate and its dependencies share flag names which aren't activated when the flags of this crate are.\nIn the file \"/p/Cargo.toml\", following flags are missing:".to_string(),
            "From \"/p/Cargo.toml:7:0-10\" (71:79) => fast = [\"lib/fast\", \"opt?/fast\"]".to_string(),
            "From \"/p/Cargo.toml:8:0-31\" (81:110) => extra = [\"opt?/extra\", \"fast\", \"lib/extra\"]".to_string(),
        ]
    );
}

#[test]
fn report_error_for_a_feature_missing_from_the_manifest() {
    let mut missing = FeatureFlagsMissingDependencies::default();
    missing.add_missing_dependency_flag(Cow::Owned("zeta".to_string()), "lib".to_string(), false);
    missing.add_missing_dependency_flag(Cow::Owned("beta".to_string()), "lib".to_string(), false);
    assert_eq!(
        dependency_check_messages(&missing, TOML, "/p/Cargo.toml"),
        Some(Err("Feature flag was detected but couldn't be found in \"/p/Cargo.toml\": beta".to_string()))
    );
    assert_eq!(
        dependency_check_messages(&FeatureFlagsMissingDependencies::default(), TOML, "x"),
        Some(Ok(vec![]))
    );
}

#[test]
fn missing_flags_gather_by_feature() {
    let mut missing = FeatureFlagsMissingDependencies::default();
    let name = "std".to_string();
    missing.add_missing_dependency_flag(Cow::Borrowed(&name), "a".to_string(), false);
    missing.add_missing_dependency_flag(Cow::Owned("alloc".to_string()), "b".to_string(), true);
    missing.add_missing_dependency_flag(Cow::Borrowed(&name), "c".to_string(), true);
    assert_eq!(
        missing.flags,
        vec![
            ("std".to_string(), vec![("a".to_string(), false), ("c".to_string(), true)]),
            ("alloc".to_string(), vec![("b".to_string(), true)]),
        ]
    );
}

#[test]
fn matching_features_keep_the_order_of_self() {
    let f = |n: &str| CrateFeature { name: n.to_string(), activating: vec![] };
    let a = CrateFeatures { features: vec![f("x"), f("y"), f("z")] };
    let b = CrateFeatures { features: vec![f("z"), f("x")] };
    let m: Vec<String> = a.get_matching_other(&b).into_iter().map(|c| c.name.clone()).collect();
    assert_eq!(m, ["x", "z"]);
    let deps = CrateDependencies::default();
    assert!(deps.get_all_dependency_names().is_empty());
}

#[test]
fn activation_text() {
    assert_eq!(ActivateFeature::Dependency("serde".to_string()).to_string(), "dep:serde");
    assert_eq!(ActivateFeature::Feature("std".to_string()).to_string(), "std");
    assert_eq!(
        ActivateFeature::DependencyFeature {
            dep: "serde".to_string(),
            feature: "std".to_string(),
            weak: true
        }
        .to_string(),
        "serde?/std"
    );
}

#[test]
fn error_messages() {
    assert_eq!(
        DoDepCheckError::PackageNotFound("x".to_string()).to_string(),
        "package `x` was not found in the workspace metadata"
    );
    assert_eq!(
        DoDepCheckError::MalformedPackageField { package: "p".to_string(), field: "features" }
            .to_string(),
        "package `p` had a missing or malformed `features` field"
    );
    assert_eq!(
        DoDepCheckError::InvalidPackagesFormat.to_string(),
        "the `packages` field in cargo metadata was not an array of objects"
    );
    assert_eq!(
        GetCargoInfoError::StErr("boom".to_string(), -2).to_string(),
        "command exited with status -2: boom"
    );
    assert_eq!(
        DoDepCheckError::GetCargo(GetCargoInfoError::StErr("e".to_string(), 101)).to_string(),
        "failed to get cargo metadata: command exited with status 101: e"
    );
    let io = GetCargoInfoError::from(std::io::Error::new(std::io::ErrorKind::NotFound, "gone"));
    assert_eq!(io.to_string(), "IO error: gone");
    let parse = DoDepCheckError::from(JsonValue::parse("{").unwrap_err());
    assert!(parse.to_string().starts_with("failed to parse cargo metadata: "));
}

#[test]
fn features_are_kept_once_found() {
    let mut m = packages();
    let first = m.get_features_of_package("lib").unwrap().clone();
    let state = m.clone();
    let second = m.get_features_of_package("lib").unwrap().clone();
    assert_eq!(first, second);
    assert_eq!(m, state);
    let deps = m.get_dependencies_of_package("lib").unwrap().clone();
    assert!(deps.dependencies.is_empty());
    assert_eq!(m, state);
}

#[test]
fn activations_read_back_as_written() {
    let v = JsonValue::parse(
        r#"[{"name": "a", "dependencies": [], "features": {"f": ["dep:x", "y/z", "w?/v", "plain"]}}]"#,
    )
    .unwrap();
    let mut m = CargoMetaDataPackageInfo::new_from_packages(v).unwrap();
    let f = m.get_features_of_package("a").unwrap();
    let texts: Vec<String> =
        f.get_flag("f").unwrap().activating.iter().map(|a| a.to_string()).collect();
    assert_eq!(texts, ["dep:x", "y/z", "w?/v", "plain"]);
}

#[test]
fn utf8_error_message() {
    let e = String::from_utf8(vec![0xff]).unwrap_err();
    assert_eq!(
        GetCargoInfoError::from(e).to_string(),
        "output was not valid UTF-8: invalid utf-8 sequence of 1 bytes from index 0"
    );
}

const KINDS: &str = r#"{"packages": [
  {"name": "app", "dependencies": [
     {"name": "lib", "req": "1", "kind": null, "optional": false, "uses_default_features": true, "features": []},
     {"name": "tool", "req": "1", "kind": "build", "optional": false, "uses_default_features": true, "features": []},
     {"name": "tst", "req": "1", "kind": "dev", "optional": true, "uses_default_features": true, "features": []}
   ],
   "features": {"fast": [], "std": []}},
  {"name": "lib", "dependencies": [], "features": {"fast": []}},
  {"name": "tool", "dependencies": [], "features": {"fast": []}},
  {"name": "tst", "dependencies": [], "features": {"std": []}}
]}"#;

fn kinds_packages() -> CargoMetaDataPackageInfo {
    let value = JsonValue::parse(KINDS).expect("valid JSON");
    let p = get(&value.tape, value.root, "packages").expect("packages");
    CargoMetaDataPackageInfo::new_from_packages(JsonValue { tape: value.tape, root: p })
        .expect("array of objects")
}

#[test]
fn dependency_kinds_follow_the_settings() {
    // by default only normal dependencies are checked
    let mut m = kinds_packages();
    let missing = do_all_features_call_dependency_features_with_same_name(
        &mut m,
        "app",
        &DependencyCheckSettings::default(),
    )
    .unwrap();
    assert_eq!(flags_of(&missing, "fast"), Some(vec![("lib".to_string(), false)]));
    assert_eq!(flags_of(&missing, "std"), None);

    // a whitelist of build dependencies checks only those
    let mut m = kinds_packages();
    let mut settings = DependencyCheckSettings::default();
    let mut build_only = SelectedDependencyType::default();
    build_only.set_normal(false).set_build(true);
    settings.set_blacklisted_dependency_kind(build_only);
    let missing =
        do_all_features_call_dependency_features_with_same_name(&mut m, "app", &settings).unwrap();
    assert_eq!(flags_of(&missing, "fast"), Some(vec![("tool".to_string(), false)]));
    assert_eq!(missing.flags.len(), 1);

    // a blacklist of normal dependencies checks the build and dev ones
    let mut m = kinds_packages();
    let mut settings = DependencyCheckSettings::default();
    settings.set_blacklisted_dependency_kind_is_whitelist(false);
    let missing =
        do_all_features_call_dependency_features_with_same_name(&mut m, "app", &settings).unwrap();
    assert_eq!(flags_of(&missing, "fast"), Some(vec![("tool".to_string(), false)]));
    assert_eq!(flags_of(&missing, "std"), Some(vec![("tst".to_string(), true)]));
    assert_eq!(missing.flags.len(), 2);
}

#[test]
fn repeated_keys_follow_the_object_size() {
    let small = JsonValue::parse(r#"{"k": "first", "a": 1, "k": "last"}"#).unwrap();
    let v = get(&small.tape, small.root, "k").unwrap();
    assert_eq!(str_at(&small.tape, v), Some("first"));

    let mut text = String::from("{\"k\": \"first\"");
    for i in 0..40 {
        text.push_str(&format!(", \"m{i}\": {i}"));
    }
    text.push_str(", \"k\": \"last\"}");
    let large = JsonValue::parse(&text).unwrap();
    let v = get(&large.tape, large.root, "k").unwrap();
    assert_eq!(str_at(&large.tape, v), Some("last"));
    assert_eq!(get(&large.tape, large.root, "m7").map(|p| large.tape[p].clone()), Some(JsonNode::Number));
}

#[test]
fn large_features_object_keeps_the_last_of_a_repeated_key() {
    let mut features = String::from("{\"fast\": [\"dep:x\"]");
    for i in 0..40 {
        features.push_str(&format!(", \"f{i}\": []"));
    }
    features.push_str(", \"fast\": []}");
    let text = format!(
        "{{\"packages\": [{{\"name\": \"app\", \"dependencies\": [], \"features\": {features}}}]}}"
    );
    let value = JsonValue::parse(&text).unwrap();
    let p = get(&value.tape, value.root, "packages").unwrap();
    let mut m = CargoMetaDataPackageInfo::new_from_packages(JsonValue { tape: value.tape, root: p })
        .unwrap();
    let f = m.get_features_of_package("app").unwrap().clone();
    let names: Vec<String> = f.get_feature_names().into_iter().cloned().collect();
    assert_eq!(names.len(), 41);
    assert_eq!(names[0], "f0");
    assert_eq!(names[40], "fast");
    assert!(f.get_flag("fast").unwrap().activating.is_empty());

    let small = r#"{"packages": [{"name": "app", "dependencies": [], "features": {"a": [], "a": ["b"]}}]}"#;
    let value = JsonValue::parse(small).unwrap();
    let p = get(&value.tape, value.root, "packages").unwrap();
    let mut m = CargoMetaDataPackageInfo::new_from_packages(JsonValue { tape: value.tape, root: p })
        .unwrap();
    let f = m.get_features_of_package("app").unwrap().clone();
    assert_eq!(f.get_feature_names().len(), 2);
}
