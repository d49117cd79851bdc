use mirl_build_tools::toml::{
    get_dependency_pos, get_field_in_toml, get_flag_pos, get_item_pos_in_section,
    get_toml_crate_name, get_toml_crate_version, has_dependency, has_flag,
    has_flag_or_dependency, item_pos_or_failure, parse_feature_keys_from_lines,
    toml_get_section, FoundPosition,
};

const TOML: &str = "[package]\nname = \"demo\"\nversion = \"0.1.0\"\nedition = \"2021\"\n\n[features]\ndefault = [\"std\"]\nstd = []\nmiri = [\"dep:foo\"]\nfast = [\n    \"std\", # the standard library\n]\n\n[dependencies]\nfoo = { version = \"1\", optional = true }\n";

fn pos(
    line: usize,
    column: usize,
    line_end: usize,
    column_end: usize,
    item_start: usize,
    item_end: usize,
    end: usize,
) -> FoundPosition {
    FoundPosition { line, column, line_end, column_end, item_start, item_end, end }
}

#[test]
fn fields_of_the_package() {
    assert_eq!(get_field_in_toml(TOML, "name"), Some("demo".to_string()));
    assert_eq!(get_toml_crate_name(TOML), Some("demo".to_string()));
    assert_eq!(get_toml_crate_version(TOML), Some("0.1.0".to_string()));
    assert_eq!(get_field_in_toml(TOML, "edition"), Some("2021".to_string()));
    assert_eq!(get_field_in_toml(TOML, "license"), None);
    let with_rust_version =
        "[package]\nname = \"x\"\nrust-version = \"1.70\"\nversion = \"0.1.0\"\n";
    assert_eq!(get_toml_crate_version(with_rust_version), Some("0.1.0".to_string()));
    assert_eq!(get_field_in_toml("version=\"2\"", "version"), Some("2".to_string()));
    assert_eq!(get_field_in_toml("\u{e9}version = \"1\"\nversion = \"3\"", "version"), Some("3".to_string()));
    assert_eq!(get_field_in_toml("name = 1\n", "name"), None);
    assert_eq!(get_field_in_toml("name\n", "name"), None);
}

#[test]
fn sections() {
    assert_eq!(toml_get_section(TOML, "features"), Some(pos(6, 0, 13, 0, 60, 71, 163)));
    assert_eq!(toml_get_section(TOML, "dependencies"), Some(pos(14, 0, 15, 0, 163, 178, 219)));
    assert_eq!(toml_get_section(TOML, "package"), Some(pos(1, 0, 5, 0, 0, 10, 60)));
    assert_eq!(toml_get_section(TOML, "workspace"), None);
}

#[test]
fn flag_positions() {
    assert_eq!(get_flag_pos(TOML, "default"), Some(pos(7, 0, 7, 18, 71, 87, 88)));
    assert_eq!(get_flag_pos(TOML, "std"), Some(pos(8, 0, 8, 9, 89, 96, 97)));
    assert_eq!(get_flag_pos(TOML, "miri"), Some(pos(9, 0, 9, 19, 98, 115, 116)));
    assert_eq!(get_flag_pos(TOML, "fast"), Some(pos(10, 0, 12, 2, 117, 160, 125)));
    assert_eq!(get_flag_pos(TOML, "nothing"), None);
    assert_eq!(get_item_pos_in_section(TOML, "std", "features"), get_flag_pos(TOML, "std"));
    assert_eq!(item_pos_or_failure(TOML, "std", "features"), Some(get_flag_pos(TOML, "std")));
}

#[test]
fn item_without_closing_bracket_is_not_found() {
    assert_eq!(get_dependency_pos(TOML, "foo"), None);
    assert!(has_dependency(TOML, "foo"));
}

#[test]
fn item_search_that_fails_is_reported() {
    let t = "[features]\nstd\n";
    assert_eq!(item_pos_or_failure(t, "std", "features"), None);
}

#[test]
fn has_flag_follows_the_position() {
    assert!(has_flag(TOML, "miri"));
    assert!(!has_flag(TOML, "foo"));
    assert!(has_flag("[features]\n  miri = []\n", "miri"));
    assert!(has_flag("[features]\nmiri\t= []", "miri"));
    assert!(!has_flag("[features]\nmirimiri = []\n", "miri"));
    assert!(!has_flag("[features]\nstd\n", "std"));
    assert!(has_dependency("[dependencies]\nserde = \"1.0\"\n", "serde"));
    assert!(!has_dependency("[dev-dependencies]\nserde = \"1.0\"\n", "serde"));
}

#[test]
fn flag_or_dependency_is_either() {
    assert!(has_flag_or_dependency(TOML, "miri"));
    assert!(has_flag_or_dependency(TOML, "foo"));
    assert!(!has_flag_or_dependency(TOML, "bar"));
    assert!(has_flag_or_dependency("[features]\n  miri = []\n", "miri"));
    assert!(has_flag_or_dependency("[dependencies]\nserde = \"1.0\"\n", "serde"));
    assert!(!has_flag_or_dependency("[package]\nbar = 1", "bar"));
    assert!(!has_flag_or_dependency("bar = 1", "bar"));
    assert!(has_flag_or_dependency("[dev-dependencies]\nserde = \"1.0\"\n", "serde"));
    assert!(has_flag_or_dependency("[build-dependencies]\ncc=\"1\"", "cc"));
    assert!(has_flag_or_dependency(
        "[target.'cfg(unix)'.dependencies]\n\tlibc = \"0.2\"\n",
        "libc"
    ));
    assert!(!has_flag_or_dependency("[dependencies]\nserde = \"1\"\n[package]\nmiri = 1\n", "miri"));
    assert!(!has_flag_or_dependency("[dependencies]\nserde_json = \"1\"\n", "serde"));
}

#[test]
fn feature_keys_each_once() {
    let lines: Vec<String> = [
        "[package]",
        "name = \"x\"",
        "[features]",
        "default = [\"std\"] # comment",
        "  \"std\" = []",
        "std = [\"alloc\"]",
        "# only a comment",
        "= []",
        "[dependencies]",
        "serde = \"1\"",
    ]
    .iter()
    .map(|s| s.to_string())
    .collect();
    assert_eq!(
        parse_feature_keys_from_lines(lines),
        vec!["default".to_string(), "std".to_string()]
    );
}
