use mirl_build_tools::lock::{
    get_dependencies_of_crate_from_lock_section, get_package_info_from_lock,
    get_section_about_crate,
};
use mirl_build_tools::nightly::does_file_use_nightly;

const LOCK: &str = "[[package]]\nname = \"a\"\nversion = \"0.1.0\"\ndependencies = [\n \"b\",\n]\n\n[[package]]\nname = \"b\"\nversion = \"1.0.0\"\n";

#[test]
fn package_info_runs_to_the_next_package() {
    assert_eq!(
        get_package_info_from_lock(LOCK, "a"),
        Some("name = \"a\"\nversion = \"0.1.0\"\ndependencies = [\n \"b\",\n]\n")
    );
    assert_eq!(get_package_info_from_lock(LOCK, "b"), Some("name = \"b\"\nversion = \"1.0.0\""));
    assert_eq!(get_package_info_from_lock(LOCK, "c"), None);
}

#[test]
fn section_about_crate() {
    assert_eq!(
        get_section_about_crate(LOCK, "a"),
        Some("[[package]]\nname = \"a\"\nversion = \"0.1.0\"\ndependencies = [\n \"b\",\n]\n\n")
    );
    assert_eq!(
        get_section_about_crate(LOCK, "b"),
        Some("[[package]]\nname = \"b\"\nversion = \"1.0.0\"\n")
    );
    assert_eq!(get_section_about_crate(LOCK, "c"), None);
}

#[test]
fn lock_dependencies_are_the_listed_names() {
    assert_eq!(
        get_dependencies_of_crate_from_lock_section(
            "name = \"a\"\nversion = \"0.1.0\"\ndependencies = [\n \"b\",\n \"c\",\n]"
        ),
        vec!["b", "c"]
    );
    assert_eq!(
        get_dependencies_of_crate_from_lock_section("name = \"a\"\ndependencies = [\"b\", \"c 1.0.0\"]\n"),
        vec!["b", "c 1.0.0"]
    );
    assert!(get_dependencies_of_crate_from_lock_section("dependencies = []\n").is_empty());
    assert!(get_dependencies_of_crate_from_lock_section("name = \"a\"\nversion = \"1\"\n").is_empty());
    assert!(get_dependencies_of_crate_from_lock_section("dependencies = [\"b\",\n").is_empty());
}

#[test]
fn nightly_detection() {
    assert!(does_file_use_nightly("#![feature(never_type)]\nfn main() {}\n"));
    assert!(does_file_use_nightly("// x\n#![feature(test)]\n"));
    assert!(does_file_use_nightly("a\nfeature(x)\n#![feature(y)]\n"));
    assert!(does_file_use_nightly("//\n  #![feature(x)]\n"));
    assert!(does_file_use_nightly("\t#![feature(a, b)]"));
    assert!(!does_file_use_nightly("fn main() {}\n"));
    assert!(!does_file_use_nightly(""));
    assert!(!does_file_use_nightly("// #![feature(x)]\n"));
    assert!(!does_file_use_nightly("#[cfg(x)]\nlet s = \"feature(\";\n"));
}
