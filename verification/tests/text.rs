use mirl_build_tools::prelude_features::CratePrelude;
use mirl_build_tools::text::{
    push_decimal, push_int, replace_char, split_str, str_contains, str_lt, str_starts_with,
};

#[test]
fn decimal_numbers() {
    let mut s = String::from("n=");
    push_decimal(&mut s, 0);
    push_decimal(&mut s, 1203);
    assert_eq!(s, "n=01203");
    let mut t = String::new();
    push_int(&mut t, -2147483648);
    push_int(&mut t, 7);
    assert_eq!(t, "-21474836487");
}

#[test]
fn string_order_is_that_of_str() {
    let words = ["", "a", "ab", "b", "ä", "Z", "_x", "x_"];
    for a in words {
        for b in words {
            assert_eq!(str_lt(a, b), a < b, "{a:?} < {b:?}");
        }
    }
}

#[test]
fn text_helpers() {
    assert!(str_starts_with("dep:serde", "dep:"));
    assert!(!str_starts_with("de", "dep:"));
    assert!(str_contains("en_US.UTF-8", "UTF"));
    assert_eq!(replace_char("a-b-c", '-', '_'), "a_b_c");
    assert_eq!(split_str(",a,", ','), vec![String::new(), "a".to_string(), String::new()]);
}

#[test]
fn crate_prelude_constructors() {
    let p = CratePrelude::new("bitint");
    assert_eq!(p, CratePrelude { name: "bitint", overwrite: None });
    const OVER: &[&str] = &["serde::Serialize"];
    let q = CratePrelude::with_overwrite("serde", OVER);
    assert_eq!(q.name, "serde");
    assert_eq!(q.overwrite, Some(OVER));
}
