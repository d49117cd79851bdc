use mirl_build_tools::environment::Environment;
use mirl_build_tools::pretty_print::{
    get_nightly_pretty_print, get_nightly_pretty_print_for_terminal, BorderVariants,
    PrettyPrintAlignment, PrettyPrintConvenience,
    PrettyPrintFormat, PrettyPrintText,
};

fn line(t: &str, a: PrettyPrintAlignment) -> PrettyPrintFormat {
    t.to_pretty_print(a)
}

fn env(vars: &[(&str, Option<&str>)]) -> Environment {
    Environment {
        vars: vars
            .iter()
            .map(|(k, v)| (k.to_string(), v.map(|x| x.to_string())))
            .collect(),
    }
}

#[test]
fn to_text_with_border_and_margin() {
    let text = PrettyPrintText {
        lines: vec![
            line("ab", PrettyPrintAlignment::Front),
            PrettyPrintFormat::Divider,
            line("c", PrettyPrintAlignment::End),
            line("xyz", PrettyPrintAlignment::Middle),
            line("a", PrettyPrintAlignment::Middle),
        ],
        margin: true,
        border: true,
    };
    assert_eq!(
        text.to_text(BorderVariants::Ascii),
        "+-----+\n| ab  |\n>-----<\n|   c |\n| xyz |\n|  a  |\n+-----+"
    );
}

#[test]
fn to_text_without_border() {
    let text = PrettyPrintText {
        lines: vec![line("ab", PrettyPrintAlignment::Front), line("c", PrettyPrintAlignment::End)],
        margin: false,
        border: false,
    };
    assert_eq!(text.to_text(BorderVariants::Ascii), "\nab\n c");
}

#[test]
fn to_text_middle_puts_the_odd_space_last() {
    let text = PrettyPrintText {
        lines: vec![line("abcd", PrettyPrintAlignment::Front), line("a", PrettyPrintAlignment::Middle)],
        margin: false,
        border: false,
    };
    assert_eq!(text.to_text(BorderVariants::Ascii), "\nabcd\n a  ");
}

#[test]
fn to_text_unicode_border() {
    let text = PrettyPrintText {
        lines: vec![line("ab", PrettyPrintAlignment::Front), PrettyPrintFormat::Divider],
        margin: false,
        border: true,
    };
    assert_eq!(text.to_text(BorderVariants::Unicode), "╔══╗\n║ab║\n╠══╣\n╚══╝");
    assert_eq!(text.to_text(BorderVariants::CodePage437), "╔══╗\n║ab║\n╠══╣\n╚══╝");
}

#[test]
fn bordered_text_rows_have_equal_width() {
    let text = PrettyPrintText {
        lines: vec![
            line("a", PrettyPrintAlignment::Front),
            line("longer line", PrettyPrintAlignment::End),
            PrettyPrintFormat::Divider,
            line("mid", PrettyPrintAlignment::Middle),
        ],
        margin: true,
        border: true,
    };
    let out = text.to_text(BorderVariants::Unicode);
    let rows: Vec<&str> = out.split('\n').collect();
    assert_eq!(rows.len(), 6);
    for r in &rows {
        assert_eq!(r.chars().count(), "longer line".len() + 4);
    }
}

#[test]
fn longest_line_counts_characters() {
    let text = PrettyPrintText {
        lines: vec![
            line("äbc", PrettyPrintAlignment::Front),
            PrettyPrintFormat::Divider,
            line("ab", PrettyPrintAlignment::Front),
        ],
        margin: false,
        border: false,
    };
    assert_eq!(text.get_longest_line_length(), 3);
    let empty = PrettyPrintText { lines: vec![], margin: false, border: false };
    assert_eq!(empty.get_longest_line_length(), 0);
}

#[test]
fn estimated_size_counts_dividers_as_longest() {
    let text = PrettyPrintText {
        lines: vec![
            line("ab", PrettyPrintAlignment::Front),
            PrettyPrintFormat::Divider,
            line("xyz", PrettyPrintAlignment::End),
        ],
        margin: false,
        border: false,
    };
    assert_eq!(text.get_estimated_size(5), 10);
    assert_eq!(text.get_estimated_size(0), 5);
}

#[test]
fn default_format_is_empty_front_text() {
    assert_eq!(
        PrettyPrintFormat::default(),
        PrettyPrintFormat::Text(String::new(), PrettyPrintAlignment::Front)
    );
    assert_eq!(PrettyPrintAlignment::default(), PrettyPrintAlignment::Front);
}

#[test]
fn border_characters() {
    let a = BorderVariants::Ascii;
    assert_eq!(
        [
            a.get_top_left(),
            a.get_top_right(),
            a.get_bottom_left(),
            a.get_bottom_right(),
            a.get_horizontal(),
            a.get_vertical(),
            a.get_vertical_left(),
            a.get_vertical_right()
        ],
        ['+', '+', '+', '+', '-', '|', '<', '>']
    );
    let u = BorderVariants::Unicode;
    assert_eq!(
        [
            u.get_top_left(),
            u.get_top_right(),
            u.get_bottom_left(),
            u.get_bottom_right(),
            u.get_horizontal(),
            u.get_vertical(),
            u.get_vertical_left(),
            u.get_vertical_right()
        ],
        ['╔', '╗', '╚', '╝', '═', '║', '╣', '╠']
    );
}

#[test]
fn codec_follows_lang() {
    assert_eq!(
        BorderVariants::determine_codec(&env(&[("LANG", Some("en_US.UTF-8"))])),
        BorderVariants::Unicode
    );
    assert_eq!(BorderVariants::determine_codec(&env(&[("LANG", Some("C"))])), BorderVariants::Ascii);
    assert_eq!(BorderVariants::determine_codec(&env(&[])), BorderVariants::Ascii);
    assert_eq!(BorderVariants::determine_codec(&env(&[("LANG", None)])), BorderVariants::Ascii);
    assert_eq!(
        BorderVariants::determine_codec(&env(&[("LANG", Some("utf-8"))])),
        BorderVariants::Ascii
    );
}

#[test]
fn nightly_message() {
    let t = get_nightly_pretty_print();
    assert!(!t.border);
    assert!(!t.margin);
    assert_eq!(t.lines.len(), 14);
    assert_eq!(t.lines[0], line("NIGHTLY REQUIRED", PrettyPrintAlignment::Middle));
    assert_eq!(t.lines[1], PrettyPrintFormat::Divider);
    assert_eq!(
        t.lines[2],
        line("All libs under `Mirl` require nightly to compile.", PrettyPrintAlignment::Front)
    );
    assert_eq!(t.lines[3], line("", PrettyPrintAlignment::Front));
    assert_eq!(t.lines[13], line("   `cargo +nightly build`", PrettyPrintAlignment::Front));
}

#[test]
fn format_from_text_and_alignment() {
    let format = PrettyPrintFormat::from(("ab", PrettyPrintAlignment::Middle));
    assert_eq!(
        format,
        PrettyPrintFormat::Text("ab".to_string(), PrettyPrintAlignment::Middle)
    );
    assert_eq!(
        PrettyPrintFormat::default(),
        PrettyPrintFormat::Text(String::new(), PrettyPrintAlignment::Front)
    );
}

#[test]
fn test_print() {
    let text = get_nightly_pretty_print();
    let width = text.get_longest_line_length();
    let rendered = text.to_text(BorderVariants::determine_codec(&env(&[("LANG", Some("C"))])));
    assert!(rendered.starts_with('\n'));
    let lines: Vec<&str> = rendered[1..].lines().collect();
    assert_eq!(lines.len(), 14);
    for l in &lines {
        assert_eq!(l.chars().count(), width);
    }
    assert!(lines[0].contains("NIGHTLY REQUIRED"));
    assert_eq!(lines[1], "-".repeat(width));
    assert!(lines[13].starts_with("   `cargo +nightly build`"));
}

#[test]
fn nightly_message_border_and_margin_follow_the_width() {
    let plain = get_nightly_pretty_print_for_terminal(false, false, 1000);
    assert!(!plain.border && !plain.margin);
    assert_eq!(plain.lines, get_nightly_pretty_print().lines);
    // the longest instruction line has 49 characters
    let wide = get_nightly_pretty_print_for_terminal(true, true, 53);
    assert!(wide.border && wide.margin);
    let narrow = get_nightly_pretty_print_for_terminal(true, true, 52);
    assert!(!narrow.border && narrow.margin);
    let tiny = get_nightly_pretty_print_for_terminal(true, true, 50);
    assert!(!tiny.border && !tiny.margin);
    let margin_only = get_nightly_pretty_print_for_terminal(false, true, 51);
    assert!(!margin_only.border && margin_only.margin);
}

#[test]
fn forced_codec_takes_precedence() {
    let utf = env(&[("LANG", Some("en_US.UTF-8"))]);
    let plain = env(&[("LANG", Some("C"))]);
    assert_eq!(BorderVariants::determine_codec_forced(false, false, false, &utf), BorderVariants::Unicode);
    assert_eq!(BorderVariants::determine_codec_forced(false, false, false, &plain), BorderVariants::Ascii);
    assert_eq!(BorderVariants::determine_codec_forced(true, true, true, &plain), BorderVariants::Unicode);
    assert_eq!(BorderVariants::determine_codec_forced(false, true, false, &utf), BorderVariants::Ascii);
    assert_eq!(BorderVariants::determine_codec_forced(false, false, true, &utf), BorderVariants::Ascii);
}
