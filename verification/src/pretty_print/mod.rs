use vstd::prelude::*;

mod border_variants;
mod formatting;
mod pretty_print_text;

pub use border_variants::BorderVariants;
pub use formatting::{PrettyPrintAlignment, PrettyPrintConvenience, PrettyPrintFormat};
pub use pretty_print_text::{
    PrettyPrintText, spec_aligned, spec_estimated_size, spec_framed, spec_line_length,
    spec_longest, spec_join_lines, lemma_bordered_text_is_rectangular,
};

verus! {

/// The lines after the title and the divider of the "nightly required" message
pub open spec fn spec_nightly_message_body() -> Seq<Seq<char>> {
    seq![
        "All libs under `Mirl` require nightly to compile."@,
        ""@,
        "To install and use nightly:"@,
        ""@,
        "1. Install nightly toolchain:"@,
        "   `rustup install nightly`"@,
        ""@,
        "2. Use nightly for this project (recommended):"@,
        "   `rustup override set nightly`"@,
        ""@,
        "Or use nightly for a single build:"@,
        "   `cargo +nightly build`"@
    ]
}

/// Whether `r` holds the "nightly required" message: the centered title
/// "NIGHTLY REQUIRED", a divider, then the instructions, left aligned
pub open spec fn spec_is_nightly_message(r: PrettyPrintText) -> bool {
    &&& r.lines@.len() == 2 + spec_nightly_message_body().len()
    &&& r.lines@[0] matches PrettyPrintFormat::Text(t, a) && t@ == "NIGHTLY REQUIRED"@ && a
        == PrettyPrintAlignment::Middle
    &&& r.lines@[1] is Divider
    &&& forall|i: int|
        0 <= i < spec_nightly_message_body().len() ==> (#[trigger] r.lines@[i + 2] matches PrettyPrintFormat::Text(
            t,
            a,
        ) && t@ == spec_nightly_message_body()[i] && a == PrettyPrintAlignment::Front)
}

/// The lines of the instructions of the "nightly required" message
fn nightly_message_body() -> (r: Vec<PrettyPrintFormat>)
    ensures
        r@.len() == spec_nightly_message_body().len(),
        forall|i: int|
            0 <= i < spec_nightly_message_body().len() ==> (#[trigger] r@[i] matches PrettyPrintFormat::Text(
                t,
                a,
            ) && t@ == spec_nightly_message_body()[i] && a == PrettyPrintAlignment::Front),
{
    let mut body: Vec<PrettyPrintFormat> = Vec::new();
    body.push("All libs under `Mirl` require nightly to compile.".to_pretty_print(PrettyPrintAlignment::Front));
    body.push("".to_pretty_print(PrettyPrintAlignment::Front));
    body.push("To install and use nightly:".to_pretty_print(PrettyPrintAlignment::Front));
    body.push("".to_pretty_print(PrettyPrintAlignment::Front));
    body.push("1. Install nightly toolchain:".to_pretty_print(PrettyPrintAlignment::Front));
    body.push("   `rustup install nightly`".to_pretty_print(PrettyPrintAlignment::Front));
    body.push("".to_pretty_print(PrettyPrintAlignment::Front));
    body.push("2. Use nightly for this project (recommended):".to_pretty_print(PrettyPrintAlignment::Front));
    body.push("   `rustup override set nightly`".to_pretty_print(PrettyPrintAlignment::Front));
    body.push("".to_pretty_print(PrettyPrintAlignment::Front));
    body.push("Or use nightly for a single build:".to_pretty_print(PrettyPrintAlignment::Front));
    body.push("   `cargo +nightly build`".to_pretty_print(PrettyPrintAlignment::Front));
    body
}

/// The "nightly required" message for a terminal `width` columns wide. With
/// `border` it is drawn in a border where the terminal is at least 4 columns
/// wider than its longest instruction line, and with `margin` it gets a
/// margin where the terminal is at least 2 columns wider than that line
pub fn get_nightly_pretty_print_for_terminal(border: bool, margin: bool, width: usize) -> (r: PrettyPrintText)
    ensures
        spec_is_nightly_message(r),
        r.border == (border && width >= spec_longest(r.lines@.skip(2)) + 4),
        r.margin == (margin && width >= spec_longest(r.lines@.skip(2)) + 2),
{
    let body = nightly_message_body();
    let measured = PrettyPrintText { lines: body, margin: false, border: false };
    let longest = measured.get_longest_line_length();
    let mut body = measured.lines;
    let ghost b = body@;
    let mut message: Vec<PrettyPrintFormat> = Vec::new();
    message.push("NIGHTLY REQUIRED".to_pretty_print(PrettyPrintAlignment::Middle));
    message.push(PrettyPrintFormat::Divider);
    message.append(&mut body);
    assert(message@.skip(2) =~= b);
    let border = border && width >= 4 && width - 4 >= longest;
    let margin = margin && width >= 2 && width - 2 >= longest;
    PrettyPrintText { lines: message, margin, border }
}

/// Get the pretty print text struct: the centered title "NIGHTLY REQUIRED",
/// a divider, then the instructions, left aligned, without margin or border
pub fn get_nightly_pretty_print() -> (r: PrettyPrintText)
    ensures
        !r.margin,
        !r.border,
        spec_is_nightly_message(r),
{
    get_nightly_pretty_print_for_terminal(false, false, 0)
}

} // verus!
