use vstd::prelude::*;

verus! {

/// Where in line an item should go
#[derive(Debug, Clone, Copy, PartialEq, Eq, PartialOrd, Ord, Hash, Default)]
pub enum PrettyPrintAlignment {
    #[default]
    /// Front of the line
    Front,
    /// Middle of line
    Middle,
    /// End of line
    End,
}

/// What the pretty print should print
#[derive(Debug, Clone, PartialEq, Eq, PartialOrd, Ord, Hash)]
pub enum PrettyPrintFormat {
    /// String and where
    Text(String, PrettyPrintAlignment),
    /// A divider
    Divider,
}

impl Default for PrettyPrintFormat {
    fn default() -> (r: Self)
        ensures
            r matches PrettyPrintFormat::Text(t, a) && t@ == Seq::<char>::empty() && a
                == PrettyPrintAlignment::Front,
    {
        PrettyPrintFormat::Text(String::new(), PrettyPrintAlignment::Front)
    }
}

/// Whether `format` is a line of `text` with `alignment`
pub open spec fn is_text_line(
    format: PrettyPrintFormat,
    text: Seq<char>,
    alignment: PrettyPrintAlignment,
) -> bool {
    format matches PrettyPrintFormat::Text(t, a) && t@ == text && a == alignment
}

/// Convert self into the pretty print format
pub trait PrettyPrintConvenience {
    /// Convert self into the pretty print format
    fn to_pretty_print(&self, alignment: PrettyPrintAlignment) -> PrettyPrintFormat;
}

impl PrettyPrintConvenience for &str {
    fn to_pretty_print(&self, alignment: PrettyPrintAlignment) -> (r: PrettyPrintFormat)
        ensures
            r matches PrettyPrintFormat::Text(t, a) && t@ == self@ && a == alignment,
    {
        PrettyPrintFormat::Text((*self).to_owned(), alignment)
    }
}

impl<'a> From<(&'a str, PrettyPrintAlignment)> for PrettyPrintFormat {
    fn from(value: (&'a str, PrettyPrintAlignment)) -> (r: Self)
        ensures
            r matches PrettyPrintFormat::Text(t, a) && t@ == value.0@ && a == value.1,
    {
        PrettyPrintFormat::Text(value.0.to_owned(), value.1)
    }
}

impl<'a> vstd::std_specs::convert::FromSpecImpl<(&'a str, PrettyPrintAlignment)> for PrettyPrintFormat {
    open spec fn obeys_from_spec() -> bool {
        false
    }

    open spec fn from_spec(v: (&'a str, PrettyPrintAlignment)) -> Self {
        choose|r: PrettyPrintFormat| #[trigger] is_text_line(r, v.0@, v.1)
    }
}

} // verus!
