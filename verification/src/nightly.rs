use vstd::prelude::*;

use crate::text::{
    contains_chars, spec_contains_seq, spec_split, spec_strip_start, spec_views, split_str,
    strip_start, to_chars,
};

verus! {

/// The characters of `feature(`
pub open spec fn spec_feature_call() -> Seq<char> {
    seq!['f', 'e', 'a', 't', 'u', 'r', 'e', '(']
}

/// Whether a line is an attribute that uses a feature: it holds `feature(`
/// and, after its leading whitespace, starts with `#`
pub open spec fn spec_nightly_line(line: Seq<char>) -> bool {
    let t = spec_strip_start(line, 0, line.len() as int, false);
    &&& spec_contains_seq(line, spec_feature_call())
    &&& t < line.len()
    &&& line[t] == '#'
}

/// Whether some line of `file` is an attribute that uses a feature
pub open spec fn spec_uses_nightly(file: Seq<char>) -> bool {
    exists|i: int|
        0 <= i < spec_split(file, '\n').len() && #[trigger] spec_nightly_line(
            spec_split(file, '\n')[i],
        )
}

/// Whether `line` is an attribute that uses a feature, see [`spec_nightly_line`]
fn is_nightly_line(line: &str) -> (r: bool)
    ensures
        r == spec_nightly_line(line@),
{
    let cs = to_chars(line);
    let pat: Vec<char> = vec!['f', 'e', 'a', 't', 'u', 'r', 'e', '('];
    assert(pat@ =~= spec_feature_call());
    if !contains_chars(&cs, &pat) {
        return false;
    }
    let t = strip_start(&cs, 0, cs.len(), false);
    t < cs.len() && cs[t] == '#'
}

/// Check if a file uses nightly: whether one of its lines uses a feature
/// (holds `feature(`) in an attribute (starts with `#` after its leading
/// whitespace)
pub fn does_file_use_nightly(file: &str) -> (r: bool)
    ensures
        r == spec_uses_nightly(file@),
{
    let lines = split_str(file, '\n');
    let ghost pieces = spec_split(file@, '\n');
    assert(spec_views(lines@).len() == lines@.len());
    let mut i: usize = 0;
    while i < lines.len()
        invariant
            i <= lines@.len(),
            spec_views(lines@) == pieces,
            pieces == spec_split(file@, '\n'),
            forall|j: int| 0 <= j < i ==> !spec_nightly_line(#[trigger] pieces[j]),
        decreases lines@.len() - i,
    {
        assert(pieces[i as int] == lines@[i as int]@);
        if is_nightly_line(lines[i].as_str()) {
            return true;
        }
        i = i + 1;
    }
    false
}

} // verus!
