use vstd::prelude::*;
use vstd::string::*;
use vstd::utf8::*;

use crate::text::{
    contains_chars, index_of, spec_contains_seq, spec_index_of, spec_strip_end, spec_strip_start,
    spec_views, spec_with_added, string_from_range, strip_end, strip_start, to_chars,
};
use crate::environment::{Environment, VarError};
use crate::text::push_str;
use crate::bytes::{
    find_from, lemma_after_ascii, spec_bytes_match_at, lemma_find_from, lemma_trim_bounds, slice_str, spec_find_from,
    spec_trim_start, trim_start,
};

verus! {

broadcast use vstd::utf8::encode_utf8_valid_utf8;

/// The offset of the `=` of the first line whose key is `field`, searching
/// from byte offset `offset`.
///
/// A round finds the next occurrence of `field`; it is skipped unless it is at
/// the start or after a space or a line break. Its line ends at the next line
/// break, or at the end of the text. The key ends at the first space before
/// the first `=` of the line where a space comes right before that `=`, else at
/// the `=`; the occurrence is the key when the key is exactly `field`. The next
/// round starts after the end of the occurrence's line.
pub open spec fn spec_field_key(b: Seq<u8>, f: Seq<u8>, offset: int) -> Option<int>
    decreases (if 0 <= offset < b.len() {
        b.len() - offset
    } else {
        0
    }),
{
    let n = b.len() as int;
    if offset < 0 || offset >= n {
        None
    } else {
        match spec_find_from(b, f, offset) {
            None => None,
            Some(ks) => {
                let kle = match spec_find_from(b, seq![10u8], ks) {
                    Some(j) => j,
                    None => n,
                };
                proof {
                    lemma_find_from(b, f, offset);
                    lemma_find_from(b, seq![10u8], ks);
                }
                if ks != 0 && b[ks - 1] != 32 && b[ks - 1] != 10 {
                    spec_field_key(b, f, kle + 1)
                } else {
                    match spec_find_from(b.take(kle), seq![61u8], ks) {
                        None => None,
                        Some(eq) => {
                            let ke = if eq > ks && b[eq - 1] == 32 {
                                match spec_find_from(b.take(eq), seq![32u8], ks) {
                                    Some(sp) => sp,
                                    None => eq,
                                }
                            } else {
                                eq
                            };
                            if b.subrange(ks, ke) == f {
                                Some(eq)
                            } else {
                                spec_field_key(b, f, kle + 1)
                            }
                        },
                    }
                }
            },
        }
    }
}

/// What [`get_field_in_toml`] finds: the byte range of the text between the
/// first two `"` after the `=` of the key, `None` where there is no key or no
/// such pair of quotes
pub open spec fn spec_get_field(b: Seq<u8>, f: Seq<u8>) -> Option<(int, int)> {
    match spec_field_key(b, f, 0) {
        None => None,
        Some(eq) => match spec_find_from(b, seq![34u8], eq) {
            None => None,
            Some(q) => match spec_find_from(b, seq![34u8], q + 1) {
                None => None,
                Some(e) => Some((q + 1, e)),
            },
        },
    }
}

/// Get the value of a field in toml without parsing the whole toml: the text
/// between the quotes after the `=` of the first line whose key is `field`
pub fn get_field_in_toml(toml: &str, field: &str) -> (r: Option<String>)
    requires
        toml.spec_bytes().len() <= isize::MAX,
    ensures
        match spec_get_field(toml.spec_bytes(), field.spec_bytes()) {
            Some((s, e)) => r matches Some(v) && encode_utf8(v@) == toml.spec_bytes().subrange(s, e),
            None => r is None,
        },
{
    let b = toml.as_bytes();
    let f = field.as_bytes();
    let ghost gb = toml.spec_bytes();
    let ghost gf = field.spec_bytes();
    let n = b.len();
    let mut offset: usize = 0;
    let equal_idx: usize;
    assert(gb.take(n as int) =~= gb);
    loop
        invariant
            b@ == gb,
            f@ == gf,
            gb == toml.spec_bytes(),
            gf == field.spec_bytes(),
            n == gb.len(),
            n <= isize::MAX,
            gb.take(n as int) == gb,
            offset <= n + 1,
            spec_field_key(gb, gf, 0) == spec_field_key(gb, gf, offset as int),
        ensures
            spec_field_key(gb, gf, 0) == Some(equal_idx as int),
            equal_idx < n,
        decreases (if offset < n {
            n - offset
        } else {
            0
        }),
    {
        if offset >= n {
            return None;
        }
        let key_idx_start = match find_from(b, f, offset, n) {
            Some(k) => k,
            None => {
                return None;
            },
        };
        proof {
            lemma_find_from(gb, gf, offset as int);
        }
        let nl: [u8; 1] = [10u8];
        assert(nl@ =~= seq![10u8]);
        let key_line_end = match find_from(b, &nl, key_idx_start, n) {
            Some(j) => j,
            None => n,
        };
        proof {
            lemma_find_from(gb, seq![10u8], key_idx_start as int);
        }
        if key_idx_start != 0 {
            let before = b[key_idx_start - 1];
            if before != 32 && before != 10 {
                offset = key_line_end + 1;
                continue;
            }
        }
        let eqs: [u8; 1] = [61u8];
        assert(eqs@ =~= seq![61u8]);
        let equal = match find_from(b, &eqs, key_idx_start, key_line_end) {
            Some(e) => e,
            None => {
                return None;
            },
        };
        proof {
            lemma_find_from(gb.take(key_line_end as int), seq![61u8], key_idx_start as int);
        }
        let key_idx_end = if equal > key_idx_start && b[equal - 1] == 32 {
            let sps: [u8; 1] = [32u8];
            assert(sps@ =~= seq![32u8]);
            match find_from(b, &sps, key_idx_start, equal) {
                Some(sp) => sp,
                None => equal,
            }
        } else {
            equal
        };
        proof {
            if equal > key_idx_start && b@[equal - 1] == 32 {
                lemma_find_from(gb.take(equal as int), seq![32u8], key_idx_start as int);
            }
        }
        if bytes_eq_range(b, key_idx_start, key_idx_end, f) {
            equal_idx = equal;
            break;
        }
        offset = key_line_end + 1;
    }
    let quote: [u8; 1] = [34u8];
    assert(quote@ =~= seq![34u8]);
    proof {
        lemma_find_from(gb, seq![34u8], equal_idx as int);
    }
    let q = match find_from(b, &quote, equal_idx, n) {
        Some(q) => q,
        None => {
            return None;
        },
    };
    assert(gb.subrange(q as int, q + 1) == seq![34u8]);
    assert(gb[q as int] == 34u8);
    proof {
        lemma_after_ascii(gb, q as int);
    }
    let start = q + 1;
    let end = match find_from(b, &quote, start, n) {
        Some(e) => e,
        None => {
            return None;
        },
    };
    proof {
        lemma_find_from(gb, seq![34u8], start as int);
    }
    assert(gb.subrange(end as int, end + 1) == seq![34u8]);
    assert(gb[end as int] == 34u8);
    let v = slice_str(toml, start, end);
    Some(v.to_owned())
}

/// Whether the bytes of `b` from `start` to `end` are `f`
fn bytes_eq_range(b: &[u8], start: usize, end: usize, f: &[u8]) -> (r: bool)
    requires
        start <= end <= b@.len(),
    ensures
        r == (b@.subrange(start as int, end as int) == f@),
{
    if end - start != f.len() {
        assert(b@.subrange(start as int, end as int).len() != f@.len());
        return false;
    }
    let mut i: usize = 0;
    while i < f.len()
        invariant
            start + f@.len() == end,
            end <= b@.len(),
            i <= f@.len(),
            forall|j: int| 0 <= j < i ==> b@[start + j] == f@[j],
        decreases f@.len() - i,
    {
        if b[start + i] != f[i] {
            assert(b@.subrange(start as int, end as int)[i as int] != f@[i as int]);
            return false;
        }
        i = i + 1;
    }
    assert(b@.subrange(start as int, end as int) =~= f@);
    true
}


/// The position values for a found element
#[derive(Debug, Clone, Copy, PartialEq, Eq, PartialOrd, Ord, Hash)]
pub struct FoundPosition {
    /// The line where it is found
    pub line: usize,
    /// The column where it is found
    pub column: usize,
    /// The line where the item ends
    pub line_end: usize,
    /// The column where the item ends
    pub column_end: usize,
    /// The line + column where it is found in bytes
    pub item_start: usize,
    /// Where in bytes the item ends
    pub item_end: usize,
    /// Where the line ends in bytes
    pub end: usize,
}

/// The offset of the line break that ends the line starting at `start`
/// within the first `end` bytes, or `end` where there is none
pub open spec fn spec_line_end(b: Seq<u8>, start: int, end: int) -> int {
    match spec_find_from(b.take(end), seq![10u8], start) {
        Some(j) => j,
        None => end,
    }
}

/// A line ends at or after its start, and before the end unless it is the last
pub proof fn lemma_line_end(b: Seq<u8>, start: int, end: int)
    requires
        0 <= start <= end <= b.len(),
    ensures
        start <= spec_line_end(b, start, end) <= end,
        spec_line_end(b, start, end) < end ==> b[spec_line_end(b, start, end)] == 10,
        forall|j: int| start <= j < spec_line_end(b, start, end) ==> b[j] != 10,
{
    lemma_find_from(b.take(end), seq![10u8], start);
    let e = spec_line_end(b, start, end);
    if e < end {
        assert(b.take(end).subrange(e, e + 1) == seq![10u8]);
        assert(b.take(end).subrange(e, e + 1)[0] == b[e]);
    }
    assert forall|j: int| start <= j < e implies b[j] != 10 by {
        if b[j] == 10 {
            assert(b.take(end).subrange(j, j + 1) =~= seq![10u8]);
            assert(spec_bytes_match_at(b.take(end), seq![10u8], j));
        }
    }
}

/// The line that holds the section header `h`, searched from the line that
/// starts at `start`, the lines numbered from `line_idx`: the offset where the
/// header starts, the line number counted from 1, and the column (the bytes of
/// leading whitespace). A line holds the header when, without its leading
/// whitespace, it starts with `h`.
pub open spec fn spec_section_header(b: Seq<u8>, h: Seq<u8>, start: int, line_idx: int) -> Option<
    (int, int, int),
>
    decreases b.len() - start,
{
    if start < 0 || start > b.len() {
        None
    } else {
        let e = spec_line_end(b, start, b.len() as int);
        let t = spec_trim_start(b, start, e);
        proof {
            lemma_line_end(b, start, b.len() as int);
        }
        if t + h.len() <= e && b.subrange(t, t + h.len()) == h {
            Some((t, line_idx + 1, t - start))
        } else if e >= b.len() {
            None
        } else {
            spec_section_header(b, h, e + 1, line_idx + 1)
        }
    }
}

/// The first line, from the one starting at `start` (counted as line `k`),
/// that starts with `[` once its leading whitespace is removed: its offset and number
pub open spec fn spec_section_end(b: Seq<u8>, start: int, k: int) -> Option<(int, int)>
    decreases b.len() - start,
{
    if start < 0 || start > b.len() {
        None
    } else {
        let e = spec_line_end(b, start, b.len() as int);
        let t = spec_trim_start(b, start, e);
        proof {
            lemma_line_end(b, start, b.len() as int);
        }
        if t < e && b[t] == 0x5b {
            Some((start, k))
        } else if e >= b.len() {
            None
        } else {
            spec_section_end(b, e + 1, k + 1)
        }
    }
}

/// Where the header search ends: within the text, at a line number at most one past its offset
pub proof fn lemma_section_header(b: Seq<u8>, h: Seq<u8>, start: int, line_idx: int)
    requires
        0 <= line_idx <= start,
    ensures
        spec_section_header(b, h, start, line_idx) matches Some((t, l, c)) ==> start <= t <= b.len()
            && t + h.len() <= b.len() && 1 <= l <= t + 1 && 0 <= c <= t,
    decreases b.len() - start,
{
    if 0 <= start <= b.len() {
        let e = spec_line_end(b, start, b.len() as int);
        lemma_line_end(b, start, b.len() as int);
        lemma_trim_bounds(b, start, e);
        if e < b.len() {
            lemma_section_header(b, h, e + 1, line_idx + 1);
        }
    }
}

/// Where the section end search ends: at a line start at or after `start`
pub proof fn lemma_section_end(b: Seq<u8>, start: int, k: int)
    requires
        0 <= k <= start,
    ensures
        spec_section_end(b, start, k) matches Some((idx, k2)) ==> start <= idx <= b.len() && 0
            <= k2 <= idx,
    decreases b.len() - start,
{
    if 0 <= start <= b.len() {
        let e = spec_line_end(b, start, b.len() as int);
        lemma_line_end(b, start, b.len() as int);
        if e < b.len() {
            lemma_section_end(b, e + 1, k + 1);
        }
    }
}

/// The number of line breaks in `b`
pub open spec fn spec_count_newlines(b: Seq<u8>) -> nat
    decreases b.len(),
{
    if b.len() == 0 {
        0
    } else {
        spec_count_newlines(b.drop_last()) + if b.last() == 10 {
            1nat
        } else {
            0nat
        }
    }
}

/// The number of characters after the last line break of `b`, `None` where there is none
pub open spec fn spec_chars_after_last_newline(b: Seq<u8>) -> Option<nat>
    decreases b.len(),
{
    if b.len() == 0 {
        None
    } else if b.last() == 10 {
        Some(0)
    } else {
        match spec_chars_after_last_newline(b.drop_last()) {
            Some(c) => Some(
                c + if is_continuation_byte(b.last()) {
                    0nat
                } else {
                    1nat
                },
            ),
            None => None,
        }
    }
}

/// The outcome of [`toml_get_section`] on the bytes `b` for the section named
/// `section`: `None` where it fails, else its result.
///
/// The header `[section]` is searched as [`spec_section_header`] describes. If
/// no line break follows it, the position covers the rest of the text, and its
/// end column is the offset, from the byte offset equal to the header's line
/// number, of the first `]`, or the length where there is none (slicing at
/// that offset fails where it is past the end or inside a character).
/// Otherwise the section body starts after that line break and ends at the
/// first line that starts with `[` ([`spec_section_end`]); where there is
/// none it ends at the end of the text, its end line is the number of line
/// breaks and its end column the number of characters after the last one.
pub open spec fn spec_toml_get_section(b: Seq<u8>, section: Seq<u8>) -> Option<Option<FoundPosition>> {
    let n = b.len() as int;
    let h = seq![0x5bu8] + section + seq![0x5du8];
    match spec_section_header(b, h, 0, 0) {
        None => Some(None),
        Some((item_start, line_idx, column)) => match spec_find_from(b, seq![10u8], item_start) {
            None => if line_idx > n || (line_idx < n && is_continuation_byte(b[line_idx])) {
                None
            } else {
                Some(
                    Some(
                        FoundPosition {
                            line: line_idx as usize,
                            column: column as usize,
                            line_end: line_idx as usize,
                            column_end: match spec_find_from(b, seq![0x5du8], line_idx) {
                                Some(j) => (j - line_idx) as usize,
                                None => n as usize,
                            },
                            end: n as usize,
                            item_start: item_start as usize,
                            item_end: n as usize,
                        },
                    ),
                )
            },
            Some(sle) => match spec_section_end(b, sle + 1, 0) {
                Some((idx, k)) => Some(
                    Some(
                        FoundPosition {
                            line: line_idx as usize,
                            column: column as usize,
                            line_end: (k + line_idx) as usize,
                            column_end: 0,
                            end: idx as usize,
                            item_start: item_start as usize,
                            item_end: (sle + 1) as usize,
                        },
                    ),
                ),
                None => Some(
                    Some(
                        FoundPosition {
                            line: line_idx as usize,
                            column: column as usize,
                            line_end: spec_count_newlines(b) as usize,
                            column_end: match spec_chars_after_last_newline(b) {
                                Some(c) => c as usize,
                                None => 0,
                            },
                            end: n as usize,
                            item_start: item_start as usize,
                            item_end: (sle + 1) as usize,
                        },
                    ),
                ),
            },
        },
    }
}


/// A found section lies within the text: its body starts before it ends, and
/// its line number is at most one past the length
pub proof fn lemma_toml_get_section(b: Seq<u8>, section: Seq<u8>)
    requires
        b.len() <= isize::MAX,
    ensures
        spec_toml_get_section(b, section) matches Some(Some(r)) ==> r.item_end <= r.end <= b.len()
            && r.line <= r.item_end,
{
    let h = seq![0x5bu8] + section + seq![0x5du8];
    lemma_section_header(b, h, 0, 0);
    if let Some((item_start, line_idx, column)) = spec_section_header(b, h, 0, 0) {
        lemma_find_from(b, seq![10u8], item_start);
        if let Some(sle) = spec_find_from(b, seq![10u8], item_start) {
            lemma_section_end(b, sle + 1, 0);
        }
    }
}

/// The end of the line starting at `start`, see [`spec_line_end`]
pub fn line_end(b: &[u8], start: usize, end: usize) -> (r: usize)
    requires
        end <= b@.len(),
    ensures
        r == spec_line_end(b@, start as int, end as int),
{
    let nl: [u8; 1] = [10u8];
    assert(nl@ =~= seq![10u8]);
    proof {
        lemma_find_from(b@.take(end as int), seq![10u8], start as int);
    }
    match find_from(b, &nl, start, end) {
        Some(j) => j,
        None => end,
    }
}

/// The number of line breaks in `b`
fn count_newlines(b: &[u8]) -> (r: usize)
    ensures
        r == spec_count_newlines(b@),
{
    let mut count: usize = 0;
    let mut i: usize = 0;
    while i < b.len()
        invariant
            i <= b@.len(),
            count == spec_count_newlines(b@.take(i as int)),
            count <= i,
        decreases b@.len() - i,
    {
        assert(b@.take(i + 1).drop_last() =~= b@.take(i as int));
        if b[i] == 10 {
            count = count + 1;
        }
        i = i + 1;
    }
    assert(b@.take(i as int) =~= b@);
    count
}

/// The number of characters after the last line break of `b`, if any
fn chars_after_last_newline(b: &[u8]) -> (r: Option<usize>)
    ensures
        match spec_chars_after_last_newline(b@) {
            Some(c) => r == Some(c as usize),
            None => r is None,
        },
{
    let mut count: usize = 0;
    let mut i: usize = b.len();
    assert(b@.take(i as int) =~= b@);
    while i > 0
        invariant
            i <= b@.len(),
            count <= b@.len() - i,
            match spec_chars_after_last_newline(b@.take(i as int)) {
                Some(c) => spec_chars_after_last_newline(b@) == Some((c + count) as nat),
                None => spec_chars_after_last_newline(b@) is None,
            },
        decreases i,
    {
        assert(b@.take(i as int).drop_last() =~= b@.take(i - 1));
        if b[i - 1] == 10 {
            assert(spec_chars_after_last_newline(b@.take(i as int)) == Some(0nat));
            return Some(count);
        }
        if b[i - 1] < 0x80 || b[i - 1] > 0xbf {
            count = count + 1;
        }
        i = i - 1;
    }
    assert(spec_chars_after_last_newline(b@.take(0)) is None);
    None
}

/// Get range of a section of a toml
pub fn toml_get_section(toml: &str, section: &str) -> (r: Option<FoundPosition>)
    requires
        toml.spec_bytes().len() <= isize::MAX,
        spec_toml_get_section(toml.spec_bytes(), section.spec_bytes()) is Some,
    ensures
        Some(r) == spec_toml_get_section(toml.spec_bytes(), section.spec_bytes()),
{
    match section_or_failure(toml, section) {
        Some(r) => r,
        None => vstd::pervasive::unreached(),
    }
}

/// The outcome of [`toml_get_section`] on every input: `None` where it fails
fn section_or_failure(toml: &str, section: &str) -> (r: Option<Option<FoundPosition>>)
    requires
        toml.spec_bytes().len() <= isize::MAX,
    ensures
        r == spec_toml_get_section(toml.spec_bytes(), section.spec_bytes()),
{
    let b = toml.as_bytes();
    let n = b.len();
    let ghost gb = toml.spec_bytes();
    let mut h: Vec<u8> = Vec::new();
    h.push(0x5b);
    let sb = section.as_bytes();
    let mut i: usize = 0;
    while i < sb.len()
        invariant
            i <= sb@.len(),
            h@ == seq![0x5bu8] + sb@.take(i as int),
        decreases sb@.len() - i,
    {
        h.push(sb[i]);
        assert(sb@.take(i + 1) =~= sb@.take(i as int).push(sb@[i as int]));
        i = i + 1;
    }
    h.push(0x5d);
    assert(sb@.take(i as int) =~= sb@);
    assert(h@ =~= seq![0x5bu8] + section.spec_bytes() + seq![0x5du8]);
    let ghost gh = h@;
    // the line holding the header
    let mut start: usize = 0;
    let mut line_idx: usize = 0;
    let item_start: usize;
    loop
        invariant
            b@ == gb,
            gb == toml.spec_bytes(),
            h@ == gh,
            gh == seq![0x5bu8] + section.spec_bytes() + seq![0x5du8],
            n == gb.len(),
            n <= isize::MAX,
            start <= n,
            line_idx <= start,
            spec_section_header(gb, gh, 0, 0) == spec_section_header(
                gb,
                gh,
                start as int,
                line_idx as int,
            ),
        ensures
            spec_section_header(gb, gh, 0, 0) == Some(
                (item_start as int, line_idx + 1, item_start - start),
            ),
            start <= item_start <= n,
            line_idx <= start,
        decreases n - start,
    {
        let e = line_end(b, start, n);
        proof {
            lemma_line_end(gb, start as int, n as int);
            lemma_trim_bounds(gb, start as int, e as int);
        }
        let t = trim_start(b, start, e);
        if h.len() <= e - t && bytes_eq_range(b, t, t + h.len(), &h) {
            item_start = t;
            break;
        }
        if e >= n {
            return Some(None);
        }
        start = e + 1;
        line_idx = line_idx + 1;
    }
    let line_idx = line_idx + 1;
    let column = item_start - start;
    assert(gh == seq![0x5bu8] + section.spec_bytes() + seq![0x5du8]);
    let nl: [u8; 1] = [10u8];
    assert(nl@ =~= seq![10u8]);
    assert(gb.take(n as int) =~= gb);
    let sle = match find_from(b, &nl, item_start, n) {
        Some(j) => j,
        None => {
            if line_idx > n || (line_idx < n && b[line_idx] >= 0x80 && b[line_idx] < 0xc0) {
                return None;
            }
            let close: [u8; 1] = [0x5du8];
            assert(close@ =~= seq![0x5du8]);
            proof {
                lemma_find_from(gb, seq![0x5du8], line_idx as int);
            }
            let column_end = match find_from(b, &close, line_idx, n) {
                Some(j) => j - line_idx,
                None => n,
            };
            return Some(Some(
                FoundPosition {
                    line: line_idx,
                    column,
                    line_end: line_idx,
                    column_end,
                    end: n,
                    item_start,
                    item_end: n,
                },
            ));
        },
    };
    proof {
        lemma_find_from(gb, seq![10u8], item_start as int);
    }
    let starting_line_end = sle + 1;
    // the first line after the header that starts a new section
    let mut idx = starting_line_end;
    let mut k: usize = 0;
    loop
        invariant
            b@ == gb,
            gb == toml.spec_bytes(),
            gh == seq![0x5bu8] + section.spec_bytes() + seq![0x5du8],
            n == gb.len(),
            n <= isize::MAX,
            starting_line_end <= idx <= n,
            k <= idx,
            line_idx <= n + 1,
            starting_line_end == sle + 1,
            spec_section_header(gb, gh, 0, 0) == Some(
                (item_start as int, line_idx as int, column as int),
            ),
            spec_find_from(gb, seq![10u8], item_start as int) == Some(sle as int),
            spec_section_end(gb, starting_line_end as int, 0) == spec_section_end(
                gb,
                idx as int,
                k as int,
            ),
        ensures
            spec_section_end(gb, starting_line_end as int, 0) is None,
        decreases n - idx,
    {
        let e = line_end(b, idx, n);
        proof {
            lemma_line_end(gb, idx as int, n as int);
            lemma_trim_bounds(gb, idx as int, e as int);
        }
        let t = trim_start(b, idx, e);
        if t < e && b[t] == 0x5b {
            return Some(Some(
                FoundPosition {
                    line: line_idx,
                    column,
                    line_end: k + line_idx,
                    column_end: 0,
                    end: idx,
                    item_start,
                    item_end: starting_line_end,
                },
            ));
        }
        if e >= n {
            break;
        }
        idx = e + 1;
        k = k + 1;
    }
    let column_end = match chars_after_last_newline(b) {
        Some(c) => c,
        None => 0,
    };
    Some(Some(
        FoundPosition {
            line: line_idx,
            column,
            end: n,
            line_end: count_newlines(b),
            column_end,
            item_start,
            item_end: starting_line_end,
        },
    ))
}

/// The line that holds the item `name`, searched among the lines of the
/// bytes from `start` to `end` from the one starting at `start` (numbered
/// `k`): `None` where the search fails, `Some(None)` where no line holds it,
/// else the line's offset, number and the offset where its text starts. A
/// line holds the item when, without leading whitespace, it starts with
/// `name` followed by a space, a tab or `=`; where the line is exactly `name`
/// the search fails (it reads one byte past it).
pub open spec fn spec_item_line(b: Seq<u8>, name: Seq<u8>, start: int, end: int, k: int) -> Option<
    Option<(int, int, int)>,
>
    decreases end - start,
{
    if start < 0 || start > end || end > b.len() {
        Some(None)
    } else {
        let e = spec_line_end(b, start, end);
        let t = spec_trim_start(b, start, e);
        proof {
            lemma_line_end(b, start, end);
        }
        let starts = t + name.len() <= e && b.subrange(t, t + name.len()) == name;
        if starts && t + name.len() >= e {
            None
        } else if starts && (b[t + name.len()] == 32 || b[t + name.len()] == 9 || b[t
            + name.len()] == 61) {
            Some(Some((start, k, t)))
        } else if e >= end {
            Some(None)
        } else {
            spec_item_line(b, name, e + 1, end, k + 1)
        }
    }
}

/// The first line, among the lines of the bytes from `start` to `end`, from
/// the one starting at `start` (numbered `k`), that holds a `]` before any
/// `#`: the offset of that `]`, the line's number and the line's offset
pub open spec fn spec_item_close(b: Seq<u8>, start: int, end: int, k: int) -> Option<(int, int, int)>
    decreases end - start,
{
    if start < 0 || start > end || end > b.len() {
        None
    } else {
        let e = spec_line_end(b, start, end);
        proof {
            lemma_line_end(b, start, end);
        }
        let hash = match spec_find_from(b.take(e), seq![0x23u8], start) {
            Some(x) => x,
            None => e,
        };
        match spec_find_from(b.take(hash), seq![0x5du8], start) {
            Some(p) => Some((p, k, start)),
            None => if e >= end {
                None
            } else {
                spec_item_close(b, e + 1, end, k + 1)
            },
        }
    }
}

/// The outcome of [`get_item_pos_in_section`]: `None` where it fails, else
/// its result. The item is searched in the body of the section (from its
/// `item_end` to its `end`) as [`spec_item_line`] describes, and ends at the
/// first `]` outside a comment from the start of its text on
/// ([`spec_item_close`]); without such a `]` the result is `None`.
pub open spec fn spec_item_pos(b: Seq<u8>, name: Seq<u8>, section: Seq<u8>) -> Option<
    Option<FoundPosition>,
> {
    match spec_toml_get_section(b, section) {
        None => None,
        Some(None) => Some(None),
        Some(Some(range)) => {
            let s0 = range.item_end as int;
            let en = range.end as int;
            match spec_item_line(b, name, s0, en, 0) {
                None => None,
                Some(None) => Some(None),
                Some(Some((ls, k, t))) => {
                    let line = k + range.line + 1;
                    match spec_item_close(b, t, en, 0) {
                        None => Some(None),
                        Some((p, k2, ls2)) => Some(
                            Some(
                                FoundPosition {
                                    line: line as usize,
                                    column: (t - ls) as usize,
                                    line_end: (line + k2) as usize,
                                    column_end: (p - ls2 + 2) as usize,
                                    item_start: t as usize,
                                    item_end: p as usize,
                                    end: spec_line_end(b, ls, en) as usize,
                                },
                            ),
                        ),
                    }
                },
            }
        },
    }
}

/// Given a toml, find the item `name` in the section `section`
pub fn get_item_pos_in_section(toml: &str, name: &str, section: &str) -> (r: Option<FoundPosition>)
    requires
        toml.spec_bytes().len() <= isize::MAX,
        spec_item_pos(toml.spec_bytes(), name.spec_bytes(), section.spec_bytes()) is Some,
    ensures
        Some(r) == spec_item_pos(toml.spec_bytes(), name.spec_bytes(), section.spec_bytes()),
{
    match item_pos_or_failure(toml, name, section) {
        Some(r) => r,
        None => vstd::pervasive::unreached(),
    }
}

/// The outcome of [`get_item_pos_in_section`] on every input: `None` where
/// it fails
pub fn item_pos_or_failure(toml: &str, name: &str, section: &str) -> (r: Option<Option<FoundPosition>>)
    requires
        toml.spec_bytes().len() <= isize::MAX,
    ensures
        r == spec_item_pos(toml.spec_bytes(), name.spec_bytes(), section.spec_bytes()),
{
    let ghost gb = toml.spec_bytes();
    let ghost gn = name.spec_bytes();
    let b = toml.as_bytes();
    let nb = name.as_bytes();
    let n = b.len();
    proof {
        lemma_toml_get_section(gb, section.spec_bytes());
    }
    let range = match section_or_failure(toml, section) {
        Some(Some(r)) => r,
        Some(None) => {
            return Some(None);
        },
        None => {
            return None;
        },
    };
    let en = range.end;
    let mut idx = range.item_end;
    let mut k: usize = 0;
    let line_start: usize;
    let text_start: usize;
    loop
        invariant
            b@ == gb,
            nb@ == gn,
            gb == toml.spec_bytes(),
            gn == name.spec_bytes(),
            n == gb.len(),
            n <= isize::MAX,
            en <= n,
            range.item_end <= idx <= en,
            k <= idx - range.item_end,
            range.line <= range.item_end,
            spec_item_line(gb, gn, range.item_end as int, en as int, 0) == spec_item_line(
                gb,
                gn,
                idx as int,
                en as int,
                k as int,
            ),
            Some(Some(range)) == spec_toml_get_section(gb, section.spec_bytes()),
            range.end == en,
        ensures
            spec_item_line(gb, gn, range.item_end as int, en as int, 0) == Some(
                Some((line_start as int, k as int, text_start as int)),
            ),
            line_start <= text_start <= en,
            range.item_end <= line_start,
            k <= line_start - range.item_end,
        decreases en - idx,
    {
        let e = line_end(b, idx, en);
        proof {
            lemma_line_end(gb, idx as int, en as int);
            lemma_trim_bounds(gb, idx as int, e as int);
        }
        let t = trim_start(b, idx, e);
        let starts = nb.len() <= e - t && bytes_eq_range(b, t, t + nb.len(), nb);
        if starts && nb.len() == e - t {
            return None;
        }
        if starts && nb.len() < e - t {
            let c = b[t + nb.len()];
            if c == 32 || c == 9 || c == 61 {
                line_start = idx;
                text_start = t;
                break;
            }
        }
        if e >= en {
            return Some(None);
        }
        idx = e + 1;
        k = k + 1;
    }
    let line = k + range.line + 1;
    let e0 = line_end(b, line_start, en);
    // the line that closes the item
    let mut idx = text_start;
    let mut k2: usize = 0;
    loop
        invariant
            b@ == gb,
            gb == toml.spec_bytes(),
            gn == name.spec_bytes(),
            n == gb.len(),
            n <= isize::MAX,
            en <= n,
            text_start <= idx <= en,
            k2 <= idx - text_start,
            line_start <= text_start,
            line == k + range.line + 1,
            line <= line_start + 1,
            e0 == spec_line_end(gb, line_start as int, en as int),
            spec_item_close(gb, text_start as int, en as int, 0) == spec_item_close(
                gb,
                idx as int,
                en as int,
                k2 as int,
            ),
            Some(Some(range)) == spec_toml_get_section(gb, section.spec_bytes()),
            range.end == en,
            spec_item_line(gb, gn, range.item_end as int, en as int, 0) == Some(
                Some((line_start as int, k as int, text_start as int)),
            ),
        decreases en - idx,
    {
        let e = line_end(b, idx, en);
        proof {
            lemma_line_end(gb, idx as int, en as int);
        }
        let hs: [u8; 1] = [0x23u8];
        assert(hs@ =~= seq![0x23u8]);
        proof {
            lemma_find_from(gb.take(e as int), seq![0x23u8], idx as int);
        }
        let hash = match find_from(b, &hs, idx, e) {
            Some(x) => x,
            None => e,
        };
        let cl: [u8; 1] = [0x5du8];
        assert(cl@ =~= seq![0x5du8]);
        proof {
            lemma_find_from(gb.take(hash as int), seq![0x5du8], idx as int);
        }
        match find_from(b, &cl, idx, hash) {
            Some(p) => {
                return Some(Some(
                    FoundPosition {
                        line,
                        column: text_start - line_start,
                        line_end: line + k2,
                        column_end: p - idx + 2,
                        item_start: text_start,
                        item_end: p,
                        end: e0,
                    },
                ));
            },
            None => {},
        }
        if e >= en {
            return Some(None);
        }
        idx = e + 1;
        k2 = k2 + 1;
    }
}

/// Given a toml, get the position of the dependency `name`
pub fn get_dependency_pos(toml: &str, name: &str) -> (r: Option<FoundPosition>)
    requires
        toml.spec_bytes().len() <= isize::MAX,
        spec_item_pos(toml.spec_bytes(), name.spec_bytes(), "dependencies".spec_bytes()) is Some,
    ensures
        Some(r) == spec_item_pos(toml.spec_bytes(), name.spec_bytes(), "dependencies".spec_bytes()),
{
    get_item_pos_in_section(toml, name, "dependencies")
}

/// Given a toml, get the position of the feature flag `name`
pub fn get_flag_pos(toml: &str, name: &str) -> (r: Option<FoundPosition>)
    requires
        toml.spec_bytes().len() <= isize::MAX,
        spec_item_pos(toml.spec_bytes(), name.spec_bytes(), "features".spec_bytes()) is Some,
    ensures
        Some(r) == spec_item_pos(toml.spec_bytes(), name.spec_bytes(), "features".spec_bytes()),
{
    get_item_pos_in_section(toml, name, "features")
}

/// Whether a line of the bytes from `start` to `end`, from the one starting
/// at `start` on, declares the key `name`: without its leading whitespace it
/// starts with `name` followed by a space, a tab or `=`
pub open spec fn spec_key_line(b: Seq<u8>, name: Seq<u8>, start: int, end: int) -> bool
    decreases end - start,
{
    if start < 0 || start > end || end > b.len() {
        false
    } else {
        let e = spec_line_end(b, start, end);
        let t = spec_trim_start(b, start, e);
        proof {
            lemma_line_end(b, start, end);
        }
        let holds = t + name.len() < e && b.subrange(t, t + name.len()) == name && (b[t
            + name.len()] == 32 || b[t + name.len()] == 9 || b[t + name.len()] == 61);
        holds || (e < end && spec_key_line(b, name, e + 1, end))
    }
}

/// A line that the position search finds declares the key
pub proof fn lemma_item_line_is_key_line(b: Seq<u8>, name: Seq<u8>, start: int, end: int, k: int)
    ensures
        spec_item_line(b, name, start, end, k) matches Some(Some(_)) ==> spec_key_line(
            b,
            name,
            start,
            end,
        ),
    decreases end - start,
{
    if !(start < 0 || start > end || end > b.len()) {
        let e = spec_line_end(b, start, end);
        lemma_line_end(b, start, end);
        if e < end {
            lemma_item_line_is_key_line(b, name, e + 1, end, k + 1);
        }
    }
}

/// Whether the section `section` of the manifest has a line that declares
/// the key `name`
pub open spec fn spec_has_item(b: Seq<u8>, name: Seq<u8>, section: Seq<u8>) -> bool {
    match spec_toml_get_section(b, section) {
        Some(Some(range)) => spec_key_line(b, name, range.item_end as int, range.end as int),
        _ => false,
    }
}

/// Whether the section `section` of `toml` declares the key `name`
fn has_item(toml: &str, name: &str, section: &str) -> (r: bool)
    requires
        toml.spec_bytes().len() <= isize::MAX,
    ensures
        r == spec_has_item(toml.spec_bytes(), name.spec_bytes(), section.spec_bytes()),
{
    let ghost gb = toml.spec_bytes();
    let ghost gn = name.spec_bytes();
    let b = toml.as_bytes();
    let nb = name.as_bytes();
    proof {
        lemma_toml_get_section(gb, section.spec_bytes());
    }
    let range = match section_or_failure(toml, section) {
        Some(Some(r)) => r,
        _ => {
            return false;
        },
    };
    let en = range.end;
    let mut idx = range.item_end;
    loop
        invariant
            b@ == gb,
            nb@ == gn,
            gb == toml.spec_bytes(),
            gn == name.spec_bytes(),
            en <= gb.len(),
            range.item_end <= idx <= en,
            spec_has_item(gb, gn, section.spec_bytes()) == spec_key_line(gb, gn, idx as int, en as int),
        decreases en - idx,
    {
        let e = line_end(b, idx, en);
        proof {
            lemma_line_end(gb, idx as int, en as int);
            lemma_trim_bounds(gb, idx as int, e as int);
        }
        let t = trim_start(b, idx, e);
        if nb.len() < e - t && bytes_eq_range(b, t, t + nb.len(), nb) {
            let c = b[t + nb.len()];
            if c == 32 || c == 9 || c == 61 {
                return true;
            }
        }
        if e >= en {
            return false;
        }
        idx = e + 1;
    }
}

/// Given a toml, check if it contains flag: whether its `[features]`
/// section declares the key `name`
pub fn has_flag(toml: &str, name: &str) -> (r: bool)
    requires
        toml.spec_bytes().len() <= isize::MAX,
    ensures
        r == spec_has_item(toml.spec_bytes(), name.spec_bytes(), "features".spec_bytes()),
{
    has_item(toml, name, "features")
}

/// Given a toml, check if it contains a dependency: whether its
/// `[dependencies]` section declares the key `name`
pub fn has_dependency(toml: &str, name: &str) -> (r: bool)
    requires
        toml.spec_bytes().len() <= isize::MAX,
    ensures
        r == spec_has_item(toml.spec_bytes(), name.spec_bytes(), "dependencies".spec_bytes()),
{
    has_item(toml, name, "dependencies")
}

/// Given a toml, get the crate name
pub fn get_toml_crate_name(toml: &str) -> (r: Option<String>)
    requires
        toml.spec_bytes().len() <= isize::MAX,
    ensures
        match spec_get_field(toml.spec_bytes(), "name".spec_bytes()) {
            Some((s, e)) => r matches Some(v) && encode_utf8(v@) == toml.spec_bytes().subrange(s, e),
            None => r is None,
        },
{
    get_field_in_toml(toml, "name")
}

/// Given a toml, get the crate version
pub fn get_toml_crate_version(toml: &str) -> (r: Option<String>)
    requires
        toml.spec_bytes().len() <= isize::MAX,
    ensures
        match spec_get_field(toml.spec_bytes(), "version".spec_bytes()) {
            Some((s, e)) => r matches Some(v) && encode_utf8(v@) == toml.spec_bytes().subrange(s, e),
            None => r is None,
        },
{
    get_field_in_toml(toml, "version")
}

/// Whether the section header that starts at `t` on the line ending at `e`
/// opens a table of feature flags (`[features]`) or of dependencies (its
/// header holds `dependencies]`: `[dependencies]`, `[dev-dependencies]`,
/// `[build-dependencies]`, `[target.'cfg(..)'.dependencies]`, ...)
pub open spec fn spec_declaring_header(b: Seq<u8>, t: int, e: int) -> bool {
    ||| (t + 10 <= e && b.subrange(t, t + 10) == spec_features_header())
    ||| spec_find_from(b.take(e), spec_dependencies_end(), t) is Some
}

/// The bytes of `[features]`
pub open spec fn spec_features_header() -> Seq<u8> {
    seq![91u8, 102u8, 101u8, 97u8, 116u8, 117u8, 114u8, 101u8, 115u8, 93u8]
}

/// The bytes of `dependencies]`
pub open spec fn spec_dependencies_end() -> Seq<u8> {
    seq![100u8, 101u8, 112u8, 101u8, 110u8, 100u8, 101u8, 110u8, 99u8, 105u8, 101u8, 115u8, 93u8]
}

/// Whether a line of `b`, from the one starting at `start` on, declares the
/// key `name` inside a table of feature flags or dependencies; `in_table`
/// tells whether the line at `start` is inside such a table. A line whose
/// text starts with `[` is a section header and opens the next table.
pub open spec fn spec_declared_from(b: Seq<u8>, name: Seq<u8>, start: int, in_table: bool) -> bool
    decreases b.len() - start,
{
    if start < 0 || start > b.len() {
        false
    } else {
        let n = b.len() as int;
        let e = spec_line_end(b, start, n);
        let t = spec_trim_start(b, start, e);
        proof {
            lemma_line_end(b, start, n);
        }
        let header = t < e && b[t] == 0x5b;
        let next = if header {
            spec_declaring_header(b, t, e)
        } else {
            in_table
        };
        let holds = !header && in_table && t + name.len() < e && b.subrange(t, t + name.len())
            == name && (b[t + name.len()] == 32 || b[t + name.len()] == 9 || b[t + name.len()]
            == 61);
        holds || (e < n && spec_declared_from(b, name, e + 1, next))
    }
}

/// Whether the manifest declares `name` as a feature flag or as a dependency
/// of any kind: a line of a table of feature flags or dependencies that,
/// without its leading whitespace, starts with `name` followed by a space, a
/// tab or `=`
pub open spec fn spec_has_flag_or_dependency(toml: Seq<u8>, name: Seq<u8>) -> bool {
    spec_declared_from(toml, name, 0, false)
}

/// Given a toml, check if it contains a flag or dependency of the given
/// name, in the `[features]` table or in any table of dependencies (normal,
/// dev, build or of a target)
pub fn has_flag_or_dependency(toml: &str, name: &str) -> (r: bool)
    requires
        toml.spec_bytes().len() <= isize::MAX,
    ensures
        r == spec_has_flag_or_dependency(toml.spec_bytes(), name.spec_bytes()),
{
    let ghost gb = toml.spec_bytes();
    let ghost gn = name.spec_bytes();
    let b = toml.as_bytes();
    let nb = name.as_bytes();
    let n = b.len();
    let feat: [u8; 10] = [91u8, 102u8, 101u8, 97u8, 116u8, 117u8, 114u8, 101u8, 115u8, 93u8];
    let deps: [u8; 13] = [100u8, 101u8, 112u8, 101u8, 110u8, 100u8, 101u8, 110u8, 99u8, 105u8, 101u8, 115u8, 93u8];
    assert(feat@ =~= spec_features_header());
    assert(deps@ =~= spec_dependencies_end());
    let mut idx: usize = 0;
    let mut in_table = false;
    assert(gb.take(n as int) =~= gb);
    loop
        invariant
            b@ == gb,
            nb@ == gn,
            gb == toml.spec_bytes(),
            gn == name.spec_bytes(),
            feat@ == spec_features_header(),
            deps@ == spec_dependencies_end(),
            n == gb.len(),
            gb.take(n as int) == gb,
            idx <= n,
            spec_has_flag_or_dependency(gb, gn) == spec_declared_from(gb, gn, idx as int, in_table),
        decreases n - idx,
    {
        let e = line_end(b, idx, n);
        proof {
            lemma_line_end(gb, idx as int, n as int);
            lemma_trim_bounds(gb, idx as int, e as int);
        }
        let t = trim_start(b, idx, e);
        let header = t < e && b[t] == 0x5b;
        if header {
            let is_features = 10 <= e - t && bytes_eq_range(b, t, t + 10, &feat);
            let is_deps = find_from(b, &deps, t, e).is_some();
            in_table = is_features || is_deps;
        } else if in_table && nb.len() < e - t && bytes_eq_range(b, t, t + nb.len(), nb) {
            let c = b[t + nb.len()];
            if c == 32 || c == 9 || c == 61 {
                return true;
            }
        }
        if e >= n {
            return false;
        }
        idx = e + 1;
    }
}

/// The bounds, within `line`, of its text before the first `#` without
/// surrounding whitespace
pub open spec fn spec_stripped_bounds(line: Seq<char>) -> (int, int) {
    let h = spec_index_of(line, '#', 0, line.len() as int);
    let a = spec_strip_start(line, 0, h, false);
    (a, spec_strip_end(line, a, h, false))
}

/// The feature key that `line` declares, inside a features section: the
/// text before its first `=` without surrounding whitespace and quotes,
/// where that is not empty
pub open spec fn spec_line_key(line: Seq<char>) -> Option<Seq<char>> {
    let (a, e) = spec_stripped_bounds(line);
    let q = spec_index_of(line, '=', a, e);
    if a < e && q < e {
        let ka = spec_strip_start(line, a, q, false);
        let ke = spec_strip_end(line, ka, q, false);
        let qa = spec_strip_start(line, ka, ke, true);
        let qe = spec_strip_end(line, qa, ke, true);
        if qa < qe {
            Some(line.subrange(qa, qe))
        } else {
            None
        }
    } else {
        None
    }
}

/// The keys found in `lines`, each once, in the order they first appear, and
/// whether the last section header seen is `[features]`. A line whose
/// stripped text starts with `[` is a section header; other lines declare
/// keys only inside the features section.
pub open spec fn spec_feature_scan(lines: Seq<Seq<char>>) -> (Seq<Seq<char>>, bool)
    decreases lines.len(),
{
    if lines.len() == 0 {
        (Seq::empty(), false)
    } else {
        let (keys, in_features) = spec_feature_scan(lines.drop_last());
        let l = lines.last();
        let (a, e) = spec_stripped_bounds(l);
        if a < e && l[a] == '[' {
            (keys, l.subrange(a, e) == "[features]"@)
        } else if in_features {
            match spec_line_key(l) {
                Some(k) => (spec_with_added(keys, k), true),
                None => (keys, true),
            }
        } else {
            (keys, false)
        }
    }
}

/// Whether the characters of `s` from `start` to `end` are `p`
fn chars_eq_range(s: &Vec<char>, start: usize, end: usize, p: &Vec<char>) -> (r: bool)
    requires
        start <= end <= s@.len(),
    ensures
        r == (s@.subrange(start as int, end as int) == p@),
{
    if end - start != p.len() {
        assert(s@.subrange(start as int, end as int).len() != p@.len());
        return false;
    }
    let mut i: usize = 0;
    while i < p.len()
        invariant
            start + p@.len() == end,
            end <= s@.len(),
            i <= p@.len(),
            forall|j: int| 0 <= j < i ==> s@[start + j] == p@[j],
        decreases p@.len() - i,
    {
        if s[start + i] != p[i] {
            assert(s@.subrange(start as int, end as int)[i as int] != p@[i as int]);
            return false;
        }
        i = i + 1;
    }
    assert(s@.subrange(start as int, end as int) =~= p@);
    true
}

/// List all features from a list of lines: the keys of the `[features]`
/// section, each once, in the order they first appear
pub fn parse_feature_keys_from_lines(lines: Vec<String>) -> (r: Vec<String>)
    ensures
        spec_views(r@) == spec_feature_scan(spec_views(lines@)).0,
{
    let header = to_chars("[features]");
    let mut in_features = false;
    let mut features: Vec<String> = Vec::new();
    let mut i: usize = 0;
    while i < lines.len()
        invariant
            i <= lines@.len(),
            header@ == "[features]"@,
            (spec_views(features@), in_features) == spec_feature_scan(
                spec_views(lines@).take(i as int),
            ),
        decreases lines@.len() - i,
    {
        assert(spec_views(lines@).take(i + 1).drop_last() =~= spec_views(lines@).take(i as int));
        let l = to_chars(lines[i].as_str());
        assert(spec_views(lines@).take(i + 1).last() == l@);
        let h = index_of(&l, '#', 0, l.len());
        let a = strip_start(&l, 0, h, false);
        let e = strip_end(&l, a, h, false);
        if a < e && l[a] == '[' {
            in_features = chars_eq_range(&l, a, e, &header);
        } else if in_features {
            let q = index_of(&l, '=', a, e);
            if a < e && q < e {
                let ka = strip_start(&l, a, q, false);
                let ke = strip_end(&l, ka, q, false);
                let qa = strip_start(&l, ka, ke, true);
                let qe = strip_end(&l, qa, ke, true);
                if qa < qe {
                    let key = string_from_range(&l, qa, qe);
                    let ghost before = spec_views(features@);
                    if !crate::text::contains_str(&features, key.as_str()) {
                        features.push(key);
                        assert(spec_views(features@) =~= before.push(l@.subrange(qa as int, qe as int)));
                    }
                }
            }
        }
        i = i + 1;
    }
    assert(spec_views(lines@).take(i as int) =~= spec_views(lines@));
    features
}


/// The path of the manifest of the crate being built: `Cargo.toml` in the
/// directory that `CARGO_MANIFEST_DIR` names
pub fn get_toml_path(env: &Environment) -> (r: Result<String, VarError>)
    ensures
        match env.spec_var("CARGO_MANIFEST_DIR"@) {
            Ok(dir) => r matches Ok(p) && p@ == dir + "/Cargo.toml"@,
            Err(e) => r == Err::<String, VarError>(e),
        },
{
    let mut dir = env.var("CARGO_MANIFEST_DIR")?;
    push_str(&mut dir, "/Cargo.toml");
    Ok(dir)
}

} // verus!
