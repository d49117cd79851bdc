//! Searching and slicing a text by the byte offsets of its UTF-8 encoding.
use vstd::prelude::*;
use vstd::string::*;
use vstd::utf8::*;

verus! {

broadcast use vstd::utf8::encode_utf8_valid_utf8;

/// Whether `p` occurs in `b` at offset `k`
pub open spec fn spec_bytes_match_at(b: Seq<u8>, p: Seq<u8>, k: int) -> bool {
    0 <= k && k + p.len() <= b.len() && b.subrange(k, k + p.len()) == p
}

/// The first offset, at or after `from`, where `p` occurs in `b`
pub open spec fn spec_find_from(b: Seq<u8>, p: Seq<u8>, from: int) -> Option<int>
    decreases b.len() - from,
{
    if from < 0 || from + p.len() > b.len() {
        None
    } else if spec_bytes_match_at(b, p, from) {
        Some(from)
    } else if from >= b.len() {
        None
    } else {
        spec_find_from(b, p, from + 1)
    }
}

/// What [`spec_find_from`] finds: a match, the first one from `from`
pub proof fn lemma_find_from(b: Seq<u8>, p: Seq<u8>, from: int)
    requires
        0 <= from,
    ensures
        spec_find_from(b, p, from) matches Some(k) ==> from <= k && spec_bytes_match_at(b, p, k)
            && forall|j: int| from <= j < k ==> !spec_bytes_match_at(b, p, j),
        spec_find_from(b, p, from) is None ==> forall|j: int|
            from <= j ==> !spec_bytes_match_at(b, p, j),
    decreases b.len() - from,
{
    if from + p.len() > b.len() {
    } else if spec_bytes_match_at(b, p, from) {
    } else if from >= b.len() {
    } else {
        lemma_find_from(b, p, from + 1);
    }
}

/// The first offset, at or after `from`, where `p` occurs in the first `end` bytes of `b`
pub fn find_from(b: &[u8], p: &[u8], from: usize, end: usize) -> (r: Option<usize>)
    requires
        end <= b@.len(),
    ensures
        match spec_find_from(b@.take(end as int), p@, from as int) {
            Some(k) => r == Some(k as usize),
            None => r is None,
        },
{
    let ghost s = b@.take(end as int);
    if from > end || p.len() > end - from {
        return None;
    }
    let mut k = from;
    loop
        invariant
            from <= k,
            k + p@.len() <= end,
            end <= b@.len(),
            s == b@.take(end as int),
            spec_find_from(s, p@, from as int) == spec_find_from(s, p@, k as int),
        decreases end - k,
    {
        let mut i: usize = 0;
        let mut ok = true;
        while i < p.len()
            invariant
                k + p@.len() <= end,
                end <= b@.len(),
                i <= p@.len(),
                ok ==> forall|j: int| 0 <= j < i ==> b@[k + j] == p@[j],
                !ok ==> !spec_bytes_match_at(s, p@, k as int),
                s == b@.take(end as int),
            decreases p@.len() - i,
        {
            if b[k + i] != p[i] {
                ok = false;
                assert(s.subrange(k as int, k + p@.len())[i as int] != p@[i as int]);
            }
            i = i + 1;
        }
        if ok {
            assert(s.subrange(k as int, k + p@.len()) =~= p@);
            return Some(k);
        }
        if k >= end || p.len() > end - (k + 1) {
            proof {
                if k < end {
                    assert(spec_find_from(s, p@, k + 1) is None);
                }
            }
            return None;
        }
        k = k + 1;
    }
}

/// Whether the char boundary property of vstd holds at `i`, in simple terms:
/// `i` is the end or does not hold a continuation byte
pub proof fn lemma_char_boundary(b: Seq<u8>, i: int)
    requires
        valid_utf8(b),
        0 <= i <= b.len(),
    ensures
        is_char_boundary(b, i) <==> (i == b.len() || !is_continuation_byte(b[i])),
{
    if i == b.len() {
        is_char_boundary_start_end_of_seq(b);
    } else {
        is_char_boundary_iff_not_is_continuation_byte(b, i);
    }
}

/// The byte after an ASCII byte is never a continuation byte
pub proof fn lemma_after_ascii(b: Seq<u8>, i: int)
    requires
        valid_utf8(b),
        0 <= i < b.len(),
        b[i] < 0x80,
    ensures
        i + 1 == b.len() || !is_continuation_byte(b[i + 1]),
    decreases b.len(),
{
    let l = length_of_first_scalar(b);
    if i < l {
        reveal_with_fuel(valid_utf8, 2);
        if i > 0 {
            assert(is_continuation_byte(b[i]));
        }
        assert(l == 1);
        let rest = pop_first_scalar(b);
        if rest.len() > 0 {
            assert(rest[0] == b[1]);
        }
    } else {
        let rest = pop_first_scalar(b);
        assert(rest[i - l] == b[i]);
        lemma_after_ascii(rest, i - l);
        if i + 1 < b.len() {
            assert(rest[i - l + 1] == b[i + 1]);
        }
    }
}

/// The text between the byte offsets `start` and `end` of `s`
pub fn slice_str(s: &str, start: usize, end: usize) -> (r: &str)
    requires
        start <= end <= s.spec_bytes().len(),
        start == s.spec_bytes().len() || !is_continuation_byte(s.spec_bytes()[start as int]),
        end == s.spec_bytes().len() || !is_continuation_byte(s.spec_bytes()[end as int]),
    ensures
        r.spec_bytes() == s.spec_bytes().subrange(start as int, end as int),
{
    let ghost b = s.spec_bytes();
    proof {
        lemma_char_boundary(b, end as int);
    }
    let (head, _) = s.split_at(end);
    proof {
        let h = b.subrange(0, end as int);
        valid_utf8_split(b, end as int);
        assert(head.spec_bytes() == h);
        lemma_char_boundary(h, start as int);
        if start < end {
            assert(h[start as int] == b[start as int]);
        }
    }
    let (_, tail) = head.split_at(start);
    assert(tail.spec_bytes() =~= b.subrange(start as int, end as int));
    tail
}

/// Whether the three bytes encode one of the three-byte whitespace characters:
/// U+1680, U+2000 to U+200A, U+2028, U+2029, U+202F, U+205F, U+3000
pub open spec fn spec_is_ws3(x: u8, y: u8, z: u8) -> bool {
    ||| (x == 0xe1 && y == 0x9a && z == 0x80)
    ||| (x == 0xe2 && y == 0x80 && ((0x80 <= z <= 0x8a) || z == 0xa8 || z == 0xa9 || z == 0xaf))
    ||| (x == 0xe2 && y == 0x81 && z == 0x9f)
    ||| (x == 0xe3 && y == 0x80 && z == 0x80)
}

/// Whether the two bytes encode U+0085 or U+00A0
pub open spec fn spec_is_ws2(x: u8, y: u8) -> bool {
    x == 0xc2 && (y == 0x85 || y == 0xa0)
}

/// Whether the byte is one of the ASCII whitespace characters U+0009 to U+000D and U+0020
pub open spec fn spec_is_ws1(x: u8) -> bool {
    (0x09 <= x <= 0x0d) || x == 0x20
}

/// The length of the UTF-8 encoding of a whitespace character (the Unicode
/// `White_Space` property, as `char::is_whitespace` has it) that starts at
/// offset `i` of `b` and ends before `end`; 0 where none does
pub open spec fn spec_ws_len(b: Seq<u8>, i: int, end: int) -> int {
    if !(0 <= i < end && end <= b.len()) {
        0
    } else if spec_is_ws1(b[i]) {
        1
    } else if i + 1 < end && spec_is_ws2(b[i], b[i + 1]) {
        2
    } else if i + 2 < end && spec_is_ws3(b[i], b[i + 1], b[i + 2]) {
        3
    } else {
        0
    }
}

/// The length of the UTF-8 encoding of a whitespace character that ends at
/// offset `end` of `b` and starts at or after `start`; 0 where none does
pub open spec fn spec_ws_len_before(b: Seq<u8>, start: int, end: int) -> int {
    if !(0 <= start < end && end <= b.len()) {
        0
    } else if spec_is_ws1(b[end - 1]) {
        1
    } else if start <= end - 2 && spec_is_ws2(b[end - 2], b[end - 1]) {
        2
    } else if start <= end - 3 && spec_is_ws3(b[end - 3], b[end - 2], b[end - 1]) {
        3
    } else {
        0
    }
}

/// The offset where the text between `start` and `end` begins once its leading whitespace is removed
pub open spec fn spec_trim_start(b: Seq<u8>, start: int, end: int) -> int
    decreases end - start,
{
    if spec_ws_len(b, start, end) > 0 {
        spec_trim_start(b, start + spec_ws_len(b, start, end), end)
    } else {
        start
    }
}

/// The offset where the text between `start` and `end` ends once its trailing whitespace is removed
pub open spec fn spec_trim_end(b: Seq<u8>, start: int, end: int) -> int
    decreases end - start,
{
    if spec_ws_len_before(b, start, end) > 0 {
        spec_trim_end(b, start, end - spec_ws_len_before(b, start, end))
    } else {
        end
    }
}

/// Trimming keeps within the bounds
pub proof fn lemma_trim_bounds(b: Seq<u8>, start: int, end: int)
    requires
        0 <= start <= end <= b.len(),
    ensures
        start <= spec_trim_start(b, start, end) <= end,
        start <= spec_trim_end(b, start, end) <= end,
    decreases end - start,
{
    if spec_ws_len(b, start, end) > 0 {
        lemma_trim_bounds(b, start + spec_ws_len(b, start, end), end);
    }
    if spec_ws_len_before(b, start, end) > 0 {
        lemma_trim_bounds(b, start, end - spec_ws_len_before(b, start, end));
    }
}

/// The length of the whitespace character at `i`, see [`spec_ws_len`]
pub fn ws_len(b: &[u8], i: usize, end: usize) -> (r: usize)
    requires
        end <= b@.len(),
    ensures
        r == spec_ws_len(b@, i as int, end as int),
{
    if i >= end {
        return 0;
    }
    let x = b[i];
    if (0x09 <= x && x <= 0x0d) || x == 0x20 {
        return 1;
    }
    if i + 1 < end && x == 0xc2 && (b[i + 1] == 0x85 || b[i + 1] == 0xa0) {
        return 2;
    }
    if end - i > 2 {
        let y = b[i + 1];
        let z = b[i + 2];
        if (x == 0xe1 && y == 0x9a && z == 0x80) || (x == 0xe2 && y == 0x80 && ((0x80 <= z
            && z <= 0x8a) || z == 0xa8 || z == 0xa9 || z == 0xaf)) || (x == 0xe2 && y == 0x81
            && z == 0x9f) || (x == 0xe3 && y == 0x80 && z == 0x80) {
            return 3;
        }
    }
    0
}

/// The length of the whitespace character that ends at `end`, see [`spec_ws_len_before`]
pub fn ws_len_before(b: &[u8], start: usize, end: usize) -> (r: usize)
    requires
        end <= b@.len(),
    ensures
        r == spec_ws_len_before(b@, start as int, end as int),
{
    if start >= end {
        return 0;
    }
    let z = b[end - 1];
    if (0x09 <= z && z <= 0x0d) || z == 0x20 {
        return 1;
    }
    if end >= 2 && end - 2 >= start && b[end - 2] == 0xc2 && (z == 0x85 || z == 0xa0) {
        return 2;
    }
    if end >= 3 && end - 3 >= start {
        let x = b[end - 3];
        let y = b[end - 2];
        if (x == 0xe1 && y == 0x9a && z == 0x80) || (x == 0xe2 && y == 0x80 && ((0x80 <= z
            && z <= 0x8a) || z == 0xa8 || z == 0xa9 || z == 0xaf)) || (x == 0xe2 && y == 0x81
            && z == 0x9f) || (x == 0xe3 && y == 0x80 && z == 0x80) {
            return 3;
        }
    }
    0
}

/// The start of the text between `start` and `end` without its leading whitespace
pub fn trim_start(b: &[u8], start: usize, end: usize) -> (r: usize)
    requires
        start <= end <= b@.len(),
    ensures
        r == spec_trim_start(b@, start as int, end as int),
{
    let mut i = start;
    loop
        invariant
            start <= i <= end,
            end <= b@.len(),
            spec_trim_start(b@, start as int, end as int) == spec_trim_start(
                b@,
                i as int,
                end as int,
            ),
        decreases end - i,
    {
        let w = ws_len(b, i, end);
        if w == 0 {
            return i;
        }
        i = i + w;
    }
}

/// The end of the text between `start` and `end` without its trailing whitespace
pub fn trim_end(b: &[u8], start: usize, end: usize) -> (r: usize)
    requires
        start <= end <= b@.len(),
    ensures
        r == spec_trim_end(b@, start as int, end as int),
{
    let mut e = end;
    loop
        invariant
            start <= e <= end,
            end <= b@.len(),
            spec_trim_end(b@, start as int, end as int) == spec_trim_end(
                b@,
                start as int,
                e as int,
            ),
        decreases e - start,
    {
        let w = ws_len_before(b, start, e);
        if w == 0 {
            return e;
        }
        e = e - w;
    }
}

} // verus!
