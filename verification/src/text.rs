//! Character and byte level helpers shared by the text processing modules.
use vstd::prelude::*;

verus! {

/// `n` copies of `c`
pub open spec fn spec_repeat(c: char, n: nat) -> Seq<char> {
    Seq::new(n, |_i: int| c)
}

/// Appends `c` to `s`: the contract of `String::push`.
#[verifier::external_body]
pub(crate) fn push_char(s: &mut String, c: char)
    ensures
        final(s)@ == old(s)@.push(c),
{
    s.push(c);
}

/// Appends `n` copies of `c` to `s`.
pub fn push_repeated(s: &mut String, c: char, n: usize)
    ensures
        final(s)@ == old(s)@ + spec_repeat(c, n as nat),
{
    let ghost start = s@;
    let mut i: usize = 0;
    while i < n
        invariant
            i <= n,
            s@ == start + spec_repeat(c, i as nat),
        decreases n - i,
    {
        push_char(s, c);
        i = i + 1;
        assert(s@ =~= start + spec_repeat(c, i as nat));
    }
}

/// Appends `t` to `s`.
pub fn push_str(s: &mut String, t: &str)
    ensures
        final(s)@ == old(s)@ + t@,
{
    s.append(t);
}

/// Whether `a` and `b` hold the same characters: the contract of `==` on `str`.
#[verifier::external_body]
pub(crate) fn str_eq(a: &str, b: &str) -> (r: bool)
    ensures
        r == (a@ == b@),
{
    a == b
}

/// The character sequences of a list of strings
pub open spec fn spec_views(v: Seq<String>) -> Seq<Seq<char>> {
    v.map_values(|s: String| s@)
}

/// `v` with `x` appended, unless `v` already holds it
pub open spec fn spec_with_added<A>(v: Seq<A>, x: A) -> Seq<A> {
    if v.contains(x) {
        v
    } else {
        v.push(x)
    }
}

/// `v` without any occurrence of `x`, in the same order otherwise
pub open spec fn spec_without<A>(v: Seq<A>, x: A) -> Seq<A>
    decreases v.len(),
{
    if v.len() == 0 {
        v
    } else if v.last() == x {
        spec_without(v.drop_last(), x)
    } else {
        spec_without(v.drop_last(), x).push(v.last())
    }
}

/// Whether `v` holds a string with the characters of `x`
pub fn contains_str(v: &Vec<String>, x: &str) -> (r: bool)
    ensures
        r == spec_views(v@).contains(x@),
{
    let mut i: usize = 0;
    while i < v.len()
        invariant
            i <= v@.len(),
            forall|j: int| 0 <= j < i ==> v@[j]@ != x@,
        decreases v@.len() - i,
    {
        if str_eq(v[i].as_str(), x) {
            assert(spec_views(v@)[i as int] == x@);
            return true;
        }
        i = i + 1;
    }
    assert(!spec_views(v@).contains(x@)) by {
        if spec_views(v@).contains(x@) {
            let j = choose|j: int| 0 <= j < spec_views(v@).len() && spec_views(v@)[j] == x@;
            assert(v@[j]@ == x@);
        }
    }
    false
}

/// Appends a copy of `x` to `v` unless `v` already holds it.
pub fn add_str(v: &mut Vec<String>, x: &str)
    ensures
        spec_views(final(v)@) == spec_with_added(spec_views(old(v)@), x@),
{
    if !contains_str(v, x) {
        v.push(x.to_owned());
        assert(spec_views(v@) =~= spec_views(old(v)@).push(x@));
    }
}

/// Removes every string with the characters of `x` from `v`.
pub fn remove_str(v: &mut Vec<String>, x: &str)
    ensures
        spec_views(final(v)@) == spec_without(spec_views(old(v)@), x@),
{
    let mut kept: Vec<String> = Vec::new();
    let ghost orig = spec_views(v@);
    while v.len() > 0
        invariant
            spec_without(orig, x@) == spec_without(spec_views(v@), x@) + spec_views(kept@),
        decreases v@.len(),
    {
        let ghost before = v@;
        let last = v.pop().unwrap();
        assert(spec_views(before).drop_last() =~= spec_views(v@));
        if !str_eq(last.as_str(), x) {
            let ghost k = kept@;
            kept.insert(0, last);
            assert(spec_views(kept@) =~= seq![before.last()@] + spec_views(k));
            assert(spec_without(orig, x@) =~= spec_without(spec_views(v@), x@) + spec_views(kept@));
        }
    }
    assert(spec_views(v@) =~= Seq::<Seq<char>>::empty());
    assert(spec_without(orig, x@) =~= spec_views(kept@));
    *v = kept;
}

/// The character sequences of a list of string pairs
pub open spec fn spec_pair_views(v: Seq<(String, String)>) -> Seq<(Seq<char>, Seq<char>)> {
    v.map_values(|p: (String, String)| (p.0@, p.1@))
}

/// Whether `v` holds a pair with the characters of `a` and `b`
pub fn contains_str_pair(v: &Vec<(String, String)>, a: &str, b: &str) -> (r: bool)
    ensures
        r == spec_pair_views(v@).contains((a@, b@)),
{
    let mut i: usize = 0;
    while i < v.len()
        invariant
            i <= v@.len(),
            forall|j: int| 0 <= j < i ==> (v@[j].0@, v@[j].1@) != (a@, b@),
        decreases v@.len() - i,
    {
        if str_eq(v[i].0.as_str(), a) && str_eq(v[i].1.as_str(), b) {
            assert(spec_pair_views(v@)[i as int] == (a@, b@));
            return true;
        }
        i = i + 1;
    }
    assert(!spec_pair_views(v@).contains((a@, b@))) by {
        if spec_pair_views(v@).contains((a@, b@)) {
            let j = choose|j: int|
                0 <= j < spec_pair_views(v@).len() && spec_pair_views(v@)[j] == (a@, b@);
            assert((v@[j].0@, v@[j].1@) == (a@, b@));
        }
    }
    false
}

/// Appends a copy of the pair `(a, b)` to `v` unless `v` already holds it.
pub fn add_str_pair(v: &mut Vec<(String, String)>, a: &str, b: &str)
    ensures
        spec_pair_views(final(v)@) == spec_with_added(spec_pair_views(old(v)@), (a@, b@)),
{
    if !contains_str_pair(v, a, b) {
        v.push((a.to_owned(), b.to_owned()));
        assert(spec_pair_views(v@) =~= spec_pair_views(old(v)@).push((a@, b@)));
    }
}

/// Removes every pair with the characters of `a` and `b` from `v`.
pub fn remove_str_pair(v: &mut Vec<(String, String)>, a: &str, b: &str)
    ensures
        spec_pair_views(final(v)@) == spec_without(spec_pair_views(old(v)@), (a@, b@)),
{
    let mut kept: Vec<(String, String)> = Vec::new();
    let ghost orig = spec_pair_views(v@);
    while v.len() > 0
        invariant
            spec_without(orig, (a@, b@)) == spec_without(spec_pair_views(v@), (a@, b@))
                + spec_pair_views(kept@),
        decreases v@.len(),
    {
        let ghost before = v@;
        let last = v.pop().unwrap();
        assert(spec_pair_views(before).drop_last() =~= spec_pair_views(v@));
        if !(str_eq(last.0.as_str(), a) && str_eq(last.1.as_str(), b)) {
            let ghost k = kept@;
            kept.insert(0, last);
            assert(spec_pair_views(kept@) =~= seq![(before.last().0@, before.last().1@)]
                + spec_pair_views(k));
            assert(spec_without(orig, (a@, b@)) =~= spec_without(spec_pair_views(v@), (a@, b@))
                + spec_pair_views(kept@));
        }
    }
    assert(spec_pair_views(v@) =~= Seq::<(Seq<char>, Seq<char>)>::empty());
    assert(spec_without(orig, (a@, b@)) =~= spec_pair_views(kept@));
    *v = kept;
}

/// The characters of `s`
pub fn to_chars(s: &str) -> (r: Vec<char>)
    ensures
        r@ == s@,
{
    let mut r: Vec<char> = Vec::new();
    for c in it: s.chars()
        invariant
            r@ == it.seq().take(it.index() as int),
    {
        r.push(c);
    }
    r
}

/// Whether `s` begins with `p`
pub open spec fn spec_starts_with<A>(s: Seq<A>, p: Seq<A>) -> bool {
    p.len() <= s.len() && s.take(p.len() as int) == p
}

/// Whether `p` occurs in `s` at position `k`
pub open spec fn spec_matches_at<A>(s: Seq<A>, p: Seq<A>, k: int) -> bool {
    0 <= k && k + p.len() <= s.len() && s.subrange(k, k + p.len()) == p
}

/// Whether `p` occurs anywhere in `s`
pub open spec fn spec_contains_seq<A>(s: Seq<A>, p: Seq<A>) -> bool {
    exists|k: int| spec_matches_at(s, p, k)
}

/// `s` with every `from` replaced by `to`
pub open spec fn spec_replace_char(s: Seq<char>, from: char, to: char) -> Seq<char> {
    s.map_values(|c: char| if c == from { to } else { c })
}

/// The pieces of `s` between the occurrences of `sep`; there is always at
/// least one piece, and one more than there are occurrences
pub open spec fn spec_split<A>(s: Seq<A>, sep: A) -> Seq<Seq<A>>
    decreases s.len(),
{
    if s.len() == 0 {
        seq![Seq::empty()]
    } else {
        let init = spec_split(s.drop_last(), sep);
        if s.last() == sep {
            init.push(Seq::empty())
        } else {
            init.update(init.len() - 1, init.last().push(s.last()))
        }
    }
}

/// The split of a non-empty sequence has at least one piece
pub proof fn lemma_split_nonempty<A>(s: Seq<A>, sep: A)
    ensures
        spec_split(s, sep).len() >= 1,
    decreases s.len(),
{
    if s.len() > 0 {
        lemma_split_nonempty(s.drop_last(), sep);
    }
}

/// Whether `p` occurs in `s` at position `k`, for exec code
pub fn matches_at(s: &Vec<char>, p: &Vec<char>, k: usize) -> (r: bool)
    ensures
        r == spec_matches_at(s@, p@, k as int),
{
    if k > s.len() || p.len() > s.len() - k {
        return false;
    }
    let mut i: usize = 0;
    while i < p.len()
        invariant
            k + p@.len() <= s@.len(),
            s@.len() == s.len(),
            i <= p@.len(),
            forall|j: int| 0 <= j < i ==> s@[k + j] == p@[j],
        decreases p@.len() - i,
    {
        if s[k + i] != p[i] {
            assert(s@.subrange(k as int, k + p@.len())[i as int] != p@[i as int]);
            return false;
        }
        i = i + 1;
    }
    assert(s@.subrange(k as int, k + p@.len()) =~= p@);
    true
}

/// Whether `p` occurs anywhere in `s`
pub fn contains_chars(s: &Vec<char>, p: &Vec<char>) -> (r: bool)
    ensures
        r == spec_contains_seq(s@, p@),
{
    let mut k: usize = 0;
    loop
        invariant
            k <= s@.len(),
            forall|j: int| 0 <= j < k ==> !spec_matches_at(s@, p@, j),
        ensures
            forall|j: int| 0 <= j <= s@.len() ==> !spec_matches_at(s@, p@, j),
        decreases s@.len() - k,
    {
        if matches_at(s, p, k) {
            return true;
        }
        if k == s.len() {
            break;
        }
        k = k + 1;
    }
    assert(!spec_contains_seq(s@, p@)) by {
        if spec_contains_seq(s@, p@) {
            let j = choose|j: int| spec_matches_at(s@, p@, j);
            assert(j <= s@.len());
        }
    }
    false
}

/// Whether the text `s` begins with `p`
pub fn str_starts_with(s: &str, p: &str) -> (r: bool)
    ensures
        r == spec_starts_with(s@, p@),
{
    let sc = to_chars(s);
    let pc = to_chars(p);
    let r = matches_at(&sc, &pc, 0);
    proof {
        if r {
            assert(sc@.subrange(0, pc@.len() as int) =~= sc@.take(pc@.len() as int));
        } else if spec_starts_with(s@, p@) {
            assert(sc@.subrange(0, pc@.len() as int) =~= sc@.take(pc@.len() as int));
        }
    }
    r
}

/// Whether the text `p` occurs in the text `s`
pub fn str_contains(s: &str, p: &str) -> (r: bool)
    ensures
        r == spec_contains_seq(s@, p@),
{
    contains_chars(&to_chars(s), &to_chars(p))
}

/// The string of the characters `s`
pub fn string_from_chars(s: &Vec<char>) -> (r: String)
    ensures
        r@ == s@,
{
    let mut r = String::new();
    let mut i: usize = 0;
    while i < s.len()
        invariant
            i <= s@.len(),
            r@ == s@.take(i as int),
        decreases s@.len() - i,
    {
        push_char(&mut r, s[i]);
        assert(s@.take(i + 1) =~= s@.take(i as int).push(s@[i as int]));
        i = i + 1;
    }
    assert(s@.take(i as int) =~= s@);
    r
}

/// `s` with every `from` replaced by `to`
pub fn replace_char(s: &str, from: char, to: char) -> (r: String)
    ensures
        r@ == spec_replace_char(s@, from, to),
{
    let cs = to_chars(s);
    let mut r = String::new();
    let mut i: usize = 0;
    while i < cs.len()
        invariant
            cs@ == s@,
            i <= cs@.len(),
            r@ == spec_replace_char(s@.take(i as int), from, to),
        decreases cs@.len() - i,
    {
        let c = cs[i];
        push_char(&mut r, if c == from { to } else { c });
        assert(spec_replace_char(s@.take(i + 1), from, to) =~= spec_replace_char(
            s@.take(i as int),
            from,
            to,
        ).push(if c == from { to } else { c }));
        i = i + 1;
    }
    assert(s@.take(i as int) =~= s@);
    r
}

/// The pieces of `s` between the occurrences of `sep`
pub fn split_str(s: &str, sep: char) -> (r: Vec<String>)
    ensures
        spec_views(r@) == spec_split(s@, sep),
{
    let cs = to_chars(s);
    let mut pieces: Vec<String> = Vec::new();
    let mut current: Vec<char> = Vec::new();
    let mut i: usize = 0;
    while i < cs.len()
        invariant
            cs@ == s@,
            i <= cs@.len(),
            spec_views(pieces@).push(current@) == spec_split(s@.take(i as int), sep),
        decreases cs@.len() - i,
    {
        let c = cs[i];
        assert(s@.take(i + 1).drop_last() =~= s@.take(i as int));
        if c == sep {
            let ghost before = spec_views(pieces@);
            pieces.push(string_from_chars(&current));
            current = Vec::new();
            assert(spec_views(pieces@) =~= before.push(spec_views(pieces@).last()));
            assert(spec_views(pieces@).push(current@) =~= spec_split(s@.take(i + 1), sep));
        } else {
            let ghost before = current@;
            current.push(c);
            assert(spec_views(pieces@).push(current@) =~= spec_split(s@.take(i + 1), sep));
        }
        i = i + 1;
    }
    pieces.push(string_from_chars(&current));
    assert(s@.take(i as int) =~= s@);
    assert(spec_views(pieces@) =~= spec_split(s@, sep));
    pieces
}

/// Whether `c` has the Unicode `White_Space` property, as `char::is_whitespace` has it
pub open spec fn spec_is_whitespace(c: char) -> bool {
    let u = c as u32;
    ||| (0x09 <= u <= 0x0d)
    ||| u == 0x20
    ||| u == 0x85
    ||| u == 0xa0
    ||| u == 0x1680
    ||| (0x2000 <= u <= 0x200a)
    ||| u == 0x2028
    ||| u == 0x2029
    ||| u == 0x202f
    ||| u == 0x205f
    ||| u == 0x3000
}

/// Whether `c` is whitespace, see [`spec_is_whitespace`]
pub fn is_whitespace(c: char) -> (r: bool)
    ensures
        r == spec_is_whitespace(c),
{
    let u = c as u32;
    (0x09 <= u && u <= 0x0d) || u == 0x20 || u == 0x85 || u == 0xa0 || u == 0x1680 || (0x2000
        <= u && u <= 0x200a) || u == 0x2028 || u == 0x2029 || u == 0x202f || u == 0x205f || u
        == 0x3000
}

/// Whether `c` is removed when stripping quotes (`quotes`) or whitespace
pub open spec fn spec_strips(c: char, quotes: bool) -> bool {
    if quotes {
        c == '"'
    } else {
        spec_is_whitespace(c)
    }
}

/// Whether `c` is removed when stripping quotes (`quotes`) or whitespace
pub fn strips(c: char, quotes: bool) -> (r: bool)
    ensures
        r == spec_strips(c, quotes),
{
    if quotes {
        c == '"'
    } else {
        is_whitespace(c)
    }
}

/// The start bound of the characters of `s` from `start` to `end` without
/// the leading ones that [`spec_strips`] removes
pub open spec fn spec_strip_start(s: Seq<char>, start: int, end: int, quotes: bool) -> int
    decreases end - start,
{
    if start < end && start < s.len() && 0 <= start && spec_strips(s[start], quotes) {
        spec_strip_start(s, start + 1, end, quotes)
    } else {
        start
    }
}

/// The end bound of the characters from `start` to `end` without the
/// trailing ones that [`spec_strips`] removes
pub open spec fn spec_strip_end(s: Seq<char>, start: int, end: int, quotes: bool) -> int
    decreases end - start,
{
    if start < end && 0 < end <= s.len() && spec_strips(s[end - 1], quotes) {
        spec_strip_end(s, start, end - 1, quotes)
    } else {
        end
    }
}

/// See [`spec_strip_start`]
pub fn strip_start(s: &Vec<char>, start: usize, end: usize, quotes: bool) -> (r: usize)
    requires
        start <= end <= s@.len(),
    ensures
        r == spec_strip_start(s@, start as int, end as int, quotes),
        start <= r <= end,
{
    let mut i = start;
    while i < end && strips(s[i], quotes)
        invariant
            start <= i <= end,
            end <= s@.len(),
            spec_strip_start(s@, start as int, end as int, quotes) == spec_strip_start(
                s@,
                i as int,
                end as int,
                quotes,
            ),
        decreases end - i,
    {
        i = i + 1;
    }
    i
}

/// See [`spec_strip_end`]
pub fn strip_end(s: &Vec<char>, start: usize, end: usize, quotes: bool) -> (r: usize)
    requires
        start <= end <= s@.len(),
    ensures
        r == spec_strip_end(s@, start as int, end as int, quotes),
        start <= r <= end,
{
    let mut e = end;
    while e > start && strips(s[e - 1], quotes)
        invariant
            start <= e <= end,
            end <= s@.len(),
            spec_strip_end(s@, start as int, end as int, quotes) == spec_strip_end(
                s@,
                start as int,
                e as int,
                quotes,
            ),
        decreases e - start,
    {
        e = e - 1;
    }
    e
}

/// The string of the characters of `s` from `start` to `end`
pub fn string_from_range(s: &Vec<char>, start: usize, end: usize) -> (r: String)
    requires
        start <= end <= s@.len(),
    ensures
        r@ == s@.subrange(start as int, end as int),
{
    let mut r = String::new();
    let mut i = start;
    while i < end
        invariant
            start <= i <= end,
            end <= s@.len(),
            r@ == s@.subrange(start as int, i as int),
        decreases end - i,
    {
        push_char(&mut r, s[i]);
        assert(s@.subrange(start as int, i + 1) =~= s@.subrange(start as int, i as int).push(
            s@[i as int],
        ));
        i = i + 1;
    }
    r
}

/// The index of the first `c` in `s` from `start` before `end`, or `end`
pub open spec fn spec_index_of(s: Seq<char>, c: char, start: int, end: int) -> int
    decreases end - start,
{
    if start >= end || start < 0 || start >= s.len() {
        end
    } else if s[start] == c {
        start
    } else {
        spec_index_of(s, c, start + 1, end)
    }
}

/// The index of the first `c` in `s` from `start` before `end`, or `end`
pub fn index_of(s: &Vec<char>, c: char, start: usize, end: usize) -> (r: usize)
    requires
        start <= end <= s@.len(),
    ensures
        r == spec_index_of(s@, c, start as int, end as int),
        start <= r <= end,
{
    let mut i = start;
    while i < end && s[i] != c
        invariant
            start <= i <= end,
            end <= s@.len(),
            spec_index_of(s@, c, start as int, end as int) == spec_index_of(
                s@,
                c,
                i as int,
                end as int,
            ),
        decreases end - i,
    {
        i = i + 1;
    }
    i
}


/// The character of the decimal digit `d`
pub open spec fn spec_digit(d: int) -> char {
    if d == 0 {
        '0'
    } else if d == 1 {
        '1'
    } else if d == 2 {
        '2'
    } else if d == 3 {
        '3'
    } else if d == 4 {
        '4'
    } else if d == 5 {
        '5'
    } else if d == 6 {
        '6'
    } else if d == 7 {
        '7'
    } else if d == 8 {
        '8'
    } else {
        '9'
    }
}

/// The decimal digits of `n`, without leading zeros
pub open spec fn spec_decimal(n: nat) -> Seq<char>
    decreases n,
{
    if n < 10 {
        seq![spec_digit(n as int)]
    } else {
        spec_decimal(n / 10).push(spec_digit((n % 10) as int))
    }
}

/// How `n` is written in decimal, with a `-` before a negative number
pub open spec fn spec_int_text(n: int) -> Seq<char> {
    if n < 0 {
        seq!['-'] + spec_decimal((-n) as nat)
    } else {
        spec_decimal(n as nat)
    }
}

fn digit_char(d: usize) -> (c: char)
    requires
        d < 10,
    ensures
        c == spec_digit(d as int),
{
    match d {
        0 => '0',
        1 => '1',
        2 => '2',
        3 => '3',
        4 => '4',
        5 => '5',
        6 => '6',
        7 => '7',
        8 => '8',
        _ => '9',
    }
}

/// Appends the decimal digits of `n` to `s`
pub fn push_decimal(s: &mut String, n: usize)
    ensures
        final(s)@ == old(s)@ + spec_decimal(n as nat),
    decreases n,
{
    if n >= 10 {
        push_decimal(s, n / 10);
    }
    push_char(s, digit_char(n % 10));
    assert(final(s)@ =~= old(s)@ + spec_decimal(n as nat));
}

/// Appends `n` written in decimal to `s`
pub fn push_int(s: &mut String, n: i32)
    ensures
        final(s)@ == old(s)@ + spec_int_text(n as int),
{
    if n < 0 {
        push_char(s, '-');
        let m: i64 = 0i64 - (n as i64);
        push_decimal(s, m as usize);
        assert(final(s)@ =~= old(s)@ + spec_int_text(n as int));
    } else {
        push_decimal(s, n as usize);
    }
}


/// Whether `a` comes before `b` in the order of their characters from the
/// `i`-th on, a proper prefix first
pub open spec fn spec_lex_lt_from(a: Seq<char>, b: Seq<char>, i: int) -> bool
    decreases a.len() - i,
{
    if i < 0 {
        false
    } else if i >= a.len() {
        i < b.len()
    } else if i >= b.len() {
        false
    } else if a[i] != b[i] {
        (a[i] as u32) < (b[i] as u32)
    } else {
        spec_lex_lt_from(a, b, i + 1)
    }
}

/// Whether `a` comes before `b` in the order of their characters, a proper
/// prefix first: the order of `String`s, whose UTF-8 bytes keep the order of
/// the characters
pub open spec fn spec_lex_lt(a: Seq<char>, b: Seq<char>) -> bool {
    spec_lex_lt_from(a, b, 0)
}

/// Whether `a` comes before `b` in the order of their characters
pub fn str_lt(a: &str, b: &str) -> (r: bool)
    ensures
        r == spec_lex_lt(a@, b@),
{
    let ac = to_chars(a);
    let bc = to_chars(b);
    let mut i: usize = 0;
    while i < ac.len() && i < bc.len() && ac[i] == bc[i]
        invariant
            ac@ == a@,
            bc@ == b@,
            i <= ac@.len(),
            i <= bc@.len(),
            spec_lex_lt(a@, b@) == spec_lex_lt_from(a@, b@, i as int),
        decreases ac@.len() - i,
    {
        i = i + 1;
    }
    if i >= ac.len() {
        i < bc.len()
    } else if i >= bc.len() {
        false
    } else {
        (ac[i] as u32) < (bc[i] as u32)
    }
}

} // verus!
