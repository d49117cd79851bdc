//! JSON documents as the dependency check reads them.
//!
//! A document is kept as the flat tape that `simd_json` produces: every value
//! is one node, followed by the nodes of its elements. An array node is
//! followed by its `len` elements; an object node by `len` pairs of a key (a
//! string node) and a value. Members stay in the order of the text.
use vstd::prelude::*;

use crate::text::str_eq;

verus! {

/// One node of a JSON tape. Numbers are kept without their value: nothing
/// here reads it.
#[derive(Debug, Clone, PartialEq, Eq)]
pub enum JsonNode {
    /// A string
    String(String),
    /// An object of `len` members, spanning `count` nodes after this one
    Object { len: usize, count: usize },
    /// An array of `len` elements, spanning `count` nodes after this one
    Array { len: usize, count: usize },
    /// `true` or `false`
    Bool(bool),
    /// `null`
    Null,
    /// A number
    Number,
}

/// What a tape node stands for, with its text as characters
pub enum JsonNodeView {
    /// A string
    String(Seq<char>),
    /// An object of `len` members
    Object { len: nat },
    /// An array of `len` elements
    Array { len: nat },
    /// `true` or `false`
    Bool(bool),
    /// `null`
    Null,
    /// A number
    Number,
}

impl View for JsonNode {
    type V = JsonNodeView;

    open spec fn view(&self) -> JsonNodeView {
        match self {
            JsonNode::String(s) => JsonNodeView::String(s@),
            JsonNode::Object { len, .. } => JsonNodeView::Object { len: *len as nat },
            JsonNode::Array { len, .. } => JsonNodeView::Array { len: *len as nat },
            JsonNode::Bool(b) => JsonNodeView::Bool(*b),
            JsonNode::Null => JsonNodeView::Null,
            JsonNode::Number => JsonNodeView::Number,
        }
    }
}

/// The nodes of a tape, each by its view
pub open spec fn tape_view(t: Seq<JsonNode>) -> Seq<JsonNodeView> {
    t.map_values(|n: JsonNode| n@)
}

/// Positions as integers
pub open spec fn spec_positions(s: Seq<usize>) -> Seq<int> {
    s.map_values(|x: usize| x as int)
}

/// A JSON value: the tape of a document and the position of the value in it
#[derive(Debug, Clone, PartialEq, Eq)]
pub struct JsonValue {
    /// The nodes of the whole document
    pub tape: Vec<JsonNode>,
    /// Where the value starts
    pub root: usize,
}

/// The position just after the value that starts at `p`
pub open spec fn spec_value_end(t: Seq<JsonNodeView>, p: int) -> Option<int>
    decreases t.len() - p, 0int,
{
    if 0 <= p < t.len() {
        match t[p] {
            JsonNodeView::Array { len } => match spec_elements(t, p + 1, len) {
                Some(r) => Some(r.1),
                None => None,
            },
            JsonNodeView::Object { len } => match spec_elements(t, p + 1, 2 * len) {
                Some(r) => Some(r.1),
                None => None,
            },
            _ => Some(p + 1),
        }
    } else {
        None
    }
}

/// The starts of `n` values that follow each other from `p`, and the
/// position after the last of them
pub open spec fn spec_elements(t: Seq<JsonNodeView>, p: int, n: nat) -> Option<(Seq<int>, int)>
    decreases t.len() - p, 1int,
{
    if n == 0 {
        Some((Seq::empty(), p))
    } else if 0 <= p < t.len() {
        match spec_value_end(t, p) {
            Some(e) => if p < e <= t.len() {
                match spec_elements(t, e, (n - 1) as nat) {
                    Some(r) => Some((seq![p] + r.0, r.1)),
                    None => None,
                }
            } else {
                None
            },
            None => None,
        }
    } else {
        None
    }
}

/// `n` values take at least `n` nodes
pub proof fn lemma_elements_bound(t: Seq<JsonNodeView>, p: int, n: nat)
    requires
        0 <= p <= t.len(),
    ensures
        spec_elements(t, p, n) matches Some(r) ==> p + n <= r.1 <= t.len() && r.0.len() == n,
    decreases n,
{
    if n > 0 && p < t.len() {
        if let Some(e) = spec_value_end(t, p) {
            if p < e <= t.len() {
                lemma_elements_bound(t, e, (n - 1) as nat);
            }
        }
    }
}

/// The position just after the value that starts at `p`
pub fn value_end(t: &Vec<JsonNode>, p: usize) -> (r: Option<usize>)
    ensures
        spec_value_end(tape_view(t@), p as int) == match r {
            Some(x) => Some(x as int),
            None => None,
        },
    decreases t@.len() - p, 0int,
{
    let ghost tv = tape_view(t@);
    if p >= t.len() {
        return None;
    }
    match &t[p] {
        JsonNode::Array { len, .. } => match elements(t, p + 1, *len) {
            Some(r) => Some(r.1),
            None => None,
        },
        JsonNode::Object { len, .. } => {
            if *len > t.len() / 2 {
                proof {
                    lemma_elements_bound(tv, p + 1, 2 * (*len as nat));
                }
                return None;
            }
            match elements(t, p + 1, 2 * *len) {
                Some(r) => Some(r.1),
                None => None,
            }
        },
        _ => Some(p + 1),
    }
}

/// The starts of `n` values that follow each other from `p`, and the
/// position after the last of them
pub fn elements(t: &Vec<JsonNode>, p: usize, n: usize) -> (r: Option<(Vec<usize>, usize)>)
    requires
        p <= t@.len(),
    ensures
        spec_elements(tape_view(t@), p as int, n as nat) == match r {
            Some(x) => Some((spec_positions(x.0@), x.1 as int)),
            None => None,
        },
    decreases t@.len() - p, 1int,
{
    let ghost tv = tape_view(t@);
    let mut acc: Vec<usize> = Vec::new();
    let mut pos: usize = p;
    let mut i: usize = 0;
    while i < n
        invariant
            i <= n,
            p <= pos <= t@.len(),
            tv == tape_view(t@),
            spec_elements(tv, p as int, n as nat) == match spec_elements(
                tv,
                pos as int,
                (n - i) as nat,
            ) {
                Some(r) => Some((spec_positions(acc@) + r.0, r.1)),
                None => None,
            },
        decreases n - i,
    {
        if pos >= t.len() {
            return None;
        }
        match value_end(t, pos) {
            Some(e) => {
                if e <= pos || e > t.len() {
                    return None;
                }
                let ghost before = acc@;
                acc.push(pos);
                assert(spec_positions(acc@) =~= spec_positions(before) + seq![pos as int]);
                proof {
                    let rest = spec_elements(tv, e as int, (n - i - 1) as nat);
                    if let Some(r) = rest {
                        assert(spec_positions(before) + (seq![pos as int] + r.0) =~= spec_positions(
                            acc@,
                        ) + r.0);
                    }
                }
                pos = e;
                i = i + 1;
            },
            None => {
                return None;
            },
        }
    }
    assert(spec_positions(acc@) + Seq::<int>::empty() =~= spec_positions(acc@));
    Some((acc, pos))
}

/// The starts of the elements of the array at `p`
pub open spec fn spec_array_items(t: Seq<JsonNodeView>, p: int) -> Option<Seq<int>> {
    if 0 <= p < t.len() {
        match t[p] {
            JsonNodeView::Array { len } => match spec_elements(t, p + 1, len) {
                Some(r) => Some(r.0),
                None => None,
            },
            _ => None,
        }
    } else {
        None
    }
}

/// Every key of the members at `items` is a string
pub open spec fn spec_keys_are_strings(t: Seq<JsonNodeView>, items: Seq<int>) -> bool {
    forall|j: int| 0 <= j < items.len() && j % 2 == 0 ==> (#[trigger] spec_str_at(t, items[j])) is Some
}

/// The starts of the keys and values of the object at `p`, key and value in
/// turn; `None` unless every key is a string
pub open spec fn spec_object_items(t: Seq<JsonNodeView>, p: int) -> Option<Seq<int>> {
    if 0 <= p < t.len() {
        match t[p] {
            JsonNodeView::Object { len } => match spec_elements(t, p + 1, 2 * len) {
                Some(r) => if spec_keys_are_strings(t, r.0) {
                    Some(r.0)
                } else {
                    None
                },
                None => None,
            },
            _ => None,
        }
    } else {
        None
    }
}

/// Whether the key of the `i`-th member comes again in a later member
pub open spec fn spec_key_repeated(t: Seq<JsonNodeView>, items: Seq<int>, i: int) -> bool {
    exists|j: int|
        i < j && 2 * j + 1 < items.len() && #[trigger] spec_str_at(t, items[2 * j]) == spec_str_at(
            t,
            items[2 * i],
        )
}

/// The keys and values of the first `i` members, leaving out each member
/// whose key comes again later
pub open spec fn spec_kept_members(t: Seq<JsonNodeView>, items: Seq<int>, i: nat) -> Seq<int>
    decreases i,
{
    if i == 0 {
        Seq::empty()
    } else {
        let prev = spec_kept_members(t, items, (i - 1) as nat);
        if spec_key_repeated(t, items, i - 1) {
            prev
        } else {
            prev.push(items[2 * (i - 1)]).push(items[2 * (i - 1) + 1])
        }
    }
}

/// The members of the object at `p` as `simd_json` keeps them: an object of
/// at most 32 members keeps them all, in the order of the text; a larger one
/// keeps one member for each key, the last with that key
pub open spec fn spec_object_members(t: Seq<JsonNodeView>, p: int) -> Option<Seq<int>> {
    match spec_object_items(t, p) {
        None => None,
        Some(items) => Some(
            if items.len() / 2 > 32 {
                spec_kept_members(t, items, (items.len() / 2) as nat)
            } else {
                items
            },
        ),
    }
}

/// The text of the string at `p`
pub open spec fn spec_str_at(t: Seq<JsonNodeView>, p: int) -> Option<Seq<char>> {
    if 0 <= p < t.len() {
        match t[p] {
            JsonNodeView::String(s) => Some(s),
            _ => None,
        }
    } else {
        None
    }
}

/// The boolean at `p`
pub open spec fn spec_bool_at(t: Seq<JsonNodeView>, p: int) -> Option<bool> {
    if 0 <= p < t.len() {
        match t[p] {
            JsonNodeView::Bool(b) => Some(b),
            _ => None,
        }
    } else {
        None
    }
}

/// The value of the first member from the `i`-th on whose key is `key`
pub open spec fn spec_find_key(t: Seq<JsonNodeView>, items: Seq<int>, key: Seq<char>, i: nat) -> Option<
    int,
>
    decreases items.len() - i,
{
    if 2 * i + 1 < items.len() {
        if spec_str_at(t, items[2 * i as int]) == Some(key) {
            Some(items[2 * i as int + 1])
        } else {
            spec_find_key(t, items, key, i + 1)
        }
    } else {
        None
    }
}

/// The value of the last member before the `i`-th whose key is `key`
pub open spec fn spec_find_last_key(t: Seq<JsonNodeView>, items: Seq<int>, key: Seq<char>, i: nat) -> Option<
    int,
>
    decreases i,
{
    if i == 0 {
        None
    } else if 2 * (i - 1) + 1 < items.len() && spec_str_at(t, items[2 * (i - 1)]) == Some(key) {
        Some(items[2 * (i - 1) + 1])
    } else {
        spec_find_last_key(t, items, key, (i - 1) as nat)
    }
}

/// The value of the member of the object at `p` whose key is `key`. Where
/// several members have that key, an object of at most 32 members gives the
/// first (it keeps its members in a list and searches it from the front) and
/// a larger one the last (it keeps them in a hash map, where a later member
/// replaces an earlier one), as the objects of `simd_json` do
pub open spec fn spec_get(t: Seq<JsonNodeView>, p: int, key: Seq<char>) -> Option<int> {
    match spec_object_items(t, p) {
        Some(items) => if items.len() / 2 > 32 {
            spec_find_last_key(t, items, key, items.len() / 2)
        } else {
            spec_find_key(t, items, key, 0)
        },
        None => None,
    }
}

/// The starts of the elements of the array at `p`
pub fn array_items(t: &Vec<JsonNode>, p: usize) -> (r: Option<Vec<usize>>)
    ensures
        spec_array_items(tape_view(t@), p as int) == match r {
            Some(x) => Some(spec_positions(x@)),
            None => None,
        },
{
    if p >= t.len() {
        return None;
    }
    match &t[p] {
        JsonNode::Array { len, .. } => match elements(t, p + 1, *len) {
            Some(r) => Some(r.0),
            None => None,
        },
        _ => None,
    }
}

/// The starts of the keys and values of the object at `p`, key and value in turn
pub fn object_items(t: &Vec<JsonNode>, p: usize) -> (r: Option<Vec<usize>>)
    ensures
        spec_object_items(tape_view(t@), p as int) == match r {
            Some(x) => Some(spec_positions(x@)),
            None => None,
        },
{
    if p >= t.len() {
        return None;
    }
    match &t[p] {
        JsonNode::Object { len, .. } => {
            if *len > t.len() / 2 {
                proof {
                    lemma_elements_bound(tape_view(t@), p + 1, 2 * (*len as nat));
                }
                return None;
            }
            let items = match elements(t, p + 1, 2 * *len) {
                Some(r) => r.0,
                None => {
                    return None;
                },
            };
            let ghost s = spec_positions(items@);
            let mut j: usize = 0;
            while j < items.len()
                invariant
                    j <= items@.len(),
                    s == spec_positions(items@),
                    spec_object_items(tape_view(t@), p as int) == (if spec_keys_are_strings(
                        tape_view(t@),
                        s,
                    ) {
                        Some(s)
                    } else {
                        None
                    }),
                    forall|k: int|
                        0 <= k < j && k % 2 == 0 ==> (#[trigger] spec_str_at(tape_view(t@), s[k]))
                            is Some,
                decreases items@.len() - j,
            {
                if j % 2 == 0 && str_at(t, items[j]).is_none() {
                    assert(!spec_keys_are_strings(tape_view(t@), s)) by {
                        assert(spec_str_at(tape_view(t@), s[j as int]) is None);
                    }
                    return None;
                }
                j = j + 1;
            }
            Some(items)
        },
        _ => None,
    }
}

/// The members of the object at `p` as `simd_json` keeps them, see
/// [`spec_object_members`]
pub fn object_members(t: &Vec<JsonNode>, p: usize) -> (r: Option<Vec<usize>>)
    ensures
        spec_object_members(tape_view(t@), p as int) == match r {
            Some(x) => Some(spec_positions(x@)),
            None => None,
        },
        r matches Some(x) ==> spec_keys_are_strings(tape_view(t@), spec_positions(x@)),
{
    let ghost tv = tape_view(t@);
    let items = match object_items(t, p) {
        Some(items) => items,
        None => {
            return None;
        },
    };
    let ghost s = spec_positions(items@);
    let n = items.len() / 2;
    if n <= 32 {
        return Some(items);
    }
    let mut out: Vec<usize> = Vec::new();
    let mut i: usize = 0;
    while i < n
        invariant
            tv == tape_view(t@),
            s == spec_positions(items@),
            n == items@.len() / 2,
            i <= n,
            spec_keys_are_strings(tv, s),
            spec_positions(out@) == spec_kept_members(tv, s, i as nat),
            out@.len() % 2 == 0,
            spec_keys_are_strings(tv, spec_positions(out@)),
        decreases n - i,
    {
        assert(2 * i + 1 < items@.len()) by (nonlinear_arith)
            requires
                i < n,
                n == items@.len() / 2,
        ;
        assert(items@.len() == items.len());
        assert(spec_str_at(tv, s[2 * i as int]) is Some);
        let key = match str_at(t, items[2 * i]) {
            Some(k) => k,
            None => {
                return None;
            },
        };
        let mut repeated = false;
        let mut j: usize = i + 1;
        while j < n
            invariant
                tv == tape_view(t@),
                s == spec_positions(items@),
                n == items@.len() / 2,
                i < j <= n,
                spec_str_at(tv, s[2 * i as int]) == Some(key@),
                repeated ==> spec_key_repeated(tv, s, i as int),
                !repeated ==> forall|k: int|
                    i < k < j ==> #[trigger] spec_str_at(tv, s[2 * k]) != Some(key@),
            decreases n - j,
        {
            assert(2 * j + 1 < items@.len()) by (nonlinear_arith)
                requires
                    j < n,
                    n == items@.len() / 2,
            ;
            assert(items@.len() == items.len());
            if !repeated {
                let same = match str_at(t, items[2 * j]) {
                    Some(k2) => str_eq(k2, key),
                    None => false,
                };
                if same {
                    repeated = true;
                    assert(spec_key_repeated(tv, s, i as int)) by {
                        assert(spec_str_at(tv, s[2 * j as int]) == spec_str_at(tv, s[2 * i as int]));
                    }
                }
            }
            j = j + 1;
        }
        proof {
            if !repeated && spec_key_repeated(tv, s, i as int) {
                let k = choose|k: int|
                    i < k && 2 * k + 1 < s.len() && #[trigger] spec_str_at(tv, s[2 * k]) == spec_str_at(
                        tv,
                        s[2 * i as int],
                    );
                assert(k < n);
            }
        }
        if !repeated {
            let ghost before = out@;
            out.push(items[2 * i]);
            out.push(items[2 * i + 1]);
            proof {
                assert(spec_positions(out@) =~= spec_positions(before).push(s[2 * i as int]).push(
                    s[2 * i + 1],
                ));
                assert forall|k: int|
                    0 <= k < spec_positions(out@).len() && k % 2 == 0 implies (#[trigger] spec_str_at(
                    tv,
                    spec_positions(out@)[k],
                )) is Some by {
                    if k < before.len() {
                        assert(spec_positions(out@)[k] == spec_positions(before)[k]);
                    }
                }
            }
        }
        i = i + 1;
    }
    Some(out)
}

/// The text of the string at `p`
pub fn str_at(t: &Vec<JsonNode>, p: usize) -> (r: Option<&str>)
    ensures
        spec_str_at(tape_view(t@), p as int) == match r {
            Some(s) => Some(s@),
            None => None,
        },
{
    if p >= t.len() {
        return None;
    }
    match &t[p] {
        JsonNode::String(s) => Some(s.as_str()),
        _ => None,
    }
}

/// The boolean at `p`
pub fn bool_at(t: &Vec<JsonNode>, p: usize) -> (r: Option<bool>)
    ensures
        r == spec_bool_at(tape_view(t@), p as int),
{
    if p >= t.len() {
        return None;
    }
    match &t[p] {
        JsonNode::Bool(b) => Some(*b),
        _ => None,
    }
}

/// The value of the member of the object at `p` whose key is `key`, see [`spec_get`]
pub fn get(t: &Vec<JsonNode>, p: usize, key: &str) -> (r: Option<usize>)
    ensures
        spec_get(tape_view(t@), p as int, key@) == match r {
            Some(x) => Some(x as int),
            None => None,
        },
{
    let ghost tv = tape_view(t@);
    let items = match object_items(t, p) {
        Some(items) => items,
        None => {
            return None;
        },
    };
    let ghost s = spec_positions(items@);
    if items.len() / 2 > 32 {
        let mut i: usize = items.len() / 2;
        while i > 0
            invariant
                tv == tape_view(t@),
                s == spec_positions(items@),
                2 * i <= items@.len(),
                spec_get(tv, p as int, key@) == spec_find_last_key(tv, s, key@, i as nat),
            decreases i,
        {
            let m = i - 1;
            assert(2 * m + 1 < items@.len());
            let found = match str_at(t, items[2 * m]) {
                Some(k) => str_eq(k, key),
                None => false,
            };
            if found {
                return Some(items[2 * m + 1]);
            }
            i = m;
        }
        return None;
    }
    let mut i: usize = 0;
    while i < items.len() / 2
        invariant
            tv == tape_view(t@),
            s == spec_positions(items@),
            2 * i <= items@.len(),
            spec_get(tv, p as int, key@) == spec_find_key(tv, s, key@, i as nat),
        decreases items@.len() - 2 * i,
    {
        let found = match str_at(t, items[2 * i]) {
            Some(k) => str_eq(k, key),
            None => false,
        };
        if found {
            return Some(items[2 * i + 1]);
        }
        i = i + 1;
    }
    None
}

/// The tape of a JSON text, as `simd_json` makes it, each node by its view
pub uninterp spec fn spec_json_tape(text: Seq<char>) -> Option<Seq<JsonNodeView>>;

/// The error that `simd_json` reports for a text that is no JSON
#[verifier::external_type_specification]
#[verifier::external_body]
pub struct ExSimdJsonError(simd_json::Error);

/// Runs `simd_json::to_tape` on a copy of the bytes of `text` and copies the
/// tape node by node. The tape is a function of the text alone; it is named
/// `spec_json_tape`, `None` where `simd_json` refuses the text.
#[verifier::external_body]
fn json_tape(text: &str) -> (r: Result<Vec<JsonNode>, simd_json::Error>)
    ensures
        match r {
            Ok(t) => spec_json_tape(text@) == Some(tape_view(t@)),
            Err(_) => spec_json_tape(text@) is None,
        },
{
    let mut bytes: Vec<u8> = text.as_bytes().to_vec();
    let tape = simd_json::to_tape(&mut bytes)?;
    Ok(tape.0.into_iter().map(|n| match n {
        simd_json::Node::String(s) => JsonNode::String(s.to_string()),
        simd_json::Node::Object { len, count } => JsonNode::Object { len, count },
        simd_json::Node::Array { len, count } => JsonNode::Array { len, count },
        simd_json::Node::Static(simd_json::StaticNode::Bool(b)) => JsonNode::Bool(b),
        simd_json::Node::Static(simd_json::StaticNode::Null) => JsonNode::Null,
        simd_json::Node::Static(_) => JsonNode::Number,
    }).collect())
}

impl JsonValue {
    /// Parses a JSON text; the value is the whole document.
    pub fn parse(text: &str) -> (r: Result<JsonValue, simd_json::Error>)
        ensures
            match r {
                Ok(v) => spec_json_tape(text@) == Some(tape_view(v.tape@)) && v.root == 0,
                Err(_) => spec_json_tape(text@) is None,
            },
    {
        match json_tape(text) {
            Ok(tape) => Ok(JsonValue { tape, root: 0 }),
            Err(e) => Err(e),
        }
    }
}

} // verus!
