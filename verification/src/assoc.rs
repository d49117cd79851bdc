//! Lists of `(name, value)` pairs, used as maps keyed by the name.
use vstd::prelude::*;

use crate::text::str_eq;

verus! {

/// The map that a list of `(key, value)` pairs stands for: where a key
/// occurs twice, the later pair wins.
pub open spec fn spec_assoc_map<V>(s: Seq<(Seq<char>, V)>) -> Map<Seq<char>, V>
    decreases s.len(),
{
    if s.len() == 0 {
        Map::empty()
    } else {
        spec_assoc_map(s.drop_last()).insert(s.last().0, s.last().1)
    }
}

/// No key occurs twice
pub open spec fn spec_keys_unique<V>(s: Seq<(Seq<char>, V)>) -> bool {
    forall|i: int, j: int| 0 <= i < j < s.len() ==> s[i].0 != s[j].0
}

/// The keys of the map are those of the list
pub proof fn lemma_assoc_dom<V>(s: Seq<(Seq<char>, V)>, k: Seq<char>)
    ensures
        spec_assoc_map(s).dom().contains(k) <==> exists|i: int| 0 <= i < s.len() && s[i].0 == k,
    decreases s.len(),
{
    if s.len() > 0 {
        lemma_assoc_dom(s.drop_last(), k);
        if exists|i: int| 0 <= i < s.len() && s[i].0 == k {
            let i = choose|i: int| 0 <= i < s.len() && s[i].0 == k;
            if i < s.len() - 1 {
                assert(s.drop_last()[i].0 == k);
            }
        }
        if exists|i: int| 0 <= i < s.drop_last().len() && s.drop_last()[i].0 == k {
            let i = choose|i: int| 0 <= i < s.drop_last().len() && s.drop_last()[i].0 == k;
            assert(s[i].0 == k);
        }
    }
}

/// With unique keys, the value of the key of the `i`-th pair is its value
pub proof fn lemma_assoc_index<V>(s: Seq<(Seq<char>, V)>, i: int)
    requires
        spec_keys_unique(s),
        0 <= i < s.len(),
    ensures
        spec_assoc_map(s).dom().contains(s[i].0),
        spec_assoc_map(s)[s[i].0] == s[i].1,
    decreases s.len(),
{
    if i < s.len() - 1 {
        lemma_assoc_index(s.drop_last(), i);
    }
}

/// Replacing the value of the `i`-th pair replaces the value of its key
pub proof fn lemma_assoc_update<V>(s: Seq<(Seq<char>, V)>, i: int, v: V)
    requires
        spec_keys_unique(s),
        0 <= i < s.len(),
    ensures
        spec_assoc_map(s.update(i, (s[i].0, v))) == spec_assoc_map(s).insert(s[i].0, v),
        spec_keys_unique(s.update(i, (s[i].0, v))),
    decreases s.len(),
{
    let u = s.update(i, (s[i].0, v));
    if i == s.len() - 1 {
        assert(u.drop_last() =~= s.drop_last());
        assert(spec_assoc_map(u) =~= spec_assoc_map(s).insert(s[i].0, v));
    } else {
        lemma_assoc_update(s.drop_last(), i, v);
        assert(u.drop_last() =~= s.drop_last().update(i, (s[i].0, v)));
        assert(spec_assoc_map(u) =~= spec_assoc_map(s).insert(s[i].0, v));
    }
}

/// Adding a pair with a new key adds that key
pub proof fn lemma_assoc_push<V>(s: Seq<(Seq<char>, V)>, k: Seq<char>, v: V)
    requires
        spec_keys_unique(s),
        !spec_assoc_map(s).dom().contains(k),
    ensures
        spec_assoc_map(s.push((k, v))) == spec_assoc_map(s).insert(k, v),
        spec_keys_unique(s.push((k, v))),
{
    assert(s.push((k, v)).drop_last() =~= s);
    assert forall|i: int, j: int| 0 <= i < j < s.push((k, v)).len() implies s.push((k, v))[i].0
        != s.push((k, v))[j].0 by {
        if j == s.len() {
            lemma_assoc_dom(s, k);
            assert(s[i].0 == s.push((k, v))[i].0);
        }
    }
}

/// A list of named values with the names as characters and each value by its view
pub open spec fn spec_named_views<V: View>(s: Seq<(String, V)>) -> Seq<(Seq<char>, V::V)> {
    s.map_values(|p: (String, V)| (p.0@, p.1@))
}

/// Sets the value of the key `k` to `x`
pub fn assoc_insert<V: View>(v: &mut Vec<(String, V)>, k: &str, x: V)
    requires
        spec_keys_unique(spec_named_views(old(v)@)),
    ensures
        spec_keys_unique(spec_named_views(final(v)@)),
        spec_assoc_map(spec_named_views(final(v)@)) == spec_assoc_map(
            spec_named_views(old(v)@),
        ).insert(k@, x@),
{
    let ghost pairs = spec_named_views(v@);
    match find_key(v, k) {
        Some(i) => {
            let (key, _) = v.remove(i);
            let ghost xv = x@;
            v.insert(i, (key, x));
            proof {
                lemma_assoc_update(pairs, i as int, xv);
                assert(spec_named_views(v@) =~= pairs.update(i as int, (pairs[i as int].0, xv)));
            }
        },
        None => {
            let ghost xv = x@;
            v.push((k.to_owned(), x));
            proof {
                lemma_assoc_dom(pairs, k@);
                lemma_assoc_push(pairs, k@, xv);
                assert(spec_named_views(v@) =~= pairs.push((k@, xv)));
            }
        },
    }
}

/// The value of the key `k`
pub fn assoc_get<'a, V: View>(v: &'a Vec<(String, V)>, k: &str) -> (r: Option<&'a V>)
    requires
        spec_keys_unique(spec_named_views(v@)),
    ensures
        match r {
            Some(x) => spec_assoc_map(spec_named_views(v@)).dom().contains(k@) && spec_assoc_map(
                spec_named_views(v@),
            )[k@] == x@,
            None => !spec_assoc_map(spec_named_views(v@)).dom().contains(k@),
        },
{
    let ghost pairs = spec_named_views(v@);
    proof {
        lemma_assoc_dom(pairs, k@);
    }
    match find_key(v, k) {
        Some(i) => {
            proof {
                lemma_assoc_index(pairs, i as int);
            }
            Some(&v[i].1)
        },
        None => None,
    }
}

/// The position of the pair whose key is `k`
pub fn find_key<V>(v: &Vec<(String, V)>, k: &str) -> (r: Option<usize>)
    ensures
        match r {
            Some(i) => i < v@.len() && v@[i as int].0@ == k@,
            None => forall|i: int| 0 <= i < v@.len() ==> v@[i].0@ != k@,
        },
{
    let mut i: usize = 0;
    while i < v.len()
        invariant
            i <= v@.len(),
            forall|j: int| 0 <= j < i ==> v@[j].0@ != k@,
        decreases v@.len() - i,
    {
        if str_eq(v[i].0.as_str(), k) {
            return Some(i);
        }
        i = i + 1;
    }
    None
}

} // verus!
