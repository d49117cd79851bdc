//! Stable sorting by insertion, as a specification.
use vstd::prelude::*;

verus! {

/// `x` inserted into `s` before the first element that it precedes, so that
/// it comes after every element it does not precede
pub open spec fn spec_insert_sorted<T>(s: Seq<T>, x: T, lt: spec_fn(T, T) -> bool) -> Seq<T>
    decreases s.len(),
{
    if s.len() == 0 {
        seq![x]
    } else if lt(x, s[0]) {
        seq![x] + s
    } else {
        seq![s[0]] + spec_insert_sorted(s.drop_first(), x, lt)
    }
}

/// `s` sorted by `lt`, keeping the order of elements where neither precedes
/// the other: each element inserted, in turn, into the sorted earlier ones
pub open spec fn spec_sort<T>(s: Seq<T>, lt: spec_fn(T, T) -> bool) -> Seq<T>
    decreases s.len(),
{
    if s.len() == 0 {
        Seq::empty()
    } else {
        spec_insert_sorted(spec_sort(s.drop_last(), lt), s.last(), lt)
    }
}

/// The index of the first element of `s` from the `i`-th on that `x`
/// precedes, or the length of `s`
pub open spec fn spec_insert_index<T>(s: Seq<T>, x: T, lt: spec_fn(T, T) -> bool, i: int) -> int
    decreases s.len() - i,
{
    if i < 0 || i >= s.len() {
        s.len() as int
    } else if lt(x, s[i]) {
        i
    } else {
        spec_insert_index(s, x, lt, i + 1)
    }
}

/// Searching from `i + 1` in `s` is searching from `i` in its tail
proof fn lemma_insert_index_shift<T>(s: Seq<T>, x: T, lt: spec_fn(T, T) -> bool, i: int)
    requires
        0 <= i,
        s.len() > 0,
    ensures
        spec_insert_index(s, x, lt, i + 1) == 1 + spec_insert_index(s.drop_first(), x, lt, i),
    decreases s.len() - i,
{
    if i + 1 < s.len() && !lt(x, s[i + 1]) {
        lemma_insert_index_shift(s, x, lt, i + 1);
    }
}

/// Inserting in order is inserting at [`spec_insert_index`]
pub proof fn lemma_insert_at<T>(s: Seq<T>, x: T, lt: spec_fn(T, T) -> bool)
    ensures
        0 <= spec_insert_index(s, x, lt, 0) <= s.len(),
        spec_insert_sorted(s, x, lt) == s.insert(spec_insert_index(s, x, lt, 0), x),
    decreases s.len(),
{
    if s.len() == 0 {
        assert(seq![x] =~= s.insert(0, x));
    } else if lt(x, s[0]) {
        assert(seq![x] + s =~= s.insert(0, x));
    } else {
        lemma_insert_at(s.drop_first(), x, lt);
        lemma_insert_index_shift(s, x, lt, 0);
        let j = spec_insert_index(s.drop_first(), x, lt, 0);
        assert(seq![s[0]] + s.drop_first().insert(j, x) =~= s.insert(j + 1, x));
    }
}

/// Sorting keeps the elements
pub proof fn lemma_sort_keeps_elements<T>(s: Seq<T>, lt: spec_fn(T, T) -> bool)
    ensures
        spec_sort(s, lt).to_multiset() == s.to_multiset(),
    decreases s.len(),
{
    broadcast use vstd::seq_lib::group_to_multiset_ensures;

    if s.len() > 0 {
        let t = spec_sort(s.drop_last(), lt);
        lemma_sort_keeps_elements(s.drop_last(), lt);
        lemma_insert_at(t, s.last(), lt);
        let j = spec_insert_index(t, s.last(), lt, 0);
        vstd::seq_lib::lemma_multiset_commutative(t.take(j), seq![s.last()] + t.skip(j));
        vstd::seq_lib::lemma_multiset_commutative(seq![s.last()], t.skip(j));
        vstd::seq_lib::lemma_multiset_commutative(t.take(j), t.skip(j));
        assert(t.insert(j, s.last()) =~= t.take(j) + (seq![s.last()] + t.skip(j)));
        assert(t =~= t.take(j) + t.skip(j));
        assert(s =~= s.drop_last().push(s.last()));
        assert(spec_sort(s, lt).to_multiset() =~= s.to_multiset());
    }
}


/// The keys of `s` do not decrease
pub open spec fn spec_sorted_by_key<T>(s: Seq<T>, key: spec_fn(T) -> int) -> bool {
    forall|i: int, j: int| 0 <= i < j < s.len() ==> key(#[trigger] s[i]) <= key(#[trigger] s[j])
}

/// Inserting by a key into a sequence sorted by it keeps it sorted
pub proof fn lemma_insert_keeps_sorted<T>(s: Seq<T>, x: T, key: spec_fn(T) -> int)
    requires
        spec_sorted_by_key(s, key),
    ensures
        spec_sorted_by_key(spec_insert_sorted(s, x, |a: T, b: T| key(a) < key(b)), key),
    decreases s.len(),
{
    let lt = |a: T, b: T| key(a) < key(b);
    if s.len() > 0 {
        if lt(x, s[0]) {
            let r = seq![x] + s;
            assert forall|i: int, j: int| 0 <= i < j < r.len() implies key(#[trigger] r[i]) <= key(
                #[trigger] r[j],
            ) by {
                if i == 0 {
                    assert(r[j] == s[j - 1]);
                    if j - 1 > 0 {
                        assert(key(s[0]) <= key(s[j - 1]));
                    }
                } else {
                    assert(r[i] == s[i - 1]);
                    assert(r[j] == s[j - 1]);
                }
            }
        } else {
            let d = s.drop_first();
            assert(spec_sorted_by_key(d, key)) by {
                assert forall|i: int, j: int| 0 <= i < j < d.len() implies key(#[trigger] d[i])
                    <= key(#[trigger] d[j]) by {
                    assert(d[i] == s[i + 1]);
                    assert(d[j] == s[j + 1]);
                }
            }
            lemma_insert_keeps_sorted(d, x, key);
            lemma_insert_at(d, x, lt);
            let t = spec_insert_sorted(d, x, lt);
            let k = spec_insert_index(d, x, lt, 0);
            let r = seq![s[0]] + t;
            assert forall|i: int, j: int| 0 <= i < j < r.len() implies key(#[trigger] r[i]) <= key(
                #[trigger] r[j],
            ) by {
                if i == 0 {
                    let y = t[j - 1];
                    assert(r[j] == y);
                    if j - 1 < k {
                        assert(y == d[j - 1]);
                        assert(y == s[j]);
                    } else if j - 1 > k {
                        assert(y == d[j - 2]);
                        assert(y == s[j - 1]);
                    }
                } else {
                    assert(r[i] == t[i - 1]);
                    assert(r[j] == t[j - 1]);
                }
            }
        }
    }
}

/// Sorting by a key gives a sequence sorted by it
pub proof fn lemma_sort_by_key_is_sorted<T>(s: Seq<T>, key: spec_fn(T) -> int)
    ensures
        spec_sorted_by_key(spec_sort(s, |a: T, b: T| key(a) < key(b)), key),
    decreases s.len(),
{
    if s.len() > 0 {
        lemma_sort_by_key_is_sorted(s.drop_last(), key);
        lemma_insert_keeps_sorted(
            spec_sort(s.drop_last(), |a: T, b: T| key(a) < key(b)),
            s.last(),
            key,
        );
    }
}

} // verus!
