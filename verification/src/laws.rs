//! Properties that hold across the operations of the library.
use vstd::prelude::*;
use vstd::string::*;

use crate::metadata::{
    spec_add_common, spec_check_deps, spec_get_dependencies, spec_get_features,
    spec_has_feature, spec_kind_checked, spec_should_add, CrateDependency, CrateDependencyView,
    CrateFeatureView,
    MetaDataView,
};
use crate::text::{spec_pair_views, spec_views};
use crate::metadata::spec_activates_dep_feature;
use crate::bytes::{
    lemma_find_from, lemma_trim_bounds, spec_bytes_match_at, spec_find_from, spec_trim_end,
    spec_trim_start,
};
use crate::lock::{
    spec_lock_dependencies, spec_lock_entries, spec_package_entry, spec_package_header, spec_package_info,
    spec_package_name_line, spec_section_about_crate,
};
use crate::nightly::{spec_feature_call, spec_nightly_line, spec_uses_nightly};
use crate::text::{
    lemma_split_nonempty, spec_contains_seq, spec_is_whitespace, spec_split, spec_strip_start,
    spec_strip_end, spec_strips,
};
use crate::metadata::{
    spec_dependency_list, spec_fixed_features, spec_get_bool, spec_get_str, spec_get_strings,
    spec_package_contents, spec_raw_features,
    DependencyKind,
};
use crate::json::{spec_array_items, spec_get, spec_object_members, spec_str_at, JsonNodeView};
use crate::metadata::{spec_activation_text, spec_classify, spec_has_dependency, ActivateFeatureView};
use crate::report::{spec_line_lt, spec_name_order, MissingPairs};
use crate::settings::{spec_added_all, DependencyCheckSettings};
use crate::sorting::{lemma_sort_by_key_is_sorted, lemma_sort_keeps_elements, spec_sort, spec_sorted_by_key};
use crate::text::{spec_index_of, spec_starts_with, spec_with_added, spec_without};
use crate::toml::{
    lemma_item_line_is_key_line, lemma_line_end, lemma_toml_get_section, spec_feature_scan,
    spec_has_item, spec_item_close, spec_item_line, spec_item_pos, spec_line_end, spec_line_key,
    spec_key_line, spec_stripped_bounds,
    spec_toml_get_section,
    FoundPosition,
};

verus! {

/// Adding an entry twice is adding it once
pub proof fn law_add_is_idempotent<A>(v: Seq<A>, x: A)
    ensures
        spec_with_added(spec_with_added(v, x), x) == spec_with_added(v, x),
{
    if !v.contains(x) {
        assert(v.push(x)[v.len() as int] == x);
    }
}

/// After an entry is removed the list does not hold it, and it holds every
/// other entry it held
pub proof fn law_remove_removes<A>(v: Seq<A>, x: A)
    ensures
        !spec_without(v, x).contains(x),
        forall|y: A| y != x ==> (#[trigger] spec_without(v, x).contains(y) <==> v.contains(y)),
    decreases v.len(),
{
    if v.len() > 0 {
        let d = v.drop_last();
        law_remove_removes(d, x);
        let w = spec_without(d, x);
        assert(v =~= d.push(v.last()));
        assert forall|y: A| y != x implies (#[trigger] spec_without(v, x).contains(y)
            <==> v.contains(y)) by {
            assert(w.contains(y) <==> d.contains(y));
            if v.last() == x {
                assert(spec_without(v, x) == w);
                if v.contains(y) {
                    let i = choose|i: int| 0 <= i < v.len() && v[i] == y;
                    assert(d[i] == y);
                }
                if d.contains(y) {
                    let i = choose|i: int| 0 <= i < d.len() && d[i] == y;
                    assert(v[i] == y);
                }
            } else {
                assert(spec_without(v, x) == w.push(v.last()));
                if v.contains(y) {
                    let i = choose|i: int| 0 <= i < v.len() && v[i] == y;
                    if i < d.len() {
                        assert(d[i] == y);
                        let j = choose|j: int| 0 <= j < w.len() && w[j] == y;
                        assert(w.push(v.last())[j] == y);
                    } else {
                        assert(w.push(v.last())[w.len() as int] == y);
                    }
                }
                if w.push(v.last()).contains(y) {
                    let i = choose|i: int| 0 <= i < w.push(v.last()).len() && w.push(v.last())[i] == y;
                    if i < w.len() {
                        assert(w[i] == y);
                        let j = choose|j: int| 0 <= j < d.len() && d[j] == y;
                        assert(v[j] == y);
                    } else {
                        assert(v[v.len() - 1] == y);
                    }
                }
            }
        }
        if v.last() != x {
            if w.push(v.last()).contains(x) {
                let i = choose|i: int| 0 <= i < w.push(v.last()).len() && w.push(v.last())[i] == x;
                assert(i < w.len());
                assert(w[i] == x);
            }
        }
    }
}

/// Adding several entries, one after the other, keeps a list free of
/// duplicates, keeps the list as it was at its front, and gives a list that
/// holds exactly the old entries and the added ones
pub proof fn law_add_all_keeps_unique(v: Seq<Seq<char>>, items: Seq<Seq<char>>)
    requires
        v.no_duplicates(),
    ensures
        spec_added_all(v, items).no_duplicates(),
        v.len() <= spec_added_all(v, items).len(),
        spec_added_all(v, items).take(v.len() as int) == v,
        forall|x: Seq<char>|
            #[trigger] spec_added_all(v, items).contains(x) <==> (v.contains(x) || items.contains(x)),
    decreases items.len(),
{
    if items.len() > 0 {
        let prev = spec_added_all(v, items.drop_last());
        law_add_all_keeps_unique(v, items.drop_last());
        law_add_keeps_unique(prev, items.last());
        let r = spec_added_all(v, items);
        if !prev.contains(items.last()) {
            assert(r.take(v.len() as int) =~= prev.take(v.len() as int));
        }
        assert forall|x: Seq<char>| #[trigger] r.contains(x) <==> (v.contains(x) || items.contains(x)) by {
            if items.drop_last().contains(x) {
                let i = choose|i: int| 0 <= i < items.drop_last().len() && items.drop_last()[i] == x;
                assert(items[i] == x);
            }
            if items.contains(x) && x != items.last() {
                let i = choose|i: int| 0 <= i < items.len() && items[i] == x;
                assert(items.drop_last()[i] == x);
            }
            if r.contains(x) && !prev.contains(x) {
                assert(x == items.last());
                assert(items[items.len() - 1] == x);
            }
            if x == items.last() {
                assert(r.contains(x));
            }
            if prev.contains(x) {
                let i = choose|i: int| 0 <= i < prev.len() && prev[i] == x;
                if !prev.contains(items.last()) {
                    assert(r[i] == x);
                }
            }
        }
    }
}

/// The optional and the non-optional dependency names together are all the
/// names: as many, and the same names as often
pub proof fn law_optional_names_split_all(ds: Seq<CrateDependency>)
    ensures
        ds.filter(|d: CrateDependency| d.optional).map_values(|d: CrateDependency| d.name).len()
            + ds.filter(|d: CrateDependency| !d.optional).map_values(|d: CrateDependency| d.name).len()
            == ds.map_values(|d: CrateDependency| d.name).len(),
        (ds.filter(|d: CrateDependency| d.optional).map_values(|d: CrateDependency| d.name)
            + ds.filter(|d: CrateDependency| !d.optional).map_values(
            |d: CrateDependency| d.name,
        )).to_multiset() == ds.map_values(|d: CrateDependency| d.name).to_multiset(),
    decreases ds.len(),
{
    broadcast use vstd::seq_lib::group_to_multiset_ensures, vstd::multiset::group_multiset_axioms;

    let opt = |d: CrateDependency| d.optional;
    let non = |d: CrateDependency| !d.optional;
    let name = |d: CrateDependency| d.name;
    let a = ds.filter(opt).map_values(name);
    let b = ds.filter(non).map_values(name);
    vstd::seq_lib::lemma_multiset_commutative(a, b);
    if ds.len() == 0 {
        reveal(Seq::filter);
        assert(a =~= Seq::<String>::empty());
        assert(b =~= Seq::<String>::empty());
        assert(ds.map_values(name) =~= Seq::<String>::empty());
    } else {
        let d = ds.drop_last();
        let x = ds.last();
        law_optional_names_split_all(d);
        let a0 = d.filter(opt).map_values(name);
        let b0 = d.filter(non).map_values(name);
        vstd::seq_lib::lemma_multiset_commutative(a0, b0);
        reveal(Seq::filter);
        assert(ds.map_values(name) =~= d.map_values(name).push(x.name));
        if x.optional {
            assert(ds.filter(opt) == d.filter(opt).push(x));
            assert(ds.filter(non) == d.filter(non));
            assert(a =~= a0.push(x.name));
            assert(b =~= b0);
        } else {
            assert(ds.filter(opt) == d.filter(opt));
            assert(ds.filter(non) == d.filter(non).push(x));
            assert(a =~= a0);
            assert(b =~= b0.push(x.name));
        }
        assert(a.to_multiset().add(b.to_multiset()) =~= a0.to_multiset().add(b0.to_multiset()).insert(
            x.name,
        ));
    }
}

/// Removing an entry after adding it is removing it
pub proof fn law_remove_undoes_add<A>(v: Seq<A>, x: A)
    ensures
        spec_without(spec_with_added(v, x), x) == spec_without(v, x),
{
    if !v.contains(x) {
        assert(v.push(x).drop_last() =~= v);
    }
}

/// Adding keeps a list free of duplicates, and the list then holds the entry
pub proof fn law_add_keeps_unique<A>(v: Seq<A>, x: A)
    requires
        v.no_duplicates(),
    ensures
        spec_with_added(v, x).no_duplicates(),
        spec_with_added(v, x).contains(x),
{
    if !v.contains(x) {
        assert(v.push(x)[v.len() as int] == x);
        assert forall|i: int, j: int|
            0 <= i < v.push(x).len() && 0 <= j < v.push(x).len() && i != j implies v.push(x)[i]
            != v.push(x)[j] by {
            if i == v.len() as int {
                assert(v[j] == v.push(x)[j]);
            } else if j == v.len() as int {
                assert(v[i] == v.push(x)[i]);
            }
        }
    }
}

/// Asking again for the features of a package that was found gives the same
/// features and changes nothing: they are kept
pub proof fn law_features_are_kept(m: MetaDataView, package: Seq<char>)
    requires
        spec_get_features(m, package).1 is Ok,
    ensures
        spec_get_features(spec_get_features(m, package).0, package) == spec_get_features(
            m,
            package,
        ),
{
}

/// Once the features of a package were found, its dependencies are known
/// too: asking for them changes nothing
pub proof fn law_dependencies_known_with_features(m: MetaDataView, package: Seq<char>)
    requires
        spec_get_features(m, package).1 is Ok,
        m.features.dom().contains(package) ==> m.dependencies.dom().contains(package),
    ensures
        spec_get_dependencies(spec_get_features(m, package).0, package).0 == spec_get_features(
            m,
            package,
        ).0,
        spec_get_dependencies(spec_get_features(m, package).0, package).1 is Ok,
{
}

/// For one dependency, a feature is reported as missing its activation of
/// the dependency's feature exactly where the crate has it, the dependency
/// has a feature of that name, and it is not excluded (by the settings, or
/// because it already activates that feature); each report names the
/// dependency and whether it is optional
pub proof fn law_reports_are_exact(
    parent: Seq<CrateFeatureView>,
    dep_features: Seq<CrateFeatureView>,
    dep: CrateDependencyView,
    s: DependencyCheckSettings,
)
    requires
        spec_add_common(Map::empty(), parent, dep_features, dep, s) is Some,
    ensures
        spec_add_common(Map::empty(), parent, dep_features, dep, s) matches Some(m) && (forall|
            k: Seq<char>,
        |
            #![trigger m.dom().contains(k)]
            m.dom().contains(k) <==> exists|i: int|
                0 <= i < parent.len() && parent[i].name == k && spec_has_feature(dep_features, k)
                    && spec_should_add(parent[i], dep, s) == Some(true)) && (forall|
            k: Seq<char>,
            j: int,
        |
            #![trigger m[k][j]]
            m.dom().contains(k) && 0 <= j < m[k].len() ==> m[k][j] == (dep.name, dep.optional)),
    decreases parent.len(),
{
    if parent.len() > 0 {
        law_reports_are_exact(parent.drop_last(), dep_features, dep, s);
        let m1 = spec_add_common(Map::empty(), parent.drop_last(), dep_features, dep, s)->0;
        let m = spec_add_common(Map::empty(), parent, dep_features, dep, s)->0;
        let cf = parent.last();
        assert forall|k: Seq<char>| m.dom().contains(k) <==> exists|i: int|
            0 <= i < parent.len() && parent[i].name == k && spec_has_feature(dep_features, k)
                && spec_should_add(parent[i], dep, s) == Some(true) by {
            if exists|i: int|
                0 <= i < parent.drop_last().len() && parent.drop_last()[i].name == k
                    && spec_has_feature(dep_features, k) && spec_should_add(
                    parent.drop_last()[i],
                    dep,
                    s,
                ) == Some(true) {
                let i = choose|i: int|
                    0 <= i < parent.drop_last().len() && parent.drop_last()[i].name == k
                        && spec_has_feature(dep_features, k) && spec_should_add(
                        parent.drop_last()[i],
                        dep,
                        s,
                    ) == Some(true);
                assert(parent[i] == parent.drop_last()[i]);
            }
            if exists|i: int|
                0 <= i < parent.len() && parent[i].name == k && spec_has_feature(dep_features, k)
                    && spec_should_add(parent[i], dep, s) == Some(true) {
                let i = choose|i: int|
                    0 <= i < parent.len() && parent[i].name == k && spec_has_feature(
                        dep_features,
                        k,
                    ) && spec_should_add(parent[i], dep, s) == Some(true);
                if i < parent.len() - 1 {
                    assert(parent.drop_last()[i] == parent[i]);
                }
            }
        }
    }
}


/// The feature keys found in the lines of a manifest are distinct
pub proof fn law_feature_keys_unique(lines: Seq<Seq<char>>)
    ensures
        spec_feature_scan(lines).0.no_duplicates(),
    decreases lines.len(),
{
    if lines.len() > 0 {
        law_feature_keys_unique(lines.drop_last());
        let keys = spec_feature_scan(lines.drop_last()).0;
        if let Some(k) = spec_line_key(lines.last()) {
            law_add_keeps_unique(keys, k);
        }
    }
}

/// The warnings of the dependency check come in the order of the lines of
/// their features, and each row is kept
pub proof fn law_warnings_follow_lines(rows: Seq<(FoundPosition, int)>)
    ensures
        forall|i: int, j: int|
            0 <= i < j < rows.len() ==> (#[trigger] spec_sort(rows, spec_line_lt())[i]).0.line
                <= (#[trigger] spec_sort(rows, spec_line_lt())[j]).0.line,
        spec_sort(rows, spec_line_lt()).to_multiset() == rows.to_multiset(),
{
    let key = |r: (FoundPosition, int)| r.0.line as int;
    assert(spec_line_lt() =~= (|a: (FoundPosition, int), b: (FoundPosition, int)| key(a) < key(b)));
    lemma_sort_by_key_is_sorted(rows, key);
    lemma_sort_keeps_elements(rows, spec_line_lt());
    let sorted = spec_sort(rows, spec_line_lt());
    assert(sorted.len() == rows.len()) by {
        broadcast use vstd::seq_lib::group_to_multiset_ensures;

        assert(sorted.to_multiset().len() == rows.to_multiset().len());
    }
}

/// Every missing feature is looked up once: the order of names holds each
/// index once
pub proof fn law_name_order_keeps_indices(pairs: MissingPairs)
    ensures
        spec_name_order(pairs).to_multiset() == Seq::new(pairs.len(), |i: int| i).to_multiset(),
{
    lemma_sort_keeps_elements(
        Seq::new(pairs.len(), |i: int| i),
        crate::report::spec_name_lt(pairs),
    );
}

/// The first `/` from `start` is at `k`
proof fn lemma_index_of_at(s: Seq<char>, c: char, start: int, end: int, k: int)
    requires
        0 <= start <= k < end <= s.len(),
        s[k] == c,
        forall|j: int| start <= j < k ==> s[j] != c,
    ensures
        spec_index_of(s, c, start, end) == k,
    decreases k - start,
{
    if start < k {
        lemma_index_of_at(s, c, start + 1, end, k);
    }
}

/// Without `c` from `start` on, the search gives `end`
proof fn lemma_index_of_none(s: Seq<char>, c: char, start: int, end: int)
    requires
        0 <= start <= end <= s.len(),
        forall|j: int| start <= j < end ==> s[j] != c,
    ensures
        spec_index_of(s, c, start, end) == end,
    decreases end - start,
{
    if start < end {
        lemma_index_of_none(s, c, start + 1, end);
    }
}

/// What an activation reads as where it is written in the `[features]`
/// table reads back as that activation: always for a dependency; for a
/// feature whose name has no `/`, does not start with `dep:` and names no
/// dependency; for a feature of a dependency whose name has no `/`, does not
/// start with `dep:` and, unless weak, does not end with `?`
pub proof fn law_activation_text_reads_back(a: ActivateFeatureView, deps: Seq<crate::metadata::CrateDependencyView>)
    requires
        a matches ActivateFeatureView::Feature(f) ==> !f.contains('/') && !spec_starts_with(
            f,
            seq!['d', 'e', 'p', ':'],
        ) && !spec_has_dependency(deps, f),
        a matches ActivateFeatureView::DependencyFeature { dep, weak, .. } ==> !dep.contains('/')
            && !spec_starts_with(dep, seq!['d', 'e', 'p', ':']) && (weak || dep.len() == 0
            || dep.last() != '?'),
    ensures
        spec_classify(spec_activation_text(a), deps) == a,
{
    let t = spec_activation_text(a);
    let p = seq!['d', 'e', 'p', ':'];
    match a {
        ActivateFeatureView::Dependency(d) => {
            assert(t.take(4) =~= p);
            assert(t.skip(4) =~= d);
        },
        ActivateFeatureView::Feature(f) => {
            lemma_index_of_none(t, '/', 0, t.len() as int);
        },
        ActivateFeatureView::DependencyFeature { dep, feature, weak } => {
            let q: Seq<char> = if weak {
                seq!['?']
            } else {
                Seq::empty()
            };
            let k: int = (dep.len() + q.len()) as int;
            assert(t =~= dep + q + seq!['/'] + feature);
            assert forall|j: int| 0 <= j < k implies t[j] != '/' by {
                if j < dep.len() {
                    assert(t[j] == dep[j]);
                    if dep[j] == '/' {
                        assert(dep.contains('/'));
                    }
                } else {
                    assert(t[j] == '?');
                }
            }
            lemma_index_of_at(t, '/', 0, t.len() as int, k);
            if spec_starts_with(t, p) {
                if dep.len() >= 4 {
                    assert(dep.take(4) =~= t.take(4));
                } else {
                    assert(t[dep.len() as int] == p[dep.len() as int]);
                }
            }
            assert(t.take(k) =~= dep + q);
            assert(t.skip(k + 1) =~= feature);
            if weak {
                assert((dep + q).drop_last() =~= dep);
            } else {
                assert(dep + q =~= dep);
            }
        },
    }
}


/// What the check of one dependency adds to the missing activations: keys
/// that name features of the crate, each with entries for that dependency
/// after the entries it had
proof fn lemma_add_common_adds(
    m0: Map<Seq<char>, Seq<(Seq<char>, bool)>>,
    parent: Seq<CrateFeatureView>,
    dep_features: Seq<CrateFeatureView>,
    dep: CrateDependencyView,
    s: DependencyCheckSettings,
)
    requires
        spec_add_common(m0, parent, dep_features, dep, s) is Some,
    ensures
        spec_add_common(m0, parent, dep_features, dep, s) matches Some(m2) && forall|k: Seq<char>|
            #![trigger m2.dom().contains(k)]
            m2.dom().contains(k) ==> (m0.dom().contains(k) || spec_has_feature(parent, k)) && forall|
                j: int,
            |
                0 <= j < m2[k].len() ==> ((m0.dom().contains(k) && j < m0[k].len() && m2[k][j]
                    == m0[k][j]) || m2[k][j] == (dep.name, dep.optional)),
    decreases parent.len(),
{
    if parent.len() > 0 {
        lemma_add_common_adds(m0, parent.drop_last(), dep_features, dep, s);
        let m1 = spec_add_common(m0, parent.drop_last(), dep_features, dep, s)->0;
        let m2 = spec_add_common(m0, parent, dep_features, dep, s)->0;
        let cf = parent.last();
        assert forall|k: Seq<char>| #[trigger] m2.dom().contains(k) implies (m0.dom().contains(k)
            || spec_has_feature(parent, k)) && forall|j: int|
            0 <= j < m2[k].len() ==> ((m0.dom().contains(k) && j < m0[k].len() && m2[k][j]
                == m0[k][j]) || m2[k][j] == (dep.name, dep.optional)) by {
            if k == cf.name {
                assert(parent[parent.len() - 1].name == k);
            }
            if m1.dom().contains(k) && spec_has_feature(parent.drop_last(), k) {
                let i = choose|i: int|
                    0 <= i < parent.drop_last().len() && parent.drop_last()[i].name == k;
                assert(parent[i].name == k);
            }
        }
    }
}

/// Each missing activation that the check reports is for a feature of the
/// crate, and names a dependency whose kind the settings check and whose
/// name they do not skip, with whether it is optional
#[verifier::spinoff_prover]
pub proof fn law_reports_name_checked_dependencies(
    m: MetaDataView,
    parent: Seq<CrateFeatureView>,
    deps: Seq<CrateDependencyView>,
    s: DependencyCheckSettings,
)
    requires
        spec_check_deps(m, parent, deps, s) matches Some((_, r)) && r is Ok,
    ensures
        spec_check_deps(m, parent, deps, s) matches Some((_, Ok(found))) && forall|k: Seq<char>|
            #![trigger found.dom().contains(k)]
            found.dom().contains(k) ==> spec_has_feature(parent, k) && forall|j: int|
                #![trigger found[k][j]]
                0 <= j < found[k].len() ==> exists|i: int|
                    0 <= i < deps.len() && spec_kind_checked(deps[i].kind, s) && spec_views(
                        s.blacklisted_dependencies@,
                    ).contains(deps[i].name) == s.blacklisted_dependencies_is_whitelist
                        && found[k][j] == (#[trigger] deps[i].name, deps[i].optional),
    decreases deps.len(),
{
    if deps.len() > 0 {
        let d = deps.drop_last();
        law_reports_name_checked_dependencies(m, parent, d, s);
        let (m1, r1) = spec_check_deps(m, parent, d, s)->0;
        let map1 = r1->Ok_0;
        let dep = deps.last();
        let (_, r2) = spec_check_deps(m, parent, deps, s)->0;
        let found = r2->Ok_0;
        if !spec_kind_checked(dep.kind, s) || spec_views(s.blacklisted_dependencies@).contains(
            dep.name,
        ) != s.blacklisted_dependencies_is_whitelist {
            assert(found == map1);
            assert forall|k: Seq<char>| #[trigger] found.dom().contains(k) implies spec_has_feature(
                parent,
                k,
            ) && forall|j: int|
                #![trigger found[k][j]]
                0 <= j < found[k].len() ==> exists|i: int|
                    0 <= i < deps.len() && spec_kind_checked(deps[i].kind, s) && spec_views(
                        s.blacklisted_dependencies@,
                    ).contains(deps[i].name) == s.blacklisted_dependencies_is_whitelist
                        && found[k][j] == (#[trigger] deps[i].name, deps[i].optional) by {
                assert forall|j: int| #![trigger found[k][j]] 0 <= j < found[k].len() implies exists|i: int|
                    0 <= i < deps.len() && spec_kind_checked(deps[i].kind, s) && spec_views(
                        s.blacklisted_dependencies@,
                    ).contains(deps[i].name) == s.blacklisted_dependencies_is_whitelist
                        && found[k][j] == (#[trigger] deps[i].name, deps[i].optional) by {
                    let i = choose|i: int|
                        0 <= i < d.len() && spec_kind_checked(d[i].kind, s) && spec_views(
                            s.blacklisted_dependencies@,
                        ).contains(d[i].name) == s.blacklisted_dependencies_is_whitelist
                            && found[k][j] == (#[trigger] d[i].name, d[i].optional);
                    assert(deps[i] == d[i]);
                }
            }
        } else {
            let df = spec_get_features(m1, dep.name).1->Ok_0;
            lemma_add_common_adds(map1, parent, df, dep, s);
            assert forall|k: Seq<char>| #[trigger] found.dom().contains(k) implies spec_has_feature(
                parent,
                k,
            ) && forall|j: int|
                #![trigger found[k][j]]
                0 <= j < found[k].len() ==> exists|i: int|
                    0 <= i < deps.len() && spec_kind_checked(deps[i].kind, s) && spec_views(
                        s.blacklisted_dependencies@,
                    ).contains(deps[i].name) == s.blacklisted_dependencies_is_whitelist
                        && found[k][j] == (#[trigger] deps[i].name, deps[i].optional) by {
                assert forall|j: int| #![trigger found[k][j]] 0 <= j < found[k].len() implies exists|i: int|
                    0 <= i < deps.len() && spec_kind_checked(deps[i].kind, s) && spec_views(
                        s.blacklisted_dependencies@,
                    ).contains(deps[i].name) == s.blacklisted_dependencies_is_whitelist
                        && found[k][j] == (#[trigger] deps[i].name, deps[i].optional) by {
                    if found[k][j] == (dep.name, dep.optional) {
                        assert(deps[deps.len() - 1] == dep);
                    } else {
                        assert(map1.dom().contains(k) && j < map1[k].len() && found[k][j]
                            == map1[k][j]);
                        let i = choose|i: int|
                            0 <= i < d.len() && spec_kind_checked(d[i].kind, s) && spec_views(
                                s.blacklisted_dependencies@,
                            ).contains(d[i].name) == s.blacklisted_dependencies_is_whitelist
                                && map1[k][j] == (#[trigger] d[i].name, d[i].optional);
                        assert(deps[i] == d[i]);
                    }
                }
            }
        }
    }
}

/// An item of a section that has a position (as [`crate::toml::get_item_pos_in_section`]
/// finds it) is declared in that section (as [`crate::toml::has_flag`] and
/// [`crate::toml::has_dependency`] tell it)
pub proof fn law_positioned_item_is_declared(b: Seq<u8>, name: Seq<u8>, section: Seq<u8>)
    ensures
        spec_item_pos(b, name, section) matches Some(Some(_)) ==> spec_has_item(b, name, section),
{
    if let Some(Some(range)) = crate::toml::spec_toml_get_section(b, section) {
        lemma_item_line_is_key_line(b, name, range.item_end as int, range.end as int, 0);
    }
}


/// Whether `d` holds what the metadata object at `q` writes of a dependency:
/// its `name` and `req` strings, its `optional` and `uses_default_features`
/// booleans, its `features` strings, and a kind that is `build` or `dev`
/// exactly where its `kind` string says so
pub open spec fn spec_dependency_read_from(t: Seq<JsonNodeView>, q: int, d: CrateDependencyView) -> bool {
    &&& spec_get_str(t, q, "name"@) == Some(d.name)
    &&& spec_get_str(t, q, "req"@) == Some(d.version)
    &&& spec_get_bool(t, q, "optional"@) == Some(d.optional)
    &&& spec_get_bool(t, q, "uses_default_features"@) == Some(d.use_default_features)
    &&& spec_get_strings(t, q, "features"@) == Some(Some(d.active_features))
    &&& (d.kind == DependencyKind::Build <==> spec_get_str(t, q, "kind"@) == Some("build"@))
    &&& (d.kind == DependencyKind::Dev <==> spec_get_str(t, q, "kind"@) == Some("dev"@))
}

/// Every dependency read from a list of dependency objects holds the values
/// its object writes, one dependency for each object, in order
pub proof fn law_dependencies_hold_their_fields(t: Seq<JsonNodeView>, items: Seq<int>, package: Seq<char>)
    ensures
        spec_dependency_list(t, items, package) matches Ok(ds) ==> ds.len() == items.len() && forall|
            i: int,
        |
            0 <= i < ds.len() ==> #[trigger] spec_dependency_read_from(t, items[i], ds[i]),
    decreases items.len(),
{
    reveal_strlit("build");
    reveal_strlit("dev");
    if items.len() > 0 {
        law_dependencies_hold_their_fields(t, items.drop_last(), package);
        if let Ok(ds) = spec_dependency_list(t, items, package) {
            let prev = spec_dependency_list(t, items.drop_last(), package)->Ok_0;
            assert(ds == prev.push(ds.last()));
            assert forall|i: int| 0 <= i < ds.len() implies #[trigger] spec_dependency_read_from(
                t,
                items[i],
                ds[i],
            ) by {
                if i < ds.len() - 1 {
                    assert(items.drop_last()[i] == items[i]);
                    assert(ds[i] == prev[i]);
                }
            }
        }
    }
}

/// The dependencies of a package read from its metadata object are the
/// objects of its `dependencies` array, each with the values it writes
pub proof fn law_package_dependencies_hold_their_fields(t: Seq<JsonNodeView>, p: int, package: Seq<char>)
    ensures
        spec_package_contents(t, p, package) matches Ok((deps, _)) ==> (spec_get(
            t,
            p,
            "dependencies"@,
        ) matches Some(dv) && spec_array_items(t, dv) matches Some(items) && deps.len()
            == items.len() && forall|i: int|
            0 <= i < deps.len() ==> #[trigger] spec_dependency_read_from(t, items[i], deps[i])),
{
    if let Some(dv) = spec_get(t, p, "dependencies"@) {
        if let Some(ditems) = spec_array_items(t, dv) {
            law_dependencies_hold_their_fields(t, ditems, package);
        }
    }
}


/// Activating a differently named feature of a dependency does not count as
/// activating the dependency's feature of the crate feature's own name: the
/// decision whether to report the crate feature stays the same
pub proof fn law_other_dependency_feature_does_not_suppress(
    cf: CrateFeatureView,
    dep: CrateDependencyView,
    s: DependencyCheckSettings,
    other: Seq<char>,
    weak: bool,
)
    requires
        other != cf.name,
    ensures
        spec_should_add(
            CrateFeatureView {
                name: cf.name,
                activating: cf.activating.push(
                    ActivateFeatureView::DependencyFeature { dep: dep.name, feature: other, weak },
                ),
            },
            dep,
            s,
        ) == spec_should_add(cf, dep, s),
{
    let x = ActivateFeatureView::DependencyFeature { dep: dep.name, feature: other, weak };
    let acts = cf.activating.push(x);
    assert(spec_activates_dep_feature(acts, dep.name, cf.name) == spec_activates_dep_feature(
        cf.activating,
        dep.name,
        cf.name,
    )) by {
        if spec_activates_dep_feature(acts, dep.name, cf.name) {
            let i = choose|i: int|
                0 <= i < acts.len() && (#[trigger] acts[i] matches ActivateFeatureView::DependencyFeature {
                    dep: d,
                    feature: f,
                    ..
                } && d == dep.name && f == cf.name);
            assert(i < cf.activating.len());
            assert(acts[i] == cf.activating[i]);
        }
        if spec_activates_dep_feature(cf.activating, dep.name, cf.name) {
            let i = choose|i: int|
                0 <= i < cf.activating.len() && (#[trigger] cf.activating[i] matches ActivateFeatureView::DependencyFeature {
                    dep: d,
                    feature: f,
                    ..
                } && d == dep.name && f == cf.name);
            assert(acts[i] == cf.activating[i]);
        }
    }
}

/// Activating the dependency's feature of the crate feature's own name
/// (`dep/name` or `dep?/name`) means the crate feature is never reported for
/// that dependency
pub proof fn law_same_named_dependency_feature_suppresses(
    cf: CrateFeatureView,
    dep: CrateDependencyView,
    s: DependencyCheckSettings,
    weak: bool,
)
    ensures
        spec_should_add(
            CrateFeatureView {
                name: cf.name,
                activating: cf.activating.push(
                    ActivateFeatureView::DependencyFeature { dep: dep.name, feature: cf.name, weak },
                ),
            },
            dep,
            s,
        ) != Some(true),
{
    let acts = cf.activating.push(
        ActivateFeatureView::DependencyFeature { dep: dep.name, feature: cf.name, weak },
    );
    assert(acts[cf.activating.len() as int] matches ActivateFeatureView::DependencyFeature {
        dep: d,
        feature: f,
        ..
    } && d == dep.name && f == cf.name);
    assert(spec_activates_dep_feature(acts, dep.name, cf.name));
}

/// A crate feature that the settings do not exclude and that activates no
/// feature of the dependency named like itself is reported, whatever other
/// features of the dependency it activates
pub proof fn law_unactivated_shared_feature_is_reported(
    cf: CrateFeatureView,
    dep: CrateDependencyView,
    s: DependencyCheckSettings,
)
    requires
        !(s.exclude_default && cf.name == "default"@),
        s.exclude_flags_with_leading_underscore ==> cf.name.len() > 0 && (cf.name[0] as int) < 0x80
            && cf.name[0] != '_',
        forall|i: int|
            0 <= i < cf.activating.len() ==> !(#[trigger] cf.activating[i] matches ActivateFeatureView::DependencyFeature {
                dep: d,
                feature: f,
                ..
            } && d == dep.name && f == cf.name),
        !spec_pair_views(s.blacklisted_dependency_features_combination@).contains(
            (dep.name, cf.name),
        ),
        spec_views(s.blacklisted_features@).contains(cf.name) == s.blacklisted_features_is_whitelist,
    ensures
        spec_should_add(cf, dep, s) == Some(true),
{
}


/// Stripping whitespace from `start` stops at the first character that is
/// not whitespace
proof fn lemma_strip_start_whitespace(s: Seq<char>, start: int, end: int)
    requires
        0 <= start <= end <= s.len(),
    ensures
        start <= spec_strip_start(s, start, end, false) <= end,
        forall|k: int|
            start <= k < spec_strip_start(s, start, end, false) ==> spec_is_whitespace(#[trigger] s[k]),
        spec_strip_start(s, start, end, false) < end ==> !spec_is_whitespace(
            s[spec_strip_start(s, start, end, false)],
        ),
    decreases end - start,
{
    if start < end && spec_strips(s[start], false) {
        lemma_strip_start_whitespace(s, start + 1, end);
    }
}

/// A line that, after leading whitespace, starts with `#` and holds
/// `feature(` is an attribute that uses a feature
proof fn lemma_attribute_line(line: Seq<char>, t: int)
    requires
        0 <= t < line.len(),
        forall|k: int| 0 <= k < t ==> spec_is_whitespace(#[trigger] line[k]),
        line[t] == '#',
        spec_contains_seq(line, spec_feature_call()),
    ensures
        spec_nightly_line(line),
{
    lemma_strip_start_whitespace(line, 0, line.len() as int);
    let r = spec_strip_start(line, 0, line.len() as int, false);
    if r < t {
        assert(!spec_is_whitespace(line[r]));
    } else if r > t {
        assert(spec_is_whitespace(line[t]));
    }
}

/// A file uses nightly where any of its lines, after leading whitespace,
/// starts with `#` and holds `feature(`, whatever lines come before it
pub proof fn law_feature_attribute_line_means_nightly(file: Seq<char>, i: int, t: int)
    requires
        0 <= i < spec_split(file, '\n').len(),
        0 <= t < spec_split(file, '\n')[i].len(),
        forall|k: int| 0 <= k < t ==> spec_is_whitespace(#[trigger] spec_split(file, '\n')[i][k]),
        spec_split(file, '\n')[i][t] == '#',
        spec_contains_seq(spec_split(file, '\n')[i], spec_feature_call()),
    ensures
        spec_uses_nightly(file),
{
    lemma_attribute_line(spec_split(file, '\n')[i], t);
}

/// A file uses nightly only where one of its lines, after leading
/// whitespace, starts with `#` and holds `feature(`
pub proof fn law_nightly_needs_a_feature_attribute_line(file: Seq<char>)
    ensures
        spec_uses_nightly(file) ==> exists|i: int, t: int|
            0 <= i < spec_split(file, '\n').len() && 0 <= t < spec_split(file, '\n')[i].len()
                && (forall|k: int|
                0 <= k < t ==> spec_is_whitespace(#[trigger] spec_split(file, '\n')[i][k]))
                && #[trigger] spec_split(file, '\n')[i][t] == '#' && spec_contains_seq(
                spec_split(file, '\n')[i],
                spec_feature_call(),
            ),
{
    if spec_uses_nightly(file) {
        let i = choose|i: int|
            0 <= i < spec_split(file, '\n').len() && #[trigger] spec_nightly_line(
                spec_split(file, '\n')[i],
            );
        let line = spec_split(file, '\n')[i];
        lemma_strip_start_whitespace(line, 0, line.len() as int);
        let t = spec_strip_start(line, 0, line.len() as int, false);
        assert(spec_split(file, '\n')[i][t] == '#');
    }
}

/// The lines of `a`, a line break and `b` are the lines of `a` followed by
/// those of `b`
proof fn lemma_split_concat(a: Seq<char>, b: Seq<char>)
    ensures
        spec_split(a + seq!['\n'] + b, '\n') == spec_split(a, '\n') + spec_split(b, '\n'),
    decreases b.len(),
{
    lemma_split_nonempty(b, '\n');
    if b.len() == 0 {
        assert(a + seq!['\n'] + b =~= a.push('\n'));
        assert((a.push('\n')).drop_last() =~= a);
        assert(spec_split(b, '\n') =~= seq![Seq::<char>::empty()]);
        assert(spec_split(a, '\n').push(Seq::empty()) =~= spec_split(a, '\n') + seq![Seq::<char>::empty()]);
    } else {
        let whole = a + seq!['\n'] + b;
        let b0 = b.drop_last();
        lemma_split_concat(a, b0);
        lemma_split_nonempty(b0, '\n');
        assert(whole.drop_last() =~= a + seq!['\n'] + b0);
        assert(whole.last() == b.last());
        let l = spec_split(a, '\n');
        let r0 = spec_split(b0, '\n');
        if b.last() == '\n' {
            assert((l + r0).push(Seq::empty()) =~= l + r0.push(Seq::empty()));
        } else {
            let init = l + r0;
            assert(init.last() == r0.last());
            assert(init.update(init.len() - 1, init.last().push(b.last())) =~= l + r0.update(
                r0.len() - 1,
                r0.last().push(b.last()),
            ));
        }
    }
}

/// Joining two texts with a line break: the result uses nightly exactly
/// where one of the two does
pub proof fn law_nightly_of_joined_texts(a: Seq<char>, b: Seq<char>)
    ensures
        spec_uses_nightly(a + seq!['\n'] + b) == (spec_uses_nightly(a) || spec_uses_nightly(b)),
{
    lemma_split_concat(a, b);
    let la = spec_split(a, '\n');
    let lb = spec_split(b, '\n');
    let lw = spec_split(a + seq!['\n'] + b, '\n');
    if spec_uses_nightly(a) {
        let i = choose|i: int| 0 <= i < la.len() && #[trigger] spec_nightly_line(la[i]);
        assert(lw[i] == la[i]);
    }
    if spec_uses_nightly(b) {
        let i = choose|i: int| 0 <= i < lb.len() && #[trigger] spec_nightly_line(lb[i]);
        assert(lw[la.len() + i] == lb[i]);
    }
    if spec_uses_nightly(a + seq!['\n'] + b) {
        let i = choose|i: int| 0 <= i < lw.len() && #[trigger] spec_nightly_line(lw[i]);
        if i < la.len() {
            assert(lw[i] == la[i]);
        } else {
            assert(lw[i] == lb[i - la.len()]);
        }
    }
}


/// The first line of the bytes from `start` to `end`, from the one starting
/// at `start` on, that declares the key `name`: without its leading
/// whitespace it starts with `name` followed by a space, a tab or `=`; the
/// offset of the line and of its text
pub open spec fn spec_first_key_line(b: Seq<u8>, name: Seq<u8>, start: int, end: int) -> Option<(int, int)>
    decreases end - start,
{
    if start < 0 || start > end || end > b.len() {
        None
    } else {
        let e = spec_line_end(b, start, end);
        let t = spec_trim_start(b, start, e);
        proof {
            lemma_line_end(b, start, end);
        }
        if t + name.len() < e && b.subrange(t, t + name.len()) == name && (b[t + name.len()] == 32
            || b[t + name.len()] == 9 || b[t + name.len()] == 61) {
            Some((start, t))
        } else if e < end {
            spec_first_key_line(b, name, e + 1, end)
        } else {
            None
        }
    }
}

/// The position search takes the first declaring line, or fails
proof fn lemma_item_line_is_first_key_line(b: Seq<u8>, name: Seq<u8>, start: int, end: int, k: int)
    ensures
        match spec_item_line(b, name, start, end, k) {
            None => true,
            Some(None) => spec_first_key_line(b, name, start, end) is None,
            Some(Some((ls, _, t))) => spec_first_key_line(b, name, start, end) == Some((ls, t)),
        },
        spec_first_key_line(b, name, start, end) matches Some((ls, t)) ==> start <= ls <= t <= end,
    decreases end - start,
{
    if !(start < 0 || start > end || end > b.len()) {
        let e = spec_line_end(b, start, end);
        lemma_line_end(b, start, end);
        lemma_trim_bounds(b, start, e);
        if e < end {
            lemma_item_line_is_first_key_line(b, name, e + 1, end, k + 1);
        }
    }
}

/// Where the position of an item is found, it is at the first line of the
/// section that declares the item (its name followed by a space, a tab or
/// `=`): the position exists exactly where a `]` outside a comment closes
/// the item, and it starts at the text of that line
pub proof fn law_position_is_at_first_declaration(b: Seq<u8>, name: Seq<u8>, section: Seq<u8>)
    requires
        b.len() <= isize::MAX,
    ensures
        spec_item_pos(b, name, section) matches Some(r) ==> match spec_toml_get_section(b, section) {
            Some(Some(range)) => match spec_first_key_line(
                b,
                name,
                range.item_end as int,
                range.end as int,
            ) {
                None => r is None,
                Some((ls, t)) => (r is Some <==> spec_item_close(b, t, range.end as int, 0) is Some)
                    && (r matches Some(p) ==> p.item_start == t && p.column == t - ls && t
                    <= p.item_end < range.end && b[p.item_end as int] == 0x5d && ls <= p.end
                    <= range.end && (p.end < range.end ==> b[p.end as int] == 10) && forall|x: int|
                    ls <= x < p.end ==> #[trigger] b[x] != 10),
            },
            _ => r is None,
        },
{
    lemma_toml_get_section(b, section);
    if let Some(Some(range)) = spec_toml_get_section(b, section) {
        lemma_item_line_is_first_key_line(b, name, range.item_end as int, range.end as int, 0);
        if let Some((ls, t)) = spec_first_key_line(b, name, range.item_end as int, range.end as int) {
            lemma_item_close_is_bracket(b, t, range.end as int, 0);
            lemma_line_end(b, ls, range.end as int);
        }
    }
}

/// The closing bracket found lies in the range searched
proof fn lemma_item_close_is_bracket(b: Seq<u8>, start: int, end: int, k: int)
    ensures
        spec_item_close(b, start, end, k) matches Some((p, _, _)) ==> start <= p < end && b[p]
            == 0x5d,
    decreases end - start,
{
    if !(start < 0 || start > end || end > b.len()) {
        let e = spec_line_end(b, start, end);
        lemma_line_end(b, start, end);
        lemma_find_from(b.take(e), seq![0x23u8], start);
        let hash = match spec_find_from(b.take(e), seq![0x23u8], start) {
            Some(x) => x,
            None => e,
        };
        lemma_find_from(b.take(hash), seq![0x5du8], start);
        if let Some(p) = spec_find_from(b.take(hash), seq![0x5du8], start) {
            assert(b.take(hash).subrange(p, p + 1) == seq![0x5du8]);
            assert(b.take(hash).subrange(p, p + 1)[0] == b[p]);
        } else if e < end {
            lemma_item_close_is_bracket(b, e + 1, end, k + 1);
        }
    }
}


/// The first `c` from `start` is at or after `start`, at or before `end`,
/// with no `c` before it
proof fn lemma_index_of_first(s: Seq<char>, c: char, start: int, end: int)
    requires
        0 <= start <= end <= s.len(),
    ensures
        start <= spec_index_of(s, c, start, end) <= end,
        forall|k: int| start <= k < spec_index_of(s, c, start, end) ==> #[trigger] s[k] != c,
    decreases end - start,
{
    if start < end && s[start] != c {
        lemma_index_of_first(s, c, start + 1, end);
    }
}

/// Stripping keeps within the bounds
proof fn lemma_strip_bounds(s: Seq<char>, start: int, end: int, quotes: bool)
    requires
        0 <= start <= end <= s.len(),
    ensures
        start <= spec_strip_start(s, start, end, quotes) <= end,
        start <= spec_strip_end(s, start, end, quotes) <= end,
    decreases end - start,
{
    if start < end && spec_strips(s[start], quotes) {
        lemma_strip_bounds(s, start + 1, end, quotes);
    }
    if start < end && spec_strips(s[end - 1], quotes) {
        lemma_strip_bounds(s, start, end - 1, quotes);
    }
}

/// Whether `k` is written in `line` at `p`, with no `#` before its end
pub open spec fn spec_written_before_comment(line: Seq<char>, k: Seq<char>, p: int) -> bool {
    &&& 0 <= p
    &&& p + k.len() <= line.len()
    &&& line.subrange(p, p + k.len()) == k
    &&& forall|q: int| 0 <= q < p + k.len() ==> #[trigger] line[q] != '#'
}

/// Whether `k` is written in one of `lines` with no `#` before its end
pub open spec fn spec_written_in_lines(lines: Seq<Seq<char>>, k: Seq<char>) -> bool {
    exists|i: int, p: int| 0 <= i < lines.len() && #[trigger] spec_written_before_comment(lines[i], k, p)
}

/// The key a line declares stands in the line before its first `#`
proof fn lemma_line_key_before_comment(line: Seq<char>) -> (p: int)
    ensures
        spec_line_key(line) is Some ==> spec_written_before_comment(line, spec_line_key(line)->0, p),
{
    let n = line.len() as int;
    lemma_index_of_first(line, '#', 0, n);
    let h = spec_index_of(line, '#', 0, n);
    lemma_strip_bounds(line, 0, h, false);
    let a = spec_strip_start(line, 0, h, false);
    lemma_strip_bounds(line, a, h, false);
    let e = spec_strip_end(line, a, h, false);
    assert(spec_stripped_bounds(line) == (a, e));
    if a < e {
        lemma_index_of_first(line, '=', a, e);
        let q = spec_index_of(line, '=', a, e);
        if q < e {
            lemma_strip_bounds(line, a, q, false);
            let ka = spec_strip_start(line, a, q, false);
            lemma_strip_bounds(line, ka, q, false);
            let ke = spec_strip_end(line, ka, q, false);
            lemma_strip_bounds(line, ka, ke, true);
            let qa = spec_strip_start(line, ka, ke, true);
            lemma_strip_bounds(line, qa, ke, true);
            let qe = spec_strip_end(line, qa, ke, true);
            if qa < qe {
                let k = line.subrange(qa, qe);
                assert(spec_line_key(line) == Some(k));
                assert(line.subrange(qa, qa + k.len()) == k);
                assert forall|x: int| 0 <= x < qa + k.len() implies #[trigger] line[x] != '#' by {
                    assert(x < h);
                }
                assert(spec_written_before_comment(line, k, qa));
                qa
            } else {
                0
            }
        } else {
            0
        }
    } else {
        0
    }
}

/// Every feature key found in the lines of a manifest is written in one of
/// the lines before its first `#`: a commented-out entry declares nothing
pub proof fn law_feature_keys_come_before_comments(lines: Seq<Seq<char>>)
    ensures
        forall|j: int|
            0 <= j < spec_feature_scan(lines).0.len() ==> spec_written_in_lines(
                lines,
                #[trigger] spec_feature_scan(lines).0[j],
            ),
    decreases lines.len(),
{
    if lines.len() > 0 {
        let init = lines.drop_last();
        law_feature_keys_come_before_comments(init);
        let keys0 = spec_feature_scan(init).0;
        let keys = spec_feature_scan(lines).0;
        let l = lines.last();
        let p = lemma_line_key_before_comment(l);
        assert forall|j: int| 0 <= j < keys.len() implies spec_written_in_lines(
            lines,
            #[trigger] keys[j],
        ) by {
            if j < keys0.len() && keys[j] == keys0[j] {
                assert(spec_written_in_lines(init, keys0[j]));
                let (i, p) = choose|i: int, p: int|
                    0 <= i < init.len() && #[trigger] spec_written_before_comment(init[i], keys0[j], p);
                assert(lines[i] == init[i]);
                assert(spec_written_before_comment(lines[i], keys[j], p));
            } else {
                let k = spec_line_key(l)->0;
                assert(keys[j] == k);
                assert(lines[lines.len() - 1] == l);
                assert(spec_written_before_comment(lines[lines.len() - 1], keys[j], p));
            }
        }
    }
}


/// A crate feature that the settings exclude is never reported: the
/// `default` feature where defaults are excluded, a feature whose name starts
/// with `_` where those are excluded, a blacklisted (or not whitelisted)
/// feature, and a blacklisted combination of dependency and feature
pub proof fn law_excluded_features_are_not_reported(
    cf: CrateFeatureView,
    dep: CrateDependencyView,
    s: DependencyCheckSettings,
)
    ensures
        s.exclude_default && cf.name == "default"@ ==> spec_should_add(cf, dep, s) != Some(true),
        s.exclude_flags_with_leading_underscore && cf.name.len() > 0 && cf.name[0] == '_'
            ==> spec_should_add(cf, dep, s) != Some(true),
        spec_views(s.blacklisted_features@).contains(cf.name) != s.blacklisted_features_is_whitelist
            ==> spec_should_add(cf, dep, s) != Some(true),
        spec_pair_views(s.blacklisted_dependency_features_combination@).contains((dep.name, cf.name))
            ==> spec_should_add(cf, dep, s) != Some(true),
{
}

/// The first declaring line of a range exists exactly where a line of the
/// range declares the key
proof fn lemma_first_key_line_exists(b: Seq<u8>, name: Seq<u8>, start: int, end: int)
    ensures
        spec_first_key_line(b, name, start, end) is Some <==> spec_key_line(b, name, start, end),
    decreases end - start,
{
    if !(start < 0 || start > end || end > b.len()) {
        let e = spec_line_end(b, start, end);
        lemma_line_end(b, start, end);
        if e < end {
            lemma_first_key_line_exists(b, name, e + 1, end);
        }
    }
}

/// A section declares an item (as [`crate::toml::has_flag`] and
/// [`crate::toml::has_dependency`] tell it) exactly where one of the lines of
/// its body declares it: without its leading whitespace the line starts with
/// the name followed by a space, a tab or `=`
pub proof fn law_declared_item_has_a_declaring_line(b: Seq<u8>, name: Seq<u8>, section: Seq<u8>)
    ensures
        spec_has_item(b, name, section) <==> (spec_toml_get_section(b, section) matches Some(
            Some(range),
        ) && spec_first_key_line(b, name, range.item_end as int, range.end as int) is Some),
        spec_toml_get_section(b, section) matches Some(Some(range)) ==> (spec_first_key_line(
            b,
            name,
            range.item_end as int,
            range.end as int,
        ) matches Some((ls, t)) ==> (ls == range.item_end || b[ls - 1] == 10) && t + name.len()
            < b.len() && b.subrange(t, t + name.len()) == name && (b[t + name.len()] == 32 || b[t
            + name.len()] == 9 || b[t + name.len()] == 61) && t == spec_trim_start(
            b,
            ls,
            spec_line_end(b, ls, range.end as int),
        )),
{
    if let Some(Some(range)) = spec_toml_get_section(b, section) {
        lemma_first_key_line_exists(b, name, range.item_end as int, range.end as int);
        lemma_first_key_line_shape(b, name, range.item_end as int, range.end as int);
    }
}

/// What the first declaring line looks like
proof fn lemma_first_key_line_shape(b: Seq<u8>, name: Seq<u8>, start: int, end: int)
    requires
        0 <= start,
    ensures
        spec_first_key_line(b, name, start, end) matches Some((ls, t)) ==> (ls == start || (ls > 0
            && b[ls - 1] == 10)) && t + name.len() < b.len() && b.subrange(t, t + name.len()) == name
            && (b[t + name.len()] == 32 || b[t + name.len()] == 9 || b[t + name.len()] == 61) && t
            == spec_trim_start(b, ls, spec_line_end(b, ls, end)),
    decreases end - start,
{
    if !(start < 0 || start > end || end > b.len()) {
        let e = spec_line_end(b, start, end);
        lemma_line_end(b, start, end);
        lemma_trim_bounds(b, start, e);
        if e < end {
            lemma_first_key_line_shape(b, name, e + 1, end);
        }
    }
}


/// The stripped text of a line lies within the line
proof fn lemma_stripped_bounds(line: Seq<char>)
    ensures
        0 <= spec_stripped_bounds(line).0 <= spec_stripped_bounds(line).1 <= line.len(),
{
    let n = line.len() as int;
    lemma_index_of_first(line, '#', 0, n);
    let h = spec_index_of(line, '#', 0, n);
    lemma_strip_bounds(line, 0, h, false);
    let a = spec_strip_start(line, 0, h, false);
    lemma_strip_bounds(line, a, h, false);
}

/// Whether `line`, without a comment and surrounding whitespace, starts with `[`
pub open spec fn spec_header_line(line: Seq<char>) -> bool {
    spec_stripped_bounds(line).0 < spec_stripped_bounds(line).1 && line[spec_stripped_bounds(line).0] == '['
}

/// Whether `line`, without a comment and surrounding whitespace, is `[features]`
pub open spec fn spec_features_header_line(line: Seq<char>) -> bool {
    line.subrange(spec_stripped_bounds(line).0, spec_stripped_bounds(line).1) == "[features]"@
}

/// Whether the line `i` of `lines` lies in the `[features]` table: some
/// earlier line is the `[features]` header, and no header comes between
pub open spec fn spec_in_features_table(lines: Seq<Seq<char>>, i: int) -> bool {
    exists|h: int|
        0 <= h < i && #[trigger] spec_features_header_line(lines[h]) && forall|m: int|
            h < m < i ==> !spec_header_line(#[trigger] lines[m])
}

/// The scan is in the features table exactly after a `[features]` header
/// with no other header after it
proof fn lemma_scan_state(lines: Seq<Seq<char>>)
    ensures
        spec_feature_scan(lines).1 == spec_in_features_table(lines, lines.len() as int),
    decreases lines.len(),
{
    reveal_strlit("[features]");
    if lines.len() > 0 {
        let init = lines.drop_last();
        let n = lines.len() as int;
        lemma_scan_state(init);
        let l = lines.last();
        assert(lines[n - 1] == l);
        let (a, e) = spec_stripped_bounds(l);
        lemma_stripped_bounds(l);
        if spec_features_header_line(l) {
            assert(l.subrange(a, e) == "[features]"@);
            assert(l.subrange(a, e).len() == 10);
            assert(l.subrange(a, e)[0] == '[');
            assert(spec_header_line(l));
        }
        if spec_in_features_table(lines, n) {
            let h = choose|h: int|
                0 <= h < n && #[trigger] spec_features_header_line(lines[h]) && forall|m: int|
                    h < m < n ==> !spec_header_line(#[trigger] lines[m]);
            if h < n - 1 {
                assert(!spec_header_line(lines[n - 1]));
                assert(init[h] == lines[h]);
                assert forall|m: int| h < m < n - 1 implies !spec_header_line(#[trigger] init[m]) by {
                    assert(init[m] == lines[m]);
                }
                assert(spec_in_features_table(init, n - 1));
            }
        }
        if !spec_header_line(l) && spec_in_features_table(init, n - 1) {
            let h = choose|h: int|
                0 <= h < n - 1 && #[trigger] spec_features_header_line(init[h]) && forall|m: int|
                    h < m < n - 1 ==> !spec_header_line(#[trigger] init[m]);
            assert(lines[h] == init[h]);
            assert forall|m: int| h < m < n implies !spec_header_line(#[trigger] lines[m]) by {
                if m < n - 1 {
                    assert(init[m] == lines[m]);
                }
            }
            assert(spec_in_features_table(lines, n));
        }
        if spec_features_header_line(l) {
            assert forall|m: int| n - 1 < m < n implies !spec_header_line(#[trigger] lines[m]) by {}
            assert(spec_in_features_table(lines, n));
        }
    }
}

/// Whether the line `i` of `lines` declares the feature key `k` inside the
/// `[features]` table
pub open spec fn spec_declares_in_table(lines: Seq<Seq<char>>, i: int, k: Seq<char>) -> bool {
    spec_line_key(lines[i]) == Some(k) && spec_in_features_table(lines, i)
}

/// Whether some line of `lines` declares `k` inside the `[features]` table
pub open spec fn spec_declared_in_table(lines: Seq<Seq<char>>, k: Seq<char>) -> bool {
    exists|i: int| 0 <= i < lines.len() && #[trigger] spec_declares_in_table(lines, i, k)
}

/// Every feature key found in the lines of a manifest is declared by a line
/// of the `[features]` table: keys of other tables are not feature keys
pub proof fn law_feature_keys_come_from_the_features_table(lines: Seq<Seq<char>>)
    ensures
        forall|j: int|
            0 <= j < spec_feature_scan(lines).0.len() ==> spec_declared_in_table(
                lines,
                #[trigger] spec_feature_scan(lines).0[j],
            ),
    decreases lines.len(),
{
    if lines.len() > 0 {
        let init = lines.drop_last();
        let n = lines.len() as int;
        law_feature_keys_come_from_the_features_table(init);
        lemma_scan_state(init);
        let keys0 = spec_feature_scan(init).0;
        let keys = spec_feature_scan(lines).0;
        let l = lines.last();
        assert forall|j: int| 0 <= j < keys.len() implies spec_declared_in_table(
            lines,
            #[trigger] keys[j],
        ) by {
            if j < keys0.len() && keys[j] == keys0[j] {
                assert(spec_declared_in_table(init, keys0[j]));
                let i = choose|i: int|
                    0 <= i < init.len() && #[trigger] spec_declares_in_table(init, i, keys0[j]);
                assert(lines[i] == init[i]);
                let h = choose|h: int|
                    0 <= h < i && #[trigger] spec_features_header_line(init[h]) && forall|m: int|
                        h < m < i ==> !spec_header_line(#[trigger] init[m]);
                assert(lines[h] == init[h]);
                assert forall|m: int| h < m < i implies !spec_header_line(#[trigger] lines[m]) by {
                    assert(init[m] == lines[m]);
                }
                assert(spec_in_features_table(lines, i));
                assert(spec_declares_in_table(lines, i, keys[j]));
            } else {
                assert(lines[n - 1] == l);
                assert(keys[j] == spec_line_key(l)->0);
                let h = choose|h: int|
                    0 <= h < n - 1 && #[trigger] spec_features_header_line(init[h]) && forall|m: int|
                        h < m < n - 1 ==> !spec_header_line(#[trigger] init[m]);
                assert(lines[h] == init[h]);
                assert forall|m: int| h < m < n - 1 implies !spec_header_line(#[trigger] lines[m]) by {
                    assert(init[m] == lines[m]);
                }
                assert(spec_in_features_table(lines, n - 1));
                assert(spec_declares_in_table(lines, n - 1, keys[j]));
            }
        }
    }
}


/// A key found in a prefix of the lines is found in the whole
proof fn lemma_scan_keeps_keys(lines: Seq<Seq<char>>, m: int, k: Seq<char>)
    requires
        0 <= m <= lines.len(),
        spec_feature_scan(lines.take(m)).0.contains(k),
    ensures
        spec_feature_scan(lines).0.contains(k),
    decreases lines.len(),
{
    if m == lines.len() {
        assert(lines.take(m) =~= lines);
    } else {
        let init = lines.drop_last();
        assert(init.take(m) =~= lines.take(m));
        lemma_scan_keeps_keys(init, m, k);
        let keys0 = spec_feature_scan(init).0;
        let i = choose|i: int| 0 <= i < keys0.len() && keys0[i] == k;
        let keys = spec_feature_scan(lines).0;
        if keys != keys0 {
            let l = lines.last();
            assert(keys == spec_with_added(keys0, spec_line_key(l)->0));
            if !keys0.contains(spec_line_key(l)->0) {
                assert(keys[i] == k);
            }
        }
    }
}

/// Every line of the `[features]` table that declares a key (its text
/// before a `=`, without whitespace and quotes) gives that key: the keys
/// found are all the keys of the table
pub proof fn law_features_table_keys_are_found(lines: Seq<Seq<char>>, i: int, k: Seq<char>)
    requires
        0 <= i < lines.len(),
        spec_in_features_table(lines, i),
        !spec_header_line(lines[i]),
        spec_line_key(lines[i]) == Some(k),
    ensures
        spec_feature_scan(lines).0.contains(k),
{
    let pre = lines.take(i + 1);
    let init = pre.drop_last();
    assert(init =~= lines.take(i));
    assert(pre.last() == lines[i]);
    lemma_scan_state(init);
    let h = choose|h: int|
        0 <= h < i && #[trigger] spec_features_header_line(lines[h]) && forall|m: int|
            h < m < i ==> !spec_header_line(#[trigger] lines[m]);
    assert(init[h] == lines[h]);
    assert forall|m: int| h < m < i implies !spec_header_line(#[trigger] init[m]) by {
        assert(init[m] == lines[m]);
    }
    assert(spec_in_features_table(init, i));
    let (a, e) = spec_stripped_bounds(lines[i]);
    lemma_stripped_bounds(lines[i]);
    let keys0 = spec_feature_scan(init).0;
    let keys = spec_feature_scan(pre).0;
    assert(keys == spec_with_added(keys0, k));
    if !keys0.contains(k) {
        assert(keys[keys0.len() as int] == k);
    }
    lemma_scan_keeps_keys(lines, i + 1, k);
}


/// Whether `f` holds what the member `i` of the features object writes: its
/// key as the name, and as many activations as its value lists
pub open spec fn spec_feature_read_from(t: Seq<JsonNodeView>, items: Seq<int>, i: int, f: CrateFeatureView) -> bool {
    &&& (spec_str_at(t, items[2 * i]) matches Some(key) ==> f.name == key)
    &&& spec_array_items(t, items[2 * i + 1]) matches Some(values) && f.activating.len()
        == values.len()
}

/// The first `n` raw features are one for each member, in order
proof fn lemma_raw_features_follow_members(
    t: Seq<JsonNodeView>,
    items: Seq<int>,
    n: nat,
    package: Seq<char>,
    deps: Seq<CrateDependencyView>,
)
    ensures
        spec_raw_features(t, items, n, package, deps) matches Ok(fs) ==> fs.len() == n && forall|
            i: int,
        | 0 <= i < n ==> #[trigger] spec_feature_read_from(t, items, i, fs[i]),
    decreases n,
{
    if n > 0 {
        lemma_raw_features_follow_members(t, items, (n - 1) as nat, package, deps);
        if let Ok(fs) = spec_raw_features(t, items, n, package, deps) {
            let prev = spec_raw_features(t, items, (n - 1) as nat, package, deps)->Ok_0;
            assert forall|i: int| 0 <= i < n implies #[trigger] spec_feature_read_from(t, items, i, fs[i]) by {
                if i < n - 1 {
                    assert(fs[i] == prev[i]);
                }
            }
        }
    }
}

/// The features of a package read from its metadata object are the members
/// of its `features` object as `simd_json` keeps them, one feature for each,
/// in order: named by the member's key, with one activation for each string
/// of its value
pub proof fn law_package_features_follow_members(t: Seq<JsonNodeView>, p: int, package: Seq<char>)
    ensures
        spec_package_contents(t, p, package) matches Ok((_, fs)) ==> (spec_get(
            t,
            p,
            "features"@,
        ) matches Some(fv) && spec_object_members(t, fv) matches Some(items) && fs.len()
            == items.len() / 2 && forall|i: int|
            0 <= i < fs.len() ==> #[trigger] spec_feature_read_from(t, items, i, fs[i])),
{
    if let Some(dv) = spec_get(t, p, "dependencies"@) {
        if let Some(ditems) = spec_array_items(t, dv) {
            if let Ok(deps) = spec_dependency_list(t, ditems, package) {
                if let Some(fv) = spec_get(t, p, "features"@) {
                    if let Some(items) = spec_object_members(t, fv) {
                        let n = (items.len() / 2) as nat;
                        lemma_raw_features_follow_members(t, items, n, package, deps);
                        if let Ok(raw) = spec_raw_features(t, items, n, package, deps) {
                            let fs = spec_fixed_features(raw);
                            assert forall|i: int| 0 <= i < fs.len() implies #[trigger] spec_feature_read_from(
                                t,
                                items,
                                i,
                                fs[i],
                            ) by {
                                assert(spec_feature_read_from(t, items, i, raw[i]));
                                assert(fs[i].name == raw[i].name);
                                assert(fs[i].activating.len() == raw[i].activating.len());
                            }
                        }
                    }
                }
            }
        }
    }
}


/// The section about a crate in a lock file starts at the first
/// `[[package]]` entry whose next line names the crate, and runs up to the
/// next `[[package]]` header, which it does not hold, or to the end; there
/// is none where no entry names the crate
pub proof fn law_section_about_crate_is_its_entry(b: Seq<u8>, crate_name: Seq<u8>)
    ensures
        match spec_section_about_crate(b, crate_name) {
            Some((s, e)) => 0 <= s < e <= b.len() && spec_bytes_match_at(
                b,
                spec_package_entry(crate_name),
                s,
            ) && (forall|k: int| 0 <= k < s ==> !spec_bytes_match_at(b, spec_package_entry(crate_name), k))
                && (e == b.len() || spec_bytes_match_at(b, spec_package_header(), e)) && forall|
                k: int,
            | s < k < e ==> !spec_bytes_match_at(b, spec_package_header(), k),
            None => forall|k: int| 0 <= k ==> !spec_bytes_match_at(b, spec_package_entry(crate_name), k),
        },
{
    lemma_find_from(b, spec_package_entry(crate_name), 0);
    if let Some(start) = spec_find_from(b, spec_package_entry(crate_name), 0) {
        lemma_find_from(b, spec_package_header(), start + 1);
    }
}

/// The information about a package in a lock file starts at the first line
/// that names it, and ends one byte before the next `[[package]]` header (the
/// line break before it), or before the last byte; it holds no header
pub proof fn law_package_info_runs_to_the_next_package(b: Seq<u8>, package_name: Seq<u8>)
    ensures
        match spec_package_info(b, package_name) {
            Some((s, e)) => 0 <= s && spec_bytes_match_at(b, spec_package_name_line(package_name), s)
                && (forall|k: int|
                0 <= k < s ==> !spec_bytes_match_at(b, spec_package_name_line(package_name), k))
                && (e == b.len() - 1 || spec_bytes_match_at(b, spec_package_header(), e + 1))
                && forall|k: int| s <= k < e + 1 ==> !spec_bytes_match_at(b, spec_package_header(), k),
            None => forall|k: int|
                0 <= k ==> !spec_bytes_match_at(b, spec_package_name_line(package_name), k),
        },
{
    lemma_find_from(b, spec_package_name_line(package_name), 0);
    if let Some(start) = spec_find_from(b, spec_package_name_line(package_name), 0) {
        lemma_find_from(b, spec_package_header(), start);
    }
}

/// Every dependency that a lock section lists is the text between the two
/// quotes of one entry of its list: a quote right before it and right after
/// it, no `,` inside it, and the entries in the order of the list
pub proof fn law_lock_dependencies_are_quoted_entries(b: Seq<u8>, start: int, end: int)
    ensures
        forall|i: int|
            0 <= i < spec_lock_entries(b, start, end).len() ==> start < (#[trigger] spec_lock_entries(
                b,
                start,
                end,
            )[i]).0 <= spec_lock_entries(b, start, end)[i].1 < end && b[spec_lock_entries(
                b,
                start,
                end,
            )[i].0 - 1] == 34 && b[spec_lock_entries(b, start, end)[i].1] == 34 && forall|k: int|
                spec_lock_entries(b, start, end)[i].0 <= k < spec_lock_entries(b, start, end)[i].1
                    ==> #[trigger] b[k] != 0x2c,
        forall|i: int, j: int|
            0 <= i < j < spec_lock_entries(b, start, end).len() ==> (#[trigger] spec_lock_entries(
                b,
                start,
                end,
            )[i]).1 < (#[trigger] spec_lock_entries(b, start, end)[j]).0,
    decreases end - start,
{
    if !(start < 0 || start > end || end > b.len()) {
        let pe = match spec_find_from(b.take(end), seq![0x2cu8], start) {
            Some(j) => j,
            None => end,
        };
        lemma_find_from(b.take(end), seq![0x2cu8], start);
        if pe < end {
            assert(b.take(end).subrange(pe, pe + 1)[0] == b[pe]);
        }
        lemma_trim_bounds(b, start, pe);
        let ta = spec_trim_start(b, start, pe);
        lemma_trim_bounds(b, ta, pe);
        let te = spec_trim_end(b, ta, pe);
        let this: Seq<(int, int)> = if te - ta >= 2 && b[ta] == 34 && b[te - 1] == 34 {
            seq![(ta + 1, te - 1)]
        } else {
            Seq::empty()
        };
        assert forall|k: int| start <= k < pe implies #[trigger] b[k] != 0x2c by {
            if b[k] == 0x2c {
                assert(b.take(end).subrange(k, k + 1) =~= seq![0x2cu8]);
                assert(spec_bytes_match_at(b.take(end), seq![0x2cu8], k));
            }
        }
        let rest: Seq<(int, int)> = if pe >= end {
            Seq::empty()
        } else {
            spec_lock_entries(b, pe + 1, end)
        };
        if pe < end {
            law_lock_dependencies_are_quoted_entries(b, pe + 1, end);
        }
        let all = spec_lock_entries(b, start, end);
        assert(all == this + rest);
        assert forall|i: int| 0 <= i < all.len() implies start < (#[trigger] all[i]).0 <= all[i].1 < end
            && b[all[i].0 - 1] == 34 && b[all[i].1] == 34 && forall|k: int|
            all[i].0 <= k < all[i].1 ==> #[trigger] b[k] != 0x2c by {
            if i < this.len() {
                assert(all[i] == (ta + 1, te - 1));
            } else {
                assert(all[i] == rest[i - this.len()]);
            }
        }
        assert forall|i: int, j: int| 0 <= i < j < all.len() implies (#[trigger] all[i]).1 < (
        #[trigger] all[j]).0 by {
            if i < this.len() {
                assert(all[i] == (ta + 1, te - 1));
                assert(all[j] == rest[j - this.len()]);
            } else {
                assert(all[i] == rest[i - this.len()]);
                assert(all[j] == rest[j - this.len()]);
            }
        }
    }
}


/// The dependencies that a lock section lists are texts in quotes, with no
/// `,` or `]` inside, in the order of the list after `dependencies = `
pub proof fn law_lock_section_dependencies_are_quoted(b: Seq<u8>)
    ensures
        forall|i: int|
            0 <= i < spec_lock_dependencies(b).len() ==> 0 < (#[trigger] spec_lock_dependencies(
                b,
            )[i]).0 <= spec_lock_dependencies(b)[i].1 < b.len() && b[spec_lock_dependencies(
                b,
            )[i].0 - 1] == 34 && b[spec_lock_dependencies(b)[i].1] == 34 && forall|k: int|
                spec_lock_dependencies(b)[i].0 <= k < spec_lock_dependencies(b)[i].1 ==> #[trigger] b[k]
                    != 0x2c && b[k] != 0x5d,
        forall|i: int, j: int|
            0 <= i < j < spec_lock_dependencies(b).len() ==> (#[trigger] spec_lock_dependencies(
                b,
            )[i]).1 < (#[trigger] spec_lock_dependencies(b)[j]).0,
{
    lemma_find_from(b, "dependencies = ".spec_bytes(), 0);
    if let Some(start) = spec_find_from(b, "dependencies = ".spec_bytes(), 0) {
        lemma_find_from(b, seq![0x5bu8], start);
        if let Some(open) = spec_find_from(b, seq![0x5bu8], start) {
            lemma_find_from(b, seq![0x5du8], open);
            if let Some(close) = spec_find_from(b, seq![0x5du8], open) {
                law_lock_dependencies_are_quoted_entries(b, open + 1, close);
                let all = spec_lock_dependencies(b);
                assert forall|i: int, k: int|
                    0 <= i < all.len() && (#[trigger] all[i]).0 <= k < all[i].1 implies #[trigger] b[k]
                    != 0x5d by {
                    if b[k] == 0x5d {
                        assert(b.subrange(k, k + 1) =~= seq![0x5du8]);
                        assert(spec_bytes_match_at(b, seq![0x5du8], k));
                    }
                }
            }
        }
    }
}


/// Checking one more dependency keeps every missing activation found so far,
/// in its place
proof fn lemma_add_common_keeps(
    m0: Map<Seq<char>, Seq<(Seq<char>, bool)>>,
    parent: Seq<CrateFeatureView>,
    dep_features: Seq<CrateFeatureView>,
    dep: CrateDependencyView,
    s: DependencyCheckSettings,
)
    requires
        spec_add_common(m0, parent, dep_features, dep, s) is Some,
    ensures
        forall|k: Seq<char>|
            #![trigger m0.dom().contains(k)]
            m0.dom().contains(k) ==> spec_add_common(m0, parent, dep_features, dep, s)->0.dom().contains(k)
                && m0[k].len() <= spec_add_common(m0, parent, dep_features, dep, s)->0[k].len()
                && spec_add_common(m0, parent, dep_features, dep, s)->0[k].take(m0[k].len() as int)
                == m0[k],
    decreases parent.len(),
{
    if parent.len() > 0 {
        lemma_add_common_keeps(m0, parent.drop_last(), dep_features, dep, s);
        let m2 = spec_add_common(m0, parent, dep_features, dep, s)->0;
        let m1 = spec_add_common(m0, parent.drop_last(), dep_features, dep, s)->0;
        assert forall|k: Seq<char>| #![trigger m0.dom().contains(k)] m0.dom().contains(k) implies m2.dom().contains(k)
            && m0[k].len() <= m2[k].len() && m2[k].take(m0[k].len() as int) == m0[k] by {
            assert(m1.dom().contains(k) && m1[k].take(m0[k].len() as int) == m0[k]);
            if m2[k] != m1[k] {
                assert(m2[k] == m1[k].push((dep.name, dep.optional)));
                assert(m2[k].take(m0[k].len() as int) =~= m1[k].take(m0[k].len() as int));
            }
        }
    }
}

/// Checking one dependency records it for every crate feature that it
/// shares and that is to be reported, with whether it is optional
pub proof fn law_each_reported_feature_is_recorded(
    m0: Map<Seq<char>, Seq<(Seq<char>, bool)>>,
    parent: Seq<CrateFeatureView>,
    dep_features: Seq<CrateFeatureView>,
    dep: CrateDependencyView,
    s: DependencyCheckSettings,
)
    ensures
        spec_add_common(m0, parent, dep_features, dep, s) matches Some(m2) ==> forall|i: int|
            0 <= i < parent.len() && spec_has_feature(dep_features, parent[i].name) && spec_should_add(
                #[trigger] parent[i],
                dep,
                s,
            ) == Some(true) ==> m2.dom().contains(parent[i].name) && m2[parent[i].name].contains(
                (dep.name, dep.optional),
            ),
    decreases parent.len(),
{
    if parent.len() > 0 {
        let init = parent.drop_last();
        law_each_reported_feature_is_recorded(m0, init, dep_features, dep, s);
        if let Some(m2) = spec_add_common(m0, parent, dep_features, dep, s) {
            let m1 = spec_add_common(m0, init, dep_features, dep, s)->0;
            let cf = parent.last();
            assert forall|i: int|
                0 <= i < parent.len() && spec_has_feature(dep_features, parent[i].name)
                    && spec_should_add(#[trigger] parent[i], dep, s) == Some(true) implies m2.dom().contains(
                parent[i].name,
            ) && m2[parent[i].name].contains((dep.name, dep.optional)) by {
                if i < parent.len() - 1 {
                    assert(parent[i] == init[i]);
                    let k = parent[i].name;
                    let j = choose|j: int| 0 <= j < m1[k].len() && m1[k][j] == (dep.name, dep.optional);
                    if m2[k] != m1[k] {
                        assert(m2[k] == m1[k].push((dep.name, dep.optional)));
                        assert(m2[k][j] == m1[k][j]);
                    }
                } else {
                    let k = cf.name;
                    assert(m2[k][m2[k].len() - 1] == (dep.name, dep.optional));
                }
            }
        }
    }
}

/// Checking more dependencies keeps every missing activation found for the
/// first ones, in its place
#[verifier::spinoff_prover]
pub proof fn law_found_reports_are_kept(
    m: MetaDataView,
    parent: Seq<CrateFeatureView>,
    deps: Seq<CrateDependencyView>,
    k: int,
    s: DependencyCheckSettings,
)
    requires
        0 <= k <= deps.len(),
        spec_check_deps(m, parent, deps, s) matches Some((_, r)) && r is Ok,
        spec_check_deps(m, parent, deps.take(k), s) matches Some((_, r)) && r is Ok,
    ensures
        spec_check_deps(m, parent, deps.take(k), s) matches Some((_, Ok(f1))) && spec_check_deps(
            m,
            parent,
            deps,
            s,
        ) matches Some((_, Ok(f2))) && forall|key: Seq<char>|
            #![trigger f1.dom().contains(key)]
            f1.dom().contains(key) ==> f2.dom().contains(key) && f1[key].len() <= f2[key].len()
                && f2[key].take(f1[key].len() as int) == f1[key],
    decreases deps.len(),
{
    if k == deps.len() {
        assert(deps.take(k) =~= deps);
    } else {
        let init = deps.drop_last();
        assert(init.take(k) =~= deps.take(k));
        let (m1, r1) = spec_check_deps(m, parent, init, s)->0;
        law_found_reports_are_kept(m, parent, init, k, s);
        let (_, rk) = spec_check_deps(m, parent, deps.take(k), s)->0;
        let f1 = rk->Ok_0;
        let fm = r1->Ok_0;
        let (_, r2) = spec_check_deps(m, parent, deps, s)->0;
        let f2 = r2->Ok_0;
        let dep = deps.last();
        if !spec_kind_checked(dep.kind, s) || spec_views(s.blacklisted_dependencies@).contains(
            dep.name,
        ) != s.blacklisted_dependencies_is_whitelist {
            assert(f2 == fm);
        } else {
            let df = spec_get_features(m1, dep.name).1->Ok_0;
            lemma_add_common_keeps(fm, parent, df, dep, s);
            assert forall|key: Seq<char>| #![trigger f1.dom().contains(key)] f1.dom().contains(key) implies f2.dom().contains(key)
                && f1[key].len() <= f2[key].len() && f2[key].take(f1[key].len() as int) == f1[key] by {
                assert(fm.dom().contains(key) && fm[key].take(f1[key].len() as int) == f1[key]);
                assert(f2.dom().contains(key) && f2[key].take(fm[key].len() as int) == fm[key]);
                assert(f2[key].take(f1[key].len() as int) =~= fm[key].take(f1[key].len() as int));
            }
        }
    }
}

} // verus!
