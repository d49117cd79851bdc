//! The warnings that the dependency check gives for the features of a crate
//! that miss the activation of a dependency's feature of the same name.
use vstd::prelude::*;
use vstd::string::StringSliceAdditionalSpecFns;
use vstd::utf8::encode_utf8;

use crate::json::spec_positions;
use crate::metadata::{
    lemma_feature_index_bound, spec_activation_text, spec_dep_pairs, spec_feature_index, spec_flag_pairs,
    spec_string_views, ActivateFeatureView, CrateFeatureView, CrateFeatures,
    FeatureFlagsMissingDependencies,
};
use crate::sorting::{lemma_insert_at, spec_insert_index, spec_sort};
use crate::text::{push_char, push_decimal, push_str, spec_decimal, spec_lex_lt, str_lt};
use crate::toml::{item_pos_or_failure, spec_item_pos, FoundPosition};

verus! {

/// The missing activations by feature, as listed
pub type MissingPairs = Seq<(Seq<char>, Seq<(Seq<char>, bool)>)>;

/// Index `i` comes before index `j` where the name of the `i`-th feature
/// comes before that of the `j`-th
pub open spec fn spec_name_lt(pairs: MissingPairs) -> spec_fn(int, int) -> bool {
    |i: int, j: int| spec_lex_lt(pairs[i].0, pairs[j].0)
}

/// The indices of the features in the order of their names
pub open spec fn spec_name_order(pairs: MissingPairs) -> Seq<int> {
    spec_sort(Seq::new(pairs.len(), |i: int| i), spec_name_lt(pairs))
}

/// The positions in the manifest `toml` of the features at `order`, each with
/// its index, taken in turn: `Err` with the index of the first that the
/// manifest does not hold, `None` where the search fails
pub open spec fn spec_rows(toml: Seq<u8>, pairs: MissingPairs, order: Seq<int>) -> Option<
    Result<Seq<(FoundPosition, int)>, int>,
>
    decreases order.len(),
{
    if order.len() == 0 {
        Some(Ok(Seq::empty()))
    } else {
        match spec_rows(toml, pairs, order.drop_last()) {
            None => None,
            Some(Err(i)) => Some(Err(i)),
            Some(Ok(rows)) => {
                let i = order.last();
                match spec_item_pos(toml, encode_utf8(pairs[i].0), "features".spec_bytes()) {
                    None => None,
                    Some(None) => Some(Err(i)),
                    Some(Some(pos)) => Some(Ok(rows.push((pos, i)))),
                }
            },
        }
    }
}

/// A row comes before another where its line comes first
pub open spec fn spec_line_lt() -> spec_fn((FoundPosition, int), (FoundPosition, int)) -> bool {
    |a: (FoundPosition, int), b: (FoundPosition, int)| a.0.line < b.0.line
}

/// `t` between double quotes
pub open spec fn spec_quoted(t: Seq<char>) -> Seq<char> {
    seq!['"'] + t + seq!['"']
}

/// A missing activation of the feature `flag` of a dependency, as written in
/// the manifest
pub open spec fn spec_dep_activation_text(d: (Seq<char>, bool), flag: Seq<char>) -> Seq<char> {
    d.0 + (if d.1 {
        seq!['?']
    } else {
        Seq::empty()
    }) + seq!['/'] + flag
}

/// What the feature `flag` should activate, each quoted: what it activates
/// now, then the missing features of its dependencies
pub open spec fn spec_final_flags(
    parent: Seq<CrateFeatureView>,
    flag: Seq<char>,
    deps: Seq<(Seq<char>, bool)>,
) -> Seq<Seq<char>> {
    (match spec_feature_index(parent, flag) {
        Some(i) => parent[i].activating.map_values(
            |a: ActivateFeatureView| spec_quoted(spec_activation_text(a)),
        ),
        None => Seq::empty(),
    }) + deps.map_values(|d: (Seq<char>, bool)| spec_quoted(spec_dep_activation_text(d, flag)))
}

/// The parts with `sep` between each two
pub open spec fn spec_join(parts: Seq<Seq<char>>, sep: Seq<char>) -> Seq<char>
    decreases parts.len(),
{
    if parts.len() == 0 {
        Seq::empty()
    } else if parts.len() == 1 {
        parts[0]
    } else {
        spec_join(parts.drop_last(), sep) + sep + parts.last()
    }
}

/// `line:column-column_end`, or `line:column-line_end:column_end` where the
/// item spans lines
pub open spec fn spec_position_text(pos: FoundPosition) -> Seq<char> {
    spec_decimal(pos.line as nat) + seq![':'] + spec_decimal(pos.column as nat) + seq!['-'] + (
    if pos.line == pos.line_end {
        spec_decimal(pos.column_end as nat)
    } else {
        spec_decimal(pos.line_end as nat) + seq![':'] + spec_decimal(pos.column_end as nat)
    })
}

/// The warning for the feature `flag` found at `pos` of the manifest at `toml_path`
pub open spec fn spec_flag_message(
    toml_path: Seq<char>,
    pos: FoundPosition,
    flag: Seq<char>,
    finals: Seq<Seq<char>>,
) -> Seq<char> {
    "From \""@ + toml_path + seq![':'] + spec_position_text(pos) + "\" ("@ + spec_decimal(
        pos.item_start as nat,
    ) + seq![':'] + spec_decimal(pos.item_end as nat) + ") => "@ + flag + " = ["@ + spec_join(
        finals,
        ", "@,
    ) + seq![']']
}

/// The first warning, naming the manifest
pub open spec fn spec_report_header(toml_path: Seq<char>) -> Seq<char> {
    "This crate and its dependencies share flag names which aren't activated when the flags of this crate are.\nIn the file \""@
        + toml_path + "\", following flags are missing:"@
}

/// The error for a feature that the manifest does not hold
pub open spec fn spec_not_found_message(toml_path: Seq<char>, flag: Seq<char>) -> Seq<char> {
    "Feature flag was detected but couldn't be found in \""@ + toml_path + "\": "@ + flag
}

/// The warnings for the missing activations: nothing where none is missing;
/// else the header, then one warning for each feature in the order of the
/// lines where the manifest defines them (features on one line in the order
/// of their names). `Err` with the error for the first feature, in the order
/// of names, that the manifest does not hold; `None` where the search of the
/// manifest fails.
pub open spec fn spec_dependency_report(
    missing: FeatureFlagsMissingDependencies,
    toml: Seq<u8>,
    toml_path: Seq<char>,
) -> Option<Result<Seq<Seq<char>>, Seq<char>>> {
    let pairs = spec_flag_pairs(missing.flags@);
    if pairs.len() == 0 {
        Some(Ok(Seq::empty()))
    } else {
        match spec_rows(toml, pairs, spec_name_order(pairs)) {
            None => None,
            Some(Err(i)) => Some(Err(spec_not_found_message(toml_path, pairs[i].0))),
            Some(Ok(rows)) => Some(
                Ok(
                    seq![spec_report_header(toml_path)] + spec_sort(rows, spec_line_lt()).map_values(
                        |r: (FoundPosition, int)|
                            spec_flag_message(
                                toml_path,
                                r.0,
                                pairs[r.1].0,
                                spec_final_flags(
                                    missing.parent_features@,
                                    pairs[r.1].0,
                                    pairs[r.1].1,
                                ),
                            ),
                    ),
                ),
            ),
        }
    }
}

/// The indices of the features in the order of their names
fn name_order(flags: &Vec<(String, Vec<(String, bool)>)>) -> (r: Vec<usize>)
    ensures
        spec_positions(r@) == spec_name_order(spec_flag_pairs(flags@)),
        forall|k: int| 0 <= k < r@.len() ==> r@[k] < flags@.len(),
{
    let ghost pairs = spec_flag_pairs(flags@);
    let ghost lt = spec_name_lt(pairs);
    let mut out: Vec<usize> = Vec::new();
    assert(Seq::new(0, |k: int| k) =~= Seq::<int>::empty());
    assert(spec_positions(out@) =~= Seq::<int>::empty());
    let mut i: usize = 0;
    while i < flags.len()
        invariant
            i <= flags@.len(),
            pairs == spec_flag_pairs(flags@),
            lt == spec_name_lt(pairs),
            spec_positions(out@) == spec_sort(Seq::new(i as nat, |k: int| k), lt),
            forall|k: int| 0 <= k < out@.len() ==> out@[k] < i,
        decreases flags@.len() - i,
    {
        let ghost sorted = spec_positions(out@);
        let mut k: usize = 0;
        while k < out.len() && !str_lt(flags[i].0.as_str(), flags[out[k]].0.as_str())
            invariant
                k <= out@.len(),
                i < flags@.len(),
                pairs == spec_flag_pairs(flags@),
                lt == spec_name_lt(pairs),
                sorted == spec_positions(out@),
                forall|j: int| 0 <= j < out@.len() ==> out@[j] < i,
                spec_insert_index(sorted, i as int, lt, 0) == spec_insert_index(
                    sorted,
                    i as int,
                    lt,
                    k as int,
                ),
            decreases out@.len() - k,
        {
            k = k + 1;
        }
        proof {
            lemma_insert_at(sorted, i as int, lt);
            assert(Seq::new((i + 1) as nat, |j: int| j).drop_last() =~= Seq::new(
                i as nat,
                |j: int| j,
            ));
        }
        out.insert(k, i);
        assert(spec_positions(out@) =~= sorted.insert(k as int, i as int));
        i = i + 1;
    }
    assert(pairs.len() == flags@.len());
    out
}

/// The rows as indices
pub open spec fn spec_row_views(v: Seq<(FoundPosition, usize)>) -> Seq<(FoundPosition, int)> {
    v.map_values(|r: (FoundPosition, usize)| (r.0, r.1 as int))
}

/// Where the rows of a prefix of `order` are not found, neither are those of
/// the whole
proof fn lemma_rows_prefix(toml: Seq<u8>, pairs: MissingPairs, order: Seq<int>, k: int)
    requires
        0 <= k <= order.len(),
        !(spec_rows(toml, pairs, order.take(k)) matches Some(Ok(_))),
    ensures
        spec_rows(toml, pairs, order) == spec_rows(toml, pairs, order.take(k)),
    decreases order.len(),
{
    if k == order.len() {
        assert(order.take(k) =~= order);
    } else {
        assert(order.drop_last().take(k) =~= order.take(k));
        lemma_rows_prefix(toml, pairs, order.drop_last(), k);
    }
}

/// The positions in the manifest of the features at `order`
fn rows(toml: &str, flags: &Vec<(String, Vec<(String, bool)>)>, order: &Vec<usize>) -> (r: Option<
    Result<Vec<(FoundPosition, usize)>, usize>,
>)
    requires
        toml.spec_bytes().len() <= isize::MAX,
        forall|k: int| 0 <= k < order@.len() ==> order@[k] < flags@.len(),
    ensures
        match spec_rows(toml.spec_bytes(), spec_flag_pairs(flags@), spec_positions(order@)) {
            None => r is None,
            Some(Err(i)) => r == Some(Err::<Vec<(FoundPosition, usize)>, usize>(i as usize)) && 0
                <= i < flags@.len(),
            Some(Ok(rs)) => r matches Some(Ok(v)) && spec_row_views(v@) == rs && forall|k: int|
                0 <= k < v@.len() ==> v@[k].1 < flags@.len(),
        },
{
    let ghost pairs = spec_flag_pairs(flags@);
    let ghost ord = spec_positions(order@);
    let mut out: Vec<(FoundPosition, usize)> = Vec::new();
    assert(ord.take(0) =~= Seq::<int>::empty());
    assert(spec_row_views(out@) =~= Seq::<(FoundPosition, int)>::empty());
    let mut k: usize = 0;
    while k < order.len()
        invariant
            k <= order@.len(),
            toml.spec_bytes().len() <= isize::MAX,
            pairs == spec_flag_pairs(flags@),
            ord == spec_positions(order@),
            forall|j: int| 0 <= j < order@.len() ==> order@[j] < flags@.len(),
            spec_rows(toml.spec_bytes(), pairs, ord.take(k as int)) == Some(
                Ok::<Seq<(FoundPosition, int)>, int>(spec_row_views(out@)),
            ),
            forall|j: int| 0 <= j < out@.len() ==> out@[j].1 < flags@.len(),
        decreases order@.len() - k,
    {
        let i = order[k];
        proof {
            assert(ord.take(k + 1).drop_last() =~= ord.take(k as int));
            assert(ord.take(k + 1).last() == i as int);
            assert(pairs[i as int].0 == flags@[i as int].0@);
        }
        match item_pos_or_failure(toml, flags[i].0.as_str(), "features") {
            None => {
                proof {
                    lemma_rows_prefix(toml.spec_bytes(), pairs, ord, k + 1);
                }
                return None;
            },
            Some(None) => {
                proof {
                    lemma_rows_prefix(toml.spec_bytes(), pairs, ord, k + 1);
                }
                return Some(Err(i));
            },
            Some(Some(pos)) => {
                let ghost before = out@;
                out.push((pos, i));
                assert(spec_row_views(out@) =~= spec_row_views(before).push((pos, i as int)));
            },
        }
        k = k + 1;
    }
    assert(ord.take(k as int) =~= ord);
    Some(Ok(out))
}

/// The rows in the order of their lines, rows of one line in the order they had
fn sort_rows(rows: &Vec<(FoundPosition, usize)>, n: usize) -> (r: Vec<(FoundPosition, usize)>)
    requires
        forall|k: int| 0 <= k < rows@.len() ==> rows@[k].1 < n,
    ensures
        spec_row_views(r@) == spec_sort(spec_row_views(rows@), spec_line_lt()),
        forall|k: int| 0 <= k < r@.len() ==> r@[k].1 < n,
{
    let ghost views = spec_row_views(rows@);
    let ghost lt = spec_line_lt();
    let mut out: Vec<(FoundPosition, usize)> = Vec::new();
    assert(views.take(0) =~= Seq::<(FoundPosition, int)>::empty());
    assert(spec_row_views(out@) =~= Seq::<(FoundPosition, int)>::empty());
    let mut i: usize = 0;
    while i < rows.len()
        invariant
            i <= rows@.len(),
            views == spec_row_views(rows@),
            lt == spec_line_lt(),
            forall|k: int| 0 <= k < rows@.len() ==> rows@[k].1 < n,
            spec_row_views(out@) == spec_sort(views.take(i as int), lt),
            forall|k: int| 0 <= k < out@.len() ==> out@[k].1 < n,
        decreases rows@.len() - i,
    {
        let x = rows[i];
        let ghost sorted = spec_row_views(out@);
        let mut k: usize = 0;
        while k < out.len() && x.0.line >= out[k].0.line
            invariant
                k <= out@.len(),
                lt == spec_line_lt(),
                sorted == spec_row_views(out@),
                spec_insert_index(sorted, (x.0, x.1 as int), lt, 0) == spec_insert_index(
                    sorted,
                    (x.0, x.1 as int),
                    lt,
                    k as int,
                ),
            decreases out@.len() - k,
        {
            k = k + 1;
        }
        proof {
            lemma_insert_at(sorted, (x.0, x.1 as int), lt);
            assert(views.take(i + 1).drop_last() =~= views.take(i as int));
            assert(views.take(i + 1).last() == (x.0, x.1 as int));
        }
        out.insert(k, x);
        assert(spec_row_views(out@) =~= sorted.insert(k as int, (x.0, x.1 as int)));
        i = i + 1;
    }
    assert(views.take(i as int) =~= views);
    out
}

/// `t` between double quotes
fn quoted(t: &str) -> (r: String)
    ensures
        r@ == spec_quoted(t@),
{
    let mut s = String::new();
    push_char(&mut s, '"');
    push_str(&mut s, t);
    push_char(&mut s, '"');
    assert(s@ =~= spec_quoted(t@));
    s
}

/// The parts with `sep` between each two
fn join(parts: &Vec<String>, sep: &str) -> (r: String)
    ensures
        r@ == spec_join(spec_string_views(parts@), sep@),
{
    let ghost views = spec_string_views(parts@);
    let mut s = String::new();
    let mut i: usize = 0;
    while i < parts.len()
        invariant
            i <= parts@.len(),
            views == spec_string_views(parts@),
            s@ == spec_join(views.take(i as int), sep@),
        decreases parts@.len() - i,
    {
        assert(views.take(i + 1).drop_last() =~= views.take(i as int));
        if i > 0 {
            push_str(&mut s, sep);
        }
        push_str(&mut s, parts[i].as_str());
        proof {
            if i == 0 {
                assert(s@ =~= views.take(1)[0]);
            }
        }
        i = i + 1;
    }
    assert(views.take(i as int) =~= views);
    s
}

/// What the feature `flag` should activate, each quoted
fn final_flags(parent: &CrateFeatures, flag: &str, deps: &Vec<(String, bool)>) -> (r: Vec<String>)
    ensures
        spec_string_views(r@) == spec_final_flags(parent@, flag@, spec_dep_pairs(deps@)),
{
    let mut out: Vec<String> = Vec::new();
    let ghost first: Seq<Seq<char>> = match spec_feature_index(parent@, flag@) {
        Some(i) => parent@[i].activating.map_values(
            |a: ActivateFeatureView| spec_quoted(spec_activation_text(a)),
        ),
        None => Seq::empty(),
    };
    match parent.get_flag(flag) {
        Some(f) => {
            let ghost acts = f@.activating;
            let mut k: usize = 0;
            while k < f.activating.len()
                invariant
                    k <= f.activating@.len(),
                    acts == f@.activating,
                    spec_string_views(out@) == acts.take(k as int).map_values(
                        |a: ActivateFeatureView| spec_quoted(spec_activation_text(a)),
                    ),
                decreases f.activating@.len() - k,
            {
                let t = f.activating[k].to_string();
                let q = quoted(t.as_str());
                let ghost before = spec_string_views(out@);
                out.push(q);
                assert(spec_string_views(out@) =~= before.push(q@));
                assert(acts.take(k + 1) =~= acts.take(k as int).push(acts[k as int]));
                k = k + 1;
            }
            assert(acts.take(k as int) =~= acts);
            proof {
                lemma_feature_index_bound(parent@, flag@);
                if let Some(i) = spec_feature_index(parent@, flag@) {
                    assert(parent@[i] == parent.features@[i]@);
                }
            }
        },
        None => {
            assert(spec_string_views(out@) =~= Seq::<Seq<char>>::empty());
        },
    }
    assert(spec_string_views(out@) == first);
    let ghost dv = spec_dep_pairs(deps@);
    let mut k: usize = 0;
    while k < deps.len()
        invariant
            k <= deps@.len(),
            dv == spec_dep_pairs(deps@),
            spec_string_views(out@) == first + dv.take(k as int).map_values(
                |d: (Seq<char>, bool)| spec_quoted(spec_dep_activation_text(d, flag@)),
            ),
        decreases deps@.len() - k,
    {
        let mut t = String::new();
        push_str(&mut t, deps[k].0.as_str());
        if deps[k].1 {
            push_char(&mut t, '?');
        }
        push_char(&mut t, '/');
        push_str(&mut t, flag);
        assert(t@ =~= spec_dep_activation_text(dv[k as int], flag@));
        let q = quoted(t.as_str());
        let ghost before = spec_string_views(out@);
        out.push(q);
        assert(spec_string_views(out@) =~= before.push(q@));
        assert(dv.take(k + 1) =~= dv.take(k as int).push(dv[k as int]));
        k = k + 1;
    }
    assert(dv.take(k as int) =~= dv);
    out
}

/// Appends `line:column-column_end`, or `line:column-line_end:column_end`
fn push_position(s: &mut String, pos: FoundPosition)
    ensures
        final(s)@ == old(s)@ + spec_position_text(pos),
{
    push_decimal(s, pos.line);
    push_char(s, ':');
    push_decimal(s, pos.column);
    push_char(s, '-');
    if pos.line == pos.line_end {
        push_decimal(s, pos.column_end);
    } else {
        push_decimal(s, pos.line_end);
        push_char(s, ':');
        push_decimal(s, pos.column_end);
    }
    assert(final(s)@ =~= old(s)@ + spec_position_text(pos));
}

/// The warning for the feature `flag` found at `pos`
fn flag_message(toml_path: &str, pos: FoundPosition, flag: &str, finals: &Vec<String>) -> (r: String)
    ensures
        r@ == spec_flag_message(toml_path@, pos, flag@, spec_string_views(finals@)),
{
    let mut s = String::new();
    push_str(&mut s, "From \"");
    push_str(&mut s, toml_path);
    push_char(&mut s, ':');
    push_position(&mut s, pos);
    push_str(&mut s, "\" (");
    push_decimal(&mut s, pos.item_start);
    push_char(&mut s, ':');
    push_decimal(&mut s, pos.item_end);
    push_str(&mut s, ") => ");
    push_str(&mut s, flag);
    push_str(&mut s, " = [");
    let j = join(finals, ", ");
    push_str(&mut s, j.as_str());
    push_char(&mut s, ']');
    assert(s@ =~= spec_flag_message(toml_path@, pos, flag@, spec_string_views(finals@)));
    s
}

/// The first warning of the dependency check, naming the manifest
pub fn report_header(toml_path: &str) -> (r: String)
    ensures
        r@ == spec_report_header(toml_path@),
{
    let mut header = String::new();
    push_str(
        &mut header,
        "This crate and its dependencies share flag names which aren't activated when the flags of this crate are.\nIn the file \"",
    );
    push_str(&mut header, toml_path);
    push_str(&mut header, "\", following flags are missing:");
    assert(header@ =~= spec_report_header(toml_path@));
    header
}

/// The warnings of the dependency check for the missing activations: each
/// is one message for `cargo:warning` lines. `Err` with the message of the
/// error for a feature that the manifest `toml` at `toml_path` does not hold;
/// `None` where searching the manifest for a feature fails.
pub fn dependency_check_messages(
    missing: &FeatureFlagsMissingDependencies,
    toml: &str,
    toml_path: &str,
) -> (r: Option<Result<Vec<String>, String>>)
    requires
        toml.spec_bytes().len() <= isize::MAX,
    ensures
        match spec_dependency_report(*missing, toml.spec_bytes(), toml_path@) {
            None => r is None,
            Some(Ok(ms)) => r matches Some(Ok(v)) && spec_string_views(v@) == ms,
            Some(Err(m)) => r matches Some(Err(e)) && e@ == m,
        },
{
    let ghost pairs = spec_flag_pairs(missing.flags@);
    if missing.flags.len() == 0 {
        let v: Vec<String> = Vec::new();
        assert(spec_string_views(v@) =~= Seq::<Seq<char>>::empty());
        return Some(Ok(v));
    }
    let order = name_order(&missing.flags);
    let found = match rows(toml, &missing.flags, &order) {
        None => {
            return None;
        },
        Some(Err(i)) => {
            let mut m = String::new();
            push_str(&mut m, "Feature flag was detected but couldn't be found in \"");
            push_str(&mut m, toml_path);
            push_str(&mut m, "\": ");
            push_str(&mut m, missing.flags[i].0.as_str());
            assert(m@ =~= spec_not_found_message(toml_path@, pairs[i as int].0));
            return Some(Err(m));
        },
        Some(Ok(v)) => v,
    };
    let sorted = sort_rows(&found, missing.flags.len());
    let ghost sv = spec_row_views(sorted@);
    let ghost msg = |r: (FoundPosition, int)|
        spec_flag_message(
            toml_path@,
            r.0,
            pairs[r.1].0,
            spec_final_flags(missing.parent_features@, pairs[r.1].0, pairs[r.1].1),
        );
    let mut out: Vec<String> = Vec::new();
    out.push(report_header(toml_path));
    let mut k: usize = 0;
    while k < sorted.len()
        invariant
            k <= sorted@.len(),
            pairs == spec_flag_pairs(missing.flags@),
            sv == spec_row_views(sorted@),
            forall|j: int| 0 <= j < sorted@.len() ==> sorted@[j].1 < missing.flags@.len(),
            msg == (|r: (FoundPosition, int)|
                spec_flag_message(
                    toml_path@,
                    r.0,
                    pairs[r.1].0,
                    spec_final_flags(missing.parent_features@, pairs[r.1].0, pairs[r.1].1),
                )),
            spec_string_views(out@) == seq![spec_report_header(toml_path@)] + sv.take(
                k as int,
            ).map_values(msg),
        decreases sorted@.len() - k,
    {
        let (pos, i) = sorted[k];
        let flag = missing.flags[i].0.as_str();
        let finals = final_flags(&missing.parent_features, flag, &missing.flags[i].1);
        let m = flag_message(toml_path, pos, flag, &finals);
        proof {
            assert(pairs[i as int].0 == flag@);
            assert(pairs[i as int].1 == spec_dep_pairs(missing.flags@[i as int].1@));
            assert(sv[k as int] == (pos, i as int));
        }
        let ghost before = spec_string_views(out@);
        out.push(m);
        assert(spec_string_views(out@) =~= before.push(m@));
        assert(sv.take(k + 1) =~= sv.take(k as int).push(sv[k as int]));
        assert(seq![spec_report_header(toml_path@)] + sv.take(k + 1).map_values(msg) =~= (seq![
            spec_report_header(toml_path@),
        ] + sv.take(k as int).map_values(msg)).push(msg(sv[k as int])));
        k = k + 1;
    }
    assert(sv.take(k as int) =~= sv);
    Some(Ok(out))
}

} // verus!
