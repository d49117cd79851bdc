//! Features and dependencies of the packages of a workspace, read from the
//! output of `cargo metadata`, and the check that the features of a crate
//! activate the features of the same name of its dependencies.
use vstd::prelude::*;

use std::borrow::Cow;

use crate::assoc::{
    assoc_get, assoc_insert, find_key, lemma_assoc_dom, lemma_assoc_index, lemma_assoc_push,
    lemma_assoc_update, spec_assoc_map, spec_keys_unique, spec_named_views,
};
use crate::json::{
    array_items, bool_at, get, object_items, object_members, spec_array_items, spec_object_members, spec_bool_at, spec_get,
    spec_json_tape, spec_keys_are_strings, spec_object_items, spec_positions, spec_str_at, str_at,
    tape_view, JsonNode, JsonNodeView, JsonValue,
};
use crate::settings::{DependencyCheckSettings, SelectedDependencyType};
use crate::text::{
    contains_str, contains_str_pair, index_of, push_char, push_int, push_str, spec_index_of,
    spec_int_text, spec_pair_views, spec_starts_with, spec_views, str_eq, str_starts_with,
    string_from_range, to_chars,
};

verus! {

/// When the dependency is used
#[derive(Debug, Clone, Copy, PartialEq, Eq, Structural, PartialOrd, Ord, Hash)]
pub enum DependencyKind {
    /// Normally
    Normal,
    /// During build time
    Build,
    /// During Dev time
    Dev,
}

/// Features can activate other features, dependencies, or features of dependencies
#[derive(Debug, Clone, PartialEq, Eq, PartialOrd, Ord, Hash)]
pub enum ActivateFeature {
    /// Activates a dependency
    Dependency(String),
    /// Activates a feature
    Feature(String),
    /// Activates a feature of a dependency
    DependencyFeature {
        /// The dependency that may or may not be imported
        dep: String,
        /// The feature of the dependency
        feature: String,
        /// Only activates a feature is the dependency is optional
        weak: bool,
    },
}

/// What an [`ActivateFeature`] activates, with its names as characters
pub enum ActivateFeatureView {
    /// Activates a dependency
    Dependency(Seq<char>),
    /// Activates a feature
    Feature(Seq<char>),
    /// Activates a feature of a dependency
    DependencyFeature { dep: Seq<char>, feature: Seq<char>, weak: bool },
}

impl View for ActivateFeature {
    type V = ActivateFeatureView;

    open spec fn view(&self) -> ActivateFeatureView {
        match self {
            ActivateFeature::Dependency(d) => ActivateFeatureView::Dependency(d@),
            ActivateFeature::Feature(f) => ActivateFeatureView::Feature(f@),
            ActivateFeature::DependencyFeature { dep, feature, weak } =>
                ActivateFeatureView::DependencyFeature { dep: dep@, feature: feature@, weak: *weak },
        }
    }
}

/// How an activation is written in the `[features]` table of a manifest:
/// `dep:{dep}`, `{feature}` or `{dep}/{feature}`, with `?` after a weak
/// dependency
pub open spec fn spec_activation_text(a: ActivateFeatureView) -> Seq<char> {
    match a {
        ActivateFeatureView::Dependency(d) => seq!['d', 'e', 'p', ':'] + d,
        ActivateFeatureView::Feature(f) => f,
        ActivateFeatureView::DependencyFeature { dep, feature, weak } => dep + (if weak {
            seq!['?']
        } else {
            Seq::empty()
        }) + seq!['/'] + feature,
    }
}

impl ActivateFeature {
    /// How the activation is written in the `[features]` table of a manifest
    pub fn to_string(&self) -> (r: String)
        ensures
            r@ == spec_activation_text(self@),
    {
        let mut s = String::new();
        match self {
            ActivateFeature::Dependency(d) => {
                push_char(&mut s, 'd');
                push_char(&mut s, 'e');
                push_char(&mut s, 'p');
                push_char(&mut s, ':');
                push_str(&mut s, d.as_str());
            },
            ActivateFeature::Feature(f) => {
                push_str(&mut s, f.as_str());
            },
            ActivateFeature::DependencyFeature { dep, feature, weak } => {
                push_str(&mut s, dep.as_str());
                if *weak {
                    push_char(&mut s, '?');
                }
                push_char(&mut s, '/');
                push_str(&mut s, feature.as_str());
            },
        }
        assert(s@ =~= spec_activation_text(self@));
        s
    }
}

/// The views of a list of activations
pub open spec fn spec_activation_views(s: Seq<ActivateFeature>) -> Seq<ActivateFeatureView> {
    s.map_values(|a: ActivateFeature| a@)
}

/// A feature defined as
/// {name} = [{activations}]
#[derive(Debug, Clone, PartialEq, Eq, PartialOrd, Ord, Hash)]
pub struct CrateFeature {
    /// Name of the feature
    pub name: String,
    /// The things it activates
    pub activating: Vec<ActivateFeature>,
}

/// A feature, with its names as characters
pub struct CrateFeatureView {
    /// Name of the feature
    pub name: Seq<char>,
    /// The things it activates
    pub activating: Seq<ActivateFeatureView>,
}

impl View for CrateFeature {
    type V = CrateFeatureView;

    open spec fn view(&self) -> CrateFeatureView {
        CrateFeatureView { name: self.name@, activating: spec_activation_views(self.activating@) }
    }
}

/// The list of [`CrateFeature`]
#[derive(Debug, Clone, PartialEq, Eq, PartialOrd, Ord, Hash)]
pub struct CrateFeatures {
    /// The list of [`CrateFeature`]
    pub features: Vec<CrateFeature>,
}

/// The views of a list of features
pub open spec fn spec_feature_views(s: Seq<CrateFeature>) -> Seq<CrateFeatureView> {
    s.map_values(|f: CrateFeature| f@)
}

impl View for CrateFeatures {
    type V = Seq<CrateFeatureView>;

    open spec fn view(&self) -> Seq<CrateFeatureView> {
        spec_feature_views(self.features@)
    }
}

/// Whether one of `fs` is named `name`
pub open spec fn spec_has_feature(fs: Seq<CrateFeatureView>, name: Seq<char>) -> bool {
    exists|j: int| 0 <= j < fs.len() && fs[j].name == name
}

/// The index of the first of `fs` that is named `name`
pub open spec fn spec_feature_index(fs: Seq<CrateFeatureView>, name: Seq<char>) -> Option<int>
    decreases fs.len(),
{
    if fs.len() == 0 {
        None
    } else if fs.last().name != name && spec_feature_index(fs.drop_last(), name) is None {
        None
    } else {
        match spec_feature_index(fs.drop_last(), name) {
            Some(i) => Some(i),
            None => Some(fs.len() - 1),
        }
    }
}

impl Default for CrateFeatures {
    fn default() -> (r: Self)
        ensures
            r.features@.len() == 0,
    {
        CrateFeatures { features: Vec::new() }
    }
}

impl CrateFeatures {
    /// Get the features that both this and the other have in common
    pub fn get_matching_other<'a>(&'a self, other: &Self) -> (r: Vec<&'a CrateFeature>)
        ensures
            r@.map_values(|x: &CrateFeature| *x) == self.features@.filter(
                |f: CrateFeature| spec_has_feature(other@, f.name@),
            ),
    {
        let ghost pred = |f: CrateFeature| spec_has_feature(other@, f.name@);
        let mut r: Vec<&'a CrateFeature> = Vec::new();
        let mut i: usize = 0;
        while i < self.features.len()
            invariant
                i <= self.features@.len(),
                pred == (|f: CrateFeature| spec_has_feature(other@, f.name@)),
                r@.map_values(|x: &CrateFeature| *x) == self.features@.take(i as int).filter(pred),
            decreases self.features@.len() - i,
        {
            let f = &self.features[i];
            let mut found = false;
            let mut j: usize = 0;
            while j < other.features.len()
                invariant
                    j <= other.features@.len(),
                    found <==> exists|k: int| 0 <= k < j && other@[k].name == f.name@,
                decreases other.features@.len() - j,
            {
                assert(other@[j as int].name == other.features@[j as int].name@);
                if str_eq(other.features[j].name.as_str(), f.name.as_str()) {
                    found = true;
                }
                j = j + 1;
            }
            let ghost before = r@;
            proof {
                reveal(Seq::filter);
                assert(self.features@.take(i + 1).drop_last() =~= self.features@.take(i as int));
            }
            if found {
                r.push(f);
                assert(r@.map_values(|x: &CrateFeature| *x) =~= before.map_values(
                    |x: &CrateFeature| *x,
                ).push(*f));
            }
            i = i + 1;
        }
        assert(self.features@.take(self.features@.len() as int) =~= self.features@);
        r
    }

    /// Get a flag by its name
    pub fn get_flag(&self, flag: &str) -> (r: Option<&CrateFeature>)
        ensures
            match spec_feature_index(self@, flag@) {
                Some(i) => r == Some(&self.features@[i]),
                None => r is None,
            },
    {
        let mut i: usize = 0;
        while i < self.features.len()
            invariant
                i <= self.features@.len(),
                spec_feature_index(self@.take(i as int), flag@) is None,
            decreases self.features@.len() - i,
        {
            assert(self@.take(i + 1).drop_last() =~= self@.take(i as int));
            if str_eq(self.features[i].name.as_str(), flag) {
                proof {
                    lemma_feature_index_prefix(self@, flag@, i + 1);
                }
                return Some(&self.features[i]);
            }
            i = i + 1;
        }
        assert(self@.take(i as int) =~= self@);
        None
    }

    /// Get all feature names
    pub fn get_feature_names(&self) -> (r: Vec<&String>)
        ensures
            r@.map_values(|x: &String| *x) == self.features@.map_values(|f: CrateFeature| f.name),
    {
        let mut r: Vec<&String> = Vec::new();
        let mut i: usize = 0;
        while i < self.features.len()
            invariant
                i <= self.features@.len(),
                r@.map_values(|x: &String| *x) == self.features@.take(i as int).map_values(
                    |f: CrateFeature| f.name,
                ),
            decreases self.features@.len() - i,
        {
            let ghost before = r@;
            r.push(&self.features[i].name);
            assert(r@.map_values(|x: &String| *x) =~= before.map_values(|x: &String| *x).push(
                self.features@[i as int].name,
            ));
            assert(self.features@.take(i + 1) =~= self.features@.take(i as int).push(
                self.features@[i as int],
            ));
            assert(r@.map_values(|x: &String| *x) =~= self.features@.take(i + 1).map_values(
                |f: CrateFeature| f.name,
            ));
            i = i + 1;
        }
        assert(self.features@.take(i as int) =~= self.features@);
        r
    }
}

/// The index found is that of a feature named `name`
pub proof fn lemma_feature_index_bound(fs: Seq<CrateFeatureView>, name: Seq<char>)
    ensures
        spec_feature_index(fs, name) matches Some(i) ==> 0 <= i < fs.len() && fs[i].name == name,
    decreases fs.len(),
{
    if fs.len() > 0 {
        lemma_feature_index_bound(fs.drop_last(), name);
    }
}

/// Where a prefix of `fs` holds a feature named `name`, the first such is the
/// first of all of `fs`
pub proof fn lemma_feature_index_prefix(fs: Seq<CrateFeatureView>, name: Seq<char>, n: int)
    requires
        0 < n <= fs.len(),
        spec_feature_index(fs.take(n - 1), name) is None,
        fs[n - 1].name == name,
    ensures
        spec_feature_index(fs, name) == Some(n - 1),
    decreases fs.len(),
{
    assert(fs.take(n).drop_last() =~= fs.take(n - 1));
    if n < fs.len() {
        assert(fs.drop_last().take(n) =~= fs.take(n));
        assert(fs.drop_last().take(n - 1) =~= fs.take(n - 1));
        lemma_feature_index_prefix(fs.drop_last(), name, n);
    } else {
        assert(fs.take(n) =~= fs);
    }
}

/// A dependency of a crate
#[derive(Debug, Clone, PartialEq, Eq, PartialOrd, Ord, Hash)]
pub struct CrateDependency {
    /// Name of the dependency
    pub name: String,
    /// Required version(s)
    pub version: String,
    /// If the dependency is optional
    pub optional: bool,
    /// When the dep is needed
    pub kind: DependencyKind,
    /// Additionally active features
    pub active_features: Vec<String>,
    /// If the default features are used
    pub use_default_features: bool,
}

/// A dependency, with its names as characters
pub struct CrateDependencyView {
    /// Name of the dependency
    pub name: Seq<char>,
    /// Required version(s)
    pub version: Seq<char>,
    /// If the dependency is optional
    pub optional: bool,
    /// When the dep is needed
    pub kind: DependencyKind,
    /// Additionally active features
    pub active_features: Seq<Seq<char>>,
    /// If the default features are used
    pub use_default_features: bool,
}

impl View for CrateDependency {
    type V = CrateDependencyView;

    open spec fn view(&self) -> CrateDependencyView {
        CrateDependencyView {
            name: self.name@,
            version: self.version@,
            optional: self.optional,
            kind: self.kind,
            active_features: self.active_features@.map_values(|s: String| s@),
            use_default_features: self.use_default_features,
        }
    }
}

/// The list of dependencies
#[derive(Debug, Clone, PartialEq, Eq, PartialOrd, Ord, Hash)]
pub struct CrateDependencies {
    /// The list of dependencies
    pub dependencies: Vec<CrateDependency>,
}

impl View for CrateDependencies {
    type V = Seq<CrateDependencyView>;

    open spec fn view(&self) -> Seq<CrateDependencyView> {
        self.dependencies@.map_values(|d: CrateDependency| d@)
    }
}

/// Whether one of `ds` is named `name`
pub open spec fn spec_has_dependency(ds: Seq<CrateDependencyView>, name: Seq<char>) -> bool {
    exists|j: int| 0 <= j < ds.len() && ds[j].name == name
}

impl Default for CrateDependencies {
    fn default() -> (r: Self)
        ensures
            r.dependencies@.len() == 0,
    {
        CrateDependencies { dependencies: Vec::new() }
    }
}

impl CrateDependencies {
    /// Get all dependency names
    pub fn get_all_dependency_names(&self) -> (r: Vec<&String>)
        ensures
            r@.map_values(|x: &String| *x) == self.dependencies@.map_values(
                |d: CrateDependency| d.name,
            ),
    {
        let mut r: Vec<&String> = Vec::new();
        let mut i: usize = 0;
        while i < self.dependencies.len()
            invariant
                i <= self.dependencies@.len(),
                r@.map_values(|x: &String| *x) == self.dependencies@.take(i as int).map_values(
                    |d: CrateDependency| d.name,
                ),
            decreases self.dependencies@.len() - i,
        {
            let ghost before = r@;
            r.push(&self.dependencies[i].name);
            assert(r@.map_values(|x: &String| *x) =~= before.map_values(|x: &String| *x).push(
                self.dependencies@[i as int].name,
            ));
            assert(self.dependencies@.take(i + 1) =~= self.dependencies@.take(i as int).push(
                self.dependencies@[i as int],
            ));
            assert(r@.map_values(|x: &String| *x) =~= self.dependencies@.take(i + 1).map_values(
                |d: CrateDependency| d.name,
            ));
            i = i + 1;
        }
        assert(self.dependencies@.take(i as int) =~= self.dependencies@);
        r
    }

    /// The names of the dependencies whose `optional` is `optional`
    fn names_by_optional(&self, optional: bool) -> (r: Vec<&String>)
        ensures
            r@.map_values(|x: &String| *x) == self.dependencies@.filter(
                |d: CrateDependency| d.optional == optional,
            ).map_values(|d: CrateDependency| d.name),
    {
        let ghost pred = |d: CrateDependency| d.optional == optional;
        let mut r: Vec<&String> = Vec::new();
        let mut i: usize = 0;
        while i < self.dependencies.len()
            invariant
                i <= self.dependencies@.len(),
                pred == (|d: CrateDependency| d.optional == optional),
                r@.map_values(|x: &String| *x) == self.dependencies@.take(i as int).filter(
                    pred,
                ).map_values(|d: CrateDependency| d.name),
            decreases self.dependencies@.len() - i,
        {
            let ghost before = r@;
            proof {
                reveal(Seq::filter);
                assert(self.dependencies@.take(i + 1).drop_last() =~= self.dependencies@.take(
                    i as int,
                ));
            }
            if self.dependencies[i].optional == optional {
                r.push(&self.dependencies[i].name);
                assert(r@.map_values(|x: &String| *x) =~= before.map_values(|x: &String| *x).push(
                    self.dependencies@[i as int].name,
                ));
                assert(self.dependencies@.take(i + 1).filter(pred) =~= self.dependencies@.take(
                    i as int,
                ).filter(pred).push(self.dependencies@[i as int]));
                assert(r@.map_values(|x: &String| *x) =~= self.dependencies@.take(i + 1).filter(
                    pred,
                ).map_values(|d: CrateDependency| d.name));
            }
            i = i + 1;
        }
        assert(self.dependencies@.take(i as int) =~= self.dependencies@);
        r
    }

    /// Get all dependency names that are optional
    pub fn get_all_optional_dependency_names(&self) -> (r: Vec<&String>)
        ensures
            r@.map_values(|x: &String| *x) == self.dependencies@.filter(
                |d: CrateDependency| d.optional,
            ).map_values(|d: CrateDependency| d.name),
    {
        let r = self.names_by_optional(true);
        assert((|d: CrateDependency| d.optional == true) =~= (|d: CrateDependency| d.optional));
        r
    }

    /// Get all dependency names that aren't optional
    pub fn get_all_non_optional_dependency_names(&self) -> (r: Vec<&String>)
        ensures
            r@.map_values(|x: &String| *x) == self.dependencies@.filter(
                |d: CrateDependency| !d.optional,
            ).map_values(|d: CrateDependency| d.name),
    {
        let r = self.names_by_optional(false);
        assert((|d: CrateDependency| d.optional == false) =~= (|d: CrateDependency| !d.optional));
        r
    }

    /// If the dependencies contain the given package
    pub fn contains_dep(&self, package: &str) -> (r: bool)
        ensures
            r == spec_has_dependency(self@, package@),
    {
        let mut i: usize = 0;
        while i < self.dependencies.len()
            invariant
                i <= self.dependencies@.len(),
                forall|j: int| 0 <= j < i ==> self@[j].name != package@,
            decreases self.dependencies@.len() - i,
        {
            if str_eq(self.dependencies[i].name.as_str(), package) {
                assert(self@[i as int].name == package@);
                return true;
            }
            i = i + 1;
        }
        false
    }
}

/// The list of `(dependency, weak)` pairs with the names as characters
pub open spec fn spec_dep_pairs(s: Seq<(String, bool)>) -> Seq<(Seq<char>, bool)> {
    s.map_values(|p: (String, bool)| (p.0@, p.1))
}

/// The flags of a [`FeatureFlagsMissingDependencies`] with the names as characters
pub open spec fn spec_flag_pairs(s: Seq<(String, Vec<(String, bool)>)>) -> Seq<
    (Seq<char>, Seq<(Seq<char>, bool)>),
> {
    s.map_values(|p: (String, Vec<(String, bool)>)| (p.0@, spec_dep_pairs(p.1@)))
}

/// A list of features that are missing the activation to a feature of a dependency
#[derive(Debug, Clone, PartialEq, Eq)]
pub struct FeatureFlagsMissingDependencies {
    /// A list of features that are missing the activation to a feature of a
    /// dependency: each feature once, with the dependencies whose feature of
    /// the same name it does not activate, and whether that dependency is
    /// optional
    pub flags: Vec<(String, Vec<(String, bool)>)>,
    /// The features of the parent
    pub parent_features: CrateFeatures,
}

impl Default for FeatureFlagsMissingDependencies {
    fn default() -> (r: Self)
        ensures
            r.flags@.len() == 0,
            r.parent_features.features@.len() == 0,
    {
        FeatureFlagsMissingDependencies { flags: Vec::new(), parent_features: CrateFeatures::default() }
    }
}

impl FeatureFlagsMissingDependencies {
    /// Each feature occurs once in `flags`
    pub open spec fn wf(&self) -> bool {
        spec_keys_unique(spec_flag_pairs(self.flags@))
    }

    /// The missing activations by feature
    pub open spec fn spec_flags(&self) -> Map<Seq<char>, Seq<(Seq<char>, bool)>> {
        spec_assoc_map(spec_flag_pairs(self.flags@))
    }

    /// Add which flag is missing a link to a dependency
    pub fn add_missing_dependency_flag(
        &mut self,
        feature: Cow<String>,
        dependency: String,
        is_weak: bool,
    )
        requires
            old(self).wf(),
        ensures
            final(self).wf(),
            final(self).spec_flags() == old(self).spec_flags().insert(
                feature@,
                (if old(self).spec_flags().dom().contains(feature@) {
                    old(self).spec_flags()[feature@]
                } else {
                    Seq::empty()
                }).push((dependency@, is_weak)),
            ),
            final(self).parent_features == old(self).parent_features,
    {
        let key: String = match feature {
            Cow::Borrowed(s) => s.clone(),
            Cow::Owned(s) => s,
        };
        let ghost pairs = spec_flag_pairs(self.flags@);
        match find_key(&self.flags, key.as_str()) {
            Some(i) => {
                let (k, mut list) = self.flags.remove(i);
                let ghost old_list = list@;
                list.push((dependency, is_weak));
                self.flags.insert(i, (k, list));
                proof {
                    lemma_assoc_index(pairs, i as int);
                    lemma_assoc_update(pairs, i as int, spec_dep_pairs(list@));
                    assert(spec_dep_pairs(list@) =~= spec_dep_pairs(old_list).push(
                        (dependency@, is_weak),
                    ));
                    assert(spec_flag_pairs(self.flags@) =~= pairs.update(
                        i as int,
                        (pairs[i as int].0, spec_dep_pairs(list@)),
                    ));
                }
            },
            None => {
                let mut list: Vec<(String, bool)> = Vec::new();
                list.push((dependency, is_weak));
                self.flags.push((key, list));
                proof {
                    lemma_assoc_dom(pairs, feature@);
                    lemma_assoc_push(pairs, feature@, spec_dep_pairs(list@));
                    assert(spec_dep_pairs(list@) =~= seq![(dependency@, is_weak)]);
                    assert(spec_flag_pairs(self.flags@) =~= pairs.push(
                        (feature@, spec_dep_pairs(list@)),
                    ));
                }
            },
        }
    }
}


/// The error that a process reports when it cannot be started or read
#[verifier::external_type_specification]
#[verifier::external_body]
pub struct ExIoError(std::io::Error);

/// The error of bytes that are no UTF-8
#[verifier::external_type_specification]
#[verifier::external_body]
pub struct ExFromUtf8Error(std::string::FromUtf8Error);

/// Errors that might occur when trying to get the project metadata
#[derive(Debug)]
pub enum GetCargoInfoError {
    /// Command error
    IOError(std::io::Error),
    /// Command output is not utf8
    NotUtf8(std::string::FromUtf8Error),
    /// Command error with error message
    StErr(String, i32),
}

/// Errors that might occur when trying to do a feature/dependency check
#[derive(Debug)]
pub enum DoDepCheckError {
    /// [`GetCargoInfoError`]
    GetCargo(GetCargoInfoError),
    /// [`simd_json::Error`]
    Parsing(simd_json::Error),
    /// The `packages` metadata value did not have the expected array-of-objects shape
    InvalidPackagesFormat,
    /// The requested package could not be found in the workspace metadata
    PackageNotFound(String),
    /// A package's metadata was missing an expected field, or the field had an unexpected type
    MalformedPackageField {
        /// The package whose metadata was malformed
        package: String,
        /// The field (or path to the field) that was missing/malformed
        field: &'static str,
    },
}

/// What a [`DoDepCheckError`] reports, with its names as characters
pub enum DepCheckErrorView {
    /// Getting the metadata failed
    GetCargo,
    /// The metadata is no JSON
    Parsing,
    /// The `packages` value is no array of objects
    InvalidPackagesFormat,
    /// No package has the name
    PackageNotFound(Seq<char>),
    /// A field of a package is missing or malformed
    MalformedPackageField { package: Seq<char>, field: Seq<char> },
}

impl View for DoDepCheckError {
    type V = DepCheckErrorView;

    open spec fn view(&self) -> DepCheckErrorView {
        match self {
            DoDepCheckError::GetCargo(_) => DepCheckErrorView::GetCargo,
            DoDepCheckError::Parsing(_) => DepCheckErrorView::Parsing,
            DoDepCheckError::InvalidPackagesFormat => DepCheckErrorView::InvalidPackagesFormat,
            DoDepCheckError::PackageNotFound(p) => DepCheckErrorView::PackageNotFound(p@),
            DoDepCheckError::MalformedPackageField { package, field } =>
                DepCheckErrorView::MalformedPackageField { package: package@, field: field@ },
        }
    }
}

/// The error for a missing or malformed field of a package
pub open spec fn spec_malformed(package: Seq<char>, field: Seq<char>) -> DepCheckErrorView {
    DepCheckErrorView::MalformedPackageField { package, field }
}

fn malformed(package: &str, field: &'static str) -> (r: DoDepCheckError)
    ensures
        r@ == spec_malformed(package@, field@),
{
    DoDepCheckError::MalformedPackageField { package: package.to_owned(), field }
}

/// The text of the string that is the value of `key` in the object at `q`
pub open spec fn spec_get_str(t: Seq<JsonNodeView>, q: int, key: Seq<char>) -> Option<Seq<char>> {
    match spec_get(t, q, key) {
        Some(v) => spec_str_at(t, v),
        None => None,
    }
}

/// The boolean that is the value of `key` in the object at `q`
pub open spec fn spec_get_bool(t: Seq<JsonNodeView>, q: int, key: Seq<char>) -> Option<bool> {
    match spec_get(t, q, key) {
        Some(v) => spec_bool_at(t, v),
        None => None,
    }
}

/// The texts of the strings at `items`; `None` unless all of them are strings
pub open spec fn spec_strings(t: Seq<JsonNodeView>, items: Seq<int>) -> Option<Seq<Seq<char>>> {
    if forall|i: int| 0 <= i < items.len() ==> (#[trigger] spec_str_at(t, items[i])) is Some {
        Some(
            items.map_values(
                |x: int|
                    match spec_str_at(t, x) {
                        Some(s) => s,
                        None => Seq::empty(),
                    },
            ),
        )
    } else {
        None
    }
}

/// The texts of the elements of the array that is the value of `key` in the
/// object at `q`: `None` where there is no such array, `Some(None)` where one
/// of its elements is no string
pub open spec fn spec_get_strings(t: Seq<JsonNodeView>, q: int, key: Seq<char>) -> Option<
    Option<Seq<Seq<char>>>,
> {
    match spec_get(t, q, key) {
        Some(v) => match spec_array_items(t, v) {
            Some(items) => Some(spec_strings(t, items)),
            None => None,
        },
        None => None,
    }
}

/// The package named in the error for an unknown dependency kind
pub open spec fn spec_kind_error_package(package: Seq<char>, kind: Seq<char>) -> Seq<char> {
    "Package: "@ + package + ", Found value: '"@ + kind + "'"@
}

/// The dependency described by the object at `q` of the metadata of `package`
pub open spec fn spec_dependency(t: Seq<JsonNodeView>, q: int, package: Seq<char>) -> Result<
    CrateDependencyView,
    DepCheckErrorView,
> {
    if spec_object_items(t, q) is None {
        Err(spec_malformed(package, "dependencies[].<object>"@))
    } else {
        match spec_get_str(t, q, "name"@) {
            None => Err(spec_malformed(package, "dependencies[].name"@)),
            Some(name) => match spec_get_str(t, q, "req"@) {
                None => Err(spec_malformed(package, "dependencies[].req"@)),
                Some(version) => match spec_get_bool(t, q, "optional"@) {
                    None => Err(spec_malformed(package, "dependencies[].optional"@)),
                    Some(optional) => match spec_get_strings(t, q, "features"@) {
                        None => Err(spec_malformed(package, "dependencies[].features"@)),
                        Some(None) => Err(spec_malformed(package, "dependencies[].features[]"@)),
                        Some(Some(active_features)) => match spec_get_bool(
                            t,
                            q,
                            "uses_default_features"@,
                        ) {
                            None => Err(
                                spec_malformed(package, "dependencies[].uses_default_features"@),
                            ),
                            Some(use_default_features) => {
                                let kind = match spec_get_str(t, q, "kind"@) {
                                    Some(k) => k,
                                    None => Seq::empty(),
                                };
                                let dep = |kind: DependencyKind|
                                    CrateDependencyView {
                                        name,
                                        version,
                                        optional,
                                        kind,
                                        active_features,
                                        use_default_features,
                                    };
                                if kind == "build"@ {
                                    Ok(dep(DependencyKind::Build))
                                } else if kind == "dev"@ {
                                    Ok(dep(DependencyKind::Dev))
                                } else if kind.len() == 0 {
                                    Ok(dep(DependencyKind::Normal))
                                } else {
                                    Err(
                                        spec_malformed(
                                            spec_kind_error_package(package, kind),
                                            "dependencies[].kind"@,
                                        ),
                                    )
                                }
                            },
                        },
                    },
                },
            },
        }
    }
}

/// The dependencies described by the objects at `items`, or the error of the
/// first that fails
pub open spec fn spec_dependency_list(
    t: Seq<JsonNodeView>,
    items: Seq<int>,
    package: Seq<char>,
) -> Result<Seq<CrateDependencyView>, DepCheckErrorView>
    decreases items.len(),
{
    if items.len() == 0 {
        Ok(Seq::empty())
    } else {
        match spec_dependency_list(t, items.drop_last(), package) {
            Err(e) => Err(e),
            Ok(ds) => match spec_dependency(t, items.last(), package) {
                Err(e) => Err(e),
                Ok(d) => Ok(ds.push(d)),
            },
        }
    }
}

/// What an activation written as `a` in the `[features]` table activates:
/// `dep:x` a dependency, `x/y` or `x?/y` a feature of a dependency, the name
/// of a dependency that dependency, and anything else a feature
pub open spec fn spec_classify(a: Seq<char>, deps: Seq<CrateDependencyView>) -> ActivateFeatureView {
    if spec_starts_with(a, seq!['d', 'e', 'p', ':']) {
        ActivateFeatureView::Dependency(a.skip(4))
    } else {
        let k = spec_index_of(a, '/', 0, a.len() as int);
        if k < a.len() {
            let name = a.take(k);
            let weak = name.len() > 0 && name.last() == '?';
            ActivateFeatureView::DependencyFeature {
                dep: if weak {
                    name.drop_last()
                } else {
                    name
                },
                feature: a.skip(k + 1),
                weak,
            }
        } else if spec_has_dependency(deps, a) {
            ActivateFeatureView::Dependency(a)
        } else {
            ActivateFeatureView::Feature(a)
        }
    }
}

/// The first `n` features described by the members at `items` of the
/// `features` object of `package`, or the error of the first that fails
pub open spec fn spec_raw_features(
    t: Seq<JsonNodeView>,
    items: Seq<int>,
    n: nat,
    package: Seq<char>,
    deps: Seq<CrateDependencyView>,
) -> Result<Seq<CrateFeatureView>, DepCheckErrorView>
    decreases n,
{
    if n == 0 {
        Ok(Seq::empty())
    } else {
        match spec_raw_features(t, items, (n - 1) as nat, package, deps) {
            Err(e) => Err(e),
            Ok(fs) => {
                let name = match spec_str_at(t, items[2 * (n - 1)]) {
                    Some(s) => s,
                    None => Seq::empty(),
                };
                match spec_array_items(t, items[2 * (n - 1) + 1]) {
                    None => Err(spec_malformed(package, "features[].<value>"@)),
                    Some(values) => match spec_strings(t, values) {
                        None => Err(spec_malformed(package, "features[].<value>[]"@)),
                        Some(acts) => Ok(
                            fs.push(
                                CrateFeatureView {
                                    name,
                                    activating: acts.map_values(|a: Seq<char>| spec_classify(a, deps)),
                                },
                            ),
                        ),
                    },
                }
            },
        }
    }
}

/// An activation of the feature `fname` once every feature is known: a
/// dependency that has the name of another feature activates that feature
pub open spec fn spec_fixup(a: ActivateFeatureView, fname: Seq<char>, names: Seq<Seq<char>>) -> ActivateFeatureView {
    match a {
        ActivateFeatureView::Dependency(n) => if names.contains(n) && fname != n {
            ActivateFeatureView::Feature(n)
        } else {
            a
        },
        _ => a,
    }
}

/// The names of features
pub open spec fn spec_feature_names(fs: Seq<CrateFeatureView>) -> Seq<Seq<char>> {
    fs.map_values(|f: CrateFeatureView| f.name)
}

/// The features with [`spec_fixup`] applied to every activation
pub open spec fn spec_fixed_features(fs: Seq<CrateFeatureView>) -> Seq<CrateFeatureView> {
    fs.map_values(
        |f: CrateFeatureView|
            CrateFeatureView {
                name: f.name,
                activating: f.activating.map_values(
                    |a: ActivateFeatureView| spec_fixup(a, f.name, spec_feature_names(fs)),
                ),
            },
    )
}

/// The dependencies and features of the package whose metadata is the object
/// at `p`, or the error of the first field that fails
pub open spec fn spec_package_contents(t: Seq<JsonNodeView>, p: int, package: Seq<char>) -> Result<
    (Seq<CrateDependencyView>, Seq<CrateFeatureView>),
    DepCheckErrorView,
> {
    match spec_get(t, p, "dependencies"@) {
        None => Err(spec_malformed(package, "dependencies"@)),
        Some(dv) => match spec_array_items(t, dv) {
            None => Err(spec_malformed(package, "dependencies"@)),
            Some(ditems) => match spec_dependency_list(t, ditems, package) {
                Err(e) => Err(e),
                Ok(deps) => match spec_get(t, p, "features"@) {
                    None => Err(spec_malformed(package, "features"@)),
                    Some(fv) => match spec_object_members(t, fv) {
                        None => Err(spec_malformed(package, "features"@)),
                        Some(fitems) => match spec_raw_features(
                            t,
                            fitems,
                            (fitems.len() / 2) as nat,
                            package,
                            deps,
                        ) {
                            Err(e) => Err(e),
                            Ok(raw) => Ok((deps, spec_fixed_features(raw))),
                        },
                    },
                },
            },
        },
    }
}

/// The index of the first package from the `i`-th on whose name is `package`
pub open spec fn spec_package_index(t: Seq<JsonNodeView>, ps: Seq<int>, package: Seq<char>, i: int) -> Option<int>
    decreases ps.len() - i,
{
    if 0 <= i < ps.len() {
        if spec_get_str(t, ps[i], "name"@) == Some(package) {
            Some(i)
        } else {
            spec_package_index(t, ps, package, i + 1)
        }
    } else {
        None
    }
}

/// The state of a [`CargoMetaDataPackageInfo`]
pub struct MetaDataView {
    /// The nodes of the metadata
    pub document: Seq<JsonNodeView>,
    /// Where the packages not yet processed start
    pub packages: Seq<int>,
    /// The dependencies of the packages processed
    pub dependencies: Map<Seq<char>, Seq<CrateDependencyView>>,
    /// The features of the packages processed
    pub features: Map<Seq<char>, Seq<CrateFeatureView>>,
}

/// Package info about the packages
#[derive(Debug, Clone, PartialEq)]
pub struct CargoMetaDataPackageInfo {
    document: Vec<JsonNode>,
    packages: Vec<usize>,
    dependencies: Vec<(String, CrateDependencies)>,
    features: Vec<(String, CrateFeatures)>,
}

impl View for CargoMetaDataPackageInfo {
    type V = MetaDataView;

    closed spec fn view(&self) -> MetaDataView {
        MetaDataView {
            document: tape_view(self.document@),
            packages: spec_positions(self.packages@),
            dependencies: spec_assoc_map(spec_named_views(self.dependencies@)),
            features: spec_assoc_map(spec_named_views(self.features@)),
        }
    }
}

/// The packages of a `packages` array, where every element is an object
pub open spec fn spec_package_list(t: Seq<JsonNodeView>, root: int) -> Option<Seq<int>> {
    match spec_array_items(t, root) {
        Some(items) => if forall|i: int|
            0 <= i < items.len() ==> (#[trigger] spec_object_items(t, items[i])) is Some {
            Some(items)
        } else {
            None
        },
        None => None,
    }
}

/// Processing `package`: it leaves the list of packages; where its metadata
/// is well formed, its dependencies and features are recorded
pub open spec fn spec_process(m: MetaDataView, package: Seq<char>) -> (MetaDataView, Result<(), DepCheckErrorView>) {
    match spec_package_index(m.document, m.packages, package, 0) {
        None => (m, Err(DepCheckErrorView::PackageNotFound(package))),
        Some(i) => {
            let m1 = MetaDataView {
                document: m.document,
                packages: m.packages.remove(i),
                dependencies: m.dependencies,
                features: m.features,
            };
            match spec_package_contents(m.document, m.packages[i], package) {
                Err(e) => (m1, Err(e)),
                Ok((d, f)) => (
                    MetaDataView {
                        document: m.document,
                        packages: m.packages.remove(i),
                        dependencies: m.dependencies.insert(package, d),
                        features: m.features.insert(package, f),
                    },
                    Ok(()),
                ),
            }
        },
    }
}

/// Getting the features of `package`: processed first where they are not known
pub open spec fn spec_get_features(m: MetaDataView, package: Seq<char>) -> (MetaDataView, Result<Seq<CrateFeatureView>, DepCheckErrorView>) {
    let (m1, r) = if m.features.dom().contains(package) {
        (m, Ok(()))
    } else {
        spec_process(m, package)
    };
    match r {
        Err(e) => (m1, Err(e)),
        Ok(_) => if m1.features.dom().contains(package) {
            (m1, Ok(m1.features[package]))
        } else {
            (m1, Err(DepCheckErrorView::PackageNotFound(package)))
        },
    }
}

/// Getting the dependencies of `package`: processed first where they are not known
pub open spec fn spec_get_dependencies(m: MetaDataView, package: Seq<char>) -> (MetaDataView, Result<Seq<CrateDependencyView>, DepCheckErrorView>) {
    let (m1, r) = if m.dependencies.dom().contains(package) {
        (m, Ok(()))
    } else {
        spec_process(m, package)
    };
    match r {
        Err(e) => (m1, Err(e)),
        Ok(_) => if m1.dependencies.dom().contains(package) {
            (m1, Ok(m1.dependencies[package]))
        } else {
            (m1, Err(DepCheckErrorView::PackageNotFound(package)))
        },
    }
}



/// The text of the string that is the value of `key` in the object at `q`
fn get_str<'a>(t: &'a Vec<JsonNode>, q: usize, key: &str) -> (r: Option<&'a str>)
    ensures
        spec_get_str(tape_view(t@), q as int, key@) == match r {
            Some(s) => Some(s@),
            None => None,
        },
{
    match get(t, q, key) {
        Some(v) => str_at(t, v),
        None => None,
    }
}

/// The boolean that is the value of `key` in the object at `q`
fn get_bool(t: &Vec<JsonNode>, q: usize, key: &str) -> (r: Option<bool>)
    ensures
        r == spec_get_bool(tape_view(t@), q as int, key@),
{
    match get(t, q, key) {
        Some(v) => bool_at(t, v),
        None => None,
    }
}

/// The views of a list of strings
pub open spec fn spec_string_views(s: Seq<String>) -> Seq<Seq<char>> {
    s.map_values(|x: String| x@)
}

/// The texts of the strings at `items`; `None` unless all of them are strings
fn strings(t: &Vec<JsonNode>, items: &Vec<usize>) -> (r: Option<Vec<String>>)
    ensures
        spec_strings(tape_view(t@), spec_positions(items@)) == match r {
            Some(v) => Some(spec_string_views(v@)),
            None => None,
        },
{
    let ghost tv = tape_view(t@);
    let ghost s = spec_positions(items@);
    let mut out: Vec<String> = Vec::new();
    let mut i: usize = 0;
    while i < items.len()
        invariant
            i <= items@.len(),
            tv == tape_view(t@),
            s == spec_positions(items@),
            out@.len() == i,
            forall|k: int| 0 <= k < i ==> spec_str_at(tv, s[k]) == Some(#[trigger] out@[k]@),
        decreases items@.len() - i,
    {
        match str_at(t, items[i]) {
            Some(x) => {
                out.push(x.to_owned());
            },
            None => {
                assert(spec_str_at(tv, s[i as int]) is None);
                return None;
            },
        }
        i = i + 1;
    }
    assert forall|k: int| 0 <= k < s.len() implies (#[trigger] spec_str_at(tv, s[k])) is Some by {
        assert(spec_str_at(tv, s[k]) == Some(out@[k]@));
    }
    assert(spec_string_views(out@) =~= s.map_values(
        |x: int|
            match spec_str_at(tv, x) {
                Some(v) => v,
                None => Seq::empty(),
            },
    ));
    Some(out)
}

/// The texts of the elements of the array that is the value of `key` in the
/// object at `q`
fn get_strings(t: &Vec<JsonNode>, q: usize, key: &str) -> (r: Option<Option<Vec<String>>>)
    ensures
        spec_get_strings(tape_view(t@), q as int, key@) == match r {
            Some(Some(v)) => Some(Some(spec_string_views(v@))),
            Some(None) => Some(None),
            None => None,
        },
{
    match get(t, q, key) {
        Some(v) => match array_items(t, v) {
            Some(items) => Some(strings(t, &items)),
            None => None,
        },
        None => None,
    }
}

/// The dependency described by the object at `q` of the metadata of `package`
fn dependency_at(t: &Vec<JsonNode>, q: usize, package: &str) -> (r: Result<
    CrateDependency,
    DoDepCheckError,
>)
    ensures
        spec_dependency(tape_view(t@), q as int, package@) == match r {
            Ok(d) => Ok(d@),
            Err(e) => Err(e@),
        },
{
    if object_items(t, q).is_none() {
        return Err(malformed(package, "dependencies[].<object>"));
    }
    let name = match get_str(t, q, "name") {
        Some(s) => s.to_owned(),
        None => {
            return Err(malformed(package, "dependencies[].name"));
        },
    };
    let version = match get_str(t, q, "req") {
        Some(s) => s.to_owned(),
        None => {
            return Err(malformed(package, "dependencies[].req"));
        },
    };
    let optional = match get_bool(t, q, "optional") {
        Some(b) => b,
        None => {
            return Err(malformed(package, "dependencies[].optional"));
        },
    };
    let active_features = match get_strings(t, q, "features") {
        Some(Some(v)) => v,
        Some(None) => {
            return Err(malformed(package, "dependencies[].features[]"));
        },
        None => {
            return Err(malformed(package, "dependencies[].features"));
        },
    };
    let use_default_features = match get_bool(t, q, "uses_default_features") {
        Some(b) => b,
        None => {
            return Err(malformed(package, "dependencies[].uses_default_features"));
        },
    };
    let kind_text: &str = match get_str(t, q, "kind") {
        Some(k) => k,
        None => {
            proof {
                reveal_strlit("");
            }
            ""
        },
    };
    let kind = if str_eq(kind_text, "build") {
        DependencyKind::Build
    } else if str_eq(kind_text, "dev") {
        DependencyKind::Dev
    } else if kind_text.is_empty() {
        DependencyKind::Normal
    } else {
        let mut msg = String::new();
        push_str(&mut msg, "Package: ");
        push_str(&mut msg, package);
        push_str(&mut msg, ", Found value: '");
        push_str(&mut msg, kind_text);
        push_str(&mut msg, "'");
        assert(msg@ =~= spec_kind_error_package(package@, kind_text@));
        return Err(
            DoDepCheckError::MalformedPackageField { package: msg, field: "dependencies[].kind" },
        );
    };
    let d = CrateDependency { name, version, optional, kind, active_features, use_default_features };
    assert(kind_text@.len() == 0 ==> kind_text@ =~= Seq::<char>::empty());
    assert(d@.active_features =~= spec_string_views(d.active_features@));
    Ok(d)
}

/// Where a prefix of the dependency objects fails, the whole list fails with
/// the same error
proof fn lemma_dependency_list_err(t: Seq<JsonNodeView>, items: Seq<int>, k: int, package: Seq<char>)
    requires
        0 <= k <= items.len(),
        spec_dependency_list(t, items.take(k), package) is Err,
    ensures
        spec_dependency_list(t, items, package) == spec_dependency_list(t, items.take(k), package),
    decreases items.len(),
{
    if k == items.len() {
        assert(items.take(k) =~= items);
    } else {
        assert(items.drop_last().take(k) =~= items.take(k));
        lemma_dependency_list_err(t, items.drop_last(), k, package);
    }
}

/// The dependencies described by the objects at `items`
fn dependency_list(t: &Vec<JsonNode>, items: &Vec<usize>, package: &str) -> (r: Result<
    CrateDependencies,
    DoDepCheckError,
>)
    ensures
        spec_dependency_list(tape_view(t@), spec_positions(items@), package@) == match r {
            Ok(d) => Ok(d@),
            Err(e) => Err(e@),
        },
{
    let ghost tv = tape_view(t@);
    let ghost s = spec_positions(items@);
    let mut deps = CrateDependencies::default();
    assert(s.take(0) =~= Seq::<int>::empty());
    assert(deps@ =~= Seq::<CrateDependencyView>::empty());
    let mut i: usize = 0;
    while i < items.len()
        invariant
            i <= items@.len(),
            tv == tape_view(t@),
            s == spec_positions(items@),
            spec_dependency_list(tv, s.take(i as int), package@) == Ok::<
                Seq<CrateDependencyView>,
                DepCheckErrorView,
            >(deps@),
        decreases items@.len() - i,
    {
        assert(s.take(i + 1).drop_last() =~= s.take(i as int));
        match dependency_at(t, items[i], package) {
            Ok(d) => {
                let ghost before = deps@;
                deps.dependencies.push(d);
                assert(deps@ =~= before.push(d@));
            },
            Err(e) => {
                proof {
                    lemma_dependency_list_err(tv, s, i + 1, package@);
                }
                return Err(e);
            },
        }
        i = i + 1;
    }
    assert(s.take(i as int) =~= s);
    Ok(deps)
}

/// What an activation written as `a` in the `[features]` table activates
fn classify(a: &str, deps: &CrateDependencies) -> (r: ActivateFeature)
    ensures
        r@ == spec_classify(a@, deps@),
{
    let cs = to_chars(a);
    proof {
        reveal_strlit("dep:");
        assert("dep:"@ =~= seq!['d', 'e', 'p', ':']);
    }
    if str_starts_with(a, "dep:") {
        let d = string_from_range(&cs, 4, cs.len());
        assert(d@ =~= a@.skip(4));
        return ActivateFeature::Dependency(d);
    }
    let k = index_of(&cs, '/', 0, cs.len());
    if k < cs.len() {
        let weak = k > 0 && cs[k - 1] == '?';
        let dep = if weak {
            string_from_range(&cs, 0, k - 1)
        } else {
            string_from_range(&cs, 0, k)
        };
        let feature = string_from_range(&cs, k + 1, cs.len());
        assert(feature@ =~= a@.skip(k + 1));
        assert(a@.take(k as int) =~= a@.subrange(0, k as int));
        if weak {
            assert(a@.take(k as int).drop_last() =~= a@.subrange(0, k - 1));
        }
        ActivateFeature::DependencyFeature { dep, feature, weak }
    } else if deps.contains_dep(a) {
        ActivateFeature::Dependency(a.to_owned())
    } else {
        ActivateFeature::Feature(a.to_owned())
    }
}

/// Where the first `k` features fail, the first `n` fail with the same error
proof fn lemma_raw_features_err(
    t: Seq<JsonNodeView>,
    items: Seq<int>,
    k: nat,
    n: nat,
    package: Seq<char>,
    deps: Seq<CrateDependencyView>,
)
    requires
        k <= n,
        spec_raw_features(t, items, k, package, deps) is Err,
    ensures
        spec_raw_features(t, items, n, package, deps) == spec_raw_features(
            t,
            items,
            k,
            package,
            deps,
        ),
    decreases n,
{
    if n > k {
        lemma_raw_features_err(t, items, k, (n - 1) as nat, package, deps);
    }
}

/// The features described by the members at `items` of the `features`
/// object of `package`, before [`spec_fixup`]
fn raw_features(t: &Vec<JsonNode>, items: &Vec<usize>, package: &str, deps: &CrateDependencies) -> (r: Result<
    Vec<CrateFeature>,
    DoDepCheckError,
>)
    requires
        spec_keys_are_strings(tape_view(t@), spec_positions(items@)),
    ensures
        spec_raw_features(
            tape_view(t@),
            spec_positions(items@),
            (items@.len() / 2) as nat,
            package@,
            deps@,
        ) == match r {
            Ok(fs) => Ok(spec_feature_views(fs@)),
            Err(e) => Err(e@),
        },
{
    let ghost tv = tape_view(t@);
    let ghost s = spec_positions(items@);
    let n = items.len() / 2;
    let mut out: Vec<CrateFeature> = Vec::new();
    assert(spec_feature_views(out@) =~= Seq::<CrateFeatureView>::empty());
    let mut j: usize = 0;
    while j < n
        invariant
            j <= n,
            n == items@.len() / 2,
            tv == tape_view(t@),
            s == spec_positions(items@),
            spec_keys_are_strings(tv, s),
            spec_raw_features(tv, s, j as nat, package@, deps@) == Ok::<
                Seq<CrateFeatureView>,
                DepCheckErrorView,
            >(spec_feature_views(out@)),
        decreases n - j,
    {
        assert(2 * j + 1 < items.len());
        let kp: usize = 2 * j;
        assert(spec_str_at(tv, s[kp as int]) is Some);
        let name = match str_at(t, items[kp]) {
            Some(k) => k.to_owned(),
            None => String::new(),
        };
        let values = match array_items(t, items[kp + 1]) {
            Some(v) => v,
            None => {
                let e = malformed(package, "features[].<value>");
                proof {
                    lemma_raw_features_err(tv, s, (j + 1) as nat, n as nat, package@, deps@);
                }
                return Err(e);
            },
        };
        let acts = match strings(t, &values) {
            Some(a) => a,
            None => {
                let e = malformed(package, "features[].<value>[]");
                proof {
                    lemma_raw_features_err(tv, s, (j + 1) as nat, n as nat, package@, deps@);
                }
                return Err(e);
            },
        };
        let mut activating: Vec<ActivateFeature> = Vec::new();
        let mut k: usize = 0;
        while k < acts.len()
            invariant
                k <= acts@.len(),
                spec_activation_views(activating@) =~= spec_string_views(acts@).take(
                    k as int,
                ).map_values(|a: Seq<char>| spec_classify(a, deps@)),
            decreases acts@.len() - k,
        {
            let a = classify(acts[k].as_str(), deps);
            let ghost before = activating@;
            activating.push(a);
            assert(spec_activation_views(activating@) =~= spec_activation_views(before).push(a@));
            assert(spec_string_views(acts@).take(k + 1) =~= spec_string_views(acts@).take(
                k as int,
            ).push(acts@[k as int]@));
            k = k + 1;
        }
        assert(spec_string_views(acts@).take(k as int) =~= spec_string_views(acts@));
        let f = CrateFeature { name, activating };
        let ghost before = out@;
        out.push(f);
        assert(spec_feature_views(out@) =~= spec_feature_views(before).push(f@));
        j = j + 1;
    }
    Ok(out)
}

/// Whether one of `fs` is named `name`
fn has_feature_named(fs: &Vec<CrateFeature>, name: &str) -> (r: bool)
    ensures
        r == spec_feature_names(spec_feature_views(fs@)).contains(name@),
{
    let ghost names = spec_feature_names(spec_feature_views(fs@));
    let mut i: usize = 0;
    while i < fs.len()
        invariant
            i <= fs@.len(),
            names == spec_feature_names(spec_feature_views(fs@)),
            forall|j: int| 0 <= j < i ==> names[j] != name@,
        decreases fs@.len() - i,
    {
        if str_eq(fs[i].name.as_str(), name) {
            assert(names[i as int] == name@);
            return true;
        }
        i = i + 1;
    }
    false
}

/// An exact copy of an activation
fn copy_activation(a: &ActivateFeature) -> (r: ActivateFeature)
    ensures
        r == *a,
{
    match a {
        ActivateFeature::Dependency(d) => ActivateFeature::Dependency(d.clone()),
        ActivateFeature::Feature(f) => ActivateFeature::Feature(f.clone()),
        ActivateFeature::DependencyFeature { dep, feature, weak } =>
            ActivateFeature::DependencyFeature { dep: dep.clone(), feature: feature.clone(), weak: *weak },
    }
}

/// The features with [`spec_fixup`] applied to every activation
fn fix_features(fs: &Vec<CrateFeature>) -> (r: CrateFeatures)
    ensures
        r@ == spec_fixed_features(spec_feature_views(fs@)),
{
    let ghost views = spec_feature_views(fs@);
    let ghost names = spec_feature_names(views);
    let mut out: Vec<CrateFeature> = Vec::new();
    let mut i: usize = 0;
    while i < fs.len()
        invariant
            i <= fs@.len(),
            views == spec_feature_views(fs@),
            names == spec_feature_names(views),
            spec_feature_views(out@) =~= spec_fixed_features(views).take(i as int),
        decreases fs@.len() - i,
    {
        let f = &fs[i];
        let ghost fv = views[i as int];
        let mut activating: Vec<ActivateFeature> = Vec::new();
        let mut k: usize = 0;
        while k < f.activating.len()
            invariant
                k <= f.activating@.len(),
                fv == f@,
                names == spec_feature_names(views),
                views == spec_feature_views(fs@),
                spec_activation_views(activating@) =~= fv.activating.take(k as int).map_values(
                    |a: ActivateFeatureView| spec_fixup(a, fv.name, names),
                ),
            decreases f.activating@.len() - k,
        {
            let a = &f.activating[k];
            let b = match a {
                ActivateFeature::Dependency(n) => {
                    if has_feature_named(fs, n.as_str()) && !str_eq(f.name.as_str(), n.as_str()) {
                        ActivateFeature::Feature(n.clone())
                    } else {
                        copy_activation(a)
                    }
                },
                _ => copy_activation(a),
            };
            let ghost before = activating@;
            activating.push(b);
            assert(spec_activation_views(activating@) =~= spec_activation_views(before).push(b@));
            assert(fv.activating.take(k + 1) =~= fv.activating.take(k as int).push(
                fv.activating[k as int],
            ));
            k = k + 1;
        }
        assert(fv.activating.take(k as int) =~= fv.activating);
        let g = CrateFeature { name: f.name.clone(), activating };
        let ghost before = out@;
        out.push(g);
        assert(spec_feature_views(out@) =~= spec_feature_views(before).push(g@));
        assert(spec_fixed_features(views).take(i + 1) =~= spec_fixed_features(views).take(
            i as int,
        ).push(spec_fixed_features(views)[i as int]));
        i = i + 1;
    }
    assert(spec_fixed_features(views).take(i as int) =~= spec_fixed_features(views));
    CrateFeatures { features: out }
}

/// The dependencies and features of the package whose metadata is the object
/// at `p`
fn package_contents(t: &Vec<JsonNode>, p: usize, package: &str) -> (r: Result<
    (CrateDependencies, CrateFeatures),
    DoDepCheckError,
>)
    ensures
        spec_package_contents(tape_view(t@), p as int, package@) == match r {
            Ok(x) => Ok((x.0@, x.1@)),
            Err(e) => Err(e@),
        },
{
    let dv = match get(t, p, "dependencies") {
        Some(v) => v,
        None => {
            return Err(malformed(package, "dependencies"));
        },
    };
    let ditems = match array_items(t, dv) {
        Some(v) => v,
        None => {
            return Err(malformed(package, "dependencies"));
        },
    };
    let deps = match dependency_list(t, &ditems, package) {
        Ok(d) => d,
        Err(e) => {
            return Err(e);
        },
    };
    let fv = match get(t, p, "features") {
        Some(v) => v,
        None => {
            return Err(malformed(package, "features"));
        },
    };
    let fitems = match object_members(t, fv) {
        Some(v) => v,
        None => {
            return Err(malformed(package, "features"));
        },
    };
    let raw = match raw_features(t, &fitems, package, &deps) {
        Ok(fs) => fs,
        Err(e) => {
            return Err(e);
        },
    };
    let features = fix_features(&raw);
    Ok((deps, features))
}

/// The index found is one of the packages
pub proof fn lemma_package_index_bound(t: Seq<JsonNodeView>, ps: Seq<int>, package: Seq<char>, i: int)
    ensures
        spec_package_index(t, ps, package, i) matches Some(k) ==> i <= k < ps.len(),
    decreases ps.len() - i,
{
    if 0 <= i < ps.len() && spec_get_str(t, ps[i], "name"@) != Some(package) {
        lemma_package_index_bound(t, ps, package, i + 1);
    }
}

impl CargoMetaDataPackageInfo {
    /// No package is recorded twice
    pub closed spec fn wf(&self) -> bool {
        &&& spec_keys_unique(spec_named_views(self.dependencies@))
        &&& spec_keys_unique(spec_named_views(self.features@))
    }

    /// Create a new [`CargoMetaDataPackageInfo`] from the `packages` value of
    /// the output of `cargo metadata`
    ///
    /// # Errors
    /// [`DoDepCheckError::InvalidPackagesFormat`] if `packages` isn't an array of objects
    pub fn new_from_packages(packages: JsonValue) -> (r: Result<Self, DoDepCheckError>)
        ensures
            match spec_package_list(tape_view(packages.tape@), packages.root as int) {
                Some(ps) => r matches Ok(m) && m.wf() && m@ == (MetaDataView {
                    document: tape_view(packages.tape@),
                    packages: ps,
                    dependencies: Map::empty(),
                    features: Map::empty(),
                }),
                None => r matches Err(e) && e@ == DepCheckErrorView::InvalidPackagesFormat,
            },
    {
        let ghost tv = tape_view(packages.tape@);
        let items = match array_items(&packages.tape, packages.root) {
            Some(v) => v,
            None => {
                return Err(DoDepCheckError::InvalidPackagesFormat);
            },
        };
        let ghost s = spec_positions(items@);
        let mut i: usize = 0;
        while i < items.len()
            invariant
                i <= items@.len(),
                tv == tape_view(packages.tape@),
                s == spec_positions(items@),
                spec_array_items(tv, packages.root as int) == Some(s),
                forall|k: int| 0 <= k < i ==> (#[trigger] spec_object_items(tv, s[k])) is Some,
            decreases items@.len() - i,
        {
            if object_items(&packages.tape, items[i]).is_none() {
                assert(spec_object_items(tv, s[i as int]) is None);
                return Err(DoDepCheckError::InvalidPackagesFormat);
            }
            i = i + 1;
        }
        let m = CargoMetaDataPackageInfo {
            document: packages.tape,
            packages: items,
            dependencies: Vec::new(),
            features: Vec::new(),
        };
        assert(spec_named_views(m.dependencies@) =~= Seq::empty());
        assert(spec_named_views(m.features@) =~= Seq::empty());
        assert(m@.dependencies =~= Map::empty());
        assert(m@.features =~= Map::empty());
        Ok(m)
    }

    /// Get the idx of the package with the given name
    ///
    /// Returns `None` if no package with that name exists
    pub fn get_idx_of_package(&self, package: &str) -> (r: Option<usize>)
        ensures
            spec_package_index(self@.document, self@.packages, package@, 0) == match r {
                Some(i) => Some(i as int),
                None => None,
            },
    {
        let ghost tv = tape_view(self.document@);
        let ghost s = spec_positions(self.packages@);
        let mut i: usize = 0;
        while i < self.packages.len()
            invariant
                i <= self.packages@.len(),
                tv == tape_view(self.document@),
                s == spec_positions(self.packages@),
                spec_package_index(tv, s, package@, 0) == spec_package_index(
                    tv,
                    s,
                    package@,
                    i as int,
                ),
            decreases self.packages@.len() - i,
        {
            let found = match get_str(&self.document, self.packages[i], "name") {
                Some(n) => str_eq(n, package),
                None => false,
            };
            if found {
                return Some(i);
            }
            i = i + 1;
        }
        None
    }

    /// Process a given crate, extracting their dependencies and features
    ///
    /// # Errors
    /// [`DoDepCheckError`]
    pub fn process_package(&mut self, package: &str) -> (r: Result<(), DoDepCheckError>)
        requires
            old(self).wf(),
        ensures
            final(self).wf(),
            final(self)@ == spec_process(old(self)@, package@).0,
            match r {
                Ok(_) => spec_process(old(self)@, package@).1 is Ok,
                Err(e) => spec_process(old(self)@, package@).1 == Err::<(), DepCheckErrorView>(
                    e@,
                ),
            },
    {
        let idx = match self.get_idx_of_package(package) {
            Some(i) => i,
            None => {
                return Err(DoDepCheckError::PackageNotFound(package.to_owned()));
            },
        };
        let ghost old_packages = self.packages@;
        proof {
            lemma_package_index_bound(self@.document, self@.packages, package@, 0);
        }
        let p = self.packages.remove(idx);
        assert(spec_positions(self.packages@) =~= spec_positions(old_packages).remove(idx as int));
        match package_contents(&self.document, p, package) {
            Ok((deps, features)) => {
                assoc_insert(&mut self.features, package, features);
                assoc_insert(&mut self.dependencies, package, deps);
                Ok(())
            },
            Err(e) => Err(e),
        }
    }

    /// Get the features a package holds
    ///
    /// # Errors
    /// [`DoDepCheckError`]
    pub fn get_features_of_package(&mut self, package: &str) -> (r: Result<
        &CrateFeatures,
        DoDepCheckError,
    >)
        requires
            old(self).wf(),
        ensures
            final(self).wf(),
            final(self)@ == spec_get_features(old(self)@, package@).0,
            spec_get_features(old(self)@, package@).1 == match r {
                Ok(f) => Ok(f@),
                Err(e) => Err(e@),
            },
    {
        if assoc_get(&self.features, package).is_none() {
            match self.process_package(package) {
                Ok(_) => {},
                Err(e) => {
                    return Err(e);
                },
            }
        }
        match assoc_get(&self.features, package) {
            Some(f) => Ok(f),
            None => Err(DoDepCheckError::PackageNotFound(package.to_owned())),
        }
    }

    /// Get the dependencies a package holds
    ///
    /// # Errors
    /// [`DoDepCheckError`]
    pub fn get_dependencies_of_package(&mut self, package: &str) -> (r: Result<
        &CrateDependencies,
        DoDepCheckError,
    >)
        requires
            old(self).wf(),
        ensures
            final(self).wf(),
            final(self)@ == spec_get_dependencies(old(self)@, package@).0,
            spec_get_dependencies(old(self)@, package@).1 == match r {
                Ok(d) => Ok(d@),
                Err(e) => Err(e@),
            },
    {
        if assoc_get(&self.dependencies, package).is_none() {
            match self.process_package(package) {
                Ok(_) => {},
                Err(e) => {
                    return Err(e);
                },
            }
        }
        match assoc_get(&self.dependencies, package) {
            Some(d) => Ok(d),
            None => Err(DoDepCheckError::PackageNotFound(package.to_owned())),
        }
    }
}


/// An exact copy of a list of strings
fn copy_strings(v: &Vec<String>) -> (r: Vec<String>)
    ensures
        r@ == v@,
{
    let mut r: Vec<String> = Vec::new();
    let mut i: usize = 0;
    while i < v.len()
        invariant
            i <= v@.len(),
            r@ == v@.take(i as int),
        decreases v@.len() - i,
    {
        r.push(v[i].clone());
        assert(v@.take(i + 1) =~= v@.take(i as int).push(v@[i as int]));
        i = i + 1;
    }
    assert(v@.take(i as int) =~= v@);
    r
}

/// A copy of a list of features
fn copy_features(fs: &CrateFeatures) -> (r: CrateFeatures)
    ensures
        r@ == fs@,
{
    let mut out: Vec<CrateFeature> = Vec::new();
    let mut i: usize = 0;
    while i < fs.features.len()
        invariant
            i <= fs.features@.len(),
            spec_feature_views(out@) =~= fs@.take(i as int),
        decreases fs.features@.len() - i,
    {
        let f = &fs.features[i];
        let mut acts: Vec<ActivateFeature> = Vec::new();
        let mut k: usize = 0;
        while k < f.activating.len()
            invariant
                k <= f.activating@.len(),
                acts@ == f.activating@.take(k as int),
            decreases f.activating@.len() - k,
        {
            acts.push(copy_activation(&f.activating[k]));
            assert(f.activating@.take(k + 1) =~= f.activating@.take(k as int).push(
                f.activating@[k as int],
            ));
            k = k + 1;
        }
        assert(f.activating@.take(k as int) =~= f.activating@);
        let g = CrateFeature { name: f.name.clone(), activating: acts };
        let ghost before = out@;
        out.push(g);
        assert(spec_feature_views(out@) =~= spec_feature_views(before).push(g@));
        assert(fs@.take(i + 1) =~= fs@.take(i as int).push(fs@[i as int]));
        i = i + 1;
    }
    assert(fs@.take(i as int) =~= fs@);
    CrateFeatures { features: out }
}

/// A copy of a list of dependencies
fn copy_dependencies(ds: &CrateDependencies) -> (r: CrateDependencies)
    ensures
        r@ == ds@,
{
    let mut out: Vec<CrateDependency> = Vec::new();
    let mut i: usize = 0;
    while i < ds.dependencies.len()
        invariant
            i <= ds.dependencies@.len(),
            out@.map_values(|d: CrateDependency| d@) =~= ds@.take(i as int),
        decreases ds.dependencies@.len() - i,
    {
        let d = &ds.dependencies[i];
        let e = CrateDependency {
            name: d.name.clone(),
            version: d.version.clone(),
            optional: d.optional,
            kind: d.kind,
            active_features: copy_strings(&d.active_features),
            use_default_features: d.use_default_features,
        };
        let ghost before = out@;
        out.push(e);
        assert(out@.map_values(|d: CrateDependency| d@) =~= before.map_values(
            |d: CrateDependency| d@,
        ).push(e@));
        assert(ds@.take(i + 1) =~= ds@.take(i as int).push(ds@[i as int]));
        i = i + 1;
    }
    assert(ds@.take(i as int) =~= ds@);
    CrateDependencies { dependencies: out }
}

/// Whether one of `acts` activates the feature `feature` of the dependency `dep`
pub open spec fn spec_activates_dep_feature(
    acts: Seq<ActivateFeatureView>,
    dep: Seq<char>,
    feature: Seq<char>,
) -> bool {
    exists|i: int|
        0 <= i < acts.len() && (#[trigger] acts[i] matches ActivateFeatureView::DependencyFeature {
            dep: d,
            feature: f,
            ..
        } && d == dep && f == feature)
}

/// Whether one of `acts` activates the feature `feature` of the dependency `dep`
fn activates_dep_feature(acts: &Vec<ActivateFeature>, dep: &str, feature: &str) -> (r: bool)
    ensures
        r == spec_activates_dep_feature(spec_activation_views(acts@), dep@, feature@),
{
    let ghost v = spec_activation_views(acts@);
    let mut i: usize = 0;
    while i < acts.len()
        invariant
            i <= acts@.len(),
            v == spec_activation_views(acts@),
            forall|j: int|
                0 <= j < i ==> !(#[trigger] v[j] matches ActivateFeatureView::DependencyFeature {
                    dep: d,
                    feature: f,
                    ..
                } && d == dep@ && f == feature@),
        decreases acts@.len() - i,
    {
        assert(v[i as int] == acts@[i as int]@);
        if let ActivateFeature::DependencyFeature { dep: d, feature: f, .. } = &acts[i] {
            if str_eq(dep, d.as_str()) && str_eq(feature, f.as_str()) {
                return true;
            }
        }
        i = i + 1;
    }
    false
}

/// The missing activations with `(dep, weak)` added to those of `feature`
pub open spec fn spec_add_flag(
    m: Map<Seq<char>, Seq<(Seq<char>, bool)>>,
    feature: Seq<char>,
    dep: Seq<char>,
    weak: bool,
) -> Map<Seq<char>, Seq<(Seq<char>, bool)>> {
    m.insert(
        feature,
        (if m.dom().contains(feature) {
            m[feature]
        } else {
            Seq::empty()
        }).push((dep, weak)),
    )
}

/// Whether a feature `cf` that the crate and the dependency `dep` both have
/// is reported as missing its activation of the dependency's feature; `None`
/// where the name cannot be tested for a leading underscore (it is empty, or
/// its first character takes more than one byte)
pub open spec fn spec_should_add(
    cf: CrateFeatureView,
    dep: CrateDependencyView,
    s: DependencyCheckSettings,
) -> Option<bool> {
    if s.exclude_default && cf.name == "default"@ {
        Some(false)
    } else if s.exclude_flags_with_leading_underscore && !(cf.name.len() > 0 && (cf.name[0] as int)
        < 0x80) {
        None
    } else if s.exclude_flags_with_leading_underscore && cf.name[0] == '_' {
        Some(false)
    } else {
        Some(
            !spec_activates_dep_feature(cf.activating, dep.name, cf.name) && !spec_pair_views(
                s.blacklisted_dependency_features_combination@,
            ).contains((dep.name, cf.name)) && ((!spec_views(s.blacklisted_features@).contains(
                cf.name,
            )) != s.blacklisted_features_is_whitelist),
        )
    }
}

/// The missing activations after the features of `parent` that `dep_features`
/// also has were checked against the dependency `dep`; `None` where a check
/// cannot be made
pub open spec fn spec_add_common(
    m: Map<Seq<char>, Seq<(Seq<char>, bool)>>,
    parent: Seq<CrateFeatureView>,
    dep_features: Seq<CrateFeatureView>,
    dep: CrateDependencyView,
    s: DependencyCheckSettings,
) -> Option<Map<Seq<char>, Seq<(Seq<char>, bool)>>>
    decreases parent.len(),
{
    if parent.len() == 0 {
        Some(m)
    } else {
        match spec_add_common(m, parent.drop_last(), dep_features, dep, s) {
            None => None,
            Some(m1) => {
                let cf = parent.last();
                if !spec_has_feature(dep_features, cf.name) {
                    Some(m1)
                } else {
                    match spec_should_add(cf, dep, s) {
                        None => None,
                        Some(true) => Some(spec_add_flag(m1, cf.name, dep.name, dep.optional)),
                        Some(false) => Some(m1),
                    }
                }
            },
        }
    }
}

/// Whether the kind `kind` is among the kinds that `selected` selects
pub open spec fn spec_kind_selected(kind: DependencyKind, selected: SelectedDependencyType) -> bool {
    match kind {
        DependencyKind::Normal => selected.normal,
        DependencyKind::Build => selected.build,
        DependencyKind::Dev => selected.dev,
    }
}

/// Whether the settings check a dependency of the kind `kind`: the kinds
/// they select are the ones checked where the selection is a whitelist, and
/// the ones skipped where it is a blacklist
pub open spec fn spec_kind_checked(kind: DependencyKind, s: DependencyCheckSettings) -> bool {
    spec_kind_selected(kind, s.blacklisted_dependency_kind) == s.blacklisted_dependency_kind_is_whitelist
}

/// See [`spec_kind_checked`]
fn kind_checked(kind: DependencyKind, s: &DependencyCheckSettings) -> (r: bool)
    ensures
        r == spec_kind_checked(kind, *s),
{
    let selected = match kind {
        DependencyKind::Normal => s.blacklisted_dependency_kind.normal,
        DependencyKind::Build => s.blacklisted_dependency_kind.build,
        DependencyKind::Dev => s.blacklisted_dependency_kind.dev,
    };
    selected == s.blacklisted_dependency_kind_is_whitelist
}

/// One dependency of the check: where the settings check its kind and do
/// not skip its name, the features it shares with the crate are checked
pub open spec fn spec_dep_step(
    m: MetaDataView,
    missing: Map<Seq<char>, Seq<(Seq<char>, bool)>>,
    parent: Seq<CrateFeatureView>,
    dep: CrateDependencyView,
    s: DependencyCheckSettings,
) -> Option<(MetaDataView, Result<Map<Seq<char>, Seq<(Seq<char>, bool)>>, DepCheckErrorView>)> {
    if !spec_kind_checked(dep.kind, s) {
        Some((m, Ok(missing)))
    } else if spec_views(s.blacklisted_dependencies@).contains(dep.name)
        != s.blacklisted_dependencies_is_whitelist {
        Some((m, Ok(missing)))
    } else {
        let (m1, r) = spec_get_features(m, dep.name);
        match r {
            Err(e) => Some((m1, Err(e))),
            Ok(df) => match spec_add_common(missing, parent, df, dep, s) {
                None => None,
                Some(mm) => Some((m1, Ok(mm))),
            },
        }
    }
}

/// The check over the dependencies `deps` in order, stopping at the first error
pub open spec fn spec_check_deps(
    m: MetaDataView,
    parent: Seq<CrateFeatureView>,
    deps: Seq<CrateDependencyView>,
    s: DependencyCheckSettings,
) -> Option<(MetaDataView, Result<Map<Seq<char>, Seq<(Seq<char>, bool)>>, DepCheckErrorView>)>
    decreases deps.len(),
{
    if deps.len() == 0 {
        Some((m, Ok(Map::empty())))
    } else {
        match spec_check_deps(m, parent, deps.drop_last(), s) {
            None => None,
            Some((m1, Err(e))) => Some((m1, Err(e))),
            Some((m1, Ok(missing))) => spec_dep_step(m1, missing, parent, deps.last(), s),
        }
    }
}

/// The whole check of `package`: its features and dependencies, then the
/// check over its dependencies; the result holds the missing activations and
/// the features of the package
pub open spec fn spec_feature_check(m: MetaDataView, package: Seq<char>, s: DependencyCheckSettings) -> Option<
    (
        MetaDataView,
        Result<(Map<Seq<char>, Seq<(Seq<char>, bool)>>, Seq<CrateFeatureView>), DepCheckErrorView>,
    ),
> {
    let (m1, rf) = spec_get_features(m, package);
    match rf {
        Err(e) => Some((m1, Err(e))),
        Ok(parent) => {
            let (m2, rd) = spec_get_dependencies(m1, package);
            match rd {
                Err(e) => Some((m2, Err(e))),
                Ok(deps) => match spec_check_deps(m2, parent, deps, s) {
                    None => None,
                    Some((m3, Err(e))) => Some((m3, Err(e))),
                    Some((m3, Ok(missing))) => Some((m3, Ok((missing, parent)))),
                },
            }
        },
    }
}

/// Where the whole check can be made, so can that of every prefix
proof fn lemma_check_deps_prefix(
    m: MetaDataView,
    parent: Seq<CrateFeatureView>,
    deps: Seq<CrateDependencyView>,
    k: int,
    s: DependencyCheckSettings,
)
    requires
        0 <= k <= deps.len(),
        spec_check_deps(m, parent, deps, s) is Some,
    ensures
        spec_check_deps(m, parent, deps.take(k), s) is Some,
    decreases deps.len(),
{
    if k == deps.len() {
        assert(deps.take(k) =~= deps);
    } else {
        assert(deps.drop_last().take(k) =~= deps.take(k));
        lemma_check_deps_prefix(m, parent, deps.drop_last(), k, s);
    }
}

/// Where a prefix of the dependencies fails, the whole check fails the same way
proof fn lemma_check_deps_err(
    m: MetaDataView,
    parent: Seq<CrateFeatureView>,
    deps: Seq<CrateDependencyView>,
    k: int,
    s: DependencyCheckSettings,
)
    requires
        0 <= k <= deps.len(),
        spec_check_deps(m, parent, deps.take(k), s) matches Some((_, r)) && r is Err,
    ensures
        spec_check_deps(m, parent, deps, s) == spec_check_deps(m, parent, deps.take(k), s),
    decreases deps.len(),
{
    if k == deps.len() {
        assert(deps.take(k) =~= deps);
    } else {
        assert(deps.drop_last().take(k) =~= deps.take(k));
        lemma_check_deps_err(m, parent, deps.drop_last(), k, s);
    }
}

/// Where the check over all features can be made, so can that of every prefix
proof fn lemma_add_common_prefix(
    m: Map<Seq<char>, Seq<(Seq<char>, bool)>>,
    parent: Seq<CrateFeatureView>,
    dep_features: Seq<CrateFeatureView>,
    dep: CrateDependencyView,
    k: int,
    s: DependencyCheckSettings,
)
    requires
        0 <= k <= parent.len(),
        spec_add_common(m, parent, dep_features, dep, s) is Some,
    ensures
        spec_add_common(m, parent.take(k), dep_features, dep, s) is Some,
    decreases parent.len(),
{
    if k == parent.len() {
        assert(parent.take(k) =~= parent);
    } else {
        assert(parent.drop_last().take(k) =~= parent.take(k));
        lemma_add_common_prefix(m, parent.drop_last(), dep_features, dep, k, s);
    }
}

/// The check of `package` as [`spec_feature_check`] states it; `None` where
/// a feature name cannot be tested for a leading underscore
fn feature_check(
    meta_data_info: &mut CargoMetaDataPackageInfo,
    package_name: &str,
    settings: &DependencyCheckSettings,
) -> (r: Option<Result<FeatureFlagsMissingDependencies, DoDepCheckError>>)
    requires
        old(meta_data_info).wf(),
    ensures
        final(meta_data_info).wf(),
        match spec_feature_check(old(meta_data_info)@, package_name@, *settings) {
            None => r is None,
            Some((m, res)) => final(meta_data_info)@ == m && match res {
                Ok((flags, parent)) => r matches Some(Ok(x)) && x.wf() && x.spec_flags() == flags
                    && x.parent_features@ == parent,
                Err(e) => r matches Some(Err(x)) && x@ == e,
            },
        },
{
    let features = match meta_data_info.get_features_of_package(package_name) {
        Ok(f) => copy_features(f),
        Err(e) => {
            return Some(Err(e));
        },
    };
    let dependencies = match meta_data_info.get_dependencies_of_package(package_name) {
        Ok(d) => copy_dependencies(d),
        Err(e) => {
            return Some(Err(e));
        },
    };
    let ghost m2 = meta_data_info@;
    let ghost parent = features@;
    let ghost deps = dependencies@;
    let mut missing = FeatureFlagsMissingDependencies::default();
    assert(spec_flag_pairs(missing.flags@) =~= Seq::empty());
    assert(missing.spec_flags() =~= Map::empty());
    assert(deps.take(0) =~= Seq::<CrateDependencyView>::empty());
    let mut i: usize = 0;
    while i < dependencies.dependencies.len()
        invariant
            i <= deps.len(),
            deps == dependencies@,
            parent == features@,
            meta_data_info.wf(),
            missing.wf(),
            spec_feature_check(old(meta_data_info)@, package_name@, *settings) == match spec_check_deps(
                m2,
                parent,
                deps,
                *settings,
            ) {
                None => None,
                Some((m3, Err(e))) => Some((m3, Err(e))),
                Some((m3, Ok(found))) => Some((m3, Ok((found, parent)))),
            },
            spec_check_deps(m2, parent, deps.take(i as int), *settings) == Some::<
                (MetaDataView, Result<Map<Seq<char>, Seq<(Seq<char>, bool)>>, DepCheckErrorView>),
            >((meta_data_info@, Ok(missing.spec_flags()))),
        decreases deps.len() - i,
    {
        let dep = &dependencies.dependencies[i];
        proof {
            assert(deps.take(i + 1).drop_last() =~= deps.take(i as int));
            assert(deps.take(i + 1).last() == dep@);
        }
        if !kind_checked(dep.kind, settings) {
            i = i + 1;
            continue;
        }
        if contains_str(&settings.blacklisted_dependencies, dep.name.as_str())
            != settings.blacklisted_dependencies_is_whitelist {
            i = i + 1;
            continue;
        }
        let ghost before = meta_data_info@;
        let ghost missing_now = missing.spec_flags();
        assert(spec_check_deps(m2, parent, deps.take(i + 1), *settings) == spec_dep_step(
            before,
            missing_now,
            parent,
            dep@,
            *settings,
        ));
        let dep_features = match meta_data_info.get_features_of_package(dep.name.as_str()) {
            Ok(f) => copy_features(f),
            Err(e) => {
                proof {
                    assert(spec_check_deps(m2, parent, deps.take(i + 1), *settings) == Some::<
                        (MetaDataView, Result<Map<Seq<char>, Seq<(Seq<char>, bool)>>, DepCheckErrorView>),
                    >((meta_data_info@, Err(e@))));
                    lemma_check_deps_err(m2, parent, deps, i + 1, *settings);
                }
                return Some(Err(e));
            },
        };
        let ghost missing_before = missing.spec_flags();
        assert(parent.take(0) =~= Seq::<CrateFeatureView>::empty());
        let mut k: usize = 0;
        while k < features.features.len()
            invariant
                k <= parent.len(),
                parent == features@,
                missing.wf(),
                meta_data_info.wf(),
                i < deps.len(),
                deps == dependencies@,
                spec_feature_check(old(meta_data_info)@, package_name@, *settings) == match spec_check_deps(
                    m2,
                    parent,
                    deps,
                    *settings,
                ) {
                    None => None,
                    Some((m3, Err(e))) => Some((m3, Err(e))),
                    Some((m3, Ok(found))) => Some((m3, Ok((found, parent)))),
                },
                spec_add_common(missing_before, parent, dep_features@, dep@, *settings) == match spec_check_deps(m2, parent, deps.take(i + 1), *settings) {
                    None => None,
                    Some((_, Err(_))) => Some(missing_before),
                    Some((_, Ok(found))) => Some(found),
                },
                spec_add_common(missing_before, parent.take(k as int), dep_features@, dep@, *settings)
                    == Some(missing.spec_flags()),
            decreases parent.len() - k,
        {
            let cf = &features.features[k];
            proof {
                assert(parent.take(k + 1).drop_last() =~= parent.take(k as int));
                assert(parent.take(k + 1).last() == cf@);
            }
            let name = cf.name.as_str();
            let common = has_feature_named(&dep_features.features, name);
            assert(common == spec_has_feature(dep_features@, cf@.name)) by {
                if common {
                    let j = choose|j: int|
                        0 <= j < spec_feature_names(dep_features@).len() && spec_feature_names(
                            dep_features@,
                        )[j] == name@;
                    assert(dep_features@[j].name == name@);
                }
                if spec_has_feature(dep_features@, cf@.name) {
                    let j = choose|j: int|
                        0 <= j < dep_features@.len() && dep_features@[j].name == cf@.name;
                    assert(spec_feature_names(dep_features@)[j] == name@);
                }
            }
            if common {
                let skip_default = settings.exclude_default && str_eq(name, "default");
                if !skip_default {
                    let skip_underscore = if settings.exclude_flags_with_leading_underscore {
                        let cs = to_chars(name);
                        if cs.len() == 0 || cs[0] >= '\u{80}' {
                            proof {
                                if spec_add_common(missing_before, parent, dep_features@, dep@, *settings) is Some {
                                    lemma_add_common_prefix(missing_before, parent, dep_features@, dep@, k + 1, *settings);
                                }
                                if spec_check_deps(m2, parent, deps, *settings) is Some {
                                    lemma_check_deps_prefix(m2, parent, deps, i + 1, *settings);
                                }
                            }
                            return None;
                        }
                        cs[0] == '_'
                    } else {
                        false
                    };
                    if !skip_underscore {
                        let add = !activates_dep_feature(&cf.activating, dep.name.as_str(), name)
                            && !contains_str_pair(
                            &settings.blacklisted_dependency_features_combination,
                            dep.name.as_str(),
                            name,
                        ) && ((!contains_str(&settings.blacklisted_features, name))
                            != settings.blacklisted_features_is_whitelist);
                        if add {
                            missing.add_missing_dependency_flag(
                                Cow::Borrowed(&cf.name),
                                dep.name.clone(),
                                dep.optional,
                            );
                        }
                    }
                }
            }
            k = k + 1;
        }
        assert(parent.take(k as int) =~= parent);
        i = i + 1;
    }
    assert(deps.take(i as int) =~= deps);
    missing.parent_features = features;
    Some(Ok(missing))
}

/// Check if a package has its features flags correctly defined: every
/// feature of the package that a dependency also has must activate the
/// dependency's feature of that name, unless the settings exclude it. The
/// settings choose the kinds of dependency that are checked (by default the
/// normal ones), and skip dependencies and features by name.
/// The result lists the features that do not, with the dependencies whose
/// feature they miss, and the features of the package.
///
/// # Errors
/// [`DoDepCheckError`]
pub fn do_all_features_call_dependency_features_with_same_name(
    meta_data_info: &mut CargoMetaDataPackageInfo,
    package_name: &str,
    settings: &DependencyCheckSettings,
) -> (r: Result<FeatureFlagsMissingDependencies, DoDepCheckError>)
    requires
        old(meta_data_info).wf(),
        spec_feature_check(old(meta_data_info)@, package_name@, *settings) is Some,
    ensures
        final(meta_data_info).wf(),
        spec_feature_check(old(meta_data_info)@, package_name@, *settings) matches Some((m, res))
            && final(meta_data_info)@ == m && match res {
            Ok((flags, parent)) => r matches Ok(x) && x.wf() && x.spec_flags() == flags
                && x.parent_features@ == parent,
            Err(e) => r matches Err(x) && x@ == e,
        },
{
    match feature_check(meta_data_info, package_name, settings) {
        Some(r) => r,
        None => vstd::pervasive::unreached(),
    }
}


/// The check of `name` over the metadata whose tape is `t`: the `packages`
/// member of the document must be an array of objects; `None` where a
/// feature name cannot be tested for a leading underscore
pub open spec fn spec_metadata_check(t: Seq<JsonNodeView>, name: Seq<char>, s: DependencyCheckSettings) -> Option<
    Result<(Map<Seq<char>, Seq<(Seq<char>, bool)>>, Seq<CrateFeatureView>), DepCheckErrorView>,
> {
    match spec_get(t, 0, "packages"@) {
        None => Some(Err(DepCheckErrorView::InvalidPackagesFormat)),
        Some(p) => match spec_package_list(t, p) {
            None => Some(Err(DepCheckErrorView::InvalidPackagesFormat)),
            Some(ps) => match spec_feature_check(
                MetaDataView {
                    document: t,
                    packages: ps,
                    dependencies: Map::empty(),
                    features: Map::empty(),
                },
                name,
                s,
            ) {
                None => None,
                Some((_, res)) => Some(res),
            },
        },
    }
}

/// The dependency/feature check of the package `name` over the text that
/// `cargo metadata` printed. `None` where the check cannot be made: a
/// feature name that the settings ask to test for a leading underscore is
/// empty or begins with a character of more than one byte.
///
/// # Errors
/// [`DoDepCheckError`]
pub fn do_dep_feature_check_for_metadata(
    metadata: &str,
    name: &str,
    settings: &DependencyCheckSettings,
) -> (r: Option<Result<FeatureFlagsMissingDependencies, DoDepCheckError>>)
    ensures
        match spec_json_tape(metadata@) {
            None => r matches Some(Err(e)) && e@ == DepCheckErrorView::Parsing,
            Some(t) => match spec_metadata_check(t, name@, *settings) {
                None => r is None,
                Some(Ok((flags, parent))) => r matches Some(Ok(x)) && x.wf() && x.spec_flags()
                    == flags && x.parent_features@ == parent,
                Some(Err(e)) => r matches Some(Err(x)) && x@ == e,
            },
        },
{
    let value = match JsonValue::parse(metadata) {
        Ok(v) => v,
        Err(e) => {
            return Some(Err(DoDepCheckError::Parsing(e)));
        },
    };
    let packages = match get(&value.tape, value.root, "packages") {
        Some(p) => p,
        None => {
            return Some(Err(DoDepCheckError::InvalidPackagesFormat));
        },
    };
    let mut meta = match CargoMetaDataPackageInfo::new_from_packages(
        JsonValue { tape: value.tape, root: packages },
    ) {
        Ok(m) => m,
        Err(e) => {
            return Some(Err(e));
        },
    };
    feature_check(&mut meta, name, settings)
}


/// The text that a `std::io::Error` displays
#[verifier::external_body]
fn io_error_text(e: &std::io::Error) -> String {
    format!("{e}")
}

/// The text that a `std::string::FromUtf8Error` displays
#[verifier::external_body]
fn utf8_error_text(e: &std::string::FromUtf8Error) -> String {
    format!("{e}")
}

/// The text that a `simd_json::Error` displays
#[verifier::external_body]
fn json_error_text(e: &simd_json::Error) -> String {
    format!("{e}")
}

/// Whether `text` describes `e`: the text of an outside error follows a
/// fixed prefix; the error of a command gives its status and what it printed
pub open spec fn spec_cargo_info_error_text(e: GetCargoInfoError, text: Seq<char>) -> bool {
    match e {
        GetCargoInfoError::IOError(_) => spec_starts_with(text, "IO error: "@),
        GetCargoInfoError::NotUtf8(_) => spec_starts_with(text, "output was not valid UTF-8: "@),
        GetCargoInfoError::StErr(stderr, code) => text == "command exited with status "@
            + spec_int_text(code as int) + ": "@ + stderr@,
    }
}

impl GetCargoInfoError {
    /// The message of the error
    pub fn to_string(&self) -> (r: String)
        ensures
            spec_cargo_info_error_text(*self, r@),
    {
        let mut s = String::new();
        match self {
            GetCargoInfoError::IOError(e) => {
                push_str(&mut s, "IO error: ");
                let ghost prefix = s@;
                push_str(&mut s, io_error_text(e).as_str());
                assert(s@.take("IO error: "@.len() as int) =~= prefix);
            },
            GetCargoInfoError::NotUtf8(e) => {
                push_str(&mut s, "output was not valid UTF-8: ");
                let ghost prefix = s@;
                push_str(&mut s, utf8_error_text(e).as_str());
                assert(s@.take("output was not valid UTF-8: "@.len() as int) =~= prefix);
            },
            GetCargoInfoError::StErr(stderr, code) => {
                push_str(&mut s, "command exited with status ");
                push_int(&mut s, *code);
                push_str(&mut s, ": ");
                push_str(&mut s, stderr.as_str());
                assert(s@ =~= "command exited with status "@ + spec_int_text(*code as int) + ": "@
                    + stderr@);
            },
        }
        s
    }
}

/// The message of a [`DoDepCheckError`]: where an outside error is part of
/// it, its text follows a fixed prefix
pub open spec fn spec_dep_check_error_text(e: DoDepCheckError, text: Seq<char>) -> bool {
    match e {
        DoDepCheckError::GetCargo(inner) => exists|t: Seq<char>|
            #![trigger spec_cargo_info_error_text(inner, t)]
            spec_cargo_info_error_text(inner, t) && text == "failed to get cargo metadata: "@ + t,
        DoDepCheckError::Parsing(_) => spec_starts_with(text, "failed to parse cargo metadata: "@),
        DoDepCheckError::InvalidPackagesFormat => text
            == "the `packages` field in cargo metadata was not an array of objects"@,
        DoDepCheckError::PackageNotFound(p) => text == "package `"@ + p@
            + "` was not found in the workspace metadata"@,
        DoDepCheckError::MalformedPackageField { package, field } => text == "package `"@
            + package@ + "` had a missing or malformed `"@ + field@ + "` field"@,
    }
}

impl DoDepCheckError {
    /// The message of the error
    pub fn to_string(&self) -> (r: String)
        ensures
            spec_dep_check_error_text(*self, r@),
    {
        let mut s = String::new();
        match self {
            DoDepCheckError::GetCargo(e) => {
                push_str(&mut s, "failed to get cargo metadata: ");
                let inner = e.to_string();
                push_str(&mut s, inner.as_str());
                assert(spec_cargo_info_error_text(*e, inner@));
            },
            DoDepCheckError::Parsing(e) => {
                push_str(&mut s, "failed to parse cargo metadata: ");
                let ghost prefix = s@;
                push_str(&mut s, json_error_text(e).as_str());
                assert(s@.take("failed to parse cargo metadata: "@.len() as int) =~= prefix);
            },
            DoDepCheckError::InvalidPackagesFormat => {
                push_str(&mut s, "the `packages` field in cargo metadata was not an array of objects");
            },
            DoDepCheckError::PackageNotFound(p) => {
                push_str(&mut s, "package `");
                push_str(&mut s, p.as_str());
                push_str(&mut s, "` was not found in the workspace metadata");
            },
            DoDepCheckError::MalformedPackageField { package, field } => {
                push_str(&mut s, "package `");
                push_str(&mut s, package.as_str());
                push_str(&mut s, "` had a missing or malformed `");
                push_str(&mut s, field);
                push_str(&mut s, "` field");
            },
        }
        assert(spec_dep_check_error_text(*self, s@));
        s
    }
}

impl From<std::io::Error> for GetCargoInfoError {
    fn from(value: std::io::Error) -> (r: Self) {
        GetCargoInfoError::IOError(value)
    }
}

impl vstd::std_specs::convert::FromSpecImpl<std::io::Error> for GetCargoInfoError {
    open spec fn obeys_from_spec() -> bool {
        true
    }

    open spec fn from_spec(v: std::io::Error) -> Self {
        GetCargoInfoError::IOError(v)
    }
}

impl From<std::string::FromUtf8Error> for GetCargoInfoError {
    fn from(value: std::string::FromUtf8Error) -> (r: Self) {
        GetCargoInfoError::NotUtf8(value)
    }
}

impl vstd::std_specs::convert::FromSpecImpl<std::string::FromUtf8Error> for GetCargoInfoError {
    open spec fn obeys_from_spec() -> bool {
        true
    }

    open spec fn from_spec(v: std::string::FromUtf8Error) -> Self {
        GetCargoInfoError::NotUtf8(v)
    }
}

impl From<(String, i32)> for GetCargoInfoError {
    fn from(value: (String, i32)) -> (r: Self) {
        GetCargoInfoError::StErr(value.0, value.1)
    }
}

impl vstd::std_specs::convert::FromSpecImpl<(String, i32)> for GetCargoInfoError {
    open spec fn obeys_from_spec() -> bool {
        true
    }

    open spec fn from_spec(v: (String, i32)) -> Self {
        GetCargoInfoError::StErr(v.0, v.1)
    }
}

impl From<GetCargoInfoError> for DoDepCheckError {
    fn from(value: GetCargoInfoError) -> (r: Self) {
        DoDepCheckError::GetCargo(value)
    }
}

impl vstd::std_specs::convert::FromSpecImpl<GetCargoInfoError> for DoDepCheckError {
    open spec fn obeys_from_spec() -> bool {
        true
    }

    open spec fn from_spec(v: GetCargoInfoError) -> Self {
        DoDepCheckError::GetCargo(v)
    }
}

impl From<simd_json::Error> for DoDepCheckError {
    fn from(value: simd_json::Error) -> (r: Self) {
        DoDepCheckError::Parsing(value)
    }
}

impl vstd::std_specs::convert::FromSpecImpl<simd_json::Error> for DoDepCheckError {
    open spec fn obeys_from_spec() -> bool {
        true
    }

    open spec fn from_spec(v: simd_json::Error) -> Self {
        DoDepCheckError::Parsing(v)
    }
}

} // verus!
