use vstd::prelude::*;

use crate::text::{
    add_str, add_str_pair, remove_str, remove_str_pair, spec_pair_views, spec_views,
    spec_with_added, spec_without,
};

verus! {

/// Settings for the setup
#[derive(Debug, Clone, PartialEq, Eq, PartialOrd, Ord, Hash)]
pub struct SetupSettings {
    /// Nightly behavior
    pub nightly: NightlySettings,
    /// If `CRATE_PRESENT_{crate_name.to_uppercase()}` should be added to the env to be used in `#[cfg(CRATE_PRESENT_{crate_name.to_uppercase()})]`
    pub set_crate_present_cfg: bool,
    /// If for flag activations should be checked for when a supported flag is defined
    pub flag_condition_check: FlagConditionCheck,
    /// Dependency check the current crate for matching features
    pub dependency_check: DependencyCheck,
}

impl SetupSettings {
    /// The values that [`SetupSettings::default`] gives
    pub open spec fn spec_is_default(self) -> bool {
        &&& self.nightly == NightlySettings::OverwriteWithNightly
        &&& self.set_crate_present_cfg
        &&& self.flag_condition_check == (FlagConditionCheck { miri: true, test: true })
        &&& self.dependency_check.spec_is_default()
    }
}

impl AsRef<SetupSettings> for SetupSettings {
    fn as_ref(&self) -> (r: &SetupSettings)
        ensures
            *r == *self,
    {
        self
    }
}

impl Default for SetupSettings {
    fn default() -> (r: Self)
        ensures
            r.spec_is_default(),
    {
        SetupSettings {
            nightly: NightlySettings::default(),
            set_crate_present_cfg: true,
            flag_condition_check: FlagConditionCheck::default(),
            dependency_check: DependencyCheck::default(),
        }
    }
}

/// How the program should handle
#[derive(Debug, Clone, Copy, PartialEq, Eq, PartialOrd, Ord, Hash)]
pub enum NightlySettings {
    /// You are using nightly and wish for this to be reflected
    OverwriteWithNightly,
    /// You are using stable and wish for this to be reflected
    OverwriteWithStable,
    /// You may or may not be using nighty, automated detection will tell
    DetectAutomatically,
}

impl Default for NightlySettings {
    fn default() -> (r: Self)
        ensures
            r == NightlySettings::OverwriteWithNightly,
    {
        NightlySettings::OverwriteWithNightly
    }
}

/// If for flag activations should be checked for when a supported flag is defined
#[derive(Debug, Clone, Copy, PartialEq, Eq, PartialOrd, Ord, Hash)]
pub struct FlagConditionCheck {
    /// Check for miri flag to be active
    pub miri: bool,
    /// Check for test flag to be active
    pub test: bool,
}

impl Default for FlagConditionCheck {
    fn default() -> (r: Self)
        ensures
            r == (FlagConditionCheck { miri: true, test: true }),
    {
        FlagConditionCheck { miri: true, test: true }
    }
}

/// How the dependency check should be handled
#[derive(Debug, Clone, PartialEq, Eq, PartialOrd, Ord, Hash)]
pub enum DependencyCheck {
    /// Do not check the dependencies
    DoNotCheck,
    /// Check the dependencies with the following settings
    Check(DependencyCheckSettings),
}

impl DependencyCheck {
    /// The value that [`DependencyCheck::default`] gives
    pub open spec fn spec_is_default(self) -> bool {
        self matches DependencyCheck::Check(s) && s.spec_is_default()
    }
}

impl Default for DependencyCheck {
    fn default() -> (r: Self)
        ensures
            r.spec_is_default(),
    {
        DependencyCheck::Check(DependencyCheckSettings::default())
    }
}

/// The settings for the dependency check
#[derive(Debug, Clone, PartialEq, Eq, PartialOrd, Ord, Hash)]
pub struct DependencyCheckSettings {
    /// Exclude the "default" flag
    pub exclude_default: bool,
    /// Exclude all features that start with an underscore
    pub exclude_flags_with_leading_underscore: bool,
    /// What dependency types are blacklisted
    pub blacklisted_dependency_kind: SelectedDependencyType,
    /// [`blacklisted_dependency_kind`](Self::blacklisted_dependency_kind) should be treated as whitelist instead
    pub blacklisted_dependency_kind_is_whitelist: bool,
    /// What dependencies should be skipped
    pub blacklisted_dependencies: Vec<String>,
    /// [`blacklisted_dependency_kind`](Self::blacklisted_dependencies) should be treated as whitelist instead
    pub blacklisted_dependencies_is_whitelist: bool,
    /// What features should be skipped
    pub blacklisted_features: Vec<String>,
    /// [`blacklisted_dependency_kind`](Self::blacklisted_features) should be treated as whitelist instead
    pub blacklisted_features_is_whitelist: bool,
    /// What combination of dependency and feature should be skipped, formatted as (Dep, Flag)
    pub blacklisted_dependency_features_combination: Vec<(String, String)>,
}

impl DependencyCheckSettings {
    /// The values that [`DependencyCheckSettings::default`] gives
    pub open spec fn spec_is_default(self) -> bool {
        &&& self.exclude_default
        &&& self.exclude_flags_with_leading_underscore
        &&& self.blacklisted_dependency_kind == (SelectedDependencyType {
            normal: true,
            build: false,
            dev: false,
        })
        &&& self.blacklisted_dependency_kind_is_whitelist
        &&& self.blacklisted_dependencies@.len() == 0
        &&& !self.blacklisted_dependencies_is_whitelist
        &&& self.blacklisted_features@.len() == 0
        &&& !self.blacklisted_features_is_whitelist
        &&& self.blacklisted_dependency_features_combination@.len() == 0
    }
}

impl Default for DependencyCheckSettings {
    fn default() -> (r: Self)
        ensures
            r.spec_is_default(),
    {
        DependencyCheckSettings {
            exclude_default: true,
            exclude_flags_with_leading_underscore: true,
            blacklisted_dependency_kind: SelectedDependencyType::default(),
            blacklisted_dependency_kind_is_whitelist: true,
            blacklisted_dependencies: Vec::new(),
            blacklisted_dependencies_is_whitelist: false,
            blacklisted_features: Vec::new(),
            blacklisted_features_is_whitelist: false,
            blacklisted_dependency_features_combination: Vec::new(),
        }
    }
}

/// Selected dependency types, a dependency can either be normal, build, or dev
#[derive(Debug, Clone, Copy, PartialEq, Eq, PartialOrd, Ord, Hash)]
pub struct SelectedDependencyType {
    /// Normal crates
    pub normal: bool,
    /// Crates that are only used using compile time
    pub build: bool,
    /// Crates that are only used in dev
    pub dev: bool,
}

impl Default for SelectedDependencyType {
    fn default() -> (r: Self)
        ensures
            r == (SelectedDependencyType { normal: true, build: false, dev: false }),
    {
        SelectedDependencyType { normal: true, build: false, dev: false }
    }
}

impl SetupSettings {
    /// Overwrite the [`NightlySettings`] wholesale.
    pub fn set_nightly(&mut self, nightly: NightlySettings) -> (r: &mut Self)
        ensures
            *r == (SetupSettings { nightly, ..*old(self) }),
            *final(self) == *final(r),
    {
        self.nightly = nightly;
        self
    }

    /// Shortcut: force nightly behavior to be reported as active.
    pub fn set_nightly_overwrite_with_nightly(&mut self) -> (r: &mut Self)
        ensures
            *r == (SetupSettings { nightly: NightlySettings::OverwriteWithNightly, ..*old(self) }),
            *final(self) == *final(r),
    {
        self.nightly = NightlySettings::OverwriteWithNightly;
        self
    }

    /// Shortcut: force nightly behavior to be reported as inactive (stable).
    pub fn set_nightly_overwrite_with_stable(&mut self) -> (r: &mut Self)
        ensures
            *r == (SetupSettings { nightly: NightlySettings::OverwriteWithStable, ..*old(self) }),
            *final(self) == *final(r),
    {
        self.nightly = NightlySettings::OverwriteWithStable;
        self
    }

    /// Shortcut: let nightly/stable be detected automatically.
    pub fn set_nightly_detect_automatically(&mut self) -> (r: &mut Self)
        ensures
            *r == (SetupSettings { nightly: NightlySettings::DetectAutomatically, ..*old(self) }),
            *final(self) == *final(r),
    {
        self.nightly = NightlySettings::DetectAutomatically;
        self
    }

    /// Get mutable access to the nested [`NightlySettings`] for further chaining.
    pub fn nightly_mut(&mut self) -> (r: &mut NightlySettings)
        ensures
            *r == old(self).nightly,
            *final(self) == (SetupSettings { nightly: *final(r), ..*old(self) }),
    {
        &mut self.nightly
    }

    /// Set whether `CRATE_PRESENT_{CRATE}` cfgs should be emitted.
    pub fn set_crate_present_cfg(&mut self, enabled: bool) -> (r: &mut Self)
        ensures
            *r == (SetupSettings { set_crate_present_cfg: enabled, ..*old(self) }),
            *final(self) == *final(r),
    {
        self.set_crate_present_cfg = enabled;
        self
    }

    /// Convenience: enable `CRATE_PRESENT_{CRATE}` cfg emission.
    pub fn enable_crate_present_cfg(&mut self) -> (r: &mut Self)
        ensures
            *r == (SetupSettings { set_crate_present_cfg: true, ..*old(self) }),
            *final(self) == *final(r),
    {
        self.set_crate_present_cfg = true;
        self
    }

    /// Convenience: disable `CRATE_PRESENT_{CRATE}` cfg emission.
    pub fn disable_crate_present_cfg(&mut self) -> (r: &mut Self)
        ensures
            *r == (SetupSettings { set_crate_present_cfg: false, ..*old(self) }),
            *final(self) == *final(r),
    {
        self.set_crate_present_cfg = false;
        self
    }

    /// Overwrite the [`FlagConditionCheck`] wholesale.
    pub fn set_flag_condition_check(&mut self, check: FlagConditionCheck) -> (r: &mut Self)
        ensures
            *r == (SetupSettings { flag_condition_check: check, ..*old(self) }),
            *final(self) == *final(r),
    {
        self.flag_condition_check = check;
        self
    }

    /// Get mutable access to the nested [`FlagConditionCheck`] for further chaining.
    pub fn flag_condition_check_mut(&mut self) -> (r: &mut FlagConditionCheck)
        ensures
            *r == old(self).flag_condition_check,
            *final(self) == (SetupSettings { flag_condition_check: *final(r), ..*old(self) }),
    {
        &mut self.flag_condition_check
    }

    /// Overwrite the [`DependencyCheck`] wholesale.
    pub fn set_dependency_check(&mut self, check: DependencyCheck) -> (r: &mut Self)
        ensures
            *r == (SetupSettings { dependency_check: check, ..*old(self) }),
            *final(self) == *final(r),
    {
        self.dependency_check = check;
        self
    }

    /// Convenience: disable dependency checking entirely.
    pub fn disable_dependency_check(&mut self) -> (r: &mut Self)
        ensures
            *r == (SetupSettings { dependency_check: DependencyCheck::DoNotCheck, ..*old(self) }),
            *final(self) == *final(r),
    {
        self.dependency_check = DependencyCheck::DoNotCheck;
        self
    }

    /// Convenience: enable dependency checking with default settings, unless
    /// it is already enabled (in which case existing settings are kept).
    pub fn enable_dependency_check(&mut self) -> (r: &mut Self)
        ensures
            old(self).dependency_check is Check ==> *r == *old(self),
            old(self).dependency_check is DoNotCheck ==> r.dependency_check.spec_is_default() && *r
                == (SetupSettings { dependency_check: r.dependency_check, ..*old(self) }),
            *final(self) == *final(r),
    {
        if !matches!(self.dependency_check, DependencyCheck::Check(_)) {
            self.dependency_check = DependencyCheck::Check(DependencyCheckSettings::default());
        }
        self
    }

    /// Get mutable access to the nested [`DependencyCheck`] for further chaining.
    pub fn dependency_check_mut(&mut self) -> (r: &mut DependencyCheck)
        ensures
            *r == old(self).dependency_check,
            *final(self) == (SetupSettings { dependency_check: *final(r), ..*old(self) }),
    {
        &mut self.dependency_check
    }

    /// Switch the dependency check on (with default settings where it was
    /// off) and let `closure` change its settings
    pub fn with_enabled_dependency_check_settings<F: Fn(&mut DependencyCheckSettings)>(
        &mut self,
        closure: F,
    ) -> (r: &mut Self)
        requires
            forall|s: &mut DependencyCheckSettings| closure.requires((s,)),
        ensures
            *final(self) == *final(r),
            (*r).nightly == old(self).nightly,
            (*r).set_crate_present_cfg == old(self).set_crate_present_cfg,
            (*r).flag_condition_check == old(self).flag_condition_check,
            exists|m: &mut DependencyCheckSettings|
                #![trigger closure.ensures((m,), ())]
                (match old(self).dependency_check {
                    DependencyCheck::Check(s0) => *m == s0,
                    DependencyCheck::DoNotCheck => (*m).spec_is_default(),
                }) && closure.ensures((m,), ()) && (*r).dependency_check == DependencyCheck::Check(
                    *final(m),
                ),
    {
        let settings = self.dependency_check.ensure_check_mut();
        closure(settings);
        self
    }

    /// Reset the entire struct back to its default values.
    pub fn reset(&mut self) -> (r: &mut Self)
        ensures
            r.spec_is_default(),
            *final(self) == *final(r),
    {
        *self = Self::default();
        self
    }
}

impl NightlySettings {
    /// Set this to [`NightlySettings::OverwriteWithNightly`].
    pub fn set_overwrite_with_nightly(&mut self) -> (r: &mut Self)
        ensures
            *r == NightlySettings::OverwriteWithNightly,
            *final(self) == *final(r),
    {
        *self = NightlySettings::OverwriteWithNightly;
        self
    }

    /// Set this to [`NightlySettings::OverwriteWithStable`].
    pub fn set_overwrite_with_stable(&mut self) -> (r: &mut Self)
        ensures
            *r == NightlySettings::OverwriteWithStable,
            *final(self) == *final(r),
    {
        *self = NightlySettings::OverwriteWithStable;
        self
    }

    /// Set this to [`NightlySettings::DetectAutomatically`].
    pub fn set_detect_automatically(&mut self) -> (r: &mut Self)
        ensures
            *r == NightlySettings::DetectAutomatically,
            *final(self) == *final(r),
    {
        *self = NightlySettings::DetectAutomatically;
        self
    }

    /// Directly assign a new value.
    pub fn set(&mut self, value: Self) -> (r: &mut Self)
        ensures
            *r == value,
            *final(self) == *final(r),
    {
        *self = value;
        self
    }

}

impl FlagConditionCheck {
    /// Set whether the `miri` flag should be checked.
    pub fn set_miri(&mut self, enabled: bool) -> (r: &mut Self)
        ensures
            *r == (FlagConditionCheck { miri: enabled, ..*old(self) }),
            *final(self) == *final(r),
    {
        self.miri = enabled;
        self
    }

    /// Set whether the `test` flag should be checked.
    pub fn set_test(&mut self, enabled: bool) -> (r: &mut Self)
        ensures
            *r == (FlagConditionCheck { test: enabled, ..*old(self) }),
            *final(self) == *final(r),
    {
        self.test = enabled;
        self
    }

    /// Enable checking for the `miri` flag.
    pub fn enable_miri(&mut self) -> (r: &mut Self)
        ensures
            *r == (FlagConditionCheck { miri: true, ..*old(self) }),
            *final(self) == *final(r),
    {
        self.set_miri(true);
        self
    }

    /// Disable checking for the `miri` flag.
    pub fn disable_miri(&mut self) -> (r: &mut Self)
        ensures
            *r == (FlagConditionCheck { miri: false, ..*old(self) }),
            *final(self) == *final(r),
    {
        self.set_miri(false);
        self
    }

    /// Enable checking for the `test` flag.
    pub fn enable_test(&mut self) -> (r: &mut Self)
        ensures
            *r == (FlagConditionCheck { test: true, ..*old(self) }),
            *final(self) == *final(r),
    {
        self.set_test(true);
        self
    }

    /// Disable checking for the `test` flag.
    pub fn disable_test(&mut self) -> (r: &mut Self)
        ensures
            *r == (FlagConditionCheck { test: false, ..*old(self) }),
            *final(self) == *final(r),
    {
        self.set_test(false);
        self
    }

    /// Set both `miri` and `test` checks to the same value at once.
    pub fn set_all(&mut self, enabled: bool) -> (r: &mut Self)
        ensures
            *r == (FlagConditionCheck { miri: enabled, test: enabled }),
            *final(self) == *final(r),
    {
        self.miri = enabled;
        self.test = enabled;
        self
    }

    /// Enable all flag condition checks.
    pub fn enable_all(&mut self) -> (r: &mut Self)
        ensures
            *r == (FlagConditionCheck { miri: true, test: true }),
            *final(self) == *final(r),
    {
        self.set_all(true);
        self
    }

    /// Disable all flag condition checks.
    pub fn disable_all(&mut self) -> (r: &mut Self)
        ensures
            *r == (FlagConditionCheck { miri: false, test: false }),
            *final(self) == *final(r),
    {
        self.set_all(false);
        self
    }

}

impl DependencyCheck {
    /// Set this to [`DependencyCheck::DoNotCheck`].
    pub fn set_do_not_check(&mut self) -> (r: &mut Self)
        ensures
            *r == DependencyCheck::DoNotCheck,
            *final(self) == *final(r),
    {
        *self = DependencyCheck::DoNotCheck;
        self
    }

    /// Set this to [`DependencyCheck::Check`] with the provided settings.
    pub fn set_check(&mut self, settings: DependencyCheckSettings) -> (r: &mut Self)
        ensures
            *r == DependencyCheck::Check(settings),
            *final(self) == *final(r),
    {
        *self = DependencyCheck::Check(settings);
        self
    }

    /// Set this to [`DependencyCheck::Check`] with default settings.
    pub fn set_check_default(&mut self) -> (r: &mut Self)
        ensures
            r.spec_is_default(),
            *final(self) == *final(r),
    {
        self.set_check(DependencyCheckSettings::default())
    }

    /// Directly assign a new value.
    pub fn set(&mut self, value: Self) -> (r: &mut Self)
        ensures
            *r == value,
            *final(self) == *final(r),
    {
        *self = value;
        self
    }

    /// Get mutable access to the inner [`DependencyCheckSettings`], if this is
    /// currently the `Check` variant. Returns `None` for `DoNotCheck`.
    pub fn settings_mut(&mut self) -> (r: Option<&mut DependencyCheckSettings>)
        ensures
            *old(self) is DoNotCheck ==> r is None && *final(self) == *old(self),
            *old(self) is Check ==> r is Some && *(r->0) == (*old(self))->0 && *final(self)
                == DependencyCheck::Check(*final(r->0)),
    {
        match self {
            DependencyCheck::Check(settings) => Some(settings),
            DependencyCheck::DoNotCheck => None,
        }
    }

    /// Ensure this is the `Check` variant (switching to default settings if
    /// it wasn't already), then return mutable access to its settings.
    pub fn ensure_check_mut(&mut self) -> (r: &mut DependencyCheckSettings)
        ensures
            *old(self) is Check ==> *r == (*old(self))->0,
            *old(self) is DoNotCheck ==> r.spec_is_default(),
            *final(self) == DependencyCheck::Check(*final(r)),
    {
        if !matches!(self, DependencyCheck::Check(_)) {
            *self = DependencyCheck::Check(DependencyCheckSettings::default());
        }
        match self {
            DependencyCheck::Check(settings) => settings,
            DependencyCheck::DoNotCheck => vstd::pervasive::unreached(),
        }
    }
}

impl DependencyCheckSettings {
    /// Set whether the "default" feature should be excluded.
    pub fn set_exclude_default(&mut self, exclude: bool) -> (r: &mut Self)
        ensures
            *r == (DependencyCheckSettings { exclude_default: exclude, ..*old(self) }),
            *final(self) == *final(r),
    {
        self.exclude_default = exclude;
        self
    }

    /// Set whether features starting with `_` should be excluded.
    pub fn set_exclude_flags_with_leading_underscore(&mut self, exclude: bool) -> (r: &mut Self)
        ensures
            *r == (DependencyCheckSettings { exclude_flags_with_leading_underscore: exclude, ..*old(self) }),
            *final(self) == *final(r),
    {
        self.exclude_flags_with_leading_underscore = exclude;
        self
    }

    /// Overwrite the blacklisted dependency kind wholesale.
    pub fn set_blacklisted_dependency_kind(&mut self, kind: SelectedDependencyType) -> (r: &mut Self)
        ensures
            *r == (DependencyCheckSettings { blacklisted_dependency_kind: kind, ..*old(self) }),
            *final(self) == *final(r),
    {
        self.blacklisted_dependency_kind = kind;
        self
    }

    /// Get mutable access to the blacklisted dependency kind for chaining.
    pub fn blacklisted_dependency_kind_mut(&mut self) -> (r: &mut SelectedDependencyType)
        ensures
            *r == old(self).blacklisted_dependency_kind,
            *final(self) == (DependencyCheckSettings {
                blacklisted_dependency_kind: *final(r),
                ..*old(self)
            }),
    {
        &mut self.blacklisted_dependency_kind
    }

    /// Set whether `blacklisted_dependency_kind` should be treated as a whitelist.
    pub fn set_blacklisted_dependency_kind_is_whitelist(&mut self, is_whitelist: bool) -> (r: &mut Self)
        ensures
            *r == (DependencyCheckSettings { blacklisted_dependency_kind_is_whitelist: is_whitelist, ..*old(self) }),
            *final(self) == *final(r),
    {
        self.blacklisted_dependency_kind_is_whitelist = is_whitelist;
        self
    }

    /// Overwrite the list of blacklisted dependencies wholesale.
    pub fn set_blacklisted_dependencies(&mut self, dependencies: Vec<String>) -> (r: &mut Self)
        ensures
            *r == (DependencyCheckSettings { blacklisted_dependencies: dependencies, ..*old(self) }),
            *final(self) == *final(r),
    {
        self.blacklisted_dependencies = dependencies;
        self
    }

    /// Add a single dependency to the blacklist (no-op if already present).
    pub fn add_blacklisted_dependency(&mut self, dependency: &str) -> (r: &mut Self)
        ensures
            spec_views(r.blacklisted_dependencies@) == spec_with_added(spec_views(old(self).blacklisted_dependencies@), dependency@),
            *r == (DependencyCheckSettings { blacklisted_dependencies: r.blacklisted_dependencies, ..*old(self) }),
            *final(self) == *final(r),
    {
        add_str(&mut self.blacklisted_dependencies, dependency);
        self
    }

    /// Add multiple dependencies to the blacklist at once.
    pub fn add_blacklisted_dependencies(&mut self, dependencies: &[&str]) -> (r: &mut Self)
        ensures
            spec_views(r.blacklisted_dependencies@) == spec_added_all(
                spec_views(old(self).blacklisted_dependencies@),
                dependencies@.map_values(|s: &str| s@),
            ),
            *r == (DependencyCheckSettings { blacklisted_dependencies: r.blacklisted_dependencies, ..*old(self) }),
            *final(self) == *final(r),
    {
        let ghost items = dependencies@.map_values(|s: &str| s@);
        let ghost start = spec_views(self.blacklisted_dependencies@);
        let mut i: usize = 0;
        while i < dependencies.len()
            invariant
                i <= dependencies@.len(),
                items == dependencies@.map_values(|s: &str| s@),
                spec_views(self.blacklisted_dependencies@) == spec_added_all(start, items.take(i as int)),
                *self == (DependencyCheckSettings { blacklisted_dependencies: self.blacklisted_dependencies, ..*old(self) }),
            decreases dependencies@.len() - i,
        {
            self.add_blacklisted_dependency(dependencies[i]);
            assert(items.take(i + 1).drop_last() =~= items.take(i as int));
            i = i + 1;
        }
        assert(items.take(i as int) =~= items);
        self
    }

    /// Remove a single dependency from the blacklist, if present.
    pub fn remove_blacklisted_dependency(&mut self, dependency: &str) -> (r: &mut Self)
        ensures
            spec_views(r.blacklisted_dependencies@) == spec_without(spec_views(old(self).blacklisted_dependencies@), dependency@),
            *r == (DependencyCheckSettings { blacklisted_dependencies: r.blacklisted_dependencies, ..*old(self) }),
            *final(self) == *final(r),
    {
        remove_str(&mut self.blacklisted_dependencies, dependency);
        self
    }

    /// Clear all blacklisted dependencies.
    pub fn clear_blacklisted_dependencies(&mut self) -> (r: &mut Self)
        ensures
            r.blacklisted_dependencies@.len() == 0,
            *r == (DependencyCheckSettings { blacklisted_dependencies: r.blacklisted_dependencies, ..*old(self) }),
            *final(self) == *final(r),
    {
        self.blacklisted_dependencies.clear();
        self
    }

    /// Set whether `blacklisted_dependencies` should be treated as a whitelist.
    pub fn set_blacklisted_dependencies_is_whitelist(&mut self, is_whitelist: bool) -> (r: &mut Self)
        ensures
            *r == (DependencyCheckSettings { blacklisted_dependencies_is_whitelist: is_whitelist, ..*old(self) }),
            *final(self) == *final(r),
    {
        self.blacklisted_dependencies_is_whitelist = is_whitelist;
        self
    }

    /// Overwrite the list of blacklisted features wholesale.
    pub fn set_blacklisted_features(&mut self, features: Vec<String>) -> (r: &mut Self)
        ensures
            *r == (DependencyCheckSettings { blacklisted_features: features, ..*old(self) }),
            *final(self) == *final(r),
    {
        self.blacklisted_features = features;
        self
    }

    /// Add a single feature to the blacklist (no-op if already present).
    pub fn add_blacklisted_feature(&mut self, feature: &str) -> (r: &mut Self)
        ensures
            spec_views(r.blacklisted_features@) == spec_with_added(spec_views(old(self).blacklisted_features@), feature@),
            *r == (DependencyCheckSettings { blacklisted_features: r.blacklisted_features, ..*old(self) }),
            *final(self) == *final(r),
    {
        add_str(&mut self.blacklisted_features, feature);
        self
    }

    /// Add multiple features to the blacklist at once.
    pub fn add_blacklisted_features(&mut self, features: &[&str]) -> (r: &mut Self)
        ensures
            spec_views(r.blacklisted_features@) == spec_added_all(
                spec_views(old(self).blacklisted_features@),
                features@.map_values(|s: &str| s@),
            ),
            *r == (DependencyCheckSettings { blacklisted_features: r.blacklisted_features, ..*old(self) }),
            *final(self) == *final(r),
    {
        let ghost items = features@.map_values(|s: &str| s@);
        let ghost start = spec_views(self.blacklisted_features@);
        let mut i: usize = 0;
        while i < features.len()
            invariant
                i <= features@.len(),
                items == features@.map_values(|s: &str| s@),
                spec_views(self.blacklisted_features@) == spec_added_all(start, items.take(i as int)),
                *self == (DependencyCheckSettings { blacklisted_features: self.blacklisted_features, ..*old(self) }),
            decreases features@.len() - i,
        {
            self.add_blacklisted_feature(features[i]);
            assert(items.take(i + 1).drop_last() =~= items.take(i as int));
            i = i + 1;
        }
        assert(items.take(i as int) =~= items);
        self
    }

    /// Remove a single feature from the blacklist, if present.
    pub fn remove_blacklisted_feature(&mut self, feature: &str) -> (r: &mut Self)
        ensures
            spec_views(r.blacklisted_features@) == spec_without(spec_views(old(self).blacklisted_features@), feature@),
            *r == (DependencyCheckSettings { blacklisted_features: r.blacklisted_features, ..*old(self) }),
            *final(self) == *final(r),
    {
        remove_str(&mut self.blacklisted_features, feature);
        self
    }

    /// Clear all blacklisted features.
    pub fn clear_blacklisted_features(&mut self) -> (r: &mut Self)
        ensures
            r.blacklisted_features@.len() == 0,
            *r == (DependencyCheckSettings { blacklisted_features: r.blacklisted_features, ..*old(self) }),
            *final(self) == *final(r),
    {
        self.blacklisted_features.clear();
        self
    }

    /// Set whether `blacklisted_features` should be treated as a whitelist.
    pub fn set_blacklisted_features_is_whitelist(&mut self, is_whitelist: bool) -> (r: &mut Self)
        ensures
            *r == (DependencyCheckSettings { blacklisted_features_is_whitelist: is_whitelist, ..*old(self) }),
            *final(self) == *final(r),
    {
        self.blacklisted_features_is_whitelist = is_whitelist;
        self
    }

    /// Overwrite the list of blacklisted (dependency, feature) combinations wholesale.
    pub fn set_blacklisted_dependency_features_combination(&mut self, combinations: Vec<(String, String)>) -> (r: &mut Self)
        ensures
            *r == (DependencyCheckSettings { blacklisted_dependency_features_combination: combinations, ..*old(self) }),
            *final(self) == *final(r),
    {
        self.blacklisted_dependency_features_combination = combinations;
        self
    }

    /// Add a single (dependency, feature) combination to the blacklist
    /// (no-op if already present).
    pub fn add_blacklisted_dependency_feature_combination(
        &mut self,
        dependency: &str,
        feature: &str,
    ) -> (r: &mut Self)
        ensures
            spec_pair_views(r.blacklisted_dependency_features_combination@) == spec_with_added(
                spec_pair_views(old(self).blacklisted_dependency_features_combination@),
                (dependency@, feature@),
            ),
            *r == (DependencyCheckSettings { blacklisted_dependency_features_combination: r.blacklisted_dependency_features_combination, ..*old(self) }),
            *final(self) == *final(r),
    {
        add_str_pair(&mut self.blacklisted_dependency_features_combination, dependency, feature);
        self
    }

    /// Remove a single (dependency, feature) combination from the blacklist, if present.
    pub fn remove_blacklisted_dependency_feature_combination(
        &mut self,
        dependency: &str,
        feature: &str,
    ) -> (r: &mut Self)
        ensures
            spec_pair_views(r.blacklisted_dependency_features_combination@) == spec_without(
                spec_pair_views(old(self).blacklisted_dependency_features_combination@),
                (dependency@, feature@),
            ),
            *r == (DependencyCheckSettings { blacklisted_dependency_features_combination: r.blacklisted_dependency_features_combination, ..*old(self) }),
            *final(self) == *final(r),
    {
        remove_str_pair(&mut self.blacklisted_dependency_features_combination, dependency, feature);
        self
    }

    /// Clear all blacklisted (dependency, feature) combinations.
    pub fn clear_blacklisted_dependency_features_combination(&mut self) -> (r: &mut Self)
        ensures
            r.blacklisted_dependency_features_combination@.len() == 0,
            *r == (DependencyCheckSettings { blacklisted_dependency_features_combination: r.blacklisted_dependency_features_combination, ..*old(self) }),
            *final(self) == *final(r),
    {
        self.blacklisted_dependency_features_combination.clear();
        self
    }

    /// Reset this struct back to its default values.
    pub fn reset(&mut self) -> (r: &mut Self)
        ensures
            r.spec_is_default(),
            *final(self) == *final(r),
    {
        *self = Self::default();
        self
    }
}

impl SelectedDependencyType {
    /// Set whether normal dependencies are selected.
    pub fn set_normal(&mut self, enabled: bool) -> (r: &mut Self)
        ensures
            *r == (SelectedDependencyType { normal: enabled, ..*old(self) }),
            *final(self) == *final(r),
    {
        self.normal = enabled;
        self
    }

    /// Set whether build dependencies are selected.
    pub fn set_build(&mut self, enabled: bool) -> (r: &mut Self)
        ensures
            *r == (SelectedDependencyType { build: enabled, ..*old(self) }),
            *final(self) == *final(r),
    {
        self.build = enabled;
        self
    }

    /// Set whether dev dependencies are selected.
    pub fn set_dev(&mut self, enabled: bool) -> (r: &mut Self)
        ensures
            *r == (SelectedDependencyType { dev: enabled, ..*old(self) }),
            *final(self) == *final(r),
    {
        self.dev = enabled;
        self
    }

    /// Set normal, build, and dev all to the same value at once.
    pub fn set_all(&mut self, enabled: bool) -> (r: &mut Self)
        ensures
            *r == (SelectedDependencyType { normal: enabled, build: enabled, dev: enabled }),
            *final(self) == *final(r),
    {
        self.normal = enabled;
        self.build = enabled;
        self.dev = enabled;
        self
    }

    /// Select every dependency kind (normal, build, dev).
    pub fn enable_all(&mut self) -> (r: &mut Self)
        ensures
            *r == (SelectedDependencyType { normal: true, build: true, dev: true }),
            *final(self) == *final(r),
    {
        self.set_all(true);
        self
    }

    /// Deselect every dependency kind (normal, build, dev).
    pub fn disable_all(&mut self) -> (r: &mut Self)
        ensures
            *r == (SelectedDependencyType { normal: false, build: false, dev: false }),
            *final(self) == *final(r),
    {
        self.set_all(false);
        self
    }

    /// Toggle the normal flag.
    pub fn toggle_normal(&mut self) -> (r: &mut Self)
        ensures
            *r == (SelectedDependencyType { normal: !old(self).normal, ..*old(self) }),
            *final(self) == *final(r),
    {
        self.normal = !self.normal;
        self
    }

    /// Toggle the build flag.
    pub fn toggle_build(&mut self) -> (r: &mut Self)
        ensures
            *r == (SelectedDependencyType { build: !old(self).build, ..*old(self) }),
            *final(self) == *final(r),
    {
        self.build = !self.build;
        self
    }

    /// Toggle the dev flag.
    pub fn toggle_dev(&mut self) -> (r: &mut Self)
        ensures
            *r == (SelectedDependencyType { dev: !old(self).dev, ..*old(self) }),
            *final(self) == *final(r),
    {
        self.dev = !self.dev;
        self
    }

}

/// `v` after adding each of `items` in turn, skipping those already present
pub open spec fn spec_added_all(v: Seq<Seq<char>>, items: Seq<Seq<char>>) -> Seq<Seq<char>>
    decreases items.len(),
{
    if items.len() == 0 {
        v
    } else {
        spec_with_added(spec_added_all(v, items.drop_last()), items.last())
    }
}

} // verus!
