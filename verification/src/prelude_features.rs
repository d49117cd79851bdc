//! Crates that can extend the prelude of a crate.
use vstd::prelude::*;

verus! {

/// Info about a prelude in a function
#[derive(Debug, Clone, Copy, PartialEq, Eq, PartialOrd, Ord, Hash)]
pub struct CratePrelude {
    /// Crate name
    pub name: &'static str,
    /// Overwrite locations
    pub overwrite: Option<&'static [&'static str]>,
}

impl CratePrelude {
    /// Create a new function without any overwrites
    pub fn new(name: &'static str) -> (r: Self)
        ensures
            r.name == name,
            r.overwrite is None,
    {
        Self { name, overwrite: None }
    }

    /// Create a new function with overwrites
    pub fn with_overwrite(name: &'static str, overwrite: &'static [&'static str]) -> (r: Self)
        ensures
            r.name == name,
            r.overwrite == Some(overwrite),
    {
        Self { name, overwrite: Some(overwrite) }
    }
}

} // verus!
