//! The recipe's data: packages, per-package results and the sync report.
use vstd::prelude::*;

verus! {

/// One entry of a recipe: a Homebrew formula or cask.
#[derive(Debug, Clone)]
pub struct BrewPackage {
    pub name: String,
    pub category: Option<String>,
    pub url: Option<String>,
    pub cask: Option<bool>,
    pub version: Option<String>,
}

/// A recipe: the packages it lists, in order.
pub type Recipe = Vec<BrewPackage>;

/// Outcome of installing or removing one package.
#[derive(Debug, Clone)]
pub struct BrewPackageResult {
    pub name: String,
    pub status: String,
}

/// What a recipe asks for compared with what is installed.
#[derive(Debug, Clone)]
pub struct BrewSyncReport {
    pub to_install: Vec<BrewPackage>,
    pub to_remove: Vec<BrewPackage>,
    pub in_sync: Vec<BrewPackage>,
}

/// Copies an optional string, keeping its value.
pub fn copy_opt_string(o: &Option<String>) -> (r: Option<String>)
    ensures
        r == *o,
{
    match o {
        Some(s) => Some(s.clone()),
        None => None,
    }
}

impl BrewPackage {
    /// A copy of the package, equal to it field by field.
    pub fn duplicate(&self) -> (r: BrewPackage)
        ensures
            r == *self,
    {
        BrewPackage {
            name: self.name.clone(),
            category: copy_opt_string(&self.category),
            url: copy_opt_string(&self.url),
            cask: self.cask,
            version: copy_opt_string(&self.version),
        }
    }
}

} // verus!
