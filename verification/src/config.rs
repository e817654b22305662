//! The desired addons, as the configuration lists them.

use vstd::prelude::*;

verus! {

/// One addon that the user wants present.
#[derive(Debug, Clone, PartialEq, Eq)]
pub struct AddonEntry {
    pub name: String,
    /// Where the addon is downloaded from, if it is not installed by hand.
    pub url: Option<String>,
    /// Whether the addon is wanted only because another addon depends on it.
    pub dependency: bool,
}

/// An `AddonEntry` with its strings as character sequences.
pub struct AddonEntryView {
    pub name: Seq<char>,
    pub url: Option<Seq<char>>,
    pub dependency: bool,
}

impl View for AddonEntry {
    type V = AddonEntryView;

    open spec fn view(&self) -> AddonEntryView {
        AddonEntryView {
            name: self.name@,
            url: match self.url {
                Some(u) => Some(u@),
                None => None,
            },
            dependency: self.dependency,
        }
    }
}

impl DeepView for AddonEntry {
    type V = AddonEntryView;

    open spec fn deep_view(&self) -> AddonEntryView {
        self@
    }
}

/// The configuration: where addons are installed, and which ones are wanted.
#[derive(Debug, PartialEq, Eq)]
pub struct Config {
    pub addon_dir: String,
    pub addons: Vec<AddonEntry>,
}

/// The `dependency` flag of an entry that does not state it.
pub fn default_dependency() -> (flag: bool)
    ensures
        !flag,
{
    false
}

} // verus!
