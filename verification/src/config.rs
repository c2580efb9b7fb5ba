//! The runtime's configuration: the plugins to load, in their order.

use vstd::prelude::*;
use crate::entries::BlackboardEntry;

verus! {

/// The attributes that a plugin is configured with.
pub type BlackboardEntries = Vec<BlackboardEntry>;

/// A plugin to load: its name, the file to load it from where that is not
/// the default for the name, and its attributes.
#[derive(Debug)]
pub struct LibraryConfig {
    pub name: String,
    pub path: Option<String>,
    pub attributes: Option<BlackboardEntries>,
}

/// The plugins to load, in their order.
pub type LibraryConfigs = Vec<LibraryConfig>;

/// The whole configuration.
#[derive(Debug)]
pub struct RTConfig {
    pub libraries: LibraryConfigs,
}

} // verus!
