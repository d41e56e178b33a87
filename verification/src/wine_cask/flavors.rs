//! The compatibility tools that can be installed, and those that are.
use crate::github_util::Release;
use vstd::prelude::*;

verus! {

/// The project that a compatibility tool comes from.
#[derive(Clone, Copy, Debug, PartialEq, Eq, Structural)]
pub enum CompatibilityToolFlavor {
    Unknown,
    ProtonGE,
    ProtonCachyOS,
    SteamTinkerLaunch,
    Luxtorpeda,
    Boxtron,
}

/// A release that is offered for installation.
#[derive(Clone)]
pub struct CatalogRelease {
    pub id: String,
    pub flavor: CompatibilityToolFlavor,
    /// The name that the flavor is shown under.
    pub flavor_name: String,
    pub release: Release,
}

/// How a tool came to be installed.
#[derive(Clone, Copy, Debug, PartialEq, Eq, Structural)]
pub enum InstalledToolSource {
    Direct,
    Virtual,
}

/// A tool that is installed.
pub struct InstalledTool {
    pub display_name: String,
    pub user_label: Option<String>,
    pub path: String,
    pub source: InstalledToolSource,
    pub virtual_tool_id: Option<String>,
}

} // verus!
