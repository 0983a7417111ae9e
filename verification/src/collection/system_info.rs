//! Mostly-static metadata about the system, written in each log file header

use vstd::prelude::*;

verus! {

/// Metadata about a Linux distribution, as given by `os-release`
#[derive(Clone, Debug, PartialEq, Eq)]
pub struct Distribution {
    pub id: Option<String>,
    pub id_like: Option<String>,
    pub name: Option<String>,
    pub pretty_name: Option<String>,
    pub version: Option<String>,
    pub version_id: Option<String>,
    pub version_codename: Option<String>,
    pub cpe_name: Option<String>,
    pub build_id: Option<String>,
    pub variant: Option<String>,
    pub variant_id: Option<String>,
}

/// Mostly-static metadata about a system and its network/hardware
/// configuration
#[derive(Clone, Debug, PartialEq, Eq)]
pub struct SystemInfo {
    pub os_type: Option<String>,
    pub os_release: Option<String>,
    pub distribution: Option<Distribution>,
    pub memory_total: Option<u64>,
    pub swap_total: Option<u64>,
    pub hostname: Option<String>,
    pub cpu_count: u64,
    pub cpu_online_count: u64,
    pub cpu_speed: Option<u64>,
}

} // verus!
