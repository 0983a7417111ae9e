//! Types shared by the polling and collection sides

use vstd::prelude::*;
use crate::util::cgroup::CgroupPath;

verus! {

/// Type of collection used; corresponds to a resultant CSV schema
pub enum CollectionMethod {
    LinuxCgroups(CgroupPath),
}

} // verus!
