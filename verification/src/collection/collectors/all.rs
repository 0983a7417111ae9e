//! The collectors of every collection method

use vstd::prelude::*;
use crate::collection::collectors::{cgroup_v2, cgroups_v1};
use crate::collection::perf_table::{TableMetadata, column_views};
use crate::shared::CollectionMethod;
use crate::util::cgroup::{CgroupPath, CgroupVersion};

verus! {

/// A collector of one of the supported kinds
pub enum CollectorImpl {
    CgroupV1(cgroups_v1::Collector),
    CgroupV2(cgroup_v2::Collector),
}

/// The collector a collection method calls for: the one of the cgroup's
/// version, not yet initialized
pub open spec fn collector_for(method: CollectionMethod) -> CollectorImpl {
    match method {
        CollectionMethod::LinuxCgroups(path) => match path.version {
            CgroupVersion::V1 => CollectorImpl::CgroupV1(
                cgroups_v1::Collector { cgroup: path, memory_layout: None },
            ),
            CgroupVersion::V2 => CollectorImpl::CgroupV2(cgroup_v2::Collector { cgroup: path }),
        },
    }
}

impl From<CollectionMethod> for CollectorImpl {
    fn from(method: CollectionMethod) -> (r: Self) {
        match method {
            CollectionMethod::LinuxCgroups(path) => match path.version {
                CgroupVersion::V1 => CollectorImpl::CgroupV1(cgroups_v1::Collector::new(path)),
                CgroupVersion::V2 => CollectorImpl::CgroupV2(cgroup_v2::Collector::new(path)),
            },
        }
    }
}

impl vstd::std_specs::convert::FromSpecImpl<CollectionMethod> for CollectorImpl {
    open spec fn obeys_from_spec() -> bool {
        true
    }

    open spec fn from_spec(method: CollectionMethod) -> CollectorImpl {
        collector_for(method)
    }
}

impl CollectorImpl {
    /// The type of the collector, as written in log file headers
    pub fn get_type(&self) -> (r: &'static str)
        ensures
            self is CgroupV1 ==> r@ == "cgroups_v1"@,
            self is CgroupV2 ==> r@ == "cgroup_v2"@,
    {
        match self {
            CollectorImpl::CgroupV1(v1) => v1.get_type(),
            CollectorImpl::CgroupV2(v2) => v2.get_type(),
        }
    }

    /// Metadata on the columns of the collector's table, for a system with
    /// `num_cores` cores
    pub fn table_metadata(&self, num_cores: u64) -> (r: TableMetadata)
        ensures
            r.delimiter@ == ","@,
            self is CgroupV1 ==> column_views(r.columns@) == cgroups_v1::table_columns(num_cores),
            self is CgroupV2 ==> column_views(r.columns@) == cgroup_v2::table_columns(),
    {
        match self {
            CollectorImpl::CgroupV1(v1) => v1.table_metadata(num_cores),
            CollectorImpl::CgroupV2(v2) => v2.table_metadata(),
        }
    }

    /// The cgroup the collector reads
    pub fn cgroup(&self) -> (r: &CgroupPath)
        ensures
            self matches CollectorImpl::CgroupV1(c) ==> *r == c.cgroup,
            self matches CollectorImpl::CgroupV2(c) ==> *r == c.cgroup,
    {
        match self {
            CollectorImpl::CgroupV1(v1) => &v1.cgroup,
            CollectorImpl::CgroupV2(v2) => &v2.cgroup,
        }
    }
}

} // verus!
