//! The decisions of the Docker provider: which cgroup a container's
//! statistics are read from, and how a container is named in messages

use vstd::prelude::*;
use vstd::string::StringExecFns;
use crate::util::cgroup as cgroup_v;
use crate::util::cgroup::{CgroupDriver, CgroupManager, CgroupPath, CgroupSlices};
use crate::util::cgroups;
use crate::util::path;
use crate::shared::CollectionMethod;

verus! {

/// Name of the provider, as written in log file headers
pub const PROVIDER_TYPE: &'static str = "docker";

/// Gets a human-readable representation of the container, using its first
/// name, or its id when it has none
pub fn display<'a>(names: &'a [String], id: &'a str) -> (r: &'a str)
    ensures
        names@.len() > 0 ==> r@ == names@[0]@,
        names@.len() == 0 ==> r@ == id@,
{
    if names.len() > 0 {
        names[0].as_str()
    } else {
        id
    }
}

/// The systemd scope unit of a container
pub open spec fn scope_name(id: Seq<char>) -> Seq<char> {
    "docker-"@ + id + ".scope"@
}

/// The path of a container's cgroup for the given driver: under the dockerd
/// parent, `system.slice` for systemd and `docker` for cgroupfs, in a leaf
/// cgroup named by the (full) container id
pub open spec fn container_path(id: Seq<char>, driver: CgroupDriver) -> Seq<char> {
    match driver {
        CgroupDriver::Systemd => path::join_spec(seq!["system.slice"@, scope_name(id)]),
        CgroupDriver::Cgroupfs => path::join_spec(seq!["docker"@, id]),
    }
}

/// Gets the cgroup path of the container with the given id, detecting the
/// cgroup version and driver on the first lookups (systemd before cgroupfs);
/// the path is returned only when it exists
pub fn get_cgroup<F: Fn(&str) -> bool>(manager: &mut CgroupManager, id: &str, probe: &F) -> (r:
    Option<CgroupPath>)
    requires
        forall|s: &str| #[trigger] probe.requires((s,)),
    ensures
        r matches Some(cp) ==> {
            &&& final(manager).spec_driver() == Some(cp.driver)
            &&& final(manager).spec_version() == Some(cp.version)
            &&& cp.path@ == container_path(id@, cp.driver)
            &&& cgroup_v::exists_outcome(probe, Some(cp.path@), cp.version, true)
            &&& old(manager).spec_driver() matches Some(d) ==> cp.driver == d
            &&& (old(manager).spec_driver() is None && cp.driver == CgroupDriver::Cgroupfs)
                ==> cgroup_v::exists_outcome(
                probe,
                Some(container_path(id@, CgroupDriver::Systemd)),
                cp.version,
                false,
            )
        },
        r is None ==> cgroup_v::lookup_failed(
            probe,
            container_path(id@, CgroupDriver::Systemd),
            container_path(id@, CgroupDriver::Cgroupfs),
            *old(manager),
            *final(manager),
        ),
        old(manager).spec_version() is Some ==> final(manager).spec_version() == old(manager).spec_version(),
        old(manager).spec_version() is None ==> cgroup_v::version_outcome(probe, final(manager).spec_version()),
{
    let mut scope = "docker-".to_owned();
    scope.append(id);
    scope.append(".scope");
    let systemd: [&str; 2] = ["system.slice", scope.as_str()];
    let cgroupfs: [&str; 2] = ["docker", id];
    proof {
        assert(path::str_views(systemd@) =~= seq!["system.slice"@, scope_name(id@)]);
        assert(path::str_views(cgroupfs@) =~= seq!["docker"@, id@]);
    }
    let slices = CgroupSlices { cgroupfs: cgroupfs.as_slice(), systemd: systemd.as_slice() };
    match manager.get_cgroup(slices, probe) {
        Ok(cp) => Some(cp),
        Err(_) => None,
    }
}

/// Possible error that can occur during Docker container collection target
/// initialization
pub enum StartCollectionError {
    /// The metadata could not be serialized, with the description of why
    MetadataSerializationError(String),
    CgroupNotFound,
}

/// Gets the collection method of the container with the given id: its
/// cgroup, which must exist (`CgroupNotFound` otherwise)
pub fn get_collection_method<F: Fn(&str) -> bool>(manager: &mut CgroupManager, id: &str, probe: &F) -> (r:
    Result<CollectionMethod, StartCollectionError>)
    requires
        forall|s: &str| #[trigger] probe.requires((s,)),
    ensures
        r is Ok || (r matches Err(StartCollectionError::CgroupNotFound)),
        r matches Ok(CollectionMethod::LinuxCgroups(cp)) ==> {
            &&& final(manager).spec_driver() == Some(cp.driver)
            &&& final(manager).spec_version() == Some(cp.version)
            &&& cp.path@ == container_path(id@, cp.driver)
            &&& cgroup_v::exists_outcome(probe, Some(cp.path@), cp.version, true)
            &&& old(manager).spec_driver() matches Some(d) ==> cp.driver == d
            &&& (old(manager).spec_driver() is None && cp.driver == CgroupDriver::Cgroupfs)
                ==> cgroup_v::exists_outcome(
                probe,
                Some(container_path(id@, CgroupDriver::Systemd)),
                cp.version,
                false,
            )
        },
        (r matches Err(StartCollectionError::CgroupNotFound)) ==> cgroup_v::lookup_failed(
            probe,
            container_path(id@, CgroupDriver::Systemd),
            container_path(id@, CgroupDriver::Cgroupfs),
            *old(manager),
            *final(manager),
        ),
        old(manager).spec_version() is None ==> cgroup_v::version_outcome(probe, final(manager).spec_version()),
        old(manager).spec_version() is Some ==> final(manager).spec_version() == old(manager).spec_version(),
{
    match get_cgroup(manager, id, probe) {
        Some(cgroup) => Ok(CollectionMethod::LinuxCgroups(cgroup)),
        None => Err(StartCollectionError::CgroupNotFound),
    }
}

/// Possible errors that can occur during Docker provider initialization
pub enum DockerInitError {
    /// The connection check failed, with the description of the failure
    ConnectionFailed(String),
    InvalidCgroupMount,
}

impl DockerInitError {
    /// The suggestion printed for the error
    pub open spec fn spec_suggestion(&self) -> Seq<char> {
        match self {
            DockerInitError::ConnectionFailed(_) => "Could not connect to the docker socket. Are you running rAdvisor as root?\nIf running at a non-standard URL, set DOCKER_HOST to the correct URL."@,
            DockerInitError::InvalidCgroupMount => cgroups::INVALID_CGROUP_MOUNT_MESSAGE@,
        }
    }

    /// The suggestion printed for the error
    pub fn suggestion(&self) -> (r: String)
        ensures
            r@ == self.spec_suggestion(),
    {
        match self {
            DockerInitError::ConnectionFailed(_) => "Could not connect to the docker socket. Are you running rAdvisor as root?\nIf running at a non-standard URL, set DOCKER_HOST to the correct URL.".to_owned(),
            DockerInitError::InvalidCgroupMount => cgroups::INVALID_CGROUP_MOUNT_MESSAGE.to_owned(),
        }
    }

    /// The original error, if any
    pub fn original(&self) -> (r: Option<&String>)
        ensures
            self matches DockerInitError::ConnectionFailed(e) ==> r == Some(e),
            self is InvalidCgroupMount ==> r is None,
    {
        match self {
            DockerInitError::ConnectionFailed(e) => Some(e),
            DockerInitError::InvalidCgroupMount => None,
        }
    }
}

} // verus!
