//! Lazy resolution of the cgroup driver (systemd or cgroupfs) and the cgroup
//! version, and construction of existing cgroup paths. Works for cgroup v1 and
//! v2. Whether a path exists is asked of a probe callback, which the caller
//! backs with the filesystem.

use vstd::prelude::*;
use crate::util::path::{self, join_parts, push_path};
use vstd::string::StringExecFns;

verus! {

/// Docker cgroup driver used to orchestrate moving containers in and out of
/// cgroups
#[derive(Clone, Copy, Debug, PartialEq, Eq, Structural)]
pub enum CgroupDriver {
    Systemd,
    Cgroupfs,
}

impl CgroupDriver {
    /// The lowercase name of the driver
    pub fn name(&self) -> (r: &'static str)
        ensures
            r@ == match self {
                CgroupDriver::Systemd => "systemd"@,
                CgroupDriver::Cgroupfs => "cgroupfs"@,
            },
    {
        match self {
            CgroupDriver::Systemd => "systemd",
            CgroupDriver::Cgroupfs => "cgroupfs",
        }
    }
}

/// Linux cgroup version
#[derive(Clone, Copy, Debug, PartialEq, Eq, Structural)]
pub enum CgroupVersion {
    V1,
    V2,
}

impl CgroupVersion {
    /// The lowercase name of the version
    pub fn name(&self) -> (r: &'static str)
        ensures
            r@ == match self {
                CgroupVersion::V1 => "v1"@,
                CgroupVersion::V2 => "v2"@,
            },
    {
        match self {
            CgroupVersion::V1 => "v1",
            CgroupVersion::V2 => "v2",
        }
    }
}

/// File whose existence marks a cgroup v2 hierarchy
pub const CGROUP_V2_CHECK_PATH: &'static str = "/sys/fs/cgroup/cgroup.controllers";

/// Mount point of the cgroup hierarchies
pub const STANDARD_CGROUP_MOUNT_ROOT: &'static str = "/sys/fs/cgroup";

/// Message shown when cgroups are not mounted where expected
pub const INVALID_CGROUP_MOUNT_MESSAGE: &'static str =
    "rAdvisor expects cgroups to be enabled and mounted in /sys/fs/cgroup.";

/// The cgroup v1 subsystems, in the order they are checked
pub open spec fn v1_subsystems() -> Seq<Seq<char>> {
    seq![
        "cpuacct"@,
        "cpu"@,
        "cpuset"@,
        "memory"@,
        "devices"@,
        "freezer"@,
        "net_cls"@,
        "blkio"@,
        "perf_event"@,
        "net_prio"@,
        "hugetlb"@,
        "pids"@,
        "rdma"@,
    ]
}

/// The cgroup v1 subsystems (the `cpuacct` subsystem first, since it is the
/// most likely to exist)
pub fn cgroup_v1_subsystems() -> (r: Vec<&'static str>)
    ensures
        path::str_views(r@) == v1_subsystems(),
{
    let r = vec![
        "cpuacct",
        "cpu",
        "cpuset",
        "memory",
        "devices",
        "freezer",
        "net_cls",
        "blkio",
        "perf_event",
        "net_prio",
        "hugetlb",
        "pids",
        "rdma",
    ];
    assert(path::str_views(r@) =~= v1_subsystems());
    r
}

/// The probe `f` answered `b` for a path whose view is `p`
pub open spec fn probed<F: Fn(&str) -> bool>(f: &F, p: Seq<char>, b: bool) -> bool {
    exists|s: &str| s@ == p && #[trigger] call_ensures(*f, (s,), b)
}

/// Path checked for the cgroup `p` (or the hierarchy root) under the mount
/// point of cgroup v2
pub open spec fn v2_full_path(p: Option<Seq<char>>) -> Seq<char> {
    let root = path::path_push(Seq::empty(), STANDARD_CGROUP_MOUNT_ROOT@);
    match p {
        Some(p) => path::path_push(root, p),
        None => root,
    }
}

/// Path checked for the cgroup `p` (or the hierarchy root) in the cgroup v1
/// subsystem `sub`
pub open spec fn v1_full_path(sub: Seq<char>, p: Option<Seq<char>>) -> Seq<char> {
    let base = path::path_push(path::path_push(Seq::empty(), STANDARD_CGROUP_MOUNT_ROOT@), sub);
    match p {
        Some(p) => path::path_push(base, p),
        None => base,
    }
}

/// The existence check of cgroup `p` for `version` came out as `b`: for v2 the
/// single probe answered `b`; for v1, some subsystem's probe answered true
/// (when `b`) or all of them answered false (when not `b`)
pub open spec fn exists_outcome<F: Fn(&str) -> bool>(
    f: &F,
    p: Option<Seq<char>>,
    version: CgroupVersion,
    b: bool,
) -> bool {
    match version {
        CgroupVersion::V2 => probed(f, v2_full_path(p), b),
        CgroupVersion::V1 => if b {
            exists|i: int|
                0 <= i < v1_subsystems().len() && #[trigger] probed(
                    f,
                    v1_full_path(v1_subsystems()[i], p),
                    true,
                )
        } else {
            forall|i: int|
                0 <= i < v1_subsystems().len() ==> #[trigger] probed(
                    f,
                    v1_full_path(v1_subsystems()[i], p),
                    false,
                )
        },
    }
}

/// The view of an optional string slice
pub open spec fn opt_view(p: Option<&str>) -> Option<Seq<char>> {
    match p {
        Some(p) => Some(p@),
        None => None,
    }
}

/// Determines whether the given (absolute) cgroup exists in the virtual
/// filesystem at the standard mount point, asking `probe` whether paths exist.
pub fn cgroup_exists<F: Fn(&str) -> bool>(path: Option<&str>, version: CgroupVersion, probe: &F) -> (r:
    bool)
    requires
        forall|s: &str| #[trigger] probe.requires((s,)),
    ensures
        exists_outcome(probe, opt_view(path), version, r),
{
    match version {
        CgroupVersion::V1 => {
            let subsystems = cgroup_v1_subsystems();
            let mut i: usize = 0;
            while i < subsystems.len()
                invariant
                    i <= subsystems@.len(),
                    version == CgroupVersion::V1,
                    path::str_views(subsystems@) == v1_subsystems(),
                    forall|s: &str| #[trigger] probe.requires((s,)),
                    forall|j: int|
                        0 <= j < i ==> #[trigger] probed(
                            probe,
                            v1_full_path(v1_subsystems()[j], opt_view(path)),
                            false,
                        ),
                decreases subsystems@.len() - i,
            {
                let mut full_path = String::new();
                push_path(&mut full_path, STANDARD_CGROUP_MOUNT_ROOT);
                push_path(&mut full_path, subsystems[i]);
                if let Some(p) = path {
                    push_path(&mut full_path, p);
                }
                let found = probe(full_path.as_str());
                assert(subsystems@[i as int]@ == v1_subsystems()[i as int]);
                assert(probed(
                    probe,
                    v1_full_path(v1_subsystems()[i as int], opt_view(path)),
                    found,
                ));
                if found {
                    assert(probed(
                        probe,
                        v1_full_path(v1_subsystems()[i as int], opt_view(path)),
                        true,
                    ));
                    assert(0 <= i < v1_subsystems().len());
                    assert(exists|k: int|
                        0 <= k < v1_subsystems().len() && #[trigger] probed(
                            probe,
                            v1_full_path(v1_subsystems()[k], opt_view(path)),
                            true,
                        ));
                    assert(exists_outcome(probe, opt_view(path), version, true));
                    return true;
                }
                i += 1;
            }
            false
        },
        CgroupVersion::V2 => {
            let mut full_path = String::new();
            push_path(&mut full_path, STANDARD_CGROUP_MOUNT_ROOT);
            if let Some(p) = path {
                push_path(&mut full_path, p);
            }
            let found = probe(full_path.as_str());
            assert(probed(probe, v2_full_path(opt_view(path)), found));
            found
        },
    }
}

/// Slices that make up a target cgroup, one list per driver
pub struct CgroupSlices<'c, 's> {
    pub cgroupfs: &'c [&'c str],
    pub systemd: &'s [&'s str],
}

/// The path the slices make for `driver`
pub open spec fn slices_path(slices: CgroupSlices, driver: CgroupDriver) -> Seq<char> {
    match driver {
        CgroupDriver::Cgroupfs => path::join_spec(path::str_views(slices.cgroupfs@)),
        CgroupDriver::Systemd => path::join_spec(path::str_views(slices.systemd@)),
    }
}

impl<'c, 's> CgroupSlices<'c, 's> {
    /// Picks the list of slices of the driver and joins them into a path
    pub fn pick_and_join(&self, driver: CgroupDriver) -> (r: String)
        ensures
            r@ == slices_path(*self, driver),
    {
        match driver {
            CgroupDriver::Cgroupfs => join_parts(self.cgroupfs),
            CgroupDriver::Systemd => join_parts(self.systemd),
        }
    }
}

/// Resolved and existing cgroup path constructed by `CgroupManager`
#[derive(Clone, Debug, PartialEq, Eq)]
pub struct CgroupPath {
    pub path: String,
    pub driver: CgroupDriver,
    pub version: CgroupVersion,
}

/// Reasons a cgroup could not be resolved
#[derive(Clone, Debug, PartialEq, Eq)]
pub enum GetCgroupError {
    CgroupV1NotEnabled,
    VersionDetectionFailed,
    NotFound(String),
}

/// Encapsulated behavior for lazy-resolution of Docker cgroup driver (systemd
/// or cgroupfs) and of the cgroup version. Works for cgroup v1 and v2
pub struct CgroupManager {
    driver: Option<CgroupDriver>,
    version: Option<CgroupVersion>,
}

/// What a cgroup lookup that found nothing leaves known, for a target whose
/// path is `systemd_path` under the systemd driver and `cgroupfs_path` under
/// the cgroupfs driver: the driver is left as it was, and either the version
/// could not be detected, or the target's path for the known driver (for
/// both drivers while none was known) does not exist
pub open spec fn lookup_failed<F: Fn(&str) -> bool>(
    probe: &F,
    systemd_path: Seq<char>,
    cgroupfs_path: Seq<char>,
    before: CgroupManager,
    after: CgroupManager,
) -> bool {
    &&& after.spec_driver() == before.spec_driver()
    &&& after.spec_version() matches Some(version) ==> match before.spec_driver() {
        Some(CgroupDriver::Systemd) => exists_outcome(probe, Some(systemd_path), version, false),
        Some(CgroupDriver::Cgroupfs) => exists_outcome(probe, Some(cgroupfs_path), version, false),
        None => exists_outcome(probe, Some(systemd_path), version, false) && exists_outcome(
            probe,
            Some(cgroupfs_path),
            version,
            false,
        ),
    }
}

/// The outcome of detecting the cgroup version: v2 when the v2 marker file
/// exists, else v1 when some v1 subsystem is mounted, else none
pub open spec fn version_outcome<F: Fn(&str) -> bool>(f: &F, r: Option<CgroupVersion>) -> bool {
    match r {
        Some(CgroupVersion::V2) => probed(f, CGROUP_V2_CHECK_PATH@, true),
        Some(CgroupVersion::V1) => probed(f, CGROUP_V2_CHECK_PATH@, false) && exists_outcome(
            f,
            None,
            CgroupVersion::V1,
            true,
        ),
        None => probed(f, CGROUP_V2_CHECK_PATH@, false) && exists_outcome(
            f,
            None,
            CgroupVersion::V1,
            false,
        ),
    }
}

/// Detects the cgroup version in use
pub fn try_resolve_version<F: Fn(&str) -> bool>(probe: &F) -> (r: Option<CgroupVersion>)
    requires
        forall|s: &str| #[trigger] probe.requires((s,)),
    ensures
        version_outcome(probe, r),
{
    let v2 = probe(CGROUP_V2_CHECK_PATH);
    assert(probed(probe, CGROUP_V2_CHECK_PATH@, v2));
    if v2 {
        return Some(CgroupVersion::V2);
    }
    if cgroup_exists(None, CgroupVersion::V1, probe) {
        return Some(CgroupVersion::V1);
    }
    None
}

impl CgroupManager {
    /// The resolved driver, if any
    pub closed spec fn spec_driver(&self) -> Option<CgroupDriver> {
        self.driver
    }

    /// The resolved version, if any
    pub closed spec fn spec_version(&self) -> Option<CgroupVersion> {
        self.version
    }

    /// Creates a new cgroup manager with an unknown driver type and version
    pub fn new() -> (r: Self)
        ensures
            r.spec_driver() is None,
            r.spec_version() is None,
    {
        CgroupManager { driver: None, version: None }
    }

    /// Gets the current resolved driver for the manager
    pub fn driver(&self) -> (r: Option<CgroupDriver>)
        ensures
            r == self.spec_driver(),
    {
        self.driver
    }

    /// Gets the current resolved cgroup version for the manager
    pub fn version(&self) -> (r: Option<CgroupVersion>)
        ensures
            r == self.spec_version(),
    {
        self.version
    }

    /// Returns the resolved version, detecting it first if it is unknown
    fn get_version_or_resolve<F: Fn(&str) -> bool>(&mut self, probe: &F) -> (r: Option<
        CgroupVersion,
    >)
        requires
            forall|s: &str| #[trigger] probe.requires((s,)),
        ensures
            final(self).spec_driver() == old(self).spec_driver(),
            final(self).spec_version() == r,
            old(self).spec_version() is Some ==> r == old(self).spec_version(),
            old(self).spec_version() is None ==> version_outcome(probe, r),
    {
        match self.version {
            Some(version) => Some(version),
            None => {
                let version = try_resolve_version(probe);
                self.version = version;
                version
            },
        }
    }

    /// Joins together the given slices to make a target cgroup, selecting the
    /// list of slices of the driver. Ensures that the cgroup path exists
    /// before returning it. If either the driver or version hasn't been
    /// detected yet, then this function also tries to detect them: the
    /// systemd path is tried before the cgroupfs one.
    pub fn get_cgroup<F: Fn(&str) -> bool>(&mut self, slices: CgroupSlices, probe: &F) -> (r:
        Result<CgroupPath, GetCgroupError>)
        requires
            forall|s: &str| #[trigger] probe.requires((s,)),
        ensures
            old(self).spec_version() is Some ==> final(self).spec_version()
                == old(self).spec_version(),
            old(self).spec_version() is None ==> version_outcome(probe, final(self).spec_version()),
            r == Err::<CgroupPath, GetCgroupError>(GetCgroupError::VersionDetectionFailed) <==> final(self).spec_version() is None,
            r != Err::<CgroupPath, GetCgroupError>(GetCgroupError::CgroupV1NotEnabled),
            final(self).spec_version() is None ==> final(self).spec_driver() == old(self).spec_driver(),
            r matches Ok(cp) ==> {
                &&& final(self).spec_version() == Some(cp.version)
                &&& final(self).spec_driver() == Some(cp.driver)
                &&& cp.path@ == slices_path(slices, cp.driver)
                &&& exists_outcome(probe, Some(cp.path@), cp.version, true)
                &&& old(self).spec_driver() matches Some(d) ==> cp.driver == d
                &&& (old(self).spec_driver() is None && cp.driver == CgroupDriver::Cgroupfs)
                    ==> exists_outcome(
                    probe,
                    Some(slices_path(slices, CgroupDriver::Systemd)),
                    cp.version,
                    false,
                )
            },
            r matches Err(GetCgroupError::NotFound(p)) ==> {
                let version = final(self).spec_version().unwrap();
                &&& final(self).spec_version() is Some
                &&& final(self).spec_driver() == old(self).spec_driver()
                &&& p@ == slices_path(
                    slices,
                    match old(self).spec_driver() {
                        Some(d) => d,
                        None => CgroupDriver::Systemd,
                    },
                )
                &&& exists_outcome(probe, Some(p@), version, false)
                &&& old(self).spec_driver() is None ==> exists_outcome(
                    probe,
                    Some(slices_path(slices, CgroupDriver::Cgroupfs)),
                    version,
                    false,
                )
            },
    {
        let version = match self.get_version_or_resolve(probe) {
            Some(v) => v,
            None => return Err(GetCgroupError::VersionDetectionFailed),
        };
        match self.driver {
            Some(driver) => {
                let path = slices.pick_and_join(driver);
                if cgroup_exists(Some(path.as_str()), version, probe) {
                    Ok(CgroupPath { path, driver, version })
                } else {
                    Err(GetCgroupError::NotFound(path))
                }
            },
            None => {
                let systemd_cgroup = join_parts(slices.systemd);
                if cgroup_exists(Some(systemd_cgroup.as_str()), version, probe) {
                    self.driver = Some(CgroupDriver::Systemd);
                    return Ok(
                        CgroupPath { path: systemd_cgroup, driver: CgroupDriver::Systemd, version },
                    );
                }
                let cgroupfs_cgroup = join_parts(slices.cgroupfs);
                if cgroup_exists(Some(cgroupfs_cgroup.as_str()), version, probe) {
                    self.driver = Some(CgroupDriver::Cgroupfs);
                    return Ok(
                        CgroupPath {
                            path: cgroupfs_cgroup,
                            driver: CgroupDriver::Cgroupfs,
                            version,
                        },
                    );
                }
                Err(GetCgroupError::NotFound(systemd_cgroup))
            },
        }
    }

    /// Like `get_cgroup`, but only works if cgroup v1 is in use; otherwise
    /// returns `Err(CgroupV1NotEnabled)`.
    pub fn get_cgroup_v1<F: Fn(&str) -> bool>(&mut self, slices: CgroupSlices, probe: &F) -> (r:
        Result<CgroupPath, GetCgroupError>)
        requires
            forall|s: &str| #[trigger] probe.requires((s,)),
        ensures
            old(self).spec_version() is Some ==> final(self).spec_version()
                == old(self).spec_version(),
            old(self).spec_version() is None ==> version_outcome(probe, final(self).spec_version()),
            r == Err::<CgroupPath, GetCgroupError>(GetCgroupError::VersionDetectionFailed) <==> final(self).spec_version() is None,
            r == Err::<CgroupPath, GetCgroupError>(GetCgroupError::CgroupV1NotEnabled) <==> final(self).spec_version() == Some(CgroupVersion::V2),
            final(self).spec_version() != Some(CgroupVersion::V1) ==> final(self).spec_driver()
                == old(self).spec_driver(),
            r matches Ok(cp) ==> {
                &&& cp.version == CgroupVersion::V1
                &&& final(self).spec_driver() == Some(cp.driver)
                &&& cp.path@ == slices_path(slices, cp.driver)
                &&& exists_outcome(probe, Some(cp.path@), cp.version, true)
                &&& old(self).spec_driver() matches Some(d) ==> cp.driver == d
                &&& (old(self).spec_driver() is None && cp.driver == CgroupDriver::Cgroupfs)
                    ==> exists_outcome(
                    probe,
                    Some(slices_path(slices, CgroupDriver::Systemd)),
                    CgroupVersion::V1,
                    false,
                )
            },
            r matches Err(GetCgroupError::NotFound(p)) ==> {
                &&& final(self).spec_driver() == old(self).spec_driver()
                &&& p@ == slices_path(
                    slices,
                    match old(self).spec_driver() {
                        Some(d) => d,
                        None => CgroupDriver::Systemd,
                    },
                )
                &&& exists_outcome(probe, Some(p@), CgroupVersion::V1, false)
                &&& old(self).spec_driver() is None ==> exists_outcome(
                    probe,
                    Some(slices_path(slices, CgroupDriver::Cgroupfs)),
                    CgroupVersion::V1,
                    false,
                )
            },
    {
        let version = match self.get_version_or_resolve(probe) {
            Some(v) => v,
            None => return Err(GetCgroupError::VersionDetectionFailed),
        };
        if version != CgroupVersion::V1 {
            return Err(GetCgroupError::CgroupV1NotEnabled);
        }
        self.get_cgroup(slices, probe)
    }
}

/// `s` with every `-` replaced by `_`
pub open spec fn escape_spec(s: Seq<char>) -> Seq<char> {
    s.map_values(|c: char| if c == '-' { '_' } else { c })
}

/// `s` with every `from` replaced by `to`
pub open spec fn replaced(s: Seq<char>, from: char, to: char) -> Seq<char> {
    s.map_values(|c: char| if c == from { to } else { c })
}

/// Calls `str::replace` with a character pattern and a one-character
/// replacement. Its documentation: it replaces all matches of the pattern
/// with the replacement, giving a new `String`.
#[verifier::external_body]
fn replace_char(s: &str, from: char, to: &str) -> (r: String)
    requires
        to@.len() == 1,
    ensures
        r@ == replaced(s@, from, to@[0]),
{
    s.replace(from, to)
}

/// Escapes a cgroup slice to be in the style of Systemd cgroups
pub fn escape_systemd(slice: &str) -> (r: String)
    ensures
        r@ == escape_spec(slice@),
{
    proof {
        reveal_strlit("_");
    }
    let r = replace_char(slice, '-', "_");
    assert(r@ =~= escape_spec(slice@));
    r
}

/// The accumulated prefix of the first `i` escaped slices, each followed by
/// `-` (such as `kubepods-burstable-`)
pub open spec fn systemd_prefix(slices: Seq<Seq<char>>, i: int) -> Seq<char>
    decreases i,
{
    if i <= 0 {
        Seq::empty()
    } else {
        systemd_prefix(slices, i - 1) + escape_spec(slices[i - 1]) + "-"@
    }
}

/// The systemd slice name of the `i`-th slice: the accumulated prefix, the
/// escaped slice and `.slice`
pub open spec fn systemd_slice_name(slices: Seq<Seq<char>>, i: int) -> Seq<char> {
    systemd_prefix(slices, i) + escape_spec(slices[i]) + ".slice"@
}

/// Converts a list of slice names such as `["kubepods", "burstable",
/// "pod1234-5678"]` into a systemd-style list of slice names such as
/// `["kubepods.slice", "kubepods-burstable.slice",
/// "kubepods-burstable-pod1234_5678.slice"]`. An empty list, or a list of a
/// single empty name, gives an empty list.
pub fn build_systemd_cgroup_hierarchy(slices: &[&str]) -> (r: Vec<String>)
    ensures
        (slices@.len() == 0 || (slices@.len() == 1 && slices@[0]@.len() == 0)) ==> r@.len() == 0,
        !(slices@.len() == 0 || (slices@.len() == 1 && slices@[0]@.len() == 0)) ==> {
            &&& r@.len() == slices@.len()
            &&& forall|i: int|
                0 <= i < r@.len() ==> #[trigger] r@[i]@ == systemd_slice_name(
                    path::str_views(slices@),
                    i,
                )
        },
{
    if slices.len() == 0 || (slices.len() == 1 && slices[0].unicode_len() == 0) {
        return Vec::new();
    }
    let ghost views = path::str_views(slices@);
    let dash = "-";
    let suffix = ".slice";
    let mut accumulator = String::new();
    let mut hierarchy: Vec<String> = Vec::new();
    let mut i: usize = 0;
    while i < slices.len()
        invariant
            i <= slices@.len(),
            views == path::str_views(slices@),
            dash@ == "-"@,
            suffix@ == ".slice"@,
            accumulator@ == systemd_prefix(views, i as int),
            hierarchy@.len() == i,
            forall|k: int| 0 <= k < i ==> #[trigger] hierarchy@[k]@ == systemd_slice_name(views, k),
        decreases slices@.len() - i,
    {
        let escaped = escape_systemd(slices[i]);
        let mut name = accumulator.clone();
        name.append(escaped.as_str());
        name.append(suffix);
        hierarchy.push(name);
        accumulator.append(escaped.as_str());
        accumulator.append(dash);
        i += 1;
    }
    hierarchy
}

/// Checks if cgroups are mounted in /sys/fs/cgroup (for both cgroup v1 and
/// v2), asking `probe` whether the mount point exists
pub fn cgroups_mounted_properly<F: Fn(&str) -> bool>(probe: &F) -> (r: bool)
    requires
        forall|s: &str| #[trigger] probe.requires((s,)),
    ensures
        probed(probe, STANDARD_CGROUP_MOUNT_ROOT@, r),
{
    probe(STANDARD_CGROUP_MOUNT_ROOT)
}

} // verus!
