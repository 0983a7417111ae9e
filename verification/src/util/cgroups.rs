//! Lazy resolution of the Docker cgroup driver (systemd or cgroupfs) for
//! cgroup v1 hierarchies where the `cpuacct` controller is mounted. Whether a
//! directory exists is asked of a probe callback, which the caller backs with
//! the filesystem.

use vstd::prelude::*;
use crate::util::cgroup as cgroup_v;
use crate::util::path::{self, push_path};
use vstd::string::StringExecFns;

verus! {

/// Docker cgroup driver used to orchestrate moving containers in and out of
/// cgroups
#[derive(Clone, Copy, Debug, PartialEq, Eq, Structural)]
pub enum CgroupDriver {
    Systemd,
    Cgroupfs,
}

impl CgroupDriver {
    /// The lowercase name of the driver
    pub fn name(&self) -> (r: &'static str)
        ensures
            r@ == match self {
                CgroupDriver::Systemd => "systemd"@,
                CgroupDriver::Cgroupfs => "cgroupfs"@,
            },
    {
        match self {
            CgroupDriver::Systemd => "systemd",
            CgroupDriver::Cgroupfs => "cgroupfs",
        }
    }
}

/// Resolved and existing cgroup path constructed by `CgroupManager`
#[derive(Clone, Debug, PartialEq, Eq)]
pub struct CgroupPath {
    pub path: String,
    pub driver: CgroupDriver,
}

/// Root of the cgroup hierarchies
pub const LINUX_CGROUP_ROOT: &'static str = "/sys/fs/cgroup";

/// Message shown when cgroups are not mounted where expected
pub const INVALID_CGROUP_MOUNT_MESSAGE: &'static str = "rAdvisor expects cgroups to be mounted in /sys/fs/cgroup. If this is\nthe case, make sure that the 'cpuacct' resource controller has not been disabled.";

/// The absolute path made of the given parts: `/` with each part pushed in
/// turn
pub open spec fn abs_join(parts: Seq<Seq<char>>) -> Seq<char> {
    path::join_spec(seq!["/"@] + parts)
}

/// The absolute systemd-style path of the slices: each systemd slice name
/// pushed in turn under `/`; empty for no slices or a single empty slice
pub open spec fn systemd_path(slices: Seq<Seq<char>>) -> Seq<char> {
    if slices.len() == 0 || (slices.len() == 1 && slices[0].len() == 0) {
        Seq::empty()
    } else {
        abs_join(Seq::new(slices.len(), |i: int| cgroup_v::systemd_slice_name(slices, i)))
    }
}

/// The slices with every `-` escaped to `_`
pub open spec fn escaped_slices(slices: Seq<Seq<char>>) -> Seq<Seq<char>> {
    Seq::new(slices.len(), |i: int| cgroup_v::escape_spec(slices[i]))
}

/// The path for `driver`: the escaped slices joined under `/` for cgroupfs,
/// the systemd-style path for systemd
pub open spec fn make_spec(driver: CgroupDriver, slices: Seq<Seq<char>>) -> Seq<char> {
    match driver {
        CgroupDriver::Cgroupfs => abs_join(escaped_slices(slices)),
        CgroupDriver::Systemd => systemd_path(slices),
    }
}

/// The directory checked for the absolute cgroup `p`: under the `cpuacct`
/// controller
pub open spec fn cpuacct_path(p: Seq<char>) -> Seq<char> {
    path::path_push(path::path_push(Seq::empty(), LINUX_CGROUP_ROOT@), "cpuacct"@) + p
}

/// Constructs a cgroup absolute path according to the style expected by the
/// given driver
pub fn make(driver: CgroupDriver, slices: &[&str]) -> (r: String)
    ensures
        r@ == make_spec(driver, path::str_views(slices@)),
{
    match driver {
        CgroupDriver::Cgroupfs => make_cgroupfs(slices),
        CgroupDriver::Systemd => make_systemd(slices),
    }
}

/// Pushes each of `parts` in turn onto `/`
fn abs_join_exec(parts: &Vec<String>) -> (r: String)
    ensures
        r@ == abs_join(parts@.map_values(|s: String| s@)),
{
    let ghost views = parts@.map_values(|s: String| s@);
    let mut p = "/".to_owned();
    proof {
        reveal_strlit("/");
        assert(seq!["/"@] + views.subrange(0, 0) =~= seq!["/"@]);
        assert(seq!["/"@].drop_last() =~= Seq::<Seq<char>>::empty());
    }
    let mut i: usize = 0;
    while i < parts.len()
        invariant
            i <= parts@.len() == views.len(),
            views == parts@.map_values(|s: String| s@),
            p@ == path::join_spec(seq!["/"@] + views.subrange(0, i as int)),
        decreases parts@.len() - i,
    {
        push_path(&mut p, parts[i].as_str());
        assert((seq!["/"@] + views.subrange(0, i + 1)).drop_last() =~= seq!["/"@] + views.subrange(
            0,
            i as int,
        ));
        i += 1;
    }
    assert(views.subrange(0, views.len() as int) =~= views);
    p
}

/// Converts slice names such as `["kubepods", "burstable", "pod1234-5678"]`
/// into a systemd-style cgroup path such as
/// `/kubepods.slice/kubepods-burstable.slice/kubepods-burstable-pod1234_5678.slice`
fn make_systemd(slices: &[&str]) -> (r: String)
    ensures
        r@ == systemd_path(path::str_views(slices@)),
{
    let names = cgroup_v::build_systemd_cgroup_hierarchy(slices);
    let ghost views = path::str_views(slices@);
    if names.len() == 0 {
        return String::new();
    }
    let r = abs_join_exec(&names);
    assert(names@.map_values(|s: String| s@) =~= Seq::new(
        views.len(),
        |i: int| cgroup_v::systemd_slice_name(views, i),
    ));
    r
}

/// Joins the escaped slice names under `/` into a cgroupfs-style path such
/// as `/kubepods/burstable/pod1234_5678`
fn make_cgroupfs(slices: &[&str]) -> (r: String)
    ensures
        r@ == abs_join(escaped_slices(path::str_views(slices@))),
{
    let ghost views = path::str_views(slices@);
    let mut escaped: Vec<String> = Vec::new();
    let mut i: usize = 0;
    while i < slices.len()
        invariant
            i <= slices@.len() == views.len(),
            views == path::str_views(slices@),
            escaped@.map_values(|s: String| s@) == escaped_slices(views).subrange(0, i as int),
        decreases slices@.len() - i,
    {
        let ghost before = escaped@;
        let part = cgroup_v::escape_systemd(slices[i]);
        assert(views[i as int] == slices@[i as int]@);
        assert(part@ == escaped_slices(views)[i as int]);
        escaped.push(part);
        assert(escaped@.map_values(|s: String| s@) =~= before.map_values(|s: String| s@).push(
            escaped_slices(views)[i as int],
        ));
        assert(escaped@.map_values(|s: String| s@) =~= escaped_slices(views).subrange(0, i + 1));
        i += 1;
    }
    assert(escaped_slices(views).subrange(0, views.len() as int) =~= escaped_slices(views));
    abs_join_exec(&escaped)
}

/// Determines whether the directory of the given cgroup exists under the
/// `cpuacct` controller, asking `probe`
fn cgroup_exists<F: Fn(&str) -> bool>(p: &str, probe: &F) -> (r: bool)
    requires
        forall|s: &str| #[trigger] probe.requires((s,)),
    ensures
        cgroup_v::probed(probe, cpuacct_path(p@), r),
{
    let mut full_path = String::new();
    push_path(&mut full_path, LINUX_CGROUP_ROOT);
    push_path(&mut full_path, "cpuacct");
    full_path.append(p);
    let r = probe(full_path.as_str());
    assert(cgroup_v::probed(probe, cpuacct_path(p@), r));
    r
}

/// Checks if cgroups are mounted in /sys/fs/cgroup and if the cpuacct
/// controller is enabled (necessary for proper driver detection)
pub fn cgroups_mounted_properly<F: Fn(&str) -> bool>(probe: &F) -> (r: bool)
    requires
        forall|s: &str| #[trigger] probe.requires((s,)),
    ensures
        cgroup_v::probed(probe, cpuacct_path(Seq::empty()), r),
{
    let empty = "";
    proof {
        reveal_strlit("");
    }
    cgroup_exists(empty, probe)
}

/// Encapsulated behavior for lazy-resolution of the Docker cgroup driver
pub struct CgroupManager {
    driver: Option<CgroupDriver>,
}

impl CgroupManager {
    /// The resolved driver, if any
    pub closed spec fn spec_driver(&self) -> Option<CgroupDriver> {
        self.driver
    }

    /// Creates a new cgroup manager with an unknown driver type
    pub fn new() -> (r: Self)
        ensures
            r.spec_driver() is None,
    {
        CgroupManager { driver: None }
    }

    /// Gets the current resolved driver for the manager
    pub fn driver(&self) -> (r: Option<CgroupDriver>)
        ensures
            r == self.spec_driver(),
    {
        self.driver
    }

    /// Makes the path for `driver` and records the driver when it exists
    fn try_resolve<F: Fn(&str) -> bool>(&mut self, driver: CgroupDriver, slices: &[&str], probe: &F) -> (r:
        Option<CgroupPath>)
        requires
            forall|s: &str| #[trigger] probe.requires((s,)),
        ensures
            cgroup_v::probed(probe, cpuacct_path(make_spec(driver, path::str_views(slices@))), r is Some),
            r matches Some(cp) ==> cp.driver == driver && cp.path@ == make_spec(
                driver,
                path::str_views(slices@),
            ) && final(self).spec_driver() == Some(driver),
            r is None ==> final(self).spec_driver() == old(self).spec_driver(),
    {
        let p = make(driver, slices);
        if cgroup_exists(p.as_str(), probe) {
            self.driver = Some(driver);
            Some(CgroupPath { path: p, driver })
        } else {
            None
        }
    }

    /// Joins together the given slices to make a target cgroup, formatted for
    /// the current driver. If no driver is set yet, tries systemd and then
    /// cgroupfs, keeping the first whose path exists. The path is returned
    /// only if it exists.
    pub fn get_cgroup<F: Fn(&str) -> bool>(&mut self, slices: &[&str], probe: &F) -> (r: Option<
        CgroupPath,
    >)
        requires
            forall|s: &str| #[trigger] probe.requires((s,)),
        ensures
            r matches Some(cp) ==> {
                &&& final(self).spec_driver() == Some(cp.driver)
                &&& cp.path@ == make_spec(cp.driver, path::str_views(slices@))
                &&& cgroup_v::probed(probe, cpuacct_path(cp.path@), true)
                &&& old(self).spec_driver() matches Some(d) ==> cp.driver == d
                &&& (old(self).spec_driver() is None && cp.driver == CgroupDriver::Cgroupfs)
                    ==> cgroup_v::probed(
                    probe,
                    cpuacct_path(make_spec(CgroupDriver::Systemd, path::str_views(slices@))),
                    false,
                )
            },
            r is None ==> {
                &&& final(self).spec_driver() == old(self).spec_driver()
                &&& old(self).spec_driver() matches Some(d) ==> cgroup_v::probed(
                    probe,
                    cpuacct_path(make_spec(d, path::str_views(slices@))),
                    false,
                )
                &&& old(self).spec_driver() is None ==> cgroup_v::probed(
                    probe,
                    cpuacct_path(make_spec(CgroupDriver::Systemd, path::str_views(slices@))),
                    false,
                ) && cgroup_v::probed(
                    probe,
                    cpuacct_path(make_spec(CgroupDriver::Cgroupfs, path::str_views(slices@))),
                    false,
                )
            },
    {
        self.get_cgroup_divided(slices, slices, probe)
    }

    /// Like `get_cgroup`, with different slices for each driver
    pub fn get_cgroup_divided<F: Fn(&str) -> bool>(
        &mut self,
        systemd_slices: &[&str],
        cgroupfs_slices: &[&str],
        probe: &F,
    ) -> (r: Option<CgroupPath>)
        requires
            forall|s: &str| #[trigger] probe.requires((s,)),
        ensures
            r matches Some(cp) ==> {
                &&& final(self).spec_driver() == Some(cp.driver)
                &&& cp.path@ == make_spec(
                    cp.driver,
                    path::str_views(
                        match cp.driver {
                            CgroupDriver::Systemd => systemd_slices@,
                            CgroupDriver::Cgroupfs => cgroupfs_slices@,
                        },
                    ),
                )
                &&& cgroup_v::probed(probe, cpuacct_path(cp.path@), true)
                &&& old(self).spec_driver() matches Some(d) ==> cp.driver == d
                &&& (old(self).spec_driver() is None && cp.driver == CgroupDriver::Cgroupfs)
                    ==> cgroup_v::probed(
                    probe,
                    cpuacct_path(
                        make_spec(CgroupDriver::Systemd, path::str_views(systemd_slices@)),
                    ),
                    false,
                )
            },
            r is None ==> {
                &&& final(self).spec_driver() == old(self).spec_driver()
                &&& old(self).spec_driver() == Some(CgroupDriver::Systemd) ==> cgroup_v::probed(
                    probe,
                    cpuacct_path(
                        make_spec(CgroupDriver::Systemd, path::str_views(systemd_slices@)),
                    ),
                    false,
                )
                &&& old(self).spec_driver() == Some(CgroupDriver::Cgroupfs) ==> cgroup_v::probed(
                    probe,
                    cpuacct_path(
                        make_spec(CgroupDriver::Cgroupfs, path::str_views(cgroupfs_slices@)),
                    ),
                    false,
                )
                &&& old(self).spec_driver() is None ==> cgroup_v::probed(
                    probe,
                    cpuacct_path(
                        make_spec(CgroupDriver::Systemd, path::str_views(systemd_slices@)),
                    ),
                    false,
                ) && cgroup_v::probed(
                    probe,
                    cpuacct_path(
                        make_spec(CgroupDriver::Cgroupfs, path::str_views(cgroupfs_slices@)),
                    ),
                    false,
                )
            },
    {
        match self.driver {
            Some(driver) => {
                let p = match driver {
                    CgroupDriver::Systemd => make(driver, systemd_slices),
                    CgroupDriver::Cgroupfs => make(driver, cgroupfs_slices),
                };
                if cgroup_exists(p.as_str(), probe) {
                    Some(CgroupPath { path: p, driver })
                } else {
                    None
                }
            },
            None => {
                match self.try_resolve(CgroupDriver::Systemd, systemd_slices, probe) {
                    Some(cp) => Some(cp),
                    None => self.try_resolve(CgroupDriver::Cgroupfs, cgroupfs_slices, probe),
                }
            },
        }
    }
}

} // verus!
