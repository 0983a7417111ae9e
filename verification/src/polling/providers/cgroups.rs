//! Lazy resolution of the Docker cgroup driver with absolute cgroup paths
//! (such as `/kubepods.slice/kubepods-burstable.slice`). Whether a directory
//! exists is asked of a probe callback, which the caller backs with the
//! filesystem.

use vstd::prelude::*;
use crate::util::cgroup as cgroup_v;
use crate::util::path;
use vstd::string::StringExecFns;

verus! {

/// Docker cgroup driver used to orchestrate moving containers in and out of
/// cgroups
#[derive(Clone, Copy, Debug, PartialEq, Eq, Structural)]
pub enum CgroupDriver {
    Systemd,
    Cgroupfs,
}

/// Root of the cgroup hierarchies
pub const LINUX_CGROUP_ROOT: &'static str = "/sys/fs/cgroup";

/// `/` followed by each systemd slice name, each name preceded by `/`, for the
/// first `n` slices
pub open spec fn systemd_abs(slices: Seq<Seq<char>>, n: int) -> Seq<char>
    decreases n,
{
    if n <= 0 {
        Seq::empty()
    } else {
        systemd_abs(slices, n - 1) + "/"@ + cgroup_v::systemd_slice_name(slices, n - 1)
    }
}

/// The absolute systemd-style path of the slices; `/` for no slices or a
/// single empty slice
pub open spec fn make_systemd_spec(slices: Seq<Seq<char>>) -> Seq<char> {
    if slices.len() == 0 || (slices.len() == 1 && slices[0].len() == 0) {
        "/"@
    } else {
        systemd_abs(slices, slices.len() as int)
    }
}

/// The slices separated by `/`, for the first `n` slices
pub open spec fn slash_join(slices: Seq<Seq<char>>, n: int) -> Seq<char>
    decreases n,
{
    if n <= 0 {
        Seq::empty()
    } else if n == 1 {
        slices[0]
    } else {
        slash_join(slices, n - 1) + "/"@ + slices[n - 1]
    }
}

/// The slices with every `-` escaped to `_`
pub open spec fn escaped_slices(slices: Seq<Seq<char>>) -> Seq<Seq<char>> {
    Seq::new(slices.len(), |i: int| cgroup_v::escape_spec(slices[i]))
}

/// The absolute cgroupfs-style path of the slices: `/` and the escaped slices
/// separated by `/`
pub open spec fn make_cgroupfs_spec(slices: Seq<Seq<char>>) -> Seq<char> {
    "/"@ + slash_join(escaped_slices(slices), slices.len() as int)
}

/// The path for `driver`
pub open spec fn make_spec(driver: CgroupDriver, slices: Seq<Seq<char>>) -> Seq<char> {
    match driver {
        CgroupDriver::Cgroupfs => make_cgroupfs_spec(slices),
        CgroupDriver::Systemd => make_systemd_spec(slices),
    }
}

/// The directory checked for the absolute cgroup `p`
pub open spec fn cpuacct_path(p: Seq<char>) -> Seq<char> {
    "/sys/fs/cgroup/cpuacct"@ + p
}

/// Constructs a cgroup absolute path according to the style expected by the
/// given driver
pub fn make(driver: CgroupDriver, slices: &[&str]) -> (r: String)
    ensures
        r@ == make_spec(driver, path::str_views(slices@)),
{
    match driver {
        CgroupDriver::Cgroupfs => make_cgroupfs(slices),
        CgroupDriver::Systemd => make_systemd(slices),
    }
}

/// Converts slice names such as `["kubepods", "burstable", "pod1234-5678"]`
/// into a systemd-style cgroup path such as
/// `/kubepods.slice/kubepods-burstable.slice/kubepods-burstable-pod1234_5678.slice`
fn make_systemd(slices: &[&str]) -> (r: String)
    ensures
        r@ == make_systemd_spec(path::str_views(slices@)),
{
    let slash = "/";
    proof {
        reveal_strlit("/");
    }
    if slices.len() == 0 || (slices.len() == 1 && slices[0].unicode_len() == 0) {
        return slash.to_owned();
    }
    let names = cgroup_v::build_systemd_cgroup_hierarchy(slices);
    let ghost views = path::str_views(slices@);
    let mut p = String::new();
    let mut i: usize = 0;
    while i < names.len()
        invariant
            i <= names@.len() == views.len(),
            slash@ == "/"@,
            forall|k: int|
                0 <= k < names@.len() ==> #[trigger] names@[k]@ == cgroup_v::systemd_slice_name(
                    views,
                    k,
                ),
            p@ == systemd_abs(views, i as int),
        decreases names@.len() - i,
    {
        p.append(slash);
        p.append(names[i].as_str());
        i += 1;
    }
    p
}

/// Joins the escaped slice names into a cgroupfs-style absolute path such as
/// `/kubepods/burstable/pod1234_5678`
fn make_cgroupfs(slices: &[&str]) -> (r: String)
    ensures
        r@ == make_cgroupfs_spec(path::str_views(slices@)),
{
    let slash = "/";
    proof {
        reveal_strlit("/");
    }
    let ghost views = path::str_views(slices@);
    let ghost esc = escaped_slices(views);
    let mut p = slash.to_owned();
    let mut i: usize = 0;
    while i < slices.len()
        invariant
            i <= slices@.len() == views.len(),
            views == path::str_views(slices@),
            esc == escaped_slices(views),
            slash@ == "/"@,
            p@ == "/"@ + slash_join(esc, i as int),
        decreases slices@.len() - i,
    {
        if i > 0 {
            p.append(slash);
        }
        let part = cgroup_v::escape_systemd(slices[i]);
        p.append(part.as_str());
        assert(esc[i as int] == cgroup_v::escape_spec(views[i as int]));
        i += 1;
    }
    p
}

/// Message shown when cgroups are not mounted where expected
pub const INVALID_MOUNT_MESSAGE: &'static str = "rAdvisor expects cgroups to be mounted in /sys/fs/cgroup. If this is\nthe case, make sure that the 'cpuacct' resource controller has not been disabled.";

/// Determines whether the directory of the given absolute cgroup exists under
/// the `cpuacct` controller, asking `probe`
fn cgroup_exists<F: Fn(&str) -> bool>(p: &str, probe: &F) -> (r: bool)
    requires
        forall|s: &str| #[trigger] probe.requires((s,)),
    ensures
        cgroup_v::probed(probe, cpuacct_path(p@), r),
{
    let mut full_path = "/sys/fs/cgroup/cpuacct".to_owned();
    full_path.append(p);
    let r = probe(full_path.as_str());
    assert(cgroup_v::probed(probe, cpuacct_path(p@), r));
    r
}

/// Checks if cgroups are mounted in /sys/fs/cgroup and if the cpuacct
/// controller is enabled (necessary for proper driver detection)
pub fn cgroups_mounted_properly<F: Fn(&str) -> bool>(probe: &F) -> (r: bool)
    requires
        forall|s: &str| #[trigger] probe.requires((s,)),
    ensures
        cgroup_v::probed(probe, cpuacct_path(Seq::empty()), r),
{
    let empty = "";
    proof {
        reveal_strlit("");
    }
    cgroup_exists(empty, probe)
}

/// Encapsulated behavior for lazy-resolution of the Docker cgroup driver
pub struct CgroupManager {
    driver: Option<CgroupDriver>,
}

impl CgroupManager {
    /// The resolved driver, if any
    pub closed spec fn spec_driver(&self) -> Option<CgroupDriver> {
        self.driver
    }

    /// Creates a new cgroup manager with an unknown driver type
    pub fn new() -> (r: Self)
        ensures
            r.spec_driver() is None,
    {
        CgroupManager { driver: None }
    }

    /// Gets the current resolved driver for the manager
    pub fn driver(&self) -> (r: Option<CgroupDriver>)
        ensures
            r == self.spec_driver(),
    {
        self.driver
    }

    /// Makes the path for `driver` and records the driver when it exists
    fn try_resolve<F: Fn(&str) -> bool>(&mut self, driver: CgroupDriver, slices: &[&str], probe: &F) -> (r:
        Option<String>)
        requires
            forall|s: &str| #[trigger] probe.requires((s,)),
        ensures
            cgroup_v::probed(probe, cpuacct_path(make_spec(driver, path::str_views(slices@))), r is Some),
            r matches Some(p) ==> p@ == make_spec(driver, path::str_views(slices@))
                && final(self).spec_driver() == Some(driver),
            r is None ==> final(self).spec_driver() == old(self).spec_driver(),
    {
        let p = make(driver, slices);
        if cgroup_exists(p.as_str(), probe) {
            self.driver = Some(driver);
            Some(p)
        } else {
            None
        }
    }

    /// Joins together the given slices to make a target cgroup, formatted for
    /// the current driver. If no driver is set yet, tries systemd and then
    /// cgroupfs, keeping the first whose path exists. The path is returned
    /// only if it exists.
    pub fn make_cgroup<F: Fn(&str) -> bool>(&mut self, slices: &[&str], probe: &F) -> (r: Option<
        String,
    >)
        requires
            forall|s: &str| #[trigger] probe.requires((s,)),
        ensures
            r matches Some(p) ==> {
                &&& final(self).spec_driver() matches Some(d)
                &&& p@ == make_spec(d, path::str_views(slices@))
                &&& cgroup_v::probed(probe, cpuacct_path(p@), true)
                &&& old(self).spec_driver() is Some ==> final(self).spec_driver() == old(self).spec_driver()
                &&& (old(self).spec_driver() is None && d == CgroupDriver::Cgroupfs) ==> cgroup_v::probed(
                    probe,
                    cpuacct_path(make_spec(CgroupDriver::Systemd, path::str_views(slices@))),
                    false,
                )
            },
            r is None ==> {
                &&& final(self).spec_driver() == old(self).spec_driver()
                &&& old(self).spec_driver() matches Some(d) ==> cgroup_v::probed(
                    probe,
                    cpuacct_path(make_spec(d, path::str_views(slices@))),
                    false,
                )
                &&& old(self).spec_driver() is None ==> cgroup_v::probed(
                    probe,
                    cpuacct_path(make_spec(CgroupDriver::Systemd, path::str_views(slices@))),
                    false,
                ) && cgroup_v::probed(
                    probe,
                    cpuacct_path(make_spec(CgroupDriver::Cgroupfs, path::str_views(slices@))),
                    false,
                )
            },
    {
        self.make_cgroup_divided(slices, slices, probe)
    }

    /// Like `make_cgroup`, with different slices for each driver
    pub fn make_cgroup_divided<F: Fn(&str) -> bool>(
        &mut self,
        systemd_slices: &[&str],
        cgroupfs_slices: &[&str],
        probe: &F,
    ) -> (r: Option<String>)
        requires
            forall|s: &str| #[trigger] probe.requires((s,)),
        ensures
            r matches Some(p) ==> {
                &&& final(self).spec_driver() matches Some(d)
                &&& p@ == make_spec(
                    d,
                    path::str_views(
                        match d {
                            CgroupDriver::Systemd => systemd_slices@,
                            CgroupDriver::Cgroupfs => cgroupfs_slices@,
                        },
                    ),
                )
                &&& cgroup_v::probed(probe, cpuacct_path(p@), true)
                &&& old(self).spec_driver() is Some ==> final(self).spec_driver() == old(self).spec_driver()
                &&& (old(self).spec_driver() is None && d == CgroupDriver::Cgroupfs) ==> cgroup_v::probed(
                    probe,
                    cpuacct_path(make_spec(CgroupDriver::Systemd, path::str_views(systemd_slices@))),
                    false,
                )
            },
            r is None ==> {
                &&& final(self).spec_driver() == old(self).spec_driver()
                &&& old(self).spec_driver() == Some(CgroupDriver::Systemd) ==> cgroup_v::probed(
                    probe,
                    cpuacct_path(make_spec(CgroupDriver::Systemd, path::str_views(systemd_slices@))),
                    false,
                )
                &&& old(self).spec_driver() == Some(CgroupDriver::Cgroupfs) ==> cgroup_v::probed(
                    probe,
                    cpuacct_path(make_spec(CgroupDriver::Cgroupfs, path::str_views(cgroupfs_slices@))),
                    false,
                )
                &&& old(self).spec_driver() is None ==> cgroup_v::probed(
                    probe,
                    cpuacct_path(make_spec(CgroupDriver::Systemd, path::str_views(systemd_slices@))),
                    false,
                ) && cgroup_v::probed(
                    probe,
                    cpuacct_path(make_spec(CgroupDriver::Cgroupfs, path::str_views(cgroupfs_slices@))),
                    false,
                )
            },
    {
        match self.driver {
            Some(driver) => {
                let p = match driver {
                    CgroupDriver::Systemd => make(driver, systemd_slices),
                    CgroupDriver::Cgroupfs => make(driver, cgroupfs_slices),
                };
                if cgroup_exists(p.as_str(), probe) {
                    Some(p)
                } else {
                    None
                }
            },
            None => {
                match self.try_resolve(CgroupDriver::Systemd, systemd_slices, probe) {
                    Some(p) => Some(p),
                    None => self.try_resolve(CgroupDriver::Cgroupfs, cgroupfs_slices, probe),
                }
            },
        }
    }
}

} // verus!
