//! Paths of the cgroup v2 interface files read for each target

use vstd::prelude::*;
use crate::util::path::{self, push_path};

verus! {

/// Root of the cgroup v2 unified hierarchy
pub const CGROUP_V2_ROOT: &'static str = "/sys/fs/cgroup";

/// The path of the interface file `file` of the relative cgroup `cgroup`
pub open spec fn file_path(cgroup: Seq<char>, file: Seq<char>) -> Seq<char> {
    path::path_push(path::path_push(CGROUP_V2_ROOT@, cgroup), file)
}

/// Builds the path of an interface file for the cgroup corresponding to the
/// given relative cgroup
pub fn proc_file_path(cgroup: &str, file: &str) -> (r: String)
    ensures
        r@ == file_path(cgroup@, file@),
{
    let mut p = CGROUP_V2_ROOT.to_owned();
    push_path(&mut p, cgroup);
    push_path(&mut p, file);
    p
}

/// Paths of the files read for each target, opened once and re-used over the
/// entire timeline of the target monitoring
pub struct ProcFilePaths {
    pub pids_current: String,
    pub pids_max: String,
    pub cpu_stat: String,
    pub memory_current: String,
    pub memory_high: String,
    pub memory_max: String,
    pub memory_stat: String,
    pub io_stat: String,
}

impl ProcFilePaths {
    /// Each path is that of its file for the relative cgroup `cgroup`
    pub open spec fn paths_for(&self, cgroup: Seq<char>) -> bool {
        &&& self.pids_current@ == file_path(cgroup, "pids.current"@)
        &&& self.pids_max@ == file_path(cgroup, "pids.max"@)
        &&& self.cpu_stat@ == file_path(cgroup, "cpu.stat"@)
        &&& self.memory_current@ == file_path(cgroup, "memory.current"@)
        &&& self.memory_high@ == file_path(cgroup, "memory.high"@)
        &&& self.memory_max@ == file_path(cgroup, "memory.max"@)
        &&& self.memory_stat@ == file_path(cgroup, "memory.stat"@)
        &&& self.io_stat@ == file_path(cgroup, "io.stat"@)
    }

    /// The paths of all interface files of the given relative cgroup
    pub fn new(cgroup: &str) -> (r: Self)
        ensures
            r.paths_for(cgroup@),
    {
        ProcFilePaths {
            pids_current: proc_file_path(cgroup, "pids.current"),
            pids_max: proc_file_path(cgroup, "pids.max"),
            cpu_stat: proc_file_path(cgroup, "cpu.stat"),
            memory_current: proc_file_path(cgroup, "memory.current"),
            memory_high: proc_file_path(cgroup, "memory.high"),
            memory_max: proc_file_path(cgroup, "memory.max"),
            memory_stat: proc_file_path(cgroup, "memory.stat"),
            io_stat: proc_file_path(cgroup, "io.stat"),
        }
    }
}

} // verus!
