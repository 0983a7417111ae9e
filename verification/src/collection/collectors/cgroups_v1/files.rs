//! Paths of the cgroup v1 files read for each target

use vstd::prelude::*;
use crate::util::path::{self, push_path};

verus! {

/// Root of the cgroup v1 hierarchies
pub const CGROUP_V1_ROOT: &'static str = "/sys/fs/cgroup";

/// The path of the stats file `file` of the relative cgroup `cgroup` in the
/// hierarchy of `subsystem`
pub open spec fn file_path(cgroup: Seq<char>, subsystem: Seq<char>, file: Seq<char>) -> Seq<char> {
    path::path_push(
        path::path_push(path::path_push(CGROUP_V1_ROOT@, subsystem), cgroup),
        file,
    )
}

/// Builds the path of a stats file for the cgroup corresponding to the given
/// relative cgroup in the given subsystem
pub fn proc_file_path(cgroup: &str, subsystem: &str, file: &str) -> (r: String)
    ensures
        r@ == file_path(cgroup@, subsystem@, file@),
{
    let mut p = CGROUP_V1_ROOT.to_owned();
    push_path(&mut p, subsystem);
    push_path(&mut p, cgroup);
    push_path(&mut p, file);
    p
}

/// Paths of the files read for each target, opened once and re-used over the
/// entire timeline of the target monitoring
pub struct ProcFilePaths {
    pub current_pids: String,
    pub max_pids: String,
    pub cpu_stat: String,
    pub cpuacct_stat: String,
    pub cpuacct_usage: String,
    pub cpuacct_usage_sys: String,
    pub cpuacct_usage_user: String,
    pub cpuacct_usage_percpu: String,
    pub memory_usage_in_bytes: String,
    pub memory_max_usage_in_bytes: String,
    pub memory_limit_in_bytes: String,
    pub memory_soft_limit_in_bytes: String,
    pub memory_failcnt: String,
    pub memory_stat: String,
    pub blkio_io_service_bytes: String,
    pub blkio_io_serviced: String,
    pub blkio_io_service_time: String,
    pub blkio_io_queued: String,
    pub blkio_io_wait_time: String,
    pub blkio_io_merged: String,
    pub blkio_time: String,
    pub blkio_sectors: String,
    pub blkio_throttle_io_service_bytes: String,
    pub blkio_throttle_io_serviced: String,
    pub blkio_bfq_io_service_bytes: String,
    pub blkio_bfq_io_serviced: String,
}

impl ProcFilePaths {
    /// Each path is that of its file for the relative cgroup `cgroup`
    pub open spec fn paths_for(&self, cgroup: Seq<char>) -> bool {
        &&& self.current_pids@ == file_path(cgroup, "pids"@, "pids.current"@)
        &&& self.max_pids@ == file_path(cgroup, "pids"@, "pids.max"@)
        &&& self.cpu_stat@ == file_path(cgroup, "cpu"@, "cpu.stat"@)
        &&& self.cpuacct_stat@ == file_path(cgroup, "cpuacct"@, "cpuacct.stat"@)
        &&& self.cpuacct_usage@ == file_path(cgroup, "cpuacct"@, "cpuacct.usage"@)
        &&& self.cpuacct_usage_sys@ == file_path(cgroup, "cpuacct"@, "cpuacct.usage_sys"@)
        &&& self.cpuacct_usage_user@ == file_path(cgroup, "cpuacct"@, "cpuacct.usage_user"@)
        &&& self.cpuacct_usage_percpu@ == file_path(cgroup, "cpuacct"@, "cpuacct.usage_percpu"@)
        &&& self.memory_usage_in_bytes@ == file_path(cgroup, "memory"@, "memory.usage_in_bytes"@)
        &&& self.memory_max_usage_in_bytes@ == file_path(cgroup, "memory"@, "memory.max_usage_in_bytes"@)
        &&& self.memory_limit_in_bytes@ == file_path(cgroup, "memory"@, "memory.limit_in_bytes"@)
        &&& self.memory_soft_limit_in_bytes@ == file_path(cgroup, "memory"@, "memory.soft_limit_in_bytes"@)
        &&& self.memory_failcnt@ == file_path(cgroup, "memory"@, "memory.failcnt"@)
        &&& self.memory_stat@ == file_path(cgroup, "memory"@, "memory.stat"@)
        &&& self.blkio_io_service_bytes@ == file_path(cgroup, "blkio"@, "blkio.io_service_bytes"@)
        &&& self.blkio_io_serviced@ == file_path(cgroup, "blkio"@, "blkio.io_serviced"@)
        &&& self.blkio_io_service_time@ == file_path(cgroup, "blkio"@, "blkio.io_service_time"@)
        &&& self.blkio_io_queued@ == file_path(cgroup, "blkio"@, "blkio.io_queued"@)
        &&& self.blkio_io_wait_time@ == file_path(cgroup, "blkio"@, "blkio.io_wait_time"@)
        &&& self.blkio_io_merged@ == file_path(cgroup, "blkio"@, "blkio.io_merged"@)
        &&& self.blkio_time@ == file_path(cgroup, "blkio"@, "blkio.time"@)
        &&& self.blkio_sectors@ == file_path(cgroup, "blkio"@, "blkio.sectors"@)
        &&& self.blkio_throttle_io_service_bytes@ == file_path(cgroup, "blkio"@, "blkio.throttle.io_service_bytes"@)
        &&& self.blkio_throttle_io_serviced@ == file_path(cgroup, "blkio"@, "blkio.throttle.io_serviced"@)
        &&& self.blkio_bfq_io_service_bytes@ == file_path(cgroup, "blkio"@, "blkio.bfq.io_service_bytes"@)
        &&& self.blkio_bfq_io_serviced@ == file_path(cgroup, "blkio"@, "blkio.bfq.io_serviced"@)
    }

    /// The paths of all stats files of the given relative cgroup
    pub fn new(cgroup: &str) -> (r: Self)
        ensures
            r.paths_for(cgroup@),
    {
        ProcFilePaths {
            current_pids: proc_file_path(cgroup, "pids", "pids.current"),
            max_pids: proc_file_path(cgroup, "pids", "pids.max"),
            cpu_stat: proc_file_path(cgroup, "cpu", "cpu.stat"),
            cpuacct_stat: proc_file_path(cgroup, "cpuacct", "cpuacct.stat"),
            cpuacct_usage: proc_file_path(cgroup, "cpuacct", "cpuacct.usage"),
            cpuacct_usage_sys: proc_file_path(cgroup, "cpuacct", "cpuacct.usage_sys"),
            cpuacct_usage_user: proc_file_path(cgroup, "cpuacct", "cpuacct.usage_user"),
            cpuacct_usage_percpu: proc_file_path(cgroup, "cpuacct", "cpuacct.usage_percpu"),
            memory_usage_in_bytes: proc_file_path(cgroup, "memory", "memory.usage_in_bytes"),
            memory_max_usage_in_bytes: proc_file_path(cgroup, "memory", "memory.max_usage_in_bytes"),
            memory_limit_in_bytes: proc_file_path(cgroup, "memory", "memory.limit_in_bytes"),
            memory_soft_limit_in_bytes: proc_file_path(cgroup, "memory", "memory.soft_limit_in_bytes"),
            memory_failcnt: proc_file_path(cgroup, "memory", "memory.failcnt"),
            memory_stat: proc_file_path(cgroup, "memory", "memory.stat"),
            blkio_io_service_bytes: proc_file_path(cgroup, "blkio", "blkio.io_service_bytes"),
            blkio_io_serviced: proc_file_path(cgroup, "blkio", "blkio.io_serviced"),
            blkio_io_service_time: proc_file_path(cgroup, "blkio", "blkio.io_service_time"),
            blkio_io_queued: proc_file_path(cgroup, "blkio", "blkio.io_queued"),
            blkio_io_wait_time: proc_file_path(cgroup, "blkio", "blkio.io_wait_time"),
            blkio_io_merged: proc_file_path(cgroup, "blkio", "blkio.io_merged"),
            blkio_time: proc_file_path(cgroup, "blkio", "blkio.time"),
            blkio_sectors: proc_file_path(cgroup, "blkio", "blkio.sectors"),
            blkio_throttle_io_service_bytes: proc_file_path(cgroup, "blkio", "blkio.throttle.io_service_bytes"),
            blkio_throttle_io_serviced: proc_file_path(cgroup, "blkio", "blkio.throttle.io_serviced"),
            blkio_bfq_io_service_bytes: proc_file_path(cgroup, "blkio", "blkio.bfq.io_service_bytes"),
            blkio_bfq_io_serviced: proc_file_path(cgroup, "blkio", "blkio.bfq.io_serviced"),
        }
    }
}

} // verus!
