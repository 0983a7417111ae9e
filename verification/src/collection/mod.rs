//! Collection of resource statistics from the cgroup virtual files of each
//! target into CSV records

pub mod buffers;
pub mod collect;
pub mod collectors;
pub mod flush;
pub mod perf_table;
pub mod status;
pub mod system_info;
