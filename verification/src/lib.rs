//! Verified core of a resource-utilization monitor for containers: byte
//! scanning of cgroup virtual files, working buffers, cgroup path
//! construction and target pool tracking.

pub mod util;
pub mod polling;
pub mod collection;
pub mod shared;
pub mod shell;
pub mod cli;
