//! Reading of cgroup v1 statistics files into record fields

pub mod read;
