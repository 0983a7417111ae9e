//! Events of the collection buffers being flushed to the log files

use vstd::prelude::*;
use vstd::string::StringSliceAdditionalSpecFns;
use crate::util::buffer::{self, Buffer};

verus! {

/// Max length of a target ID (Docker container or Kubernetes pod)
pub const TARGET_ID_BUFFER_LENGTH: usize = 64;

/// Stores metadata about a buffer flush event
pub struct FlushEvent {
    pub timestamp: u128,
    pub target_id: Buffer<64>,
    pub written: usize,
    pub success: bool,
}

impl FlushEvent {
    /// A flush event for the outcome of a write (`None` when it failed) of
    /// the buffer of the target with the given id, at the given time: the id
    /// is truncated to the buffer, and a failed write counts zero bytes
    pub fn new(result: Option<usize>, id: &str, timestamp: u128) -> (r: Self)
        ensures
            r.timestamp == timestamp,
            r.success == result is Some,
            r.written == match result {
                Some(n) => n,
                None => 0,
            },
            r.target_id.b@ == buffer::written(Seq::new(64, |i: int| 0u8), id.spec_bytes()).0,
            r.target_id.len == if id.spec_bytes().len() <= 64 {
                id.spec_bytes().len() as int
            } else {
                64
            },
    {
        let success = result.is_some();
        let written = match result {
            Some(n) => n,
            None => 0,
        };
        FlushEvent { timestamp, target_id: Buffer::<64>::from_str_truncate(id), written, success }
    }
}

} // verus!
