//! Collectors that turn the cgroup files of a target into CSV rows

pub mod cgroup_v2;
pub mod cgroups_v1;
pub mod all;

use vstd::prelude::*;
use vstd::string::StringExecFns;
use crate::util::number;
use crate::util::path::{self, push_path};

verus! {

/// The decimal text of `n`, without leading zeros
pub open spec fn dec_text(n: u64) -> Seq<char> {
    number::dec_repr(n as nat).map_values(|b: u8| b as char)
}

/// Calls `ToString::to_string` on a `u64`. Its documentation: integers
/// display in decimal, without leading zeros.
#[verifier::external_body]
fn u64_to_string(n: u64) -> (r: String)
    ensures
        r@ == dec_text(n),
{
    n.to_string()
}

/// The name of the log file of a target: its id, an underscore, the second
/// timestamp and `.log`
pub open spec fn log_file_name(id: Seq<char>, ts: u64) -> Seq<char> {
    id + "_"@ + dec_text(ts) + ".log"@
}

/// Constructs the log file path for the given target id and second
/// timestamp, in the logs location
pub fn construct_log_path(id: &str, second_ts: u64, logs_location: &str) -> (r: String)
    ensures
        r@ == path::path_push(logs_location@, log_file_name(id@, second_ts)),
{
    let mut filename = id.to_owned();
    filename.append("_");
    let ts = u64_to_string(second_ts);
    filename.append(ts.as_str());
    filename.append(".log");
    let mut p = logs_location.to_owned();
    push_path(&mut p, filename.as_str());
    p
}

} // verus!
