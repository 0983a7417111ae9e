//! Command-line values that need more than parsing: failures to parse a
//! value, and the authors line

use vstd::prelude::*;
use vstd::string::{StringExecFns, StrSliceExecFns};
use crate::polling::providers::ProviderType;
use std::time::Duration;

verus! {

/// A value given on the command line could not be parsed for a field
#[derive(Clone, Debug)]
pub struct ParseFailure {
    pub field: String,
    pub given: String,
}

impl ParseFailure {
    /// A parse failure of the field for the given value
    pub fn new(field: String, given: String) -> (r: Self)
        ensures
            r.field@ == field@,
            r.given@ == given@,
    {
        ParseFailure { field, given }
    }

    /// The description of the failure
    pub fn message(&self) -> (r: String)
        ensures
            r@ == "invalid "@ + self.field@ + ": "@ + self.given@,
    {
        let mut m = "invalid ".to_owned();
        m.append(self.field.as_str());
        m.append(": ");
        m.append(self.given.as_str());
        m
    }
}

/// The authors of a colon-separated list, separated by a comma and a space
pub open spec fn authors_line(raw: Seq<char>) -> Seq<char>
    decreases raw.len(),
{
    if raw.len() == 0 {
        Seq::empty()
    } else {
        authors_line(raw.drop_last()) + if raw.last() == ':' {
            ", "@
        } else {
            seq![raw.last()]
        }
    }
}

/// Joins the colon-separated authors list with a comma and a space
pub fn format_authors(raw: &str) -> (r: String)
    ensures
        r@ == authors_line(raw@),
{
    let n = raw.unicode_len();
    let mut r = String::new();
    let mut i: usize = 0;
    while i < n
        invariant
            i <= n,
            n == raw@.len(),
            r@ == authors_line(raw@.subrange(0, i as int)),
        decreases n - i,
    {
        let c = raw.get_char(i);
        let piece = raw.substring_char(i, i + 1);
        assert(raw@.subrange(0, i + 1).drop_last() =~= raw@.subrange(0, i as int));
        if c == ':' {
            r.append(", ");
        } else {
            r.append(piece);
            assert(piece@ =~= seq![c]);
        }
        i += 1;
    }
    assert(raw@.subrange(0, n as int) =~= raw@);
    r
}

/// The command to run
#[derive(Clone)]
pub enum Command {
    /// Runs a collection thread that writes resource statistics to output CSV
    /// files
    Run(RunCommand),
}

/// Options of the run command
#[derive(Clone)]
pub struct RunCommand {
    /// Provider to use to generate collection targets (such as
    /// containers/pods)
    pub provider: ProviderType,
}

/// Options of the polling thread
pub struct PollingOptions {
    /// Interval between requests to providers to get targets
    pub interval: Duration,
}

} // verus!
