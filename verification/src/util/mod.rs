//! Utility methods for processing bytes, buffers and cgroup paths

pub mod byte;
pub mod buffer;
pub mod pool;
pub mod path;
pub mod cgroup;
pub mod cgroups;
pub mod number;
pub mod record;
pub mod lazy_quantity;
pub mod system;
pub mod text;

use vstd::prelude::*;

verus! {

/// Represents an anonymous slice, lacking any memory ownership semantics
#[derive(Clone, Copy)]
pub struct AnonymousSlice {
    pub start: usize,
    pub length: usize,
}

impl AnonymousSlice {
    /// The empty slice at the start
    pub fn empty() -> (r: Self)
        ensures
            r.start == 0 && r.length == 0,
    {
        AnonymousSlice { start: 0, length: 0 }
    }

    /// Consumes a slice structure to narrow a larger slice to the specific
    /// slice the structure represents. Gives `None` when the represented
    /// slice reaches beyond the end of the larger slice.
    pub fn consume<'a, T>(&self, slice: &'a [T]) -> (r: Option<&'a [T]>)
        requires
            self.start + self.length <= usize::MAX,
        ensures
            self.start + self.length > slice@.len() ==> r is None,
            self.start + self.length <= slice@.len() ==> (r matches Some(s) && s@ == slice@.subrange(
                self.start as int,
                self.start + self.length,
            )),
    {
        let end = self.start + self.length;
        if end > slice.len() {
            None
        } else {
            Some(&slice[self.start..end])
        }
    }
}

/// Sixteen empty slices
pub open spec fn empty_slices() -> Seq<AnonymousSlice> {
    Seq::new(16, |i: int| AnonymousSlice { start: 0, length: 0 })
}

/// Sixteen slices that all start at zero with no length are the empty slices
pub proof fn lemma_empty_slices(s: Seq<AnonymousSlice>)
    requires
        s.len() == 16,
        forall|i: int| 0 <= i < 16 ==> #[trigger] s[i].start == 0 && s[i].length == 0,
    ensures
        s == empty_slices(),
{
    assert forall|i: int| 0 <= i < 16 implies s[i] == empty_slices()[i] by {
        assert(s[i].start == 0);
        assert(s[i].length == 0);
    }
    assert(s =~= empty_slices());
}

} // verus!
