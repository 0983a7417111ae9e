//! Working buffers re-used for every collection, to avoid heap allocations at
//! runtime

use vstd::prelude::*;
use csv::ByteRecord;
use crate::util::buffer::{self, Buffer};
use crate::util::record::{self, record_with_capacity};
use crate::util::AnonymousSlice;

verus! {

/// Length of the buffer for each row. Designed to be a reasonable upper limit
/// to prevent expensive re-allocation
pub const ROW_BUFFER_SIZE: usize = 1200;

/// Length of the buffer used to read proc files in with. Designed to be an
/// upper limit for the various virtual files that need to be read
pub const WORKING_BUFFER_SIZE: usize = 16384;

/// Length of the buffer used to build up stat file entries as the reader uses
/// pre-examined layouts to map lines to entries (the number of entries used
/// for `memory.stat`)
pub const SLICES_BUFFER_SIZE: usize = 16;

/// Expected number of fields per row
pub const BASE_FIELD_COUNT: usize = 75;

/// Working buffers used to avoid heap allocations at runtime
pub struct WorkingBuffers {
    pub record: ByteRecord,
    pub buffer: Buffer<16384>,
    pub copy_buffer: Buffer<16384>,
    pub slices: [AnonymousSlice; 16],
}

impl WorkingBuffers {
    /// Allocates the working buffers: an empty record, zeroed buffers and
    /// empty slices
    pub fn new() -> (r: Self)
        ensures
            record::record_fields(r.record) == Seq::<Seq<u8>>::empty(),
            clean(&r),
    {
        let empty = AnonymousSlice::empty();
        let r = WorkingBuffers {
            record: record_with_capacity(ROW_BUFFER_SIZE, BASE_FIELD_COUNT),
            buffer: Buffer::<16384>::new(),
            copy_buffer: Buffer::<16384>::new(),
            slices: [empty; 16],
        };
        assert(r.buffer.b@ =~= zeros());
        assert(r.copy_buffer.b@ =~= zeros());
        proof {
            reveal(clean);
        }
        r
    }
}

/// A working buffer's worth of zero bytes
pub open spec fn zeros() -> Seq<u8> {
    Seq::new(16384, |i: int| 0u8)
}

/// The working buffers hold nothing: both buffers are empty and zeroed, and
/// every slice is empty
#[verifier::opaque]
pub open spec fn clean(w: &WorkingBuffers) -> bool {
    &&& w.buffer.len == 0
    &&& w.buffer.b@ == zeros()
    &&& w.copy_buffer.len == 0
    &&& w.copy_buffer.b@ == zeros()
    &&& forall|i: int| 0 <= i < 16 ==> #[trigger] w.slices@[i].start == 0 && w.slices@[i].length == 0
}

/// The outcome of reading `content` (`None` when there was nothing to read)
/// into a working buffer: the number of bytes that fit
pub open spec fn load_outcome(content: Option<Seq<u8>>) -> Option<usize> {
    match content {
        Some(c) => Some(
            if c.len() <= 16384 {
                c.len() as usize
            } else {
                16384usize
            },
        ),
        None => None,
    }
}

/// The number of bytes loaded from `content`
pub open spec fn load_len(content: Option<Seq<u8>>) -> int {
    match load_outcome(content) {
        Some(n) => n as int,
        None => 0,
    }
}

/// A zeroed working buffer after reading `content` into it
pub open spec fn loaded(content: Option<Seq<u8>>) -> Seq<u8> {
    match content {
        Some(c) => buffer::written(zeros(), c).0,
        None => zeros(),
    }
}

/// Reads `content` into the working buffer as a file read does: as many of
/// its bytes as fit are written at the start of the buffer, and their number
/// is the outcome. `None` (no file, or the read failed) leaves it as it is.
pub fn load(content: Option<&[u8]>, buffers: &mut WorkingBuffers) -> (r: Option<usize>)
    ensures
        r == load_outcome(opt_bytes(content)),
        final(buffers).buffer.b@ == match content {
            Some(c) => buffer::written(old(buffers).buffer.b@, c@).0,
            None => old(buffers).buffer.b@,
        },
        final(buffers).buffer.len == old(buffers).buffer.len,
        final(buffers).copy_buffer == old(buffers).copy_buffer,
        final(buffers).slices == old(buffers).slices,
        final(buffers).record == old(buffers).record,
{
    match content {
        Some(c) => Some(buffers.buffer.write(c)),
        None => None,
    }
}

/// The byte views of an optional slice
pub open spec fn opt_bytes(r: Option<&[u8]>) -> Option<Seq<u8>> {
    match r {
        Some(x) => Some(x@),
        None => None,
    }
}

/// Clearing the bytes that were loaded zeroes the buffer again
pub proof fn lemma_load_then_clear(content: Option<Seq<u8>>)
    ensures
        buffer::zeroed(loaded(content), 0, load_len(content)) == zeros(),
        loaded(content).len() == 16384,
        load_len(content) <= 16384,
{
    assert(buffer::zeroed(loaded(content), 0, load_len(content)) =~= zeros());
}

} // verus!
