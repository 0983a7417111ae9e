//! Collection of statistics from the cgroup v1 hierarchies

pub mod files;

use vstd::prelude::*;
use crate::collection::buffers::{self, WorkingBuffers};
use crate::collection::collect::read::{self, StatFileLayout};
use crate::util::lazy_quantity::{self, QuantityView};
use crate::util::number::{self, format_u128};
use crate::util::record::{self, push_field};
use crate::util::cgroup::CgroupPath;
use crate::util::system::{remap, remap_to_usize_spec};
use crate::collection::perf_table::{Column, ColumnType, TableMetadata, column_views};
use files::ProcFilePaths;
use vstd::string::StringSliceAdditionalSpecFns;

verus! {

/// The views of a sequence of strings
pub open spec fn string_views(s: Seq<String>) -> Seq<Seq<char>> {
    s.map_values(|x: String| x@)
}

/// The four headers an I/O prefix expands to (read, write, sync, async)
pub open spec fn io_header_names(base: Seq<char>) -> Seq<Seq<char>> {
    seq![base + ".read"@, base + ".write"@, base + ".sync"@, base + ".async"@]
}

/// Expands a single I/O prefix to the 4 headers that will end up in the
/// logfile (read, write, sync, async)
pub fn append_io_headers(headers: &mut Vec<String>, base: &str)
    ensures
        string_views(final(headers)@) == string_views(old(headers)@) + io_header_names(base@),
{
    let mut read = base.to_owned();
    read.append(".read");
    let mut write = base.to_owned();
    write.append(".write");
    let mut sync = base.to_owned();
    sync.append(".sync");
    let mut asynchronous = base.to_owned();
    asynchronous.append(".async");
    headers.push(read);
    headers.push(write);
    headers.push(sync);
    headers.push(asynchronous);
    assert(string_views(headers@) =~= string_views(old(headers)@) + io_header_names(base@));
}

/// The headers for single columns, in order
pub open spec fn base_header_names() -> Seq<Seq<char>> {
    seq![
        "read"@,
        "pids.current"@,
        "pids.max"@,
        "cpu.usage.total"@,
        "cpu.usage.system"@,
        "cpu.usage.user"@,
        "cpu.usage.percpu"@,
        "cpu.stat.user"@,
        "cpu.stat.system"@,
        "cpu.throttling.periods"@,
        "cpu.throttling.throttled.count"@,
        "cpu.throttling.throttled.time"@,
        "memory.usage.current"@,
        "memory.usage.max"@,
        "memory.limit.hard"@,
        "memory.limit.soft"@,
        "memory.failcnt"@,
        "memory.hierarchical_limit.memory"@,
        "memory.hierarchical_limit.memoryswap"@,
        "memory.cache"@,
        "memory.rss.all"@,
        "memory.rss.huge"@,
        "memory.mapped"@,
        "memory.swap"@,
        "memory.paged.in"@,
        "memory.paged.out"@,
        "memory.fault.total"@,
        "memory.fault.major"@,
        "memory.anon.inactive"@,
        "memory.anon.active"@,
        "memory.file.inactive"@,
        "memory.file.active"@,
        "memory.unevictable"@,
        "blkio.time"@,
        "blkio.sectors"@,
    ]
}

/// The I/O prefixes, each expanded to four headers, in order
pub open spec fn io_header_prefixes() -> Seq<Seq<char>> {
    seq![
        "blkio.service.bytes"@,
        "blkio.service.ios"@,
        "blkio.service.time"@,
        "blkio.queued"@,
        "blkio.wait"@,
        "blkio.merged"@,
        "blkio.throttle.service.bytes"@,
        "blkio.throttle.service.ios"@,
        "blkio.bfq.service.bytes"@,
        "blkio.bfq.service.ios"@,
    ]
}

/// The headers of the expanded I/O prefixes `p`, in order
pub open spec fn expanded_io_headers(p: Seq<Seq<char>>) -> Seq<Seq<char>>
    decreases p.len(),
{
    if p.len() == 0 {
        Seq::empty()
    } else {
        expanded_io_headers(p.drop_last()) + io_header_names(p.last())
    }
}

/// All headers of the log files, in column order
pub open spec fn header_names() -> Seq<Seq<char>> {
    base_header_names() + expanded_io_headers(io_header_prefixes())
}

/// Creates the headers for the logfiles
pub fn get_headers() -> (r: Vec<String>)
    ensures
        string_views(r@) == header_names(),
{
    let mut headers: Vec<String> = Vec::new();
    headers.push("read".to_owned());
    headers.push("pids.current".to_owned());
    headers.push("pids.max".to_owned());
    headers.push("cpu.usage.total".to_owned());
    headers.push("cpu.usage.system".to_owned());
    headers.push("cpu.usage.user".to_owned());
    headers.push("cpu.usage.percpu".to_owned());
    headers.push("cpu.stat.user".to_owned());
    headers.push("cpu.stat.system".to_owned());
    headers.push("cpu.throttling.periods".to_owned());
    headers.push("cpu.throttling.throttled.count".to_owned());
    headers.push("cpu.throttling.throttled.time".to_owned());
    headers.push("memory.usage.current".to_owned());
    headers.push("memory.usage.max".to_owned());
    headers.push("memory.limit.hard".to_owned());
    headers.push("memory.limit.soft".to_owned());
    headers.push("memory.failcnt".to_owned());
    headers.push("memory.hierarchical_limit.memory".to_owned());
    headers.push("memory.hierarchical_limit.memoryswap".to_owned());
    headers.push("memory.cache".to_owned());
    headers.push("memory.rss.all".to_owned());
    headers.push("memory.rss.huge".to_owned());
    headers.push("memory.mapped".to_owned());
    headers.push("memory.swap".to_owned());
    headers.push("memory.paged.in".to_owned());
    headers.push("memory.paged.out".to_owned());
    headers.push("memory.fault.total".to_owned());
    headers.push("memory.fault.major".to_owned());
    headers.push("memory.anon.inactive".to_owned());
    headers.push("memory.anon.active".to_owned());
    headers.push("memory.file.inactive".to_owned());
    headers.push("memory.file.active".to_owned());
    headers.push("memory.unevictable".to_owned());
    headers.push("blkio.time".to_owned());
    headers.push("blkio.sectors".to_owned());
    assert(string_views(headers@) =~= base_header_names());
    append_io_headers(&mut headers, "blkio.service.bytes");
    append_io_headers(&mut headers, "blkio.service.ios");
    append_io_headers(&mut headers, "blkio.service.time");
    append_io_headers(&mut headers, "blkio.queued");
    append_io_headers(&mut headers, "blkio.wait");
    append_io_headers(&mut headers, "blkio.merged");
    append_io_headers(&mut headers, "blkio.throttle.service.bytes");
    append_io_headers(&mut headers, "blkio.throttle.service.ios");
    append_io_headers(&mut headers, "blkio.bfq.service.bytes");
    append_io_headers(&mut headers, "blkio.bfq.service.ios");
    proof {
        reveal_with_fuel(expanded_io_headers, 11);
    }
    assert(string_views(headers@) =~= header_names());
    headers
}


/// The contents read from each file of a target in one collection tick:
/// `None` where there was no file handle or reading it failed
pub struct FileContents {
    pub current_pids: Option<Vec<u8>>,
    pub max_pids: Option<Vec<u8>>,
    pub cpu_stat: Option<Vec<u8>>,
    pub cpuacct_stat: Option<Vec<u8>>,
    pub cpuacct_usage: Option<Vec<u8>>,
    pub cpuacct_usage_sys: Option<Vec<u8>>,
    pub cpuacct_usage_user: Option<Vec<u8>>,
    pub cpuacct_usage_percpu: Option<Vec<u8>>,
    pub memory_usage_in_bytes: Option<Vec<u8>>,
    pub memory_max_usage_in_bytes: Option<Vec<u8>>,
    pub memory_limit_in_bytes: Option<Vec<u8>>,
    pub memory_soft_limit_in_bytes: Option<Vec<u8>>,
    pub memory_failcnt: Option<Vec<u8>>,
    pub memory_stat: Option<Vec<u8>>,
    pub blkio_io_service_bytes: Option<Vec<u8>>,
    pub blkio_io_serviced: Option<Vec<u8>>,
    pub blkio_io_service_time: Option<Vec<u8>>,
    pub blkio_io_queued: Option<Vec<u8>>,
    pub blkio_io_wait_time: Option<Vec<u8>>,
    pub blkio_io_merged: Option<Vec<u8>>,
    pub blkio_time: Option<Vec<u8>>,
    pub blkio_sectors: Option<Vec<u8>>,
    pub blkio_throttle_io_service_bytes: Option<Vec<u8>>,
    pub blkio_throttle_io_serviced: Option<Vec<u8>>,
    pub blkio_bfq_io_service_bytes: Option<Vec<u8>>,
    pub blkio_bfq_io_serviced: Option<Vec<u8>>,
}

/// The view of optional read bytes
pub open spec fn content(c: Option<Vec<u8>>) -> Option<Seq<u8>> {
    match c {
        Some(v) => Some(v@),
        None => None,
    }
}

/// Borrows optional read bytes as a slice
fn as_content(c: &Option<Vec<u8>>) -> (r: Option<&[u8]>)
    ensures
        buffers::opt_bytes(r) == content(*c),
{
    match c {
        Some(v) => Some(v.as_slice()),
        None => None,
    }
}

/// The field a single-value file with the given content gives
#[verifier::opaque]
pub open spec fn entry_value(c: Option<Seq<u8>>) -> Seq<u8> {
    read::entry_field(buffers::loaded(c), buffers::load_len(c))
}

/// The fields a stat file with the given content gives
#[verifier::opaque]
pub open spec fn stat_values(c: Option<Seq<u8>>, offsets: Seq<usize>) -> Seq<Seq<u8>> {
    read::stat_fields(buffers::loaded(c), buffers::load_len(c), offsets, buffers::load_outcome(c))
}

/// A stat file with the given content can be parsed with the offsets
pub open spec fn stat_parses(c: Option<Seq<u8>>, offsets: Seq<usize>) -> bool {
    read::read_some(buffers::load_outcome(c)) ==> read::stat_scan(
        buffers::loaded(c),
        buffers::load_len(c),
        offsets,
        0,
        0,
    ) is Some
}

/// The fields a stat file with the given content gives through the layout
#[verifier::opaque]
pub open spec fn layout_values(c: Option<Seq<u8>>, layout: Seq<Option<(int, int)>>) -> Seq<Seq<u8>> {
    read::layout_fields(crate::util::empty_slices(), buffers::loaded(c), layout, buffers::load_outcome(c))
}

/// The layout fits the stat file with the given content
pub open spec fn layout_applies(c: Option<Seq<u8>>, layout: Seq<Option<(int, int)>>) -> bool {
    read::read_some(buffers::load_outcome(c)) ==> read::layout_fits_content(buffers::loaded(c), layout)
}

/// The field a simple I/O file with the given content gives
#[verifier::opaque]
pub open spec fn simple_io_value(c: Option<Seq<u8>>) -> Seq<Seq<u8>> {
    read::simple_io_output(buffers::loaded(c), buffers::load_len(c), buffers::zeros()).0
}

/// The fields an I/O file with the given content gives
#[verifier::opaque]
pub open spec fn io_value(c: Option<Seq<u8>>) -> Seq<Seq<u8>> {
    read::io_output(buffers::loaded(c), buffers::load_len(c), buffers::zeros()).0
}

/// Writes the field of a single-value file
fn entry_step(c: Option<&[u8]>, buffers: &mut WorkingBuffers)
    requires
        buffers::clean(old(buffers)),
    ensures
        buffers::clean(final(buffers)),
        record::record_fields(final(buffers).record) == record::record_fields(old(buffers).record).push(
            entry_value(buffers::opt_bytes(c)),
        ),
{
    proof {
        reveal(buffers::clean);
    }
    let read = buffers::load(c, buffers);
    proof {
        buffers::lemma_load_then_clear(buffers::opt_bytes(c));
        assert(buffers.buffer.b@ == buffers::loaded(buffers::opt_bytes(c)));
        reveal(entry_value);
    }
    read::entry(read, buffers);
}

/// Writes the fields of a stat file
fn stat_step(c: Option<&[u8]>, offsets: &[usize], buffers: &mut WorkingBuffers)
    requires
        buffers::clean(old(buffers)),
        read::offsets_fit(offsets@),
        stat_parses(buffers::opt_bytes(c), offsets@),
    ensures
        buffers::clean(final(buffers)),
        record::record_fields(final(buffers).record) == record::record_fields(old(buffers).record)
            + stat_values(buffers::opt_bytes(c), offsets@),
{
    proof {
        reveal(buffers::clean);
    }
    let read = buffers::load(c, buffers);
    proof {
        buffers::lemma_load_then_clear(buffers::opt_bytes(c));
        assert(buffers.buffer.b@ == buffers::loaded(buffers::opt_bytes(c)));
    }
    read::stat_file(read, offsets, buffers);
    proof {
        reveal(stat_values);
    }
}

/// Writes the fields of a simple I/O file
fn simple_io_step(c: Option<&[u8]>, buffers: &mut WorkingBuffers)
    requires
        buffers::clean(old(buffers)),
    ensures
        buffers::clean(final(buffers)),
        record::record_fields(final(buffers).record) == record::record_fields(old(buffers).record)
            + simple_io_value(buffers::opt_bytes(c)),
{
    proof {
        reveal(buffers::clean);
    }
    let read = buffers::load(c, buffers);
    proof {
        buffers::lemma_load_then_clear(buffers::opt_bytes(c));
        assert(buffers.buffer.b@ == buffers::loaded(buffers::opt_bytes(c)));
    }
    let ghost t = buffers.copy_buffer.b@;
    read::simple_io(read, buffers);
    proof {
        let b = buffers::loaded(buffers::opt_bytes(c));
        let q = read::simple_total(b, 0, QuantityView::Zero);
        lazy_quantity::lemma_quantity_fields_keep_zero(t, seq![q]);
        reveal(simple_io_value);
    }
}

/// Writes the fields of an I/O file
fn io_step(c: Option<&[u8]>, buffers: &mut WorkingBuffers)
    requires
        buffers::clean(old(buffers)),
    ensures
        buffers::clean(final(buffers)),
        record::record_fields(final(buffers).record) == record::record_fields(old(buffers).record)
            + io_value(buffers::opt_bytes(c)),
{
    proof {
        reveal(buffers::clean);
    }
    let read = buffers::load(c, buffers);
    proof {
        buffers::lemma_load_then_clear(buffers::opt_bytes(c));
        assert(buffers.buffer.b@ == buffers::loaded(buffers::opt_bytes(c)));
    }
    let ghost t = buffers.copy_buffer.b@;
    read::io(read, buffers);
    proof {
        let b = buffers::loaded(buffers::opt_bytes(c));
        let q = read::io_sums(b);
        lazy_quantity::lemma_quantity_fields_keep_zero(t, seq![q.0, q.1, q.2, q.3]);
        reveal(io_value);
    }
}

/// Whether a stat file with the given content can be parsed with the offsets
fn stat_parses_exec(c: Option<&[u8]>, offsets: &[usize]) -> (r: bool)
    requires
        read::offsets_fit(offsets@),
    ensures
        r == stat_parses(buffers::opt_bytes(c), offsets@),
{
    let mut scratch = WorkingBuffers::new();
    let read = buffers::load(c, &mut scratch);
    proof {
        reveal(buffers::clean);
        buffers::lemma_load_then_clear(buffers::opt_bytes(c));
        assert(scratch.buffer.b@ == buffers::loaded(buffers::opt_bytes(c)));
    }
    read::stat_file_parses(read, offsets, &scratch)
}

/// Whether the layout fits the stat file with the given content
fn layout_applies_exec(c: Option<&[u8]>, layout: &StatFileLayout) -> (r: bool)
    ensures
        r == layout_applies(buffers::opt_bytes(c), layout.spec_lines()),
{
    let mut scratch = WorkingBuffers::new();
    let read = buffers::load(c, &mut scratch);
    proof {
        reveal(buffers::clean);
        buffers::lemma_load_then_clear(buffers::opt_bytes(c));
        assert(scratch.buffer.b@ == buffers::loaded(buffers::opt_bytes(c)));
    }
    read::layout_fits(read, layout, &scratch)
}

/// Collects the read time, as its decimal digits
pub fn collect_read(buffers: &mut WorkingBuffers, nano_ts: u128)
    ensures
        record::record_fields(final(buffers).record) == record::record_fields(old(buffers).record).push(
            number::dec_repr(nano_ts as nat),
        ),
        final(buffers).buffer == old(buffers).buffer,
        final(buffers).copy_buffer == old(buffers).copy_buffer,
        final(buffers).slices == old(buffers).slices,
        buffers::clean(old(buffers)) ==> buffers::clean(final(buffers)),
{
    proof {
        reveal(buffers::clean);
    }
    let formatted = format_u128(nano_ts);
    push_field(&mut buffers.record, formatted.as_slice());
}

/// Collects all stats for the pids subsystem
pub fn collect_pids(buffers: &mut WorkingBuffers, files: &FileContents)
    requires
        buffers::clean(old(buffers)),
    ensures
        buffers::clean(final(buffers)),
        record::record_fields(final(buffers).record) == record::record_fields(old(buffers).record)
            + pids_fields(files),
{
    let ghost f0 = record::record_fields(buffers.record);
    entry_step(as_content(&files.current_pids), buffers);
    entry_step(as_content(&files.max_pids), buffers);
    assert(record::record_fields(buffers.record) =~= f0 + seq![
        entry_value(content(files.current_pids)),
        entry_value(content(files.max_pids)),
    ]);
}

/// Key lengths of the lines of the cpuacct.stat file
pub open spec fn cpuacct_stat_offsets() -> Seq<usize> {
    seq![4usize, 6usize]
}

/// Key lengths of the lines of the cpu.stat file
pub open spec fn cpu_stat_offsets() -> Seq<usize> {
    seq![10usize, 12usize, 14usize]
}

/// The stat files of the cpu subsystems can be parsed
pub open spec fn cpu_parses(files: &FileContents) -> bool {
    &&& stat_parses(content(files.cpuacct_stat), cpuacct_stat_offsets())
    &&& stat_parses(content(files.cpu_stat), cpu_stat_offsets())
}

/// Collects all stats for the cpu and cpuacct subsystems
pub fn collect_cpu(buffers: &mut WorkingBuffers, files: &FileContents)
    requires
        buffers::clean(old(buffers)),
        cpu_parses(files),
    ensures
        buffers::clean(final(buffers)),
        record::record_fields(final(buffers).record) == record::record_fields(old(buffers).record)
            + cpu_fields(files),
{
    let ghost f0 = record::record_fields(buffers.record);
    entry_step(as_content(&files.cpuacct_usage), buffers);
    entry_step(as_content(&files.cpuacct_usage_sys), buffers);
    entry_step(as_content(&files.cpuacct_usage_user), buffers);
    entry_step(as_content(&files.cpuacct_usage_percpu), buffers);
    let ghost f4 = record::record_fields(buffers.record);
    assert(f4 =~= f0 + seq![
        entry_value(content(files.cpuacct_usage)),
        entry_value(content(files.cpuacct_usage_sys)),
        entry_value(content(files.cpuacct_usage_user)),
        entry_value(content(files.cpuacct_usage_percpu)),
    ]);
    let cpuacct_offsets: [usize; 2] = [4usize, 6usize];
    let cpu_offsets: [usize; 3] = [10usize, 12usize, 14usize];
    assert(cpuacct_offsets@ =~= cpuacct_stat_offsets());
    assert(cpu_offsets@ =~= cpu_stat_offsets());
    stat_step(as_content(&files.cpuacct_stat), cpuacct_offsets.as_slice(), buffers);
    stat_step(as_content(&files.cpu_stat), cpu_offsets.as_slice(), buffers);
    assert(record::record_fields(buffers.record) =~= f0 + cpu_fields(files));
    assert(record::record_fields(buffers.record) =~= f0 + seq![
        entry_value(content(files.cpuacct_usage)),
        entry_value(content(files.cpuacct_usage_sys)),
        entry_value(content(files.cpuacct_usage_user)),
        entry_value(content(files.cpuacct_usage_percpu)),
    ] + stat_values(content(files.cpuacct_stat), cpuacct_stat_offsets()) + stat_values(
        content(files.cpu_stat),
        cpu_stat_offsets(),
    ));
}

/// Collects all stats for the memory subsystem
pub fn collect_memory(buffers: &mut WorkingBuffers, files: &FileContents, layout: &StatFileLayout)
    requires
        buffers::clean(old(buffers)),
        layout_applies(content(files.memory_stat), layout.spec_lines()),
    ensures
        buffers::clean(final(buffers)),
        record::record_fields(final(buffers).record) == record::record_fields(old(buffers).record)
            + memory_fields(files, layout.spec_lines()),
{
    proof {
        reveal(buffers::clean);
    }
    let ghost f0 = record::record_fields(buffers.record);
    entry_step(as_content(&files.memory_usage_in_bytes), buffers);
    entry_step(as_content(&files.memory_max_usage_in_bytes), buffers);
    entry_step(as_content(&files.memory_limit_in_bytes), buffers);
    entry_step(as_content(&files.memory_soft_limit_in_bytes), buffers);
    entry_step(as_content(&files.memory_failcnt), buffers);
    let ghost f5 = record::record_fields(buffers.record);
    assert(f5 =~= f0 + seq![
        entry_value(content(files.memory_usage_in_bytes)),
        entry_value(content(files.memory_max_usage_in_bytes)),
        entry_value(content(files.memory_limit_in_bytes)),
        entry_value(content(files.memory_soft_limit_in_bytes)),
        entry_value(content(files.memory_failcnt)),
    ]);
    let c = as_content(&files.memory_stat);
    proof {
        crate::util::lemma_empty_slices(buffers.slices@);
    }
    let read = buffers::load(c, buffers);
    proof {
        buffers::lemma_load_then_clear(buffers::opt_bytes(c));
        assert(buffers.buffer.b@ == buffers::loaded(buffers::opt_bytes(c)));
    }
    let ghost len = read::len_after_read(0, read);
    read::with_layout(read, layout, buffers);
    proof {
        reveal(layout_values);
        assert(buffers.buffer.b@ == buffers::zeros());
    }
    assert(record::record_fields(buffers.record) =~= f0 + memory_fields(files, layout.spec_lines()));
}

/// Collects all stats for the blkio subsystem
pub fn collect_blkio(buffers: &mut WorkingBuffers, files: &FileContents)
    requires
        buffers::clean(old(buffers)),
    ensures
        buffers::clean(final(buffers)),
        record::record_fields(final(buffers).record) == record::record_fields(old(buffers).record)
            + blkio_fields(files),
{
    let ghost f0 = record::record_fields(buffers.record);
    simple_io_step(as_content(&files.blkio_time), buffers);
    let ghost mut acc = simple_io_value(content(files.blkio_time));
    simple_io_step(as_content(&files.blkio_sectors), buffers);
    proof {
        let v = simple_io_value(content(files.blkio_sectors));
        assert((f0 + acc) + v =~= f0 + (acc + v));
        acc = acc + v;
    }
    io_step(as_content(&files.blkio_io_service_bytes), buffers);
    proof {
        let v = io_value(content(files.blkio_io_service_bytes));
        assert((f0 + acc) + v =~= f0 + (acc + v));
        acc = acc + v;
    }
    io_step(as_content(&files.blkio_io_serviced), buffers);
    proof {
        let v = io_value(content(files.blkio_io_serviced));
        assert((f0 + acc) + v =~= f0 + (acc + v));
        acc = acc + v;
    }
    io_step(as_content(&files.blkio_io_service_time), buffers);
    proof {
        let v = io_value(content(files.blkio_io_service_time));
        assert((f0 + acc) + v =~= f0 + (acc + v));
        acc = acc + v;
    }
    io_step(as_content(&files.blkio_io_queued), buffers);
    proof {
        let v = io_value(content(files.blkio_io_queued));
        assert((f0 + acc) + v =~= f0 + (acc + v));
        acc = acc + v;
    }
    io_step(as_content(&files.blkio_io_wait_time), buffers);
    proof {
        let v = io_value(content(files.blkio_io_wait_time));
        assert((f0 + acc) + v =~= f0 + (acc + v));
        acc = acc + v;
    }
    io_step(as_content(&files.blkio_io_merged), buffers);
    proof {
        let v = io_value(content(files.blkio_io_merged));
        assert((f0 + acc) + v =~= f0 + (acc + v));
        acc = acc + v;
    }
    io_step(as_content(&files.blkio_throttle_io_service_bytes), buffers);
    proof {
        let v = io_value(content(files.blkio_throttle_io_service_bytes));
        assert((f0 + acc) + v =~= f0 + (acc + v));
        acc = acc + v;
    }
    io_step(as_content(&files.blkio_throttle_io_serviced), buffers);
    proof {
        let v = io_value(content(files.blkio_throttle_io_serviced));
        assert((f0 + acc) + v =~= f0 + (acc + v));
        acc = acc + v;
    }
    io_step(as_content(&files.blkio_bfq_io_service_bytes), buffers);
    proof {
        let v = io_value(content(files.blkio_bfq_io_service_bytes));
        assert((f0 + acc) + v =~= f0 + (acc + v));
        acc = acc + v;
    }
    io_step(as_content(&files.blkio_bfq_io_serviced), buffers);
    proof {
        let v = io_value(content(files.blkio_bfq_io_serviced));
        assert((f0 + acc) + v =~= f0 + (acc + v));
        acc = acc + v;
    }
    assert(acc == blkio_fields(files));
}


/// Entries of the memory.stat file that map to columns, in column order
pub open spec fn memory_stat_names() -> Seq<&'static str> {
    seq![
        "hierarchical_memory_limit",
        "hierarchical_memsw_limit",
        "total_cache",
        "total_rss",
        "total_rss_huge",
        "total_mapped_file",
        "total_swap",
        "total_pgpgin",
        "total_pgpgout",
        "total_pgfault",
        "total_pgmajfault",
        "total_inactive_anon",
        "total_active_anon",
        "total_inactive_file",
        "total_active_file",
        "total_unevictable",
    ]
}

/// Original entries in the memory.stat file that map to columns (in the same
/// order) in the final output
pub fn memory_stat_entries() -> (r: [&'static [u8]; 16])
    ensures
        read::byte_views(r@) == memory_stat_names().map_values(|n: &str| n.spec_bytes()),
{
    let r = [
        "hierarchical_memory_limit".as_bytes(),
        "hierarchical_memsw_limit".as_bytes(),
        "total_cache".as_bytes(),
        "total_rss".as_bytes(),
        "total_rss_huge".as_bytes(),
        "total_mapped_file".as_bytes(),
        "total_swap".as_bytes(),
        "total_pgpgin".as_bytes(),
        "total_pgpgout".as_bytes(),
        "total_pgfault".as_bytes(),
        "total_pgmajfault".as_bytes(),
        "total_inactive_anon".as_bytes(),
        "total_active_anon".as_bytes(),
        "total_inactive_file".as_bytes(),
        "total_active_file".as_bytes(),
        "total_unevictable".as_bytes(),
    ];
    assert(read::byte_views(r@) =~= memory_stat_names().map_values(|n: &str| n.spec_bytes()));
    r
}

/// The columns with metadata, in name order: the per-CPU usage holds one
/// integer per core, and the read time is a nanosecond timestamp
pub open spec fn table_columns(num_cores: u64) -> Seq<(Seq<char>, Column)> {
    seq![
        ("cpu.usage.percpu"@, Column::Vector { kind: ColumnType::Int, count: remap_to_usize_spec(num_cores) }),
        ("read"@, Column::Scalar { kind: ColumnType::Epoch19 }),
    ]
}

/// Collects cgroups v1-sourced data for one target
pub struct Collector {
    pub cgroup: CgroupPath,
    /// Layout of the memory.stat file, examined at initialization
    pub memory_layout: Option<StatFileLayout>,
}

impl Collector {
    /// A collector for the cgroup, not yet initialized
    pub fn new(cgroup: CgroupPath) -> (r: Self)
        ensures
            r.cgroup == cgroup,
            r.memory_layout is None,
    {
        Collector { cgroup, memory_layout: None }
    }

    /// The type of the collector, as written in log file headers
    pub fn get_type(&self) -> (r: &'static str)
        ensures
            r@ == "cgroups_v1"@,
    {
        "cgroups_v1"
    }

    /// Metadata on the columns: the read time is a nanosecond timestamp, and
    /// the per-CPU usage holds one integer per core of the system
    pub fn table_metadata(&self, num_cores: u64) -> (r: TableMetadata)
        ensures
            r.delimiter@ == ","@,
            column_views(r.columns@) == table_columns(num_cores),
    {
        let mut columns: Vec<(String, Column)> = Vec::new();
        columns.push(
            (
                "cpu.usage.percpu".to_owned(),
                Column::Vector { kind: ColumnType::Int, count: remap::<u64, usize>(num_cores) },
            ),
        );
        columns.push(("read".to_owned(), Column::Scalar { kind: ColumnType::Epoch19 }));
        let r = TableMetadata { delimiter: ",", columns };
        assert(column_views(r.columns@) =~= seq![
            (
                "cpu.usage.percpu"@,
                Column::Vector { kind: ColumnType::Int, count: remap_to_usize_spec(num_cores) },
            ),
            ("read"@, Column::Scalar { kind: ColumnType::Epoch19 }),
        ]);
        r
    }

    /// The paths of the files to open for the cgroup
    pub fn file_paths(&self) -> (r: ProcFilePaths)
        ensures
            r.paths_for(self.cgroup.path@),
    {
        ProcFilePaths::new(self.cgroup.path.as_str())
    }

    /// Lets the collector initialize its inner state: examines the layout of
    /// the memory.stat file, as read once (`None` when it could not be)
    pub fn init(&mut self, memory_stat: Option<&[u8]>)
        requires
            memory_stat matches Some(c) ==> read::keys_nonempty(c@),
        ensures
            final(self).cgroup == old(self).cgroup,
            final(self).memory_layout matches Some(l) && {
                &&& memory_stat matches Some(c) ==> l.spec_lines() == read::layout_from(
                    c@,
                    memory_stat_names().map_values(|n: &str| n.spec_bytes()),
                    0,
                )
                &&& memory_stat is None ==> l.spec_lines().len() == 0
            },
    {
        let entries = memory_stat_entries();
        let layout = StatFileLayout::new(memory_stat, entries.as_slice());
        self.memory_layout = Some(layout);
    }

    /// Whether `collect` can run on the contents: the collector was
    /// initialized, the stat files parse, and the memory layout fits the
    /// memory.stat content
    pub fn collectable(&self, files: &FileContents) -> (r: bool)
        ensures
            r == (self.memory_layout is Some && cpu_parses(files) && layout_applies(
                content(files.memory_stat),
                self.memory_layout->0.spec_lines(),
            )),
    {
        match &self.memory_layout {
            None => false,
            Some(layout) => {
                let cpuacct_offsets: [usize; 2] = [4usize, 6usize];
                let cpu_offsets: [usize; 3] = [10usize, 12usize, 14usize];
                assert(cpuacct_offsets@ =~= cpuacct_stat_offsets());
                assert(cpu_offsets@ =~= cpu_stat_offsets());
                let a = stat_parses_exec(as_content(&files.cpuacct_stat), cpuacct_offsets.as_slice());
                let b = stat_parses_exec(as_content(&files.cpu_stat), cpu_offsets.as_slice());
                let c = layout_applies_exec(as_content(&files.memory_stat), layout);
                a && b && c
            },
        }
    }

    /// Collects the current statistics of the target into the record: the
    /// read time, then the pids, cpu, memory and blkio statistics
    pub fn collect(&self, buffers: &mut WorkingBuffers, nano_ts: u128, files: &FileContents)
        requires
            self.memory_layout is Some,
            buffers::clean(old(buffers)),
            cpu_parses(files),
            layout_applies(content(files.memory_stat), self.memory_layout->0.spec_lines()),
        ensures
            buffers::clean(final(buffers)),
            record::record_fields(final(buffers).record) == record::record_fields(old(buffers).record)
                + row_fields(nano_ts, files, self.memory_layout->0.spec_lines()),
    {
        let ghost f0 = record::record_fields(buffers.record);
        match &self.memory_layout {
            Some(layout) => {
                let ghost lines = layout.spec_lines();
                assert(lines == self.memory_layout->0.spec_lines());
                collect_read(buffers, nano_ts);
                collect_pids(buffers, files);
                collect_cpu(buffers, files);
                collect_memory(buffers, files, layout);
                collect_blkio(buffers, files);
                proof {
                    let t = seq![number::dec_repr(nano_ts as nat)];
                    let p = pids_fields(files);
                    let c = cpu_fields(files);
                    let m = memory_fields(files, lines);
                    let b = blkio_fields(files);
                    assert(f0.push(number::dec_repr(nano_ts as nat)) =~= f0 + t);
                    assert((((f0 + t) + p) + c) + m =~= f0 + (((t + p) + c) + m));
                    assert(((((f0 + t) + p) + c) + m) + b =~= f0 + ((((t + p) + c) + m) + b));
                }
            },
            None => {},
        }
    }
}

/// The fields of the pids subsystem
pub open spec fn pids_fields(files: &FileContents) -> Seq<Seq<u8>> {
    seq![entry_value(content(files.current_pids)), entry_value(content(files.max_pids))]
}

/// The fields of the cpu and cpuacct subsystems
pub open spec fn cpu_fields(files: &FileContents) -> Seq<Seq<u8>> {
    seq![
        entry_value(content(files.cpuacct_usage)),
        entry_value(content(files.cpuacct_usage_sys)),
        entry_value(content(files.cpuacct_usage_user)),
        entry_value(content(files.cpuacct_usage_percpu)),
    ] + stat_values(content(files.cpuacct_stat), cpuacct_stat_offsets()) + stat_values(
        content(files.cpu_stat),
        cpu_stat_offsets(),
    )
}

/// The fields of the memory subsystem
pub open spec fn memory_fields(files: &FileContents, layout: Seq<Option<(int, int)>>) -> Seq<Seq<u8>> {
    seq![
        entry_value(content(files.memory_usage_in_bytes)),
        entry_value(content(files.memory_max_usage_in_bytes)),
        entry_value(content(files.memory_limit_in_bytes)),
        entry_value(content(files.memory_soft_limit_in_bytes)),
        entry_value(content(files.memory_failcnt)),
    ] + layout_values(content(files.memory_stat), layout)
}

/// The fields of the blkio subsystem
pub open spec fn blkio_fields(files: &FileContents) -> Seq<Seq<u8>> {
    simple_io_value(content(files.blkio_time)) + simple_io_value(content(files.blkio_sectors))
        + io_value(content(files.blkio_io_service_bytes)) + io_value(content(files.blkio_io_serviced)) + io_value(content(files.blkio_io_service_time)) + io_value(content(files.blkio_io_queued)) + io_value(content(files.blkio_io_wait_time)) + io_value(content(files.blkio_io_merged)) + io_value(content(files.blkio_throttle_io_service_bytes)) + io_value(content(files.blkio_throttle_io_serviced)) + io_value(content(files.blkio_bfq_io_service_bytes)) + io_value(content(files.blkio_bfq_io_serviced))
}

/// The fields of one row: the read time, then the pids, cpu, memory and blkio
/// statistics
pub open spec fn row_fields(nano_ts: u128, files: &FileContents, layout: Seq<Option<(int, int)>>) -> Seq<
    Seq<u8>,
> {
    seq![number::dec_repr(nano_ts as nat)] + pids_fields(files) + cpu_fields(files) + memory_fields(
        files,
        layout,
    ) + blkio_fields(files)
}

/// The fields each file gives are as many as its columns
proof fn lemma_value_lens(c: Option<Seq<u8>>)
    ensures
        simple_io_value(c).len() == 1,
        io_value(c).len() == 4,
{
    reveal(simple_io_value);
    reveal(io_value);
    let b = buffers::loaded(c);
    lazy_quantity::lemma_quantity_fields_len(
        buffers::zeros(),
        seq![read::simple_total(b, 0, QuantityView::Zero)],
    );
    let q = read::io_sums(b);
    lazy_quantity::lemma_quantity_fields_len(buffers::zeros(), seq![q.0, q.1, q.2, q.3]);
}

/// A parsed stat file gives one field per offset
proof fn lemma_stat_values_len(c: Option<Seq<u8>>, offsets: Seq<usize>)
    requires
        stat_parses(c, offsets),
    ensures
        stat_values(c, offsets).len() == offsets.len(),
{
    reveal(stat_values);
    read::lemma_stat_scan_len(buffers::loaded(c), buffers::load_len(c), offsets, 0, 0);
}

/// The expanded headers are four per prefix
proof fn lemma_expanded_len(p: Seq<Seq<char>>)
    ensures
        expanded_io_headers(p).len() == 4 * p.len(),
    decreases p.len(),
{
    if p.len() > 0 {
        lemma_expanded_len(p.drop_last());
    }
}

/// Every row has one field per header when the stat files parse (a stat
/// file with an empty value cannot be collected)
pub proof fn law_row_matches_headers(
    nano_ts: u128,
    files: &FileContents,
    layout: Seq<Option<(int, int)>>,
)
    requires
        cpu_parses(files),
    ensures
        row_fields(nano_ts, files, layout).len() == header_names().len(),
{
    reveal(layout_values);
    lemma_stat_values_len(content(files.cpuacct_stat), cpuacct_stat_offsets());
    lemma_stat_values_len(content(files.cpu_stat), cpu_stat_offsets());
    lemma_value_lens(content(files.blkio_time));
    lemma_value_lens(content(files.blkio_sectors));
    lemma_value_lens(content(files.blkio_io_service_bytes));
    lemma_value_lens(content(files.blkio_io_serviced));
    lemma_value_lens(content(files.blkio_io_service_time));
    lemma_value_lens(content(files.blkio_io_queued));
    lemma_value_lens(content(files.blkio_io_wait_time));
    lemma_value_lens(content(files.blkio_io_merged));
    lemma_value_lens(content(files.blkio_throttle_io_service_bytes));
    lemma_value_lens(content(files.blkio_throttle_io_serviced));
    lemma_value_lens(content(files.blkio_bfq_io_service_bytes));
    lemma_value_lens(content(files.blkio_bfq_io_serviced));
    lemma_expanded_len(io_header_prefixes());
}

} // verus!
