//! Collection of statistics from the cgroup v2 unified hierarchy

pub mod files;
pub mod read;

use vstd::prelude::*;
use vstd::string::StringSliceAdditionalSpecFns;
use crate::collection::collectors::cgroups_v1::{string_views, content, collect_read};
use crate::collection::buffers::{self, WorkingBuffers};
use crate::collection::collect::read as v1_read;
use crate::collection::perf_table::{Column, ColumnType, TableMetadata, column_views};
use crate::util::byte;
use crate::util::cgroup::CgroupPath;
use crate::util::lazy_quantity::{self, QuantityView};
use crate::util::number;
use crate::util::record::{self, clear_record};
use files::ProcFilePaths;
use read::Empty;

verus! {

/// The bytes of each of the names
pub open spec fn name_bytes(names: Seq<&str>) -> Seq<Seq<u8>> {
    names.map_values(|n: &str| n.spec_bytes())
}

/// The names of the keys read from the cpu.stat file
pub open spec fn cpu_stat_names() -> Seq<&'static str> {
    seq!["usage_usec", "system_usec", "user_usec", "nr_periods", "nr_throttled", "throttled_usec"]
}

/// The names of the keys read from the memory.stat file
pub open spec fn memory_stat_names() -> Seq<&'static str> {
    seq![
        "anon",
        "file",
        "kernel_stack",
        "pagetables",
        "percpu",
        "sock",
        "shmem",
        "file_mapped",
        "file_dirty",
        "file_writeback",
        "swapcached",
        "inactive_anon",
        "active_anon",
        "inactive_file",
        "active_file",
        "unevictable",
        "pgfault",
        "pgmajfault",
    ]
}

/// The names of the keys totalled from the io.stat file
pub open spec fn io_stat_names() -> Seq<&'static str> {
    seq!["rbytes", "wbytes", "rios", "wios", "dbytes", "dios"]
}

/// Keys to read from the cpu.stat file
pub fn cpu_stat_keys() -> (r: [&'static [u8]; 6])
    ensures
        crate::collection::collect::read::byte_views(r@) == name_bytes(cpu_stat_names()),
{
    let r = [
        "usage_usec".as_bytes(),
        "system_usec".as_bytes(),
        "user_usec".as_bytes(),
        "nr_periods".as_bytes(),
        "nr_throttled".as_bytes(),
        "throttled_usec".as_bytes(),
    ];
    assert(crate::collection::collect::read::byte_views(r@) =~= name_bytes(cpu_stat_names()));
    r
}

/// Keys to read from the memory.stat file
pub fn memory_stat_keys() -> (r: [&'static [u8]; 18])
    ensures
        crate::collection::collect::read::byte_views(r@) == name_bytes(memory_stat_names()),
{
    let r = [
        "anon".as_bytes(),
        "file".as_bytes(),
        "kernel_stack".as_bytes(),
        "pagetables".as_bytes(),
        "percpu".as_bytes(),
        "sock".as_bytes(),
        "shmem".as_bytes(),
        "file_mapped".as_bytes(),
        "file_dirty".as_bytes(),
        "file_writeback".as_bytes(),
        "swapcached".as_bytes(),
        "inactive_anon".as_bytes(),
        "active_anon".as_bytes(),
        "inactive_file".as_bytes(),
        "active_file".as_bytes(),
        "unevictable".as_bytes(),
        "pgfault".as_bytes(),
        "pgmajfault".as_bytes(),
    ];
    assert(crate::collection::collect::read::byte_views(r@) =~= name_bytes(memory_stat_names()));
    r
}

/// Keys to read and get totals for from the io.stat file
pub fn io_stat_keys() -> (r: [&'static [u8]; 6])
    ensures
        crate::collection::collect::read::byte_views(r@) == name_bytes(io_stat_names()),
{
    let r = [
        "rbytes".as_bytes(),
        "wbytes".as_bytes(),
        "rios".as_bytes(),
        "wios".as_bytes(),
        "dbytes".as_bytes(),
        "dios".as_bytes(),
    ];
    assert(crate::collection::collect::read::byte_views(r@) =~= name_bytes(io_stat_names()));
    r
}

/// The headers `prefix` followed by each name
pub open spec fn prefixed(prefix: Seq<char>, names: Seq<&str>) -> Seq<Seq<char>> {
    names.map_values(|n: &str| prefix + n@)
}

/// All headers of the log files, in column order
pub open spec fn header_names() -> Seq<Seq<char>> {
    seq!["read"@, "pids.current"@, "pids.max"@] + prefixed("cpu.stat/"@, cpu_stat_names())
        + seq!["memory.current"@, "memory.high"@, "memory.max"@] + prefixed(
        "memory.stat/"@,
        memory_stat_names(),
    ) + prefixed("io.stat/"@, io_stat_names())
}

/// Appends `prefix` followed by each of the names to the headers
fn push_prefixed(headers: &mut Vec<String>, prefix: &str, names: &[&str])
    ensures
        string_views(final(headers)@) == string_views(old(headers)@) + prefixed(prefix@, names@),
{
    let mut i: usize = 0;
    while i < names.len()
        invariant
            i <= names@.len(),
            string_views(headers@) == string_views(old(headers)@) + prefixed(
                prefix@,
                names@.subrange(0, i as int),
            ),
        decreases names@.len() - i,
    {
        let mut header = prefix.to_owned();
        header.append(names[i]);
        let ghost before = headers@;
        headers.push(header);
        assert(string_views(headers@) =~= string_views(before).push(prefix@ + names@[i as int]@));
        assert(prefixed(prefix@, names@.subrange(0, i + 1)) =~= prefixed(
            prefix@,
            names@.subrange(0, i as int),
        ).push(prefix@ + names@[i as int]@));
        assert(string_views(headers@) =~= string_views(old(headers)@) + prefixed(
            prefix@,
            names@.subrange(0, i + 1),
        ));
        i += 1;
    }
    assert(names@.subrange(0, names@.len() as int) =~= names@);
}

/// Creates the headers for the logfiles
pub fn get_headers() -> (r: Vec<String>)
    ensures
        string_views(r@) == header_names(),
{
    let mut headers: Vec<String> = Vec::new();
    headers.push("read".to_owned());
    headers.push("pids.current".to_owned());
    headers.push("pids.max".to_owned());
    assert(string_views(headers@) =~= seq!["read"@, "pids.current"@, "pids.max"@]);
    let cpu: [&str; 6] = [
        "usage_usec",
        "system_usec",
        "user_usec",
        "nr_periods",
        "nr_throttled",
        "throttled_usec",
    ];
    push_prefixed(&mut headers, "cpu.stat/", cpu.as_slice());
    assert(cpu@ =~= cpu_stat_names());
    let ghost after_cpu = string_views(headers@);
    headers.push("memory.current".to_owned());
    headers.push("memory.high".to_owned());
    headers.push("memory.max".to_owned());
    assert(string_views(headers@) =~= after_cpu + seq![
        "memory.current"@,
        "memory.high"@,
        "memory.max"@,
    ]);
    let memory: [&str; 18] = [
        "anon",
        "file",
        "kernel_stack",
        "pagetables",
        "percpu",
        "sock",
        "shmem",
        "file_mapped",
        "file_dirty",
        "file_writeback",
        "swapcached",
        "inactive_anon",
        "active_anon",
        "inactive_file",
        "active_file",
        "unevictable",
        "pgfault",
        "pgmajfault",
    ];
    push_prefixed(&mut headers, "memory.stat/", memory.as_slice());
    let io: [&str; 6] = ["rbytes", "wbytes", "rios", "wios", "dbytes", "dios"];
    push_prefixed(&mut headers, "io.stat/", io.as_slice());
    assert(memory@ =~= memory_stat_names());
    assert(io@ =~= io_stat_names());
    assert(string_views(headers@) =~= header_names());
    headers
}


/// The contents read from each interface file of a target in one collection
/// tick: `None` where there was no file handle or reading it failed
pub struct FileContents {
    pub pids_current: Option<Vec<u8>>,
    pub pids_max: Option<Vec<u8>>,
    pub cpu_stat: Option<Vec<u8>>,
    pub memory_current: Option<Vec<u8>>,
    pub memory_high: Option<Vec<u8>>,
    pub memory_max: Option<Vec<u8>>,
    pub memory_stat: Option<Vec<u8>>,
    pub io_stat: Option<Vec<u8>>,
}

/// Borrows optional read bytes as a slice
fn as_content(c: &Option<Vec<u8>>) -> (r: Option<&[u8]>)
    ensures
        buffers::opt_bytes(r) == content(*c),
{
    match c {
        Some(v) => Some(v.as_slice()),
        None => None,
    }
}

/// The field a single-value file with the given content gives
#[verifier::opaque]
pub open spec fn single_value(c: Option<Seq<u8>>, default: Seq<u8>) -> Seq<u8> {
    read::single_field(buffers::loaded(c), buffers::load_outcome(c), default)
}

/// A single-value file with the given content gave nothing
#[verifier::opaque]
pub open spec fn single_empty(c: Option<Seq<u8>>) -> bool {
    byte::content_len(read::single_content(buffers::loaded(c), buffers::load_outcome(c))) == 0
}

/// The fields a flat keyed file with the given content gives
#[verifier::opaque]
pub open spec fn keyed_value(c: Option<Seq<u8>>, keys: Seq<Seq<u8>>, defaults: Seq<Seq<u8>>) -> Seq<
    Seq<u8>,
> {
    read::keyed_fields(buffers::loaded(c), keys, defaults)
}

/// No key was found in the flat keyed file with the given content
#[verifier::opaque]
pub open spec fn keyed_empty(c: Option<Seq<u8>>, keys: Seq<Seq<u8>>) -> bool {
    forall|i: int|
        0 <= i < keys.len() ==> (#[trigger] read::keyed_found(buffers::loaded(c), keys)[i]).len() == 0
}

/// The fields an io.stat file with the given content gives
#[verifier::opaque]
pub open spec fn io_stat_value(c: Option<Seq<u8>>, keys: Seq<Seq<u8>>) -> Seq<Seq<u8>> {
    lazy_quantity::quantity_fields(buffers::zeros(), read::io_stat_totals(buffers::loaded(c), keys)).0
}

/// Every total of the io.stat file with the given content stayed zero
#[verifier::opaque]
pub open spec fn io_stat_empty(c: Option<Seq<u8>>, keys: Seq<Seq<u8>>) -> bool {
    forall|i: int|
        0 <= i < keys.len() ==> #[trigger] read::io_stat_totals(buffers::loaded(c), keys)[i] is Zero
}

/// Writes the field of a single-value file, telling whether it was empty
fn single_step(c: Option<&[u8]>, buffers: &mut WorkingBuffers, default: &'static [u8]) -> (r: Result<
    (),
    Empty,
>)
    requires
        buffers::clean(old(buffers)),
    ensures
        buffers::clean(final(buffers)),
        record::record_fields(final(buffers).record) == record::record_fields(old(buffers).record).push(
            single_value(buffers::opt_bytes(c), default@),
        ),
        r is Err <==> single_empty(buffers::opt_bytes(c)),
{
    proof {
        reveal(buffers::clean);
    }
    let read = buffers::load(c, buffers);
    proof {
        buffers::lemma_load_then_clear(buffers::opt_bytes(c));
        assert(buffers.buffer.b@ == buffers::loaded(buffers::opt_bytes(c)));
        reveal(single_value);
        reveal(single_empty);
    }
    read::single_value_file(read, buffers, default)
}

/// Writes the fields of a flat keyed file, telling whether none was found
fn keyed_step<const K: usize>(
    c: Option<&[u8]>,
    buffers: &mut WorkingBuffers,
    keys: &[&'static [u8]; K],
    defaults: &[&'static [u8]; K],
) -> (r: Result<(), Empty>)
    requires
        buffers::clean(old(buffers)),
    ensures
        buffers::clean(final(buffers)),
        record::record_fields(final(buffers).record) == record::record_fields(old(buffers).record)
            + keyed_value(
            buffers::opt_bytes(c),
            v1_read::byte_views(keys@),
            v1_read::byte_views(defaults@),
        ),
        r is Err <==> keyed_empty(buffers::opt_bytes(c), v1_read::byte_views(keys@)),
{
    proof {
        reveal(buffers::clean);
    }
    let read = buffers::load(c, buffers);
    proof {
        buffers::lemma_load_then_clear(buffers::opt_bytes(c));
        assert(buffers.buffer.b@ == buffers::loaded(buffers::opt_bytes(c)));
        reveal(keyed_value);
        reveal(keyed_empty);
    }
    read::flat_keyed_file(read, buffers, keys, defaults)
}

/// Writes the totals of an io.stat file, telling whether all stayed zero
fn io_stat_step<const K: usize>(c: Option<&[u8]>, buffers: &mut WorkingBuffers, keys: &[&'static [u8]; K]) -> (r:
    Result<(), Empty>)
    requires
        buffers::clean(old(buffers)),
    ensures
        buffers::clean(final(buffers)),
        record::record_fields(final(buffers).record) == record::record_fields(old(buffers).record)
            + io_stat_value(buffers::opt_bytes(c), v1_read::byte_views(keys@)),
        r is Err <==> io_stat_empty(buffers::opt_bytes(c), v1_read::byte_views(keys@)),
{
    proof {
        reveal(buffers::clean);
    }
    let read = buffers::load(c, buffers);
    proof {
        buffers::lemma_load_then_clear(buffers::opt_bytes(c));
        assert(buffers.buffer.b@ == buffers::loaded(buffers::opt_bytes(c)));
        reveal(io_stat_value);
        reveal(io_stat_empty);
        lazy_quantity::lemma_quantity_fields_keep_zero(
            buffers::zeros(),
            read::io_stat_totals(buffers::loaded(buffers::opt_bytes(c)), v1_read::byte_views(keys@)),
        );
    }
    let r = read::io_stat_file(read, buffers, keys);
    proof {
        assert(buffers.copy_buffer.b@ =~= buffers::zeros());
    }
    r
}

/// The fields of the pids controller
pub open spec fn pids_fields(files: &FileContents) -> Seq<Seq<u8>> {
    seq![
        single_value(content(files.pids_current), "0".spec_bytes()),
        single_value(content(files.pids_max), "max".spec_bytes()),
    ]
}

/// Collects all stats for the pids controller; `Err(Empty)` when both files
/// gave nothing
pub fn collect_pids(buffers: &mut WorkingBuffers, files: &FileContents) -> (r: Result<(), Empty>)
    requires
        buffers::clean(old(buffers)),
    ensures
        buffers::clean(final(buffers)),
        record::record_fields(final(buffers).record) == record::record_fields(old(buffers).record)
            + pids_fields(files),
        r is Err <==> single_empty(content(files.pids_current)) && single_empty(content(files.pids_max)),
{
    let ghost f0 = record::record_fields(buffers.record);
    let pids_current = single_step(as_content(&files.pids_current), buffers, "0".as_bytes());
    let pids_max = single_step(as_content(&files.pids_max), buffers, "max".as_bytes());
    assert(record::record_fields(buffers.record) =~= f0 + pids_fields(files));
    if pids_current.is_err() && pids_max.is_err() {
        Err(Empty)
    } else {
        Ok(())
    }
}

/// The defaults of the keys of the cpu.stat file
pub open spec fn cpu_stat_defaults() -> Seq<Seq<u8>> {
    Seq::new(6, |i: int| "0".spec_bytes())
}

/// The fields of the cpu controller
pub open spec fn cpu_fields(files: &FileContents) -> Seq<Seq<u8>> {
    keyed_value(content(files.cpu_stat), name_bytes(cpu_stat_names()), cpu_stat_defaults())
}

/// Collects all stats for the cpu controller; `Err(Empty)` when no key was
/// found
pub fn collect_cpu(buffers: &mut WorkingBuffers, files: &FileContents) -> (r: Result<(), Empty>)
    requires
        buffers::clean(old(buffers)),
    ensures
        buffers::clean(final(buffers)),
        record::record_fields(final(buffers).record) == record::record_fields(old(buffers).record)
            + cpu_fields(files),
        r is Err <==> keyed_empty(content(files.cpu_stat), name_bytes(cpu_stat_names())),
{
    let keys = cpu_stat_keys();
    let zero = "0".as_bytes();
    let defaults = [zero; 6];
    assert(v1_read::byte_views(defaults@) =~= cpu_stat_defaults());
    keyed_step(as_content(&files.cpu_stat), buffers, &keys, &defaults)
}

/// The defaults of the keys of the memory.stat file
pub open spec fn memory_stat_defaults() -> Seq<Seq<u8>> {
    Seq::new(18, |i: int| "0".spec_bytes())
}

/// The fields of the memory controller
pub open spec fn memory_fields(files: &FileContents) -> Seq<Seq<u8>> {
    seq![
        single_value(content(files.memory_current), "0".spec_bytes()),
        single_value(content(files.memory_high), "max".spec_bytes()),
        single_value(content(files.memory_max), "max".spec_bytes()),
    ] + keyed_value(content(files.memory_stat), name_bytes(memory_stat_names()), memory_stat_defaults())
}

/// Collects all stats for the memory controller; `Err(Empty)` when every
/// file gave nothing
pub fn collect_memory(buffers: &mut WorkingBuffers, files: &FileContents) -> (r: Result<(), Empty>)
    requires
        buffers::clean(old(buffers)),
    ensures
        buffers::clean(final(buffers)),
        record::record_fields(final(buffers).record) == record::record_fields(old(buffers).record)
            + memory_fields(files),
        r is Err <==> single_empty(content(files.memory_current)) && single_empty(
            content(files.memory_high),
        ) && single_empty(content(files.memory_max)) && keyed_empty(
            content(files.memory_stat),
            name_bytes(memory_stat_names()),
        ),
{
    proof {
        reveal(buffers::clean);
    }
    let ghost f0 = record::record_fields(buffers.record);
    let mem_current = single_step(as_content(&files.memory_current), buffers, "0".as_bytes());
    let mem_high = single_step(as_content(&files.memory_high), buffers, "max".as_bytes());
    let mem_max = single_step(as_content(&files.memory_max), buffers, "max".as_bytes());
    let ghost f3 = record::record_fields(buffers.record);
    let keys = memory_stat_keys();
    let zero = "0".as_bytes();
    let defaults = [zero; 18];
    assert(v1_read::byte_views(defaults@) =~= memory_stat_defaults());
    let mem_stat = keyed_step(as_content(&files.memory_stat), buffers, &keys, &defaults);
    assert(record::record_fields(buffers.record) =~= f0 + memory_fields(files));
    if mem_current.is_err() && mem_high.is_err() && mem_max.is_err() && mem_stat.is_err() {
        Err(Empty)
    } else {
        Ok(())
    }
}

/// The fields of the io controller
pub open spec fn io_fields(files: &FileContents) -> Seq<Seq<u8>> {
    io_stat_value(content(files.io_stat), name_bytes(io_stat_names()))
}

/// Collects all stats for the io controller; `Err(Empty)` when every total
/// stayed zero
pub fn collect_io(buffers: &mut WorkingBuffers, files: &FileContents) -> (r: Result<(), Empty>)
    requires
        buffers::clean(old(buffers)),
    ensures
        buffers::clean(final(buffers)),
        record::record_fields(final(buffers).record) == record::record_fields(old(buffers).record)
            + io_fields(files),
        r is Err <==> io_stat_empty(content(files.io_stat), name_bytes(io_stat_names())),
{
    let keys = io_stat_keys();
    io_stat_step(as_content(&files.io_stat), buffers, &keys)
}

/// The fields of one row: the read time, then the pids, cpu, memory and io
/// statistics
pub open spec fn row_fields(nano_ts: u128, files: &FileContents) -> Seq<Seq<u8>> {
    seq![number::dec_repr(nano_ts as nat)] + pids_fields(files) + cpu_fields(files) + memory_fields(
        files,
    ) + io_fields(files)
}

/// Every file of the row gave nothing
pub open spec fn row_empty(files: &FileContents) -> bool {
    &&& single_empty(content(files.pids_current))
    &&& single_empty(content(files.pids_max))
    &&& keyed_empty(content(files.cpu_stat), name_bytes(cpu_stat_names()))
    &&& single_empty(content(files.memory_current))
    &&& single_empty(content(files.memory_high))
    &&& single_empty(content(files.memory_max))
    &&& keyed_empty(content(files.memory_stat), name_bytes(memory_stat_names()))
    &&& io_stat_empty(content(files.io_stat), name_bytes(io_stat_names()))
}

/// The columns with metadata: the read time is a nanosecond timestamp
pub open spec fn table_columns() -> Seq<(Seq<char>, Column)> {
    seq![("read"@, Column::Scalar { kind: ColumnType::Epoch19 })]
}

/// Collects cgroup v2-sourced data for one target
pub struct Collector {
    pub cgroup: CgroupPath,
}

impl Collector {
    /// A collector for the cgroup
    pub fn new(cgroup: CgroupPath) -> (r: Self)
        ensures
            r.cgroup == cgroup,
    {
        Collector { cgroup }
    }

    /// The type of the collector, as written in log file headers
    pub fn get_type(&self) -> (r: &'static str)
        ensures
            r@ == "cgroup_v2"@,
    {
        "cgroup_v2"
    }

    /// Metadata on the columns: the read time is a nanosecond timestamp
    pub fn table_metadata(&self) -> (r: TableMetadata)
        ensures
            r.delimiter@ == ","@,
            column_views(r.columns@) == table_columns(),
    {
        let mut columns: Vec<(String, Column)> = Vec::new();
        columns.push(("read".to_owned(), Column::Scalar { kind: ColumnType::Epoch19 }));
        let r = TableMetadata { delimiter: ",", columns };
        assert(column_views(r.columns@) =~= seq![
            ("read"@, Column::Scalar { kind: ColumnType::Epoch19 }),
        ]);
        r
    }

    /// The paths of the files to open for the cgroup
    pub fn file_paths(&self) -> (r: ProcFilePaths)
        ensures
            r.paths_for(self.cgroup.path@),
    {
        ProcFilePaths::new(self.cgroup.path.as_str())
    }

    /// Collects the current statistics of the target into the record: the
    /// read time, then the pids, cpu, memory and io statistics. When every
    /// file gave nothing, the record is discarded (cleared) and `false`
    /// returned; otherwise the row stays in the record, to be written, and
    /// `true` is returned.
    pub fn collect(&self, buffers: &mut WorkingBuffers, nano_ts: u128, files: &FileContents) -> (r: bool)
        requires
            buffers::clean(old(buffers)),
        ensures
            buffers::clean(final(buffers)),
            r == !row_empty(files),
            r ==> record::record_fields(final(buffers).record) == record::record_fields(
                old(buffers).record,
            ) + row_fields(nano_ts, files),
            !r ==> record::record_fields(final(buffers).record) == Seq::<Seq<u8>>::empty(),
    {
        let ghost f0 = record::record_fields(buffers.record);
        collect_read(buffers, nano_ts);
        let pids_result = collect_pids(buffers, files);
        let cpu_result = collect_cpu(buffers, files);
        let memory_result = collect_memory(buffers, files);
        let io_result = collect_io(buffers, files);
        proof {
            let t = seq![number::dec_repr(nano_ts as nat)];
            let p = pids_fields(files);
            let c = cpu_fields(files);
            let m = memory_fields(files);
            let i = io_fields(files);
            assert(f0.push(number::dec_repr(nano_ts as nat)) =~= f0 + t);
            assert((((f0 + t) + p) + c) + m =~= f0 + (((t + p) + c) + m));
            assert(((((f0 + t) + p) + c) + m) + i =~= f0 + ((((t + p) + c) + m) + i));
        }
        if pids_result.is_err() && cpu_result.is_err() && memory_result.is_err() && io_result.is_err() {
            proof {
                reveal(buffers::clean);
            }
            clear_record(&mut buffers.record);
            false
        } else {
            true
        }
    }
}

/// Every row has one field per header, whatever the files hold: each file
/// always writes the same number of fields
pub proof fn law_row_matches_headers(nano_ts: u128, files: &FileContents)
    ensures
        row_fields(nano_ts, files).len() == header_names().len(),
{
    reveal(keyed_value);
    reveal(io_stat_value);
    let b = buffers::loaded(content(files.io_stat));
    let keys = name_bytes(io_stat_names());
    read::lemma_io_stat_values_len(b, keys, 0, Seq::new(keys.len(), |i: int| QuantityView::Zero));
    lazy_quantity::lemma_quantity_fields_len(buffers::zeros(), read::io_stat_totals(b, keys));
}

} // verus!
