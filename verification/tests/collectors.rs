use radvisor::collection::buffers::WorkingBuffers;
use radvisor::collection::collectors::all::CollectorImpl;
use radvisor::collection::collectors::{cgroup_v2, cgroups_v1};
use radvisor::collection::perf_table::{Column, ColumnType};
use radvisor::shared::CollectionMethod;
use radvisor::util::cgroup::{CgroupDriver, CgroupPath, CgroupVersion};

fn fields(buffers: &WorkingBuffers) -> Vec<String> {
    buffers.record.iter().map(|f| String::from_utf8(f.to_vec()).unwrap()).collect()
}

fn path(version: CgroupVersion) -> CgroupPath {
    CgroupPath { path: "docker/abc".to_string(), driver: CgroupDriver::Cgroupfs, version }
}

fn some(s: &str) -> Option<Vec<u8>> {
    Some(s.as_bytes().to_vec())
}

fn v1_files() -> cgroups_v1::FileContents {
    cgroups_v1::FileContents {
        current_pids: some("3\n"),
        max_pids: some("max\n"),
        cpu_stat: some("nr_periods 1\nnr_throttled 2\nthrottled_time 3\n"),
        cpuacct_stat: some("user 10\nsystem 20\n"),
        cpuacct_usage: some("12345\n"),
        cpuacct_usage_sys: some("45\n"),
        cpuacct_usage_user: some("300\n"),
        cpuacct_usage_percpu: some("1 2 3 4 \n"),
        memory_usage_in_bytes: some("1000\n"),
        memory_max_usage_in_bytes: some("2000\n"),
        memory_limit_in_bytes: some("9000\n"),
        memory_soft_limit_in_bytes: some("8000\n"),
        memory_failcnt: some("0\n"),
        memory_stat: some("cache 11\nrss 22\ntotal_cache 33\ntotal_rss 44\n"),
        blkio_io_service_bytes: some("8:0 Read 1\n8:0 Write 2\nTotal 3\n"),
        blkio_io_serviced: some("Total 0\n"),
        blkio_io_service_time: some("Total 0\n"),
        blkio_io_queued: some("Total 0\n"),
        blkio_io_wait_time: some("Total 0\n"),
        blkio_io_merged: some("Total 0\n"),
        blkio_time: some("8:0 5\n"),
        blkio_sectors: some("8:0 6\n"),
        blkio_throttle_io_service_bytes: some("Total 0\n"),
        blkio_throttle_io_serviced: some("Total 0\n"),
        blkio_bfq_io_service_bytes: some("Total 0\n"),
        blkio_bfq_io_serviced: some("Total 0\n"),
    }
}

#[test]
fn v1_headers_and_io_expansion() {
    let headers = cgroups_v1::get_headers();
    assert_eq!(headers.len(), 75);
    assert_eq!(headers[0], "read");
    assert_eq!(headers[34], "blkio.sectors");
    assert_eq!(headers[35], "blkio.service.bytes.read");
    assert_eq!(headers[74], "blkio.bfq.service.ios.async");
    let mut extra = vec!["x".to_string()];
    cgroups_v1::append_io_headers(&mut extra, "base");
    assert_eq!(extra, vec!["x", "base.read", "base.write", "base.sync", "base.async"]);
}

#[test]
fn v2_headers() {
    let headers = cgroup_v2::get_headers();
    assert_eq!(headers.len(), 36);
    assert_eq!(&headers[..4], &["read", "pids.current", "pids.max", "cpu.stat/usage_usec"]);
    assert_eq!(headers[9], "memory.current");
    assert_eq!(headers[12], "memory.stat/anon");
    assert_eq!(headers[35], "io.stat/dios");
}

#[test]
fn v1_file_paths() {
    let paths = cgroups_v1::files::ProcFilePaths::new("docker/abc");
    assert_eq!(paths.current_pids, "/sys/fs/cgroup/pids/docker/abc/pids.current");
    assert_eq!(paths.blkio_bfq_io_serviced, "/sys/fs/cgroup/blkio/docker/abc/blkio.bfq.io_serviced");
    assert_eq!(cgroups_v1::files::proc_file_path("/abs", "memory", "memory.stat"), "/abs/memory.stat");
}

#[test]
fn v2_file_paths() {
    let paths = cgroup_v2::files::ProcFilePaths::new("system.slice/docker-abc.scope");
    assert_eq!(paths.io_stat, "/sys/fs/cgroup/system.slice/docker-abc.scope/io.stat");
    assert_eq!(paths.pids_max, "/sys/fs/cgroup/system.slice/docker-abc.scope/pids.max");
}

#[test]
fn v1_row_matches_headers() {
    let files = v1_files();
    let mut collector = cgroups_v1::Collector::new(path(CgroupVersion::V1));
    assert_eq!(collector.get_type(), "cgroups_v1");
    collector.init(files.memory_stat.as_deref());
    let mut buffers = WorkingBuffers::new();
    collector.collect(&mut buffers, 1_600_000_000_000_000_123, &files);
    let row = fields(&buffers);
    assert_eq!(row.len(), cgroups_v1::get_headers().len());
    assert_eq!(row[0], "1600000000000000123");
    assert_eq!(&row[1..3], &["3", "max"]);
    assert_eq!(&row[3..12], &["12345", "45", "300", "1 2 3 4", "10", "20", "1", "2", "3"]);
    assert_eq!(&row[12..17], &["1000", "2000", "9000", "8000", "0"]);
    assert_eq!(row[19], "33");
    assert_eq!(row[20], "44");
    assert_eq!(row[17], "");
    assert_eq!(&row[33..35], &["5", "6"]);
    assert_eq!(&row[35..39], &["1", "2", "0", "0"]);
    let mut missing = v1_files();
    missing.blkio_io_serviced = None;
    let mut buffers = WorkingBuffers::new();
    collector.collect(&mut buffers, 1, &missing);
    let row = fields(&buffers);
    assert_eq!(row.len(), cgroups_v1::get_headers().len());
    assert_eq!(&row[39..43], &["", "", "", ""]);
}

#[test]
fn v1_table_metadata() {
    let collector = cgroups_v1::Collector::new(path(CgroupVersion::V1));
    let table = collector.table_metadata(4);
    assert_eq!(table.delimiter, ",");
    assert_eq!(table.columns.len(), 2);
    assert_eq!(table.columns[0].0, "cpu.usage.percpu");
    assert_eq!(table.columns[0].1, Column::Vector { kind: ColumnType::Int, count: 4 });
    assert_eq!(table.columns[1].0, "read");
    assert_eq!(table.columns[1].1, Column::Scalar { kind: ColumnType::Epoch19 });
}

#[test]
fn v2_row_written_when_any_file_has_content() {
    let files = cgroup_v2::FileContents {
        pids_current: some("4\n"),
        pids_max: None,
        cpu_stat: some("usage_usec 100\nuser_usec 60\nsystem_usec 40\n"),
        memory_current: None,
        memory_high: None,
        memory_max: None,
        memory_stat: some("anon 7\nfile 8\n"),
        io_stat: some("8:0 rbytes=1 wbytes=2 \n"),
    };
    let collector = cgroup_v2::Collector::new(path(CgroupVersion::V2));
    assert_eq!(collector.get_type(), "cgroup_v2");
    let mut buffers = WorkingBuffers::new();
    assert!(collector.collect(&mut buffers, 77, &files));
    let row = fields(&buffers);
    assert_eq!(row.len(), cgroup_v2::get_headers().len());
    assert_eq!(&row[..3], &["77", "4", "max"]);
    assert_eq!(&row[3..9], &["100", "40", "60", "0", "0", "0"]);
    assert_eq!(&row[9..14], &["0", "max", "max", "7", "8"]);
    assert_eq!(&row[30..36], &["1", "2", "0", "0", "0", "0"]);
}

#[test]
fn v2_row_discarded_when_every_file_is_empty() {
    let files = cgroup_v2::FileContents {
        pids_current: None,
        pids_max: None,
        cpu_stat: None,
        memory_current: None,
        memory_high: None,
        memory_max: None,
        memory_stat: None,
        io_stat: None,
    };
    let collector = cgroup_v2::Collector::new(path(CgroupVersion::V2));
    let mut buffers = WorkingBuffers::new();
    assert!(!collector.collect(&mut buffers, 77, &files));
    assert_eq!(buffers.record.len(), 0);
}

#[test]
fn collector_for_method() {
    let v1 = CollectorImpl::from(CollectionMethod::LinuxCgroups(path(CgroupVersion::V1)));
    assert_eq!(v1.get_type(), "cgroups_v1");
    assert_eq!(v1.table_metadata(2).columns.len(), 2);
    let v2 = CollectorImpl::from(CollectionMethod::LinuxCgroups(path(CgroupVersion::V2)));
    assert_eq!(v2.get_type(), "cgroup_v2");
    assert_eq!(v2.table_metadata(2).columns.len(), 1);
    assert_eq!(v2.cgroup().path, "docker/abc");
}

#[test]
fn v2_key_lists() {
    assert_eq!(cgroup_v2::cpu_stat_keys()[0], b"usage_usec");
    assert_eq!(cgroup_v2::memory_stat_keys().len(), 18);
    assert_eq!(cgroup_v2::io_stat_keys()[5], b"dios");
    assert_eq!(cgroups_v1::memory_stat_entries()[15], b"total_unevictable");
}
