use radvisor::collection::buffers::{load, WorkingBuffers};
use radvisor::collection::collect::read::{
    all, entry, io, layout_fits, layout_keys_nonempty, lines_copyable, simple_io, stat_file,
    stat_file_parses, with_layout, StatFileLayout,
};
use radvisor::collection::collectors::cgroup_v2::read::{
    flat_keyed_file, io_stat_file, single_value_file, Empty, IoLineFieldIter,
};

fn fields(buffers: &WorkingBuffers) -> Vec<Vec<u8>> {
    buffers.record.iter().map(|f| f.to_vec()).collect()
}

fn strs(v: &[&str]) -> Vec<Vec<u8>> {
    v.iter().map(|s| s.as_bytes().to_vec()).collect()
}

fn is_clean(buffers: &WorkingBuffers) -> bool {
    buffers.buffer.len == 0 && buffers.buffer.b.iter().all(|b| *b == 0)
}

#[test]
fn entry_trims_the_value() {
    let mut buffers = WorkingBuffers::new();
    let read = load(Some(b"  1234\n"), &mut buffers);
    assert_eq!(read, Some(7));
    entry(read, &mut buffers);
    let read = load(None, &mut buffers);
    entry(read, &mut buffers);
    let read = load(Some(b""), &mut buffers);
    entry(read, &mut buffers);
    assert_eq!(fields(&buffers), strs(&["1234", "", ""]));
    assert!(is_clean(&buffers));
}

#[test]
fn stat_file_parses_offsets() {
    let mut buffers = WorkingBuffers::new();
    let read = load(Some(b"user 100\nsystem 200\n"), &mut buffers);
    assert!(stat_file_parses(read, &[4, 6], &buffers));
    stat_file(read, &[4, 6], &mut buffers);
    assert_eq!(fields(&buffers), strs(&["100", "200"]));
    assert!(is_clean(&buffers));
}

#[test]
fn stat_file_fills_missing_entries() {
    let mut buffers = WorkingBuffers::new();
    let read = load(Some(b"user 100\n"), &mut buffers);
    stat_file(read, &[4, 6], &mut buffers);
    let read = load(None, &mut buffers);
    stat_file(read, &[10, 12, 14], &mut buffers);
    assert_eq!(fields(&buffers), strs(&["100", "", "", "", ""]));
}

#[test]
fn stat_file_empty_value_is_refused() {
    let mut buffers = WorkingBuffers::new();
    let read = load(Some(b"user \n"), &mut buffers);
    assert!(!stat_file_parses(read, &[4], &buffers));
}

#[test]
fn memory_layout_maps_lines_to_entries() {
    let content: &[u8] = b"cache 10\nrss 20\ntotal_rss 30\n";
    let entries: [&[u8]; 2] = [b"total_rss", b"cache"];
    assert!(layout_keys_nonempty(content));
    let layout = StatFileLayout::new(Some(content), &entries);
    let mut buffers = WorkingBuffers::new();
    let read = load(Some(content), &mut buffers);
    assert!(layout_fits(read, &layout, &buffers));
    with_layout(read, &layout, &mut buffers);
    let mut expected = strs(&["30", "10"]);
    expected.extend(std::iter::repeat(Vec::new()).take(14));
    assert_eq!(fields(&buffers), expected);
    assert!(is_clean(&buffers));
    assert!(buffers.slices.iter().all(|s| s.start == 0 && s.length == 0));
}

#[test]
fn memory_layout_keeps_lines_without_separator() {
    let content: &[u8] = b"cache 10\nnoseparator\ntotal_rss 30\n";
    let entries: [&[u8]; 2] = [b"total_rss", b"cache"];
    let layout = StatFileLayout::new(Some(content), &entries);
    let mut buffers = WorkingBuffers::new();
    let read = load(Some(content), &mut buffers);
    assert!(layout_fits(read, &layout, &buffers));
    with_layout(read, &layout, &mut buffers);
    let mut expected = strs(&["30", "10"]);
    expected.extend(std::iter::repeat(Vec::new()).take(14));
    assert_eq!(fields(&buffers), expected);
}

#[test]
fn memory_layout_without_file() {
    let entries: [&[u8]; 1] = [b"cache"];
    let layout = StatFileLayout::new(None, &entries);
    let mut buffers = WorkingBuffers::new();
    with_layout(None, &layout, &mut buffers);
    assert_eq!(fields(&buffers).len(), 16);
    assert!(fields(&buffers).iter().all(|f| f.is_empty()));
}

#[test]
fn layout_keys_must_not_be_empty() {
    assert!(!layout_keys_nonempty(b" 10\n"));
    assert!(layout_keys_nonempty(b"a 1\nb 2"));
}

#[test]
fn all_joins_lines_with_commas() {
    let mut buffers = WorkingBuffers::new();
    assert!(lines_copyable(b"a\nb\nc"));
    assert!(!lines_copyable(b"\nb"));
    let read = load(Some(b"a\nb\nc"), &mut buffers);
    all(read, &mut buffers);
    let read = load(Some(b" \n"), &mut buffers);
    all(read, &mut buffers);
    assert_eq!(fields(&buffers), strs(&["a,b,c", ""]));
    assert_eq!(buffers.copy_buffer.len, 0);
}

#[test]
fn io_aggregates_categories() {
    let mut buffers = WorkingBuffers::new();
    let content: &[u8] = b"8:0 Read 100\n8:0 Write 5\n8:0 Sync 7\n8:0 Async 1\n8:0 Total 113\n8:16 Read 1\nTotal 220\n";
    let read = load(Some(content), &mut buffers);
    io(read, &mut buffers);
    let read = load(None, &mut buffers);
    io(read, &mut buffers);
    assert_eq!(fields(&buffers), strs(&["101", "5", "7", "1", "", "", "", ""]));
    assert!(is_clean(&buffers));
    assert!(buffers.copy_buffer.b.iter().all(|b| *b == 0));
}

#[test]
fn io_without_categories_writes_zeros() {
    let mut buffers = WorkingBuffers::new();
    let read = load(Some(b"Total 0\n"), &mut buffers);
    io(read, &mut buffers);
    assert_eq!(fields(&buffers), strs(&["0", "0", "0", "0"]));
}

#[test]
fn simple_io_totals_devices() {
    let mut buffers = WorkingBuffers::new();
    let read = load(Some(b"8:0 213264\n11:0 6\n"), &mut buffers);
    simple_io(read, &mut buffers);
    let read = load(Some(b"8:0 77\n"), &mut buffers);
    simple_io(read, &mut buffers);
    assert_eq!(fields(&buffers), strs(&["213270", "77"]));
}

#[test]
fn single_value_file_uses_default() {
    let mut buffers = WorkingBuffers::new();
    let read = load(Some(b"42\n"), &mut buffers);
    assert_eq!(single_value_file(read, &mut buffers, b"0"), Ok(()));
    let read = load(Some(b"\n"), &mut buffers);
    assert_eq!(single_value_file(read, &mut buffers, b"max"), Err(Empty));
    let read = load(None, &mut buffers);
    assert_eq!(single_value_file(read, &mut buffers, b"0"), Err(Empty));
    assert_eq!(fields(&buffers), strs(&["42", "max", "0"]));
    assert!(is_clean(&buffers));
}

#[test]
fn flat_keyed_file_finds_keys() {
    let mut buffers = WorkingBuffers::new();
    let keys: [&'static [u8]; 3] = [b"usage_usec", b"system_usec", b"nr_throttled"];
    let defaults: [&'static [u8]; 3] = [b"0", b"0", b"none"];
    let read = load(Some(b"usage_usec 100\nuser_usec 60\nsystem_usec 40\n"), &mut buffers);
    assert_eq!(flat_keyed_file(read, &mut buffers, &keys, &defaults), Ok(()));
    assert_eq!(fields(&buffers), strs(&["100", "40", "none"]));
    let mut empty = WorkingBuffers::new();
    let read = load(None, &mut empty);
    assert_eq!(flat_keyed_file(read, &mut empty, &keys, &defaults), Err(Empty));
    assert_eq!(fields(&empty), strs(&["0", "0", "none"]));
}

#[test]
fn io_line_fields_include_the_last_pair() {
    let mut it = IoLineFieldIter::new(b"8:0 a=1 junk b=2 c=3");
    assert_eq!(it.next(), Some((&b"a"[..], &b"1"[..])));
    assert_eq!(it.next(), Some((&b"b"[..], &b"2"[..])));
    assert_eq!(it.next(), Some((&b"c"[..], &b"3"[..])));
    assert_eq!(it.next(), None);
    assert_eq!(it.next(), None);
    let mut none = IoLineFieldIter::new(b"nospace");
    assert_eq!(none.next(), None);
}

#[test]
fn io_stat_file_totals_devices() {
    let mut buffers = WorkingBuffers::new();
    let keys: [&'static [u8]; 6] = [b"rbytes", b"wbytes", b"rios", b"wios", b"dbytes", b"dios"];
    let content: &[u8] = b"8:0 rbytes=10 wbytes=20 rios=1 wios=2 dbytes=0 dios=3\n8:16 rbytes=5 wbytes=1 rios=1 wios=1 dbytes=0 dios=4\n";
    let read = load(Some(content), &mut buffers);
    assert_eq!(io_stat_file(read, &mut buffers, &keys), Ok(()));
    assert_eq!(fields(&buffers), strs(&["15", "21", "2", "3", "0", "7"]));
    let mut empty = WorkingBuffers::new();
    let read = load(Some(b""), &mut empty);
    assert_eq!(io_stat_file(read, &mut empty, &keys), Err(Empty));
    assert_eq!(fields(&empty), strs(&["0", "0", "0", "0", "0", "0"]));
}
