use radvisor::util::buffer::{trim_raw, Buffer, BufferLike};
use radvisor::util::byte::{content_len_raw, find_char, is_newline, is_space, is_whitespace, ByteLines};
use radvisor::util::lazy_quantity::LazyQuantity;
use radvisor::util::path::{join_parts, push_path};
use radvisor::util::pool::ItemPool;
use radvisor::util::system::{nano_ts, num_cores, remap, second_ts};
use radvisor::util::AnonymousSlice;

#[test]
fn byte_classes() {
    assert!(is_space(b' '));
    assert!(!is_space(b'\n'));
    assert!(is_newline(b'\n'));
    assert!(is_newline(b'\r'));
    assert!(!is_newline(b' '));
    assert!(is_whitespace(b'\r'));
    assert!(is_whitespace(b' '));
    assert!(!is_whitespace(b'a'));
}

#[test]
fn find_char_stops_at_nul() {
    let buf = b"ab c\nd\0e\n";
    assert_eq!(find_char(buf, 0, is_space), Some(2));
    assert_eq!(find_char(buf, 0, is_newline), Some(4));
    assert_eq!(find_char(buf, 5, is_newline), None);
    assert_eq!(find_char(buf, 20, is_newline), None);
}

#[test]
fn content_len_counts_to_nul() {
    assert_eq!(content_len_raw(b"abc\0def"), 3);
    assert_eq!(content_len_raw(b"abc"), 3);
    assert_eq!(content_len_raw(b"\0abc"), 0);
}

#[test]
fn byte_lines_split_on_line_ends() {
    let buf = b"user 10\nsystem 20\nlast\0\0";
    let mut lines = ByteLines::new(buf);
    assert_eq!(lines.next_line(), Some((&b"user 10"[..], 0)));
    assert_eq!(lines.next_line(), Some((&b"system 20"[..], 8)));
    assert_eq!(lines.next_line(), Some((&b"last"[..], 18)));
    assert_eq!(lines.next_line(), None);
    assert_eq!(lines.next_line(), None);
}

#[test]
fn byte_lines_without_trailing_content() {
    let buf = b"a\n\0\0";
    let mut lines = ByteLines::new(buf);
    assert_eq!(lines.next_line(), Some((&b"a"[..], 0)));
    assert_eq!(lines.next_line(), None);
}

#[test]
fn byte_lines_rejoin_to_content() {
    let buf = b"a 1\r\nb 2\n\nc\0junk";
    let mut lines = ByteLines::new(buf);
    let mut joined: Vec<u8> = Vec::new();
    let mut last_end = 0;
    while let Some((line, start)) = lines.next_line() {
        assert_eq!(line, &buf[start..start + line.len()]);
        assert!(line.iter().all(|b| *b != b'\n' && *b != b'\r' && *b != 0));
        joined.extend_from_slice(&buf[start..start + line.len()]);
        if start + line.len() < 11 {
            joined.push(buf[start + line.len()]);
        }
        last_end = start + line.len();
    }
    assert_eq!(last_end, 11);
    assert_eq!(&joined[..], &buf[..11]);
}

#[test]
fn buffer_trim_and_clear() {
    let mut buffer = Buffer::<16>::from_str_truncate("  42\n");
    assert_eq!(buffer.len, 5);
    assert_eq!(buffer.trim(), b"42");
    assert_eq!(buffer.content(), b"  42\n");
    buffer.clear();
    assert_eq!(buffer.len, 0);
    assert_eq!(buffer.b, [0u8; 16]);
    assert_eq!(buffer.trim(), b"");
}

#[test]
fn buffer_from_str_truncates() {
    let buffer = Buffer::<4>::from_str_truncate("abcdef");
    assert_eq!(buffer.len, 4);
    assert_eq!(&buffer.b, b"abcd");
}

#[test]
fn buffer_write_at_start() {
    let mut buffer = Buffer::<4>::new();
    assert_eq!(buffer.write(b"xy"), 2);
    assert_eq!(&buffer.b, b"xy\0\0");
    assert_eq!(buffer.write(b"123456"), 4);
    assert_eq!(&buffer.b, b"1234");
    assert_eq!(buffer.len, 0);
}

#[test]
fn buffer_unmanaged_clearing() {
    let mut buffer = Buffer::<6>::new();
    buffer.b = *b"ab\0cd\0";
    assert_eq!(buffer.unmanaged_len(), 2);
    assert_eq!(buffer.content_unmanaged(), b"ab");
    buffer.clear_unmanaged();
    assert_eq!(&buffer.b, b"\0\0\0cd\0");
    let mut back = Buffer::<6>::new();
    back.b = *b"ab\0cd9";
    back.clear_unmanaged_backwards();
    assert_eq!(&back.b, b"ab\0\0\0\0");
}

#[test]
fn trim_raw_trims_to_content() {
    assert_eq!(trim_raw(b" 12 \n\0junk"), b"12");
    assert_eq!(trim_raw(b"\0abc"), b"\0");
    assert_eq!(trim_raw(b"  \0"), b"");
}

#[test]
fn anonymous_slice_consume() {
    let data = b"0123456789";
    let s = AnonymousSlice { start: 2, length: 3 };
    assert_eq!(s.consume(&data[..]), Some(&b"234"[..]));
    let end = AnonymousSlice { start: 7, length: 3 };
    assert_eq!(end.consume(&data[..]), Some(&b"789"[..]));
    let beyond = AnonymousSlice { start: 8, length: 3 };
    assert_eq!(beyond.consume(&data[..]), None);
    let short = AnonymousSlice { start: 1, length: 2 };
    assert_eq!(short.consume(&[10u8, 20, 30][..]), Some(&[20u8, 30][..]));
    let e = AnonymousSlice::empty();
    assert_eq!((e.start, e.length), (0, 0));
}

#[test]
fn path_push_rules() {
    let mut p = String::from("/sys/fs/cgroup");
    push_path(&mut p, "cpuacct");
    assert_eq!(p, "/sys/fs/cgroup/cpuacct");
    push_path(&mut p, "docker/abc");
    assert_eq!(p, "/sys/fs/cgroup/cpuacct/docker/abc");
    push_path(&mut p, "/absolute");
    assert_eq!(p, "/absolute");
    let mut q = String::from("dir/");
    push_path(&mut q, "file");
    assert_eq!(q, "dir/file");
    assert_eq!(join_parts(&["kubepods", "burstable", "pod1"]), "kubepods/burstable/pod1");
    assert_eq!(join_parts(&[]), "");
}

fn ids(v: &[&str]) -> Vec<String> {
    v.iter().map(|s| s.to_string()).collect()
}

#[test]
fn item_pool_reports_changes() {
    let mut pool = ItemPool::new();
    let (added, removed) = pool.update(ids(&["c", "a", "b", "a"]));
    assert_eq!(added, ids(&["a", "b", "c"]));
    assert!(removed.is_empty());
    let (added, removed) = pool.update(ids(&["b", "d"]));
    assert_eq!(added, ids(&["d"]));
    assert_eq!(removed, ids(&["a", "c"]));
}

#[test]
fn item_pool_update_again_changes_nothing() {
    let mut pool = ItemPool::new();
    pool.update(ids(&["x", "y"]));
    let (added, removed) = pool.update(ids(&["y", "x"]));
    assert!(added.is_empty());
    assert!(removed.is_empty());
}

#[test]
fn lazy_quantity_adds_up() {
    let q = LazyQuantity::new();
    assert!(q.is_zero());
    let q = q.plus(b"40");
    assert!(!q.is_zero());
    let mut buffer = Buffer::<8>::new();
    let n = q.write_to(&mut buffer);
    assert_eq!(&buffer.b[..n], b"40");
    let q = q.plus(b"2");
    let mut buffer = Buffer::<8>::new();
    let n = q.write_to(&mut buffer);
    assert_eq!(&buffer.b[..n], b"42");
    let q = q.plus(b"100").plus(b"8");
    let mut buffer = Buffer::<8>::new();
    let n = q.write_to(&mut buffer);
    assert_eq!(&buffer.b[..n], b"150");
}

#[test]
fn lazy_quantity_single_kept_as_text() {
    let q = LazyQuantity::new().plus(b"0007");
    let mut buffer = Buffer::<8>::new();
    let n = q.write_to(&mut buffer);
    assert_eq!(&buffer.b[..n], b"0007");
    let zero = LazyQuantity::new();
    let n = zero.write_to(&mut buffer);
    assert_eq!(&buffer.b[..n], b"0");
}

#[test]
fn lazy_quantity_saturates() {
    let q = LazyQuantity::new().plus(b"18446744073709551615").plus(b"5");
    let mut buffer = Buffer::<32>::new();
    let n = q.write_to(&mut buffer);
    assert_eq!(&buffer.b[..n], b"18446744073709551615");
}

#[test]
fn lazy_quantity_to_record() {
    let mut record = csv::ByteRecord::new();
    let mut working = Buffer::<8>::new();
    LazyQuantity::new().plus(b"3").plus(b"4").write_to_record(&mut working, &mut record);
    assert_eq!(record.len(), 1);
    assert_eq!(&record[0], b"7");
    assert_eq!(working.len, 0);
    assert_eq!(working.b, [0u8; 8]);
}

#[test]
fn system_conversions() {
    assert_eq!(remap::<i64, u64>(-5), 0);
    assert_eq!(remap::<i64, u64>(7), 7);
    assert_eq!(remap::<i64, u64>(42), 42);
    assert_eq!(remap::<i64, u64>(-1), 0);
    assert_eq!(remap::<u64, usize>(12), 12);
    assert_eq!(remap::<u128, u8>(300), 0);
    assert_eq!(remap::<u128, u8>(255), 255);
    assert_eq!(remap::<u64, u128>(u64::MAX), u64::MAX as u128);
    assert_eq!(remap::<u128, u64>(u128::MAX), 0);
    assert_eq!(remap::<u64, u32>(70_000), 70_000);
    assert_eq!(remap::<i64, usize>(-3), 0);
    assert_eq!(nano_ts(2, 5), 2_000_000_005);
    assert_eq!(nano_ts(-1, 5), 5);
    assert_eq!(second_ts(1_600_000_000), 1_600_000_000);
    assert_eq!(second_ts(-3), 0);
    assert_eq!(num_cores(8), 8);
    assert_eq!(num_cores(-1), 0);
}
