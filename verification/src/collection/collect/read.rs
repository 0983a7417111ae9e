//! Reading of cgroup v1 statistics files into record fields. The caller reads
//! a file into the working buffer and hands over the outcome of that read:
//! `None` when there was no file handle or the read failed, `Some(n)` when
//! `n` bytes were read into `buffers.buffer.b`.

use vstd::prelude::*;
use crate::collection::buffers::{self, WorkingBuffers};
use crate::util::AnonymousSlice;
use crate::util::buffer::{self, Buffer, BufferLike, trim_raw};
use crate::util::byte::{self, content_len_raw, find_char, is_newline, is_space};
use crate::util::record::{self, push_field};
use crate::util::lazy_quantity::{self, QuantityView};
use crate::util::number::{self, parse_signed_decimal, saturating_add};
use csv::ByteRecord;

verus! {

/// The managed length of the working buffer after a read
pub open spec fn len_after_read(old_len: usize, read: Option<usize>) -> int {
    match read {
        Some(n) => old_len + n,
        None => old_len as int,
    }
}

/// The read produced content (a handle existed, reading succeeded and gave at
/// least one byte)
pub open spec fn read_some(read: Option<usize>) -> bool {
    read matches Some(n) && n > 0
}

/// The read fits in the working buffer
pub open spec fn read_fits(buffers: &WorkingBuffers, read: Option<usize>) -> bool {
    len_after_read(buffers.buffer.len, read) <= 16384
}

/// The field written for a single-value file: its trimmed content, or an
/// empty field when nothing remains
pub open spec fn entry_field(b: Seq<u8>, len: int) -> Seq<u8> {
    let t = buffer::trim_spec(b.subrange(0, len));
    if byte::content_len(t) == 0 {
        Seq::empty()
    } else {
        t
    }
}

/// Adds the read length to the buffer, giving the length when something was
/// read
fn read_to_buffer(read: Option<usize>, buffers: &mut WorkingBuffers) -> (r: Option<usize>)
    requires
        read_fits(old(buffers), read),
    ensures
        final(buffers).buffer.len == len_after_read(old(buffers).buffer.len, read),
        final(buffers).buffer.b == old(buffers).buffer.b,
        final(buffers).copy_buffer == old(buffers).copy_buffer,
        final(buffers).slices == old(buffers).slices,
        final(buffers).record == old(buffers).record,
        r is Some <==> read_some(read),
        r matches Some(n) ==> read == Some(n),
{
    match read {
        None => None,
        Some(len) => {
            buffers.buffer.len = buffers.buffer.len + len;
            if len == 0 {
                None
            } else {
                Some(len)
            }
        },
    }
}

/// Writes the content of a single-value file as a field of the record: its
/// trimmed content, or an empty field when there is none
pub fn entry(read: Option<usize>, buffers: &mut WorkingBuffers)
    requires
        read_fits(old(buffers), read),
    ensures
        ({
            let len = len_after_read(old(buffers).buffer.len, read);
            &&& record::record_fields(final(buffers).record) == record::record_fields(
                old(buffers).record,
            ).push(entry_field(old(buffers).buffer.b@, len))
            &&& final(buffers).buffer.len == 0
            &&& final(buffers).buffer.b@ == buffer::zeroed(old(buffers).buffer.b@, 0, len)
        }),
        final(buffers).copy_buffer == old(buffers).copy_buffer,
        final(buffers).slices == old(buffers).slices,
{
    read_to_buffer(read, buffers);
    let trimmed = buffers.buffer.trim();
    if content_len_raw(trimmed) == 0 {
        let empty: [u8; 0] = [];
        assert(empty@ =~= Seq::<u8>::empty());
        push_field(&mut buffers.record, empty.as_slice());
    } else {
        push_field(&mut buffers.record, trimmed);
    }
    buffers.buffer.clear();
}

/// Scans a stat file whose lines each hold a key of known length, a
/// separator and a number: for offset `k` onwards, with the current line
/// starting at `ls`, the values parsed before the scan stops (at the end of
/// the content or at a line without a line end). `None` when a value is
/// empty, which the trimming cannot handle.
pub open spec fn stat_scan(b: Seq<u8>, len: int, offsets: Seq<usize>, k: int, ls: int) -> Option<
    Seq<Seq<u8>>,
>
    decreases offsets.len() - k,
{
    if k < 0 || k >= offsets.len() {
        Some(Seq::empty())
    } else {
        let target = ls + offsets[k] + 1;
        if target >= len {
            Some(Seq::empty())
        } else {
            match byte::find_spec(b, target, byte::newline_pred()) {
                None => Some(Seq::empty()),
                Some(nl) => if nl <= target {
                    None
                } else {
                    match stat_scan(b, len, offsets, k + 1, nl + 1) {
                        Some(rest) => Some(
                            seq![buffer::trim_raw_spec(b.subrange(target, nl))] + rest,
                        ),
                        None => None,
                    }
                },
            }
        }
    }
}

/// `n` empty fields
pub open spec fn empties(n: int) -> Seq<Seq<u8>> {
    Seq::new(if n < 0 { 0 } else { n as nat }, |i: int| Seq::<u8>::empty())
}

/// The fields a stat file gives: the parsed values, then empty fields for the
/// remaining offsets (all empty when nothing was read)
pub open spec fn stat_fields(
    b: Seq<u8>,
    len: int,
    offsets: Seq<usize>,
    read: Option<usize>,
) -> Seq<Seq<u8>> {
    if read_some(read) {
        let parsed = stat_scan(b, len, offsets, 0, 0).unwrap();
        parsed + empties(offsets.len() - parsed.len())
    } else {
        empties(offsets.len() as int)
    }
}

/// Offsets that keep the scan free of overflow
pub open spec fn offsets_fit(offsets: Seq<usize>) -> bool {
    forall|k: int| 0 <= k < offsets.len() ==> #[trigger] offsets[k] <= usize::MAX - 16386
}

/// The scan never gives more fields than there are offsets
pub proof fn lemma_stat_scan_len(b: Seq<u8>, len: int, offsets: Seq<usize>, k: int, ls: int)
    requires
        0 <= k,
    ensures
        stat_scan(b, len, offsets, k, ls) matches Some(f) ==> f.len() <= offsets.len() - k
            || (k >= offsets.len() && f.len() == 0),
    decreases offsets.len() - k,
{
    if k < offsets.len() {
        let target = ls + offsets[k] + 1;
        if target < len {
            if let Some(nl) = byte::find_spec(b, target, byte::newline_pred()) {
                if nl > target {
                    lemma_stat_scan_len(b, len, offsets, k + 1, nl + 1);
                }
            }
        }
    }
}

/// Whether `stat_file` can parse the read content: no value it reaches is
/// empty
pub fn stat_file_parses(read: Option<usize>, offsets: &[usize], buffers: &WorkingBuffers) -> (r:
    bool)
    requires
        read_fits(buffers, read),
        offsets_fit(offsets@),
    ensures
        r == (read_some(read) ==> stat_scan(
            buffers.buffer.b@,
            len_after_read(buffers.buffer.len, read),
            offsets@,
            0,
            0,
        ) is Some),
{
    let len = match read {
        None => return true,
        Some(0) => return true,
        Some(n) => buffers.buffer.len + n,
    };
    let ghost b = buffers.buffer.b@;
    let mut line_start: usize = 0;
    let mut k: usize = 0;
    proof {
        byte::lemma_byte_callbacks();
    }
    while k < offsets.len()
        invariant
            k <= offsets@.len(),
            offsets_fit(offsets@),
            len <= 16384,
            len == len_after_read(buffers.buffer.len, read),
            read_some(read),
            line_start <= 16384,
            b == buffers.buffer.b@,
            b.len() == 16384,
            (stat_scan(b, len as int, offsets@, 0, 0) is Some) == (stat_scan(
                b,
                len as int,
                offsets@,
                k as int,
                line_start as int,
            ) is Some),
        decreases offsets@.len() - k,
    {
        let target = line_start + offsets[k] + 1;
        if target >= len {
            return true;
        }
        proof {
            byte::lemma_byte_callbacks();
        }
        let found = find_char(buffers.buffer.b.as_slice(), target, is_newline);
        assert(byte::same_index(found, byte::find_spec(b, target as int, byte::newline_pred())));
        proof {
            byte::lemma_find_spec_facts(b, target as int, byte::newline_pred());
        }
        match found {
            None => return true,
            Some(newline) => {
                if newline <= target {
                    return false;
                }
                line_start = newline + 1;
            },
        }
        k += 1;
    }
    true
}

/// Parses every entry of a stat file, where each line is an alphabetic key
/// followed by a separator and a number, using the precomputed key lengths in
/// `offsets` to skip the keys. Writes one field per offset: the parsed values,
/// then empty fields where parsing stopped early.
pub fn stat_file(read: Option<usize>, offsets: &[usize], buffers: &mut WorkingBuffers)
    requires
        read_fits(old(buffers), read),
        offsets_fit(offsets@),
        read_some(read) ==> stat_scan(
            old(buffers).buffer.b@,
            len_after_read(old(buffers).buffer.len, read),
            offsets@,
            0,
            0,
        ) is Some,
    ensures
        ({
            let len = len_after_read(old(buffers).buffer.len, read);
            &&& record::record_fields(final(buffers).record) == record::record_fields(
                old(buffers).record,
            ) + stat_fields(old(buffers).buffer.b@, len, offsets@, read)
            &&& final(buffers).buffer.len == 0
            &&& final(buffers).buffer.b@ == buffer::zeroed(old(buffers).buffer.b@, 0, len)
        }),
        final(buffers).copy_buffer == old(buffers).copy_buffer,
        final(buffers).slices == old(buffers).slices,
{
    let ghost b = buffers.buffer.b@;
    let ghost len = len_after_read(buffers.buffer.len, read);
    let ghost start_fields = record::record_fields(buffers.record);
    let successful = read_to_buffer(read, buffers).is_some();
    let mut success_count: usize = 0;
    if successful {
        let mut line_start: usize = 0;
        let mut done = false;
        proof {
            lemma_stat_scan_len(b, len, offsets@, 0, 0);
        }
        while !done && success_count < offsets.len()
            invariant
                success_count <= offsets@.len(),
                offsets_fit(offsets@),
                buffers.buffer.len == len,
                len <= 16384,
                read_some(read),
                line_start <= 16384,
                b == buffers.buffer.b@,
                b.len() == 16384,
                buffers.copy_buffer == old(buffers).copy_buffer,
                buffers.slices == old(buffers).slices,
                stat_scan(b, len, offsets@, success_count as int, line_start as int) is Some,
                done ==> stat_scan(b, len, offsets@, success_count as int, line_start as int)
                    == Some(Seq::<Seq<u8>>::empty()),
                record::record_fields(buffers.record).len() == start_fields.len() + success_count,
                record::record_fields(buffers.record).subrange(0, start_fields.len() as int)
                    == start_fields,
                record::record_fields(buffers.record).subrange(
                    start_fields.len() as int,
                    start_fields.len() + success_count,
                ) + stat_scan(b, len, offsets@, success_count as int, line_start as int).unwrap()
                    == stat_scan(b, len, offsets@, 0, 0).unwrap(),
            decreases offsets@.len() - success_count, if done { 0int } else { 1int },
        {
            let ghost fields_before = record::record_fields(buffers.record);
            let target = line_start + offsets[success_count] + 1;
            if target >= buffers.buffer.len {
                done = true;
            } else {
                proof {
                    byte::lemma_byte_callbacks();
                }
                let found = find_char(buffers.buffer.b.as_slice(), target, is_newline);
                assert(byte::same_index(
                    found,
                    byte::find_spec(b, target as int, byte::newline_pred()),
                ));
                proof {
                    byte::lemma_find_spec_facts(b, target as int, byte::newline_pred());
                }
                match found {
                    None => {
                        done = true;
                    },
                    Some(newline) => {
                        let number_slice = &buffers.buffer.b.as_slice()[target..newline];
                        let value = trim_raw(number_slice);
                        push_field(&mut buffers.record, value);
                        proof {
                            let rest = stat_scan(
                                b,
                                len,
                                offsets@,
                                success_count + 1,
                                newline + 1,
                            ).unwrap();
                            let nf = record::record_fields(buffers.record);
                            assert(nf.subrange(0, start_fields.len() as int) =~= fields_before.subrange(
                                0,
                                start_fields.len() as int,
                            ));
                            assert(nf.subrange(
                                start_fields.len() as int,
                                start_fields.len() + success_count + 1,
                            ) =~= fields_before.subrange(
                                start_fields.len() as int,
                                start_fields.len() + success_count,
                            ).push(value@));
                            assert(fields_before.subrange(
                                start_fields.len() as int,
                                start_fields.len() + success_count,
                            ).push(value@) + rest =~= fields_before.subrange(
                                start_fields.len() as int,
                                start_fields.len() + success_count,
                            ) + (seq![value@] + rest));
                        }
                        line_start = newline + 1;
                        success_count += 1;
                    },
                }
            }
        }
        proof {
            let nf = record::record_fields(buffers.record);
            assert(nf =~= start_fields + stat_scan(b, len, offsets@, 0, 0).unwrap()) by {
                assert(nf =~= nf.subrange(0, start_fields.len() as int) + nf.subrange(
                    start_fields.len() as int,
                    start_fields.len() + success_count,
                ));
                if !done {
                    assert(stat_scan(b, len, offsets@, success_count as int, line_start as int)
                        == Some(Seq::<Seq<u8>>::empty()));
                }
            }
        }
    } else {
        assert(record::record_fields(buffers.record) =~= start_fields + Seq::<Seq<u8>>::empty());
    }
    let ghost parsed = record::record_fields(buffers.record);
    let remaining = offsets.len() - success_count;
    let mut i: usize = 0;
    while i < remaining
        invariant
            i <= remaining,
            record::record_fields(buffers.record) == parsed + empties(i as int),
            buffers.buffer.len == len,
            b == buffers.buffer.b@,
            buffers.copy_buffer == old(buffers).copy_buffer,
            buffers.slices == old(buffers).slices,
        decreases remaining - i,
    {
        let empty: [u8; 0] = [];
        assert(empty@ =~= Seq::<u8>::empty());
        push_field(&mut buffers.record, empty.as_slice());
        assert(parsed + empties(i + 1) =~= (parsed + empties(i as int)).push(Seq::<u8>::empty()));
        i += 1;
    }
    proof {
        if successful {
            assert(record::record_fields(buffers.record) =~= start_fields + stat_fields(
                b,
                len,
                offsets@,
                read,
            ));
        } else {
            assert(record::record_fields(buffers.record) =~= start_fields + stat_fields(
                b,
                len,
                offsets@,
                read,
            ));
        }
    }
    buffers.buffer.clear();
}

/// Represents metadata about a single stat file line that corresponds to an
/// entry in the log output.
#[derive(Clone, Copy)]
pub struct StatFileLine {
    /// Index of the corresponding entry
    entry: usize,
    /// Length of the line header to skip when parsing
    offset: usize,
}

/// Used to store the results of an initial examination of the layout of a
/// `.stat` cgroup file, determining how each line maps to the target entries.
/// Used for `.stat` files where the contents vary depending on the
/// system/configuration, such as `memory.stat` in the `memory` subsystem
pub struct StatFileLayout {
    /// Line-to-entry map: for a line that corresponds to an indexed entry, the
    /// index of the entry along with the length of its key
    lines: Vec<Option<StatFileLine>>,
}

/// The views of a slice of byte slices
pub open spec fn byte_views(s: Seq<&[u8]>) -> Seq<Seq<u8>> {
    s.map_values(|x: &[u8]| x@)
}

/// Index of the first of `source` equal to `target`, from index `i`
pub open spec fn find_index_from(source: Seq<Seq<u8>>, target: Seq<u8>, i: int) -> Option<int>
    decreases source.len() - i,
{
    if i < 0 || i >= source.len() {
        None
    } else if source[i] == target {
        Some(i)
    } else {
        find_index_from(source, target, i + 1)
    }
}

/// What `find_index_from` returns lies in range
pub proof fn lemma_find_index_range(source: Seq<Seq<u8>>, target: Seq<u8>, i: int)
    requires
        0 <= i,
    ensures
        find_index_from(source, target, i) matches Some(k) ==> i <= k < source.len() && source[k]
            == target,
    decreases source.len() - i,
{
    if i < source.len() && source[i] != target {
        lemma_find_index_range(source, target, i + 1);
    }
}

/// The line at `(start, length)` of `s`
pub open spec fn line_at(s: Seq<u8>, l: (int, int)) -> Seq<u8> {
    s.subrange(l.0, l.0 + l.1)
}

/// The layout entries of the lines of `content` from line `k`: each line with
/// a separator gives the index of the entry named by its trimmed key (and the
/// length of that entry), or `None` when no entry matches or the line has no
/// separator: one layout element per line
pub open spec fn layout_from(content: Seq<u8>, entries: Seq<Seq<u8>>, k: int) -> Seq<
    Option<(int, int)>,
>
    decreases byte::lines_of(content).len() - k,
{
    let lines = byte::lines_of(content);
    if k < 0 || k >= lines.len() {
        Seq::empty()
    } else {
        let line = line_at(content, lines[k]);
        match byte::find_spec(line, 0, byte::space_pred()) {
            None => seq![None] + layout_from(content, entries, k + 1),
            Some(sp) => {
                let key = buffer::trim_raw_spec(line.subrange(0, sp));
                let e = match find_index_from(entries, key, 0) {
                    Some(i) => Some((i, entries[i].len() as int)),
                    None => None,
                };
                seq![e] + layout_from(content, entries, k + 1)
            },
        }
    }
}

/// No line of `content` starts with its separator (which leaves an empty key)
pub open spec fn keys_nonempty(content: Seq<u8>) -> bool {
    forall|k: int|
        0 <= k < byte::lines_of(content).len() ==> byte::find_spec(
            line_at(content, #[trigger] byte::lines_of(content)[k]),
            0,
            byte::space_pred(),
        ) != Some(0int)
}

impl StatFileLine {
    /// The abstract line: the entry index and the key length
    pub closed spec fn spec_view(&self) -> (int, int) {
        (self.entry as int, self.offset as int)
    }
}

/// The abstract view of an optional stat file line
pub open spec fn line_view(l: Option<StatFileLine>) -> Option<(int, int)> {
    match l {
        Some(l) => Some(l.spec_view()),
        None => None,
    }
}

impl StatFileLayout {
    /// The abstract layout: per line, the entry index and key length
    pub closed spec fn spec_lines(&self) -> Seq<Option<(int, int)>> {
        self.lines@.map_values(|l: Option<StatFileLine>| line_view(l))
    }

    /// Examines the layout of a stat file's content (`None` when there was no
    /// file handle or reading it failed), determining on which lines the
    /// predetermined entries are for faster processing during collection
    pub fn new(content: Option<&[u8]>, entries: &[&[u8]]) -> (r: Self)
        requires
            content matches Some(c) ==> keys_nonempty(c@),
        ensures
            content matches Some(c) ==> r.spec_lines() == layout_from(c@, byte_views(entries@), 0),
            content is None ==> r.spec_lines().len() == 0,
    {
        match content {
            None => {
                let r = StatFileLayout { lines: Vec::new() };
                assert(r.spec_lines() =~= Seq::<Option<(int, int)>>::empty());
                r
            },
            Some(buffer) => {
                let ghost views = byte_views(entries@);
                let ghost all = byte::lines_of(buffer@);
                let mut lines_to_entries: Vec<Option<StatFileLine>> = Vec::new();
                let mut lines = byte::ByteLines::new(buffer);
                let ghost mut k: int = 0;
                proof {
                    byte::lemma_lines_in_range(buffer@, 0);
                }
                let ghost rem0 = lines.remaining();
                let mut current = lines.next_line();
                proof {
                    if all.len() > 0 {
                        assert(rem0[0] == all[0]);
                        assert(lines.remaining() =~= all.subrange(1, all.len() as int));
                    }
                }
                while current.is_some()
                    invariant
                        lines.wf(),
                        lines.source() == buffer@,
                        all == byte::lines_of(buffer@),
                        keys_nonempty(buffer@),
                        views == byte_views(entries@),
                        0 <= k <= all.len(),
                        current is None ==> k == all.len(),
                        current matches Some((l, st)) ==> k < all.len() && l@ == line_at(buffer@, all[k])
                            && st == all[k].0,
                        current is Some ==> lines.remaining() == all.subrange(k + 1, all.len() as int),
                        forall|j: int| 0 <= j < all.len() ==> 0 <= #[trigger] all[j].0 && 0 <= all[j].1
                            && all[j].0 + all[j].1 <= buffer@.len(),
                        lines_to_entries@.map_values(|l: Option<StatFileLine>| line_view(l))
                            + layout_from(buffer@, views, k) == layout_from(buffer@, views, 0),
                    decreases all.len() - k,
                {
                    let (line, _) = current.unwrap();
                    let ghost prev = lines_to_entries@.map_values(|l: Option<StatFileLine>| line_view(l));
                    proof {
                        byte::lemma_byte_callbacks();
                    }
                    let found = find_char(line, 0, is_space);
                    assert(byte::same_index(found, byte::find_spec(line@, 0, byte::space_pred())));
                    proof {
                        byte::lemma_find_spec_facts(line@, 0, byte::space_pred());
                    }
                    match found {
                        None => {
                            lines_to_entries.push(None);
                            proof {
                                let nv = lines_to_entries@.map_values(|l: Option<StatFileLine>| line_view(l));
                                assert(nv =~= prev.push(None));
                                assert(nv + layout_from(buffer@, views, k + 1) =~= prev + (seq![None] + layout_from(buffer@, views, k + 1)));
                            }
                        },
                        Some(space_pos) => {
                            let key = trim_raw(&line[0..space_pos]);
                            let index_option = find_index(entries, key);
                            proof {
                                lemma_find_index_range(views, key@, 0);
                            }
                            let e = match index_option {
                                Some(idx) => Some(StatFileLine { entry: idx, offset: entries[idx].len() }),
                                None => None,
                            };
                            lines_to_entries.push(e);
                            proof {
                                let nv = lines_to_entries@.map_values(|l: Option<StatFileLine>| line_view(l));
                                assert(nv =~= prev.push(line_view(e)));
                                assert(nv + layout_from(buffer@, views, k + 1) =~= prev + (seq![line_view(e)] + layout_from(buffer@, views, k + 1)));
                            }
                        },
                    }
                    let ghost rem = lines.remaining();
                    current = lines.next_line();
                    proof {
                        k = k + 1;
                        if k < all.len() {
                            assert(rem[0] == all[k]);
                            assert(lines.remaining() =~= all.subrange(k + 1, all.len() as int));
                        }
                    }
                }
                assert(layout_from(buffer@, views, k) =~= Seq::<Option<(int, int)>>::empty());
                let r = StatFileLayout { lines: lines_to_entries };
                assert(r.spec_lines() =~= layout_from(buffer@, views, 0));
                r
            },
        }
    }
}

/// Finds the index in the source array of the first slice equal to the target
/// slice, comparing byte by byte
pub fn find_index(source: &[&[u8]], target: &[u8]) -> (r: Option<usize>)
    ensures
        byte::same_index(r, find_index_from(byte_views(source@), target@, 0)),
{
    let ghost views = byte_views(source@);
    let mut i: usize = 0;
    while i < source.len()
        invariant
            i <= source@.len(),
            views == byte_views(source@),
            find_index_from(views, target@, 0) == find_index_from(views, target@, i as int),
        decreases source@.len() - i,
    {
        let slice = source[i];
        if slice.len() == target.len() {
            let mut all_equal = true;
            let mut j: usize = 0;
            while j < target.len()
                invariant
                    j <= target@.len() == slice@.len(),
                    all_equal <==> (forall|m: int| 0 <= m < j ==> slice@[m] == target@[m]),
                decreases target@.len() - j,
            {
                if slice[j] != target[j] {
                    all_equal = false;
                }
                j += 1;
            }
            if all_equal {
                assert(slice@ =~= target@);
                assert(views[i as int] == target@);
                return Some(i);
            }
        }
        assert(views[i as int] != target@) by {
            if views[i as int] == target@ {
                assert(slice@.len() == target@.len());
                assert(forall|m: int| 0 <= m < target@.len() ==> slice@[m] == target@[m]);
            }
        }
        i += 1;
    }
    None
}

/// Whether no line of `content` starts with its separator, as
/// `StatFileLayout::new` needs
pub fn layout_keys_nonempty(content: &[u8]) -> (r: bool)
    ensures
        r == keys_nonempty(content@),
{
    let ghost all = byte::lines_of(content@);
    let mut lines = byte::ByteLines::new(content);
    let ghost mut k: int = 0;
    let ghost rem0 = lines.remaining();
    let mut current = lines.next_line();
    proof {
        if all.len() > 0 {
            assert(rem0[0] == all[0]);
            assert(lines.remaining() =~= all.subrange(1, all.len() as int));
        }
    }
    while current.is_some()
        invariant
            lines.wf(),
            lines.source() == content@,
            all == byte::lines_of(content@),
            0 <= k <= all.len(),
            current is None ==> k == all.len(),
            current matches Some((l, st)) ==> k < all.len() && l@ == line_at(content@, all[k]),
            current is Some ==> lines.remaining() == all.subrange(k + 1, all.len() as int),
            forall|j: int|
                0 <= j < k ==> byte::find_spec(
                    line_at(content@, #[trigger] all[j]),
                    0,
                    byte::space_pred(),
                ) != Some(0int),
        decreases all.len() - k,
    {
        let (line, _) = current.unwrap();
        proof {
            byte::lemma_byte_callbacks();
        }
        let found = find_char(line, 0, is_space);
        assert(byte::same_index(found, byte::find_spec(line@, 0, byte::space_pred())));
        if found == Some(0usize) {
            return false;
        }
        let ghost rem = lines.remaining();
        current = lines.next_line();
        proof {
            k = k + 1;
            if k < all.len() {
                assert(rem[0] == all[k]);
                assert(lines.remaining() =~= all.subrange(k + 1, all.len() as int));
            }
        }
    }
    true
}

/// The slice buffer after applying the layout to the lines of `b` from line
/// `k`: a line that maps to an entry sets that entry's slice to the value after
/// the key and its separator
pub open spec fn apply_layout(
    slices: Seq<AnonymousSlice>,
    b: Seq<u8>,
    layout: Seq<Option<(int, int)>>,
    k: int,
) -> Seq<AnonymousSlice>
    decreases byte::lines_of(b).len() - k,
{
    let lines = byte::lines_of(b);
    if k < 0 || k >= lines.len() {
        slices
    } else {
        let next = match layout[k] {
            None => slices,
            Some((e, off)) => slices.update(
                e,
                AnonymousSlice {
                    start: (lines[k].0 + off + 1) as usize,
                    length: (lines[k].1 - off - 1) as usize,
                },
            ),
        };
        apply_layout(next, b, layout, k + 1)
    }
}

/// The layout covers every line of `b`, and each line it maps to an entry
/// holds the key and its separator
pub open spec fn layout_fits_content(b: Seq<u8>, layout: Seq<Option<(int, int)>>) -> bool {
    let lines = byte::lines_of(b);
    &&& lines.len() <= layout.len()
    &&& forall|k: int|
        0 <= k < lines.len() ==> (#[trigger] layout[k] matches Some((e, off)) ==> 0 <= e < 16 && 0
            <= off && off + 1 <= lines[k].1)
}

/// The field a slice gives of `b`: the bytes it covers, or an empty field when
/// it reaches the end of `b`
pub open spec fn slice_field(sl: AnonymousSlice, b: Seq<u8>) -> Seq<u8> {
    if sl.start + sl.length <= b.len() {
        b.subrange(sl.start as int, sl.start + sl.length)
    } else {
        Seq::empty()
    }
}

/// The fields `with_layout` writes
pub open spec fn layout_fields(
    slices: Seq<AnonymousSlice>,
    b: Seq<u8>,
    layout: Seq<Option<(int, int)>>,
    read: Option<usize>,
) -> Seq<Seq<u8>> {
    let fin = if read_some(read) {
        apply_layout(slices, b, layout, 0)
    } else {
        slices
    };
    Seq::new(16, |i: int| slice_field(fin[i], b))
}

/// Slices whose end does not overflow
pub open spec fn slices_fit(slices: Seq<AnonymousSlice>) -> bool {
    forall|i: int| 0 <= i < slices.len() ==> #[trigger] slices[i].start + slices[i].length <= usize::MAX
}

/// Applying a fitting layout keeps the slices within the content
pub proof fn lemma_apply_layout_fits(
    slices: Seq<AnonymousSlice>,
    b: Seq<u8>,
    layout: Seq<Option<(int, int)>>,
    k: int,
)
    requires
        0 <= k,
        slices.len() == 16,
        slices_fit(slices),
        layout_fits_content(b, layout),
        b.len() <= 16384,
    ensures
        apply_layout(slices, b, layout, k).len() == 16,
        slices_fit(apply_layout(slices, b, layout, k)),
    decreases byte::lines_of(b).len() - k,
{
    let lines = byte::lines_of(b);
    byte::lemma_lines_in_range(b, 0);
    if k < lines.len() {
        let next = match layout[k] {
            None => slices,
            Some((e, off)) => slices.update(
                e,
                AnonymousSlice {
                    start: (lines[k].0 + off + 1) as usize,
                    length: (lines[k].1 - off - 1) as usize,
                },
            ),
        };
        assert(slices_fit(next)) by {
            assert(0 <= lines[k].0 && lines[k].0 + lines[k].1 <= b.len());
        }
        lemma_apply_layout_fits(next, b, layout, k + 1);
    }
}

/// Whether the layout fits the content that was read, as `with_layout` needs
pub fn layout_fits(read: Option<usize>, layout: &StatFileLayout, buffers: &WorkingBuffers) -> (r:
    bool)
    ensures
        r == (read_some(read) ==> layout_fits_content(buffers.buffer.b@, layout.spec_lines())),
{
    if !(match read {
        Some(n) => n > 0,
        None => false,
    }) {
        return true;
    }
    let ghost b = buffers.buffer.b@;
    let ghost all = byte::lines_of(b);
    let ghost spec_lines = layout.spec_lines();
    proof {
        byte::lemma_lines_in_range(b, 0);
    }
    let mut lines = byte::ByteLines::new(buffers.buffer.b.as_slice());
    let ghost mut k: int = 0;
    let ghost rem0 = lines.remaining();
    let mut i: usize = 0;
    let mut current = lines.next_line();
    proof {
        if all.len() > 0 {
            assert(rem0[0] == all[0]);
            assert(lines.remaining() =~= all.subrange(1, all.len() as int));
        }
    }
    while current.is_some()
        invariant
            lines.wf(),
            lines.source() == b,
            b == buffers.buffer.b@,
            all == byte::lines_of(b),
            forall|j: int| 0 <= j < all.len() ==> 0 <= #[trigger] all[j].0 && 0 <= all[j].1
                && all[j].0 + all[j].1 <= b.len(),
            spec_lines == layout.spec_lines(),
            spec_lines.len() == layout.lines@.len(),
            read_some(read),
            0 <= k <= all.len(),
            i == k,
            current is None ==> k == all.len(),
            current matches Some((l, st)) ==> k < all.len() && l@ == line_at(b, all[k]) && st
                == all[k].0,
            current is Some ==> lines.remaining() == all.subrange(k + 1, all.len() as int),
            k <= spec_lines.len(),
            forall|j: int|
                0 <= j < k ==> (#[trigger] spec_lines[j] matches Some((e, off)) ==> 0 <= e < 16 && 0
                    <= off && off + 1 <= all[j].1),
        decreases all.len() - k,
    {
        let (line, _) = current.unwrap();
        assert(line@.len() == all[k].1);
        if i >= layout.lines.len() {
            assert(!layout_fits_content(b, spec_lines));
            return false;
        }
        match layout.lines[i] {
            None => {
                assert(spec_lines[i as int] == line_view(layout.lines@[i as int]));
            },
            Some(meta) => {
                assert(spec_lines[i as int] == Some(meta.spec_view()));
                if meta.entry >= 16 || meta.offset >= line.len() {
                    assert(!(spec_lines[k] matches Some((e, off)) ==> 0 <= e < 16 && 0 <= off
                        && off + 1 <= all[k].1));
                    assert(!layout_fits_content(b, spec_lines));
                    return false;
                }
            },
        }
        let ghost rem = lines.remaining();
        current = lines.next_line();
        i += 1;
        proof {
            k = k + 1;
            if k < all.len() {
                assert(rem[0] == all[k]);
                assert(lines.remaining() =~= all.subrange(k + 1, all.len() as int));
            }
        }
    }
    true
}

/// Reads the entries of a stat file with a pre-examined layout: each line the
/// layout maps to an entry sets that entry's slice to the line's value, and
/// then every slice is written as a field (an empty field for a slice that
/// reaches the end of the buffer). The slices are reset afterwards.
#[verifier::spinoff_prover]
pub fn with_layout(read: Option<usize>, layout: &StatFileLayout, buffers: &mut WorkingBuffers)
    requires
        read_fits(old(buffers), read),
        slices_fit(old(buffers).slices@),
        read_some(read) ==> layout_fits_content(old(buffers).buffer.b@, layout.spec_lines()),
    ensures
        ({
            let len = len_after_read(old(buffers).buffer.len, read);
            &&& record::record_fields(final(buffers).record) == record::record_fields(
                old(buffers).record,
            ) + layout_fields(old(buffers).slices@, old(buffers).buffer.b@, layout.spec_lines(), read)
            &&& final(buffers).buffer.len == 0
            &&& final(buffers).buffer.b@ == buffer::zeroed(old(buffers).buffer.b@, 0, len)
        }),
        final(buffers).copy_buffer == old(buffers).copy_buffer,
        forall|i: int|
            0 <= i < 16 ==> #[trigger] final(buffers).slices@[i].start == 0 && final(buffers).slices@[i].length == 0,
{
    let ghost b = buffers.buffer.b@;
    let ghost len = len_after_read(buffers.buffer.len, read);
    let ghost start_fields = record::record_fields(buffers.record);
    let ghost slices0 = buffers.slices@;
    let ghost spec_lines = layout.spec_lines();
    let successful = read_to_buffer(read, buffers).is_some();
    if successful {
        let ghost all = byte::lines_of(b);
        proof {
            byte::lemma_lines_in_range(b, 0);
        }
        let n_lines = layout.lines.len();
        let mut lines = byte::ByteLines::new(buffers.buffer.b.as_slice());
        let ghost mut k: int = 0;
        let ghost rem0 = lines.remaining();
        let mut i: usize = 0;
        let mut current = lines.next_line();
        proof {
            if all.len() > 0 {
                assert(rem0[0] == all[0]);
                assert(lines.remaining() =~= all.subrange(1, all.len() as int));
            }
        }
        while current.is_some()
            invariant
                lines.wf(),
                lines.source() == b,
                b == buffers.buffer.b@,
                b.len() == 16384,
                n_lines == layout.lines@.len(),
                all == byte::lines_of(b),
                spec_lines == layout.spec_lines(),
                spec_lines.len() == layout.lines@.len(),
                layout_fits_content(b, spec_lines),
                0 <= k <= all.len(),
                i == k,
                current is None ==> k == all.len(),
                current matches Some((l, st)) ==> k < all.len() && l@ == line_at(b, all[k]) && st
                    == all[k].0,
                current is Some ==> lines.remaining() == all.subrange(k + 1, all.len() as int),
                forall|j: int| 0 <= j < all.len() ==> 0 <= #[trigger] all[j].0 && 0 <= all[j].1
                    && all[j].0 + all[j].1 <= b.len(),
                apply_layout(buffers.slices@, b, spec_lines, k) == apply_layout(slices0, b, spec_lines, 0),
                record::record_fields(buffers.record) == start_fields,
                buffers.buffer.len == len,
                buffers.copy_buffer == old(buffers).copy_buffer,
            decreases all.len() - k,
        {
            let (line, start) = current.unwrap();
            assert(i < layout.lines@.len());
            assert(line@.len() == all[k].1);
            match layout.lines[i] {
                None => {},
                Some(line_metadata) => {
                    assert(spec_lines[i as int] == Some(line_metadata.spec_view()));
                    let value_start = start + line_metadata.offset + 1;
                    let value_end = start + line.len();
                    buffers.slices[line_metadata.entry] = AnonymousSlice {
                        start: value_start,
                        length: value_end - value_start,
                    };
                },
            }
            let ghost rem = lines.remaining();
            current = lines.next_line();
            i += 1;
            proof {
                k = k + 1;
                if k < all.len() {
                    assert(rem[0] == all[k]);
                    assert(lines.remaining() =~= all.subrange(k + 1, all.len() as int));
                }
            }
        }
        assert(buffers.slices@ == apply_layout(slices0, b, spec_lines, 0));
    }
    let ghost fin = buffers.slices@;
    proof {
        if successful {
            lemma_apply_layout_fits(slices0, b, spec_lines, 0);
        }
    }
    let mut idx: usize = 0;
    while idx < 16
        invariant
            idx <= 16,
            fin == buffers.slices@,
            fin.len() == 16,
            slices_fit(fin),
            b == buffers.buffer.b@,
            b.len() == 16384,
            buffers.buffer.len == len,
            buffers.copy_buffer == old(buffers).copy_buffer,
            record::record_fields(buffers.record) == start_fields + Seq::new(
                idx as nat,
                |j: int| slice_field(fin[j], b),
            ),
        decreases 16 - idx,
    {
        let ghost before = record::record_fields(buffers.record);
        let consumed = buffers.slices[idx].consume(buffers.buffer.b.as_slice());
        match consumed {
            Some(sl) => push_field(&mut buffers.record, sl),
            None => {
                let empty: [u8; 0] = [];
                assert(empty@ =~= Seq::<u8>::empty());
                push_field(&mut buffers.record, empty.as_slice());
            },
        }
        assert(record::record_fields(buffers.record) =~= start_fields + Seq::new(
            (idx + 1) as nat,
            |j: int| slice_field(fin[j], b),
        ));
        idx += 1;
    }
    assert(record::record_fields(buffers.record) =~= start_fields + layout_fields(
        slices0,
        b,
        spec_lines,
        read,
    ));
    clear_slice_buffer(buffers);
    buffers.buffer.clear();
}

/// Clears the slice buffer, resetting all values to their default
fn clear_slice_buffer(buffers: &mut WorkingBuffers)
    ensures
        final(buffers).record == old(buffers).record,
        final(buffers).buffer == old(buffers).buffer,
        final(buffers).copy_buffer == old(buffers).copy_buffer,
        forall|i: int|
            0 <= i < 16 ==> #[trigger] final(buffers).slices@[i].start == 0 && final(buffers).slices@[i].length == 0,
{
    let mut i: usize = 0;
    while i < 16
        invariant
            i <= 16,
            buffers.record == old(buffers).record,
            buffers.buffer == old(buffers).buffer,
            buffers.copy_buffer == old(buffers).copy_buffer,
            forall|j: int| 0 <= j < i ==> #[trigger] buffers.slices@[j].start == 0 && buffers.slices@[j].length == 0,
        decreases 16 - i,
    {
        buffers.slices[i] = AnonymousSlice::empty();
        i += 1;
    }
}


/// `t` with `data` copied in from index `start`
pub open spec fn splice(t: Seq<u8>, start: int, data: Seq<u8>) -> Seq<u8> {
    t.subrange(0, start) + data + t.subrange(start + data.len(), t.len() as int)
}

/// The target bytes and managed length after copying the lines of `s` from
/// line `k` into `t` at `start`, each followed by a comma: the copy stops
/// (leaving everything as it is) at the first line that does not fit with its
/// comma; when all lines fit, the last comma becomes a NUL. The managed length
/// is set to one less than the end of each copied line.
pub open spec fn commas_from(s: Seq<u8>, t: Seq<u8>, tlen: int, k: int, start: int, comma: bool) -> (
    Seq<u8>,
    int,
)
    decreases byte::lines_of(s).len() - k,
{
    let lines = byte::lines_of(s);
    if k < 0 || k >= lines.len() {
        if comma {
            (t.update(start - 1, 0u8), tlen)
        } else {
            (t, tlen)
        }
    } else {
        let end = start + lines[k].1;
        if end >= t.len() {
            (t, tlen)
        } else {
            let copied = splice(t, start, line_at(s, lines[k])).update(end, 44u8);
            commas_from(s, copied, end - 1, k + 1, end + 1, true)
        }
    }
}

/// The first line of `s`, when it fits a target of `cap` bytes, is not empty
/// (the managed length of the copy would fall below zero)
pub open spec fn first_line_fits(s: Seq<u8>, cap: int) -> bool {
    byte::lines_of(s).len() > 0 && byte::lines_of(s)[0].1 < cap ==> byte::lines_of(s)[0].1 > 0
}

/// Copying keeps the length of the target and a length within it
pub proof fn lemma_commas_bounds(s: Seq<u8>, t: Seq<u8>, tlen: int, k: int, start: int, comma: bool)
    requires
        0 <= k,
        0 <= tlen <= t.len(),
        0 <= start <= t.len(),
        comma ==> start >= 1,
        k > 0 ==> start >= 1,
        k == 0 ==> first_line_fits(s, t.len() as int),
        forall|j: int|
            0 <= j < byte::lines_of(s).len() ==> 0 <= #[trigger] byte::lines_of(s)[j].0 && 0
                <= byte::lines_of(s)[j].1 && byte::lines_of(s)[j].0 + byte::lines_of(s)[j].1 <= s.len(),
    ensures
        commas_from(s, t, tlen, k, start, comma).0.len() == t.len(),
        0 <= commas_from(s, t, tlen, k, start, comma).1 <= t.len(),
    decreases byte::lines_of(s).len() - k,
{
    let lines = byte::lines_of(s);
    if k < lines.len() {
        let end = start + lines[k].1;
        if end < t.len() {
            let copied = splice(t, start, line_at(s, lines[k])).update(end, 44u8);
            lemma_commas_bounds(s, copied, end - 1, k + 1, end + 1, true);
        }
    }
}

/// Copies lines from the incoming buffer to the target buffer, separated by
/// commas
fn copy_lines_to_commas<const S: usize, const T: usize>(source: &Buffer<S>, target: &mut Buffer<T>)
    requires
        S + T <= usize::MAX,
        first_line_fits(source.b@, T as int),
    ensures
        (final(target).b@, final(target).len as int) == commas_from(
            source.b@,
            old(target).b@,
            old(target).len as int,
            0,
            0,
            false,
        ),
{
    let ghost s = source.b@;
    let ghost all = byte::lines_of(s);
    let ghost goal = commas_from(s, target.b@, target.len as int, 0, 0, false);
    proof {
        byte::lemma_lines_in_range(s, 0);
    }
    let mut start: usize = 0;
    let mut comma_at_end = false;
    let mut lines = byte::ByteLines::new(source.b.as_slice());
    let ghost mut k: int = 0;
    let ghost rem0 = lines.remaining();
    let mut current = lines.next_line();
    proof {
        if all.len() > 0 {
            assert(rem0[0] == all[0]);
            assert(lines.remaining() =~= all.subrange(1, all.len() as int));
        }
    }
    while current.is_some()
        invariant
            lines.wf(),
            lines.source() == s,
            s == source.b@,
            s.len() == S,
            S + T <= usize::MAX,
            all == byte::lines_of(s),
            forall|j: int| 0 <= j < all.len() ==> 0 <= #[trigger] all[j].0 && 0 <= all[j].1
                && all[j].0 + all[j].1 <= s.len(),
            0 <= k <= all.len(),
            current is None ==> k == all.len(),
            current matches Some((l, st)) ==> k < all.len() && l@ == line_at(s, all[k]),
            current is Some ==> lines.remaining() == all.subrange(k + 1, all.len() as int),
            target.b@.len() == T,
            start <= T,
            k == 0 ==> start == 0 && !comma_at_end,
            k > 0 ==> comma_at_end && start >= 1,
            first_line_fits(s, T as int),
            commas_from(s, target.b@, target.len as int, k, start as int, comma_at_end) == goal,
            goal == commas_from(s, old(target).b@, old(target).len as int, 0, 0, false),
        decreases all.len() - k,
    {
        let (line, _) = current.unwrap();
        assert(line@.len() == all[k].1);
        let end = start + line.len();
        if end >= T {
            assert(target.b@.len() == T);
            assert(commas_from(s, target.b@, target.len as int, k, start as int, comma_at_end) == (
                target.b@,
                target.len as int,
            ));
            return;
        }
        let ghost before = target.b@;
        let mut i: usize = 0;
        while i < line.len()
            invariant
                i <= line@.len(),
                end == start + line@.len(),
                end < T,
                target.b@.len() == T,
                forall|j: int| 0 <= j < start ==> target.b@[j] == before[j],
                forall|j: int| 0 <= j < i ==> target.b@[start + j] == line@[j],
                forall|j: int| start + i <= j < T ==> target.b@[j] == before[j],
            decreases line@.len() - i,
        {
            target.b[start + i] = line[i];
            i += 1;
        }
        assert(target.b@ =~= splice(before, start as int, line@));
        target.b[end] = 44u8;
        start = end + 1;
        comma_at_end = true;
        target.len = end - 1;
        let ghost rem = lines.remaining();
        current = lines.next_line();
        proof {
            k = k + 1;
            if k < all.len() {
                assert(rem[0] == all[k]);
                assert(lines.remaining() =~= all.subrange(k + 1, all.len() as int));
            }
        }
    }
    if comma_at_end {
        target.b[start - 1] = 0u8;
    }
}

/// Whether copying the lines of the read content to commas can go ahead: the
/// first line is not empty
pub fn lines_copyable(b: &[u8]) -> (r: bool)
    ensures
        r == first_line_fits(b@, 16384),
{
    proof {
        byte::lemma_byte_callbacks();
        byte::lemma_find_spec_facts(b@, 0, byte::newline_pred());
        byte::lemma_first_nul_facts(b@, 0);
    }
    let found = find_char(b, 0, is_newline);
    assert(byte::same_index(found, byte::find_spec(b@, 0, byte::newline_pred())));
    match found {
        Some(p) => p > 0,
        None => true,
    }
}


/// Whether the trimmed content of the first `len` bytes of `b` is empty
pub open spec fn trimmed_empty(b: Seq<u8>, len: int) -> bool {
    byte::content_len(buffer::trim_spec(b.subrange(0, len))) == 0
}

/// The copy buffer (bytes and managed length) after `all` copied the lines of
/// `b`: unchanged when the trimmed content is empty
pub open spec fn all_copy(b: Seq<u8>, len: int, t: Seq<u8>, tlen: int) -> (Seq<u8>, int) {
    if trimmed_empty(b, len) {
        (t, tlen)
    } else {
        commas_from(b, t, tlen, 0, 0, false)
    }
}

/// The field `all` writes: the lines joined by commas, up to the first NUL of
/// the copy, or an empty field when the trimmed content is empty
pub open spec fn all_field(b: Seq<u8>, len: int, t: Seq<u8>, tlen: int) -> Seq<u8> {
    if trimmed_empty(b, len) {
        Seq::empty()
    } else {
        let c = commas_from(b, t, tlen, 0, 0, false).0;
        c.subrange(0, byte::content_len(c))
    }
}

/// Tries to read the entire file, moving each line to a comma-separated field
pub fn all(read: Option<usize>, buffers: &mut WorkingBuffers)
    requires
        read_fits(old(buffers), read),
        old(buffers).copy_buffer.len <= 16384,
        !trimmed_empty(old(buffers).buffer.b@, len_after_read(old(buffers).buffer.len, read))
            ==> first_line_fits(old(buffers).buffer.b@, 16384),
    ensures
        ({
            let len = len_after_read(old(buffers).buffer.len, read);
            let b = old(buffers).buffer.b@;
            let t = old(buffers).copy_buffer.b@;
            let tlen = old(buffers).copy_buffer.len as int;
            &&& record::record_fields(final(buffers).record) == record::record_fields(
                old(buffers).record,
            ).push(all_field(b, len, t, tlen))
            &&& final(buffers).buffer.len == 0
            &&& final(buffers).buffer.b@ == buffer::zeroed(b, 0, len)
            &&& final(buffers).copy_buffer.len == 0
            &&& final(buffers).copy_buffer.b@ == buffer::zeroed(
                all_copy(b, len, t, tlen).0,
                0,
                all_copy(b, len, t, tlen).1,
            )
        }),
        final(buffers).slices == old(buffers).slices,
{
    let ghost b = buffers.buffer.b@;
    let ghost len = len_after_read(buffers.buffer.len, read);
    let ghost t = buffers.copy_buffer.b@;
    let ghost tlen = buffers.copy_buffer.len as int;
    read_to_buffer(read, buffers);
    let trimmed = buffers.buffer.trim();
    if content_len_raw(trimmed) == 0 {
        let empty: [u8; 0] = [];
        assert(empty@ =~= Seq::<u8>::empty());
        push_field(&mut buffers.record, empty.as_slice());
    } else {
        proof {
            byte::lemma_lines_in_range(b, 0);
            lemma_commas_bounds(b, t, tlen, 0, 0, false);
        }
        copy_lines_to_commas(&buffers.buffer, &mut buffers.copy_buffer);
        push_field(&mut buffers.record, buffers.copy_buffer.content_unmanaged());
    }
    buffers.buffer.clear();
    buffers.copy_buffer.clear();
}


/// A quantity aggregated lazily: kept as text until a second value is added,
/// parsing values that may carry a sign
#[derive(Copy, Clone)]
enum LazyQuantity<'a> {
    /// Contains a zero quantity (result of no aggregation)
    Zero,
    /// Contains a single quantity in its textual form
    Single(&'a [u8]),
    /// Contains an aggregated quantity in its numeric form
    Aggregate(u64),
}

impl<'a> View for LazyQuantity<'a> {
    type V = QuantityView;

    closed spec fn view(&self) -> QuantityView {
        match self {
            LazyQuantity::Zero => QuantityView::Zero,
            LazyQuantity::Single(s) => QuantityView::Single(s@),
            LazyQuantity::Aggregate(n) => QuantityView::Aggregate(*n),
        }
    }
}

/// Adding `quantity` to `q`, parsing with an optional sign: a zero quantity
/// becomes the text; a single text is parsed and, when that succeeds, added
/// as a number (else the new text replaces it); a number adds the parsed text,
/// saturating (or stays unchanged when the text does not parse)
pub open spec fn signed_plus(q: QuantityView, quantity: Seq<u8>) -> QuantityView {
    match q {
        QuantityView::Zero => QuantityView::Single(quantity),
        QuantityView::Single(current) => match number::parse_signed_u64(current) {
            None => QuantityView::Single(quantity),
            Some(v) => match number::parse_signed_u64(quantity) {
                None => QuantityView::Aggregate(v),
                Some(w) => QuantityView::Aggregate(number::sat_add(v, w)),
            },
        },
        QuantityView::Aggregate(c) => match number::parse_signed_u64(quantity) {
            None => QuantityView::Aggregate(c),
            Some(w) => QuantityView::Aggregate(number::sat_add(c, w)),
        },
    }
}

impl<'a> LazyQuantity<'a> {
    /// Adds the given quantity to this one
    fn add(self, quantity: &'a [u8]) -> (r: Self)
        ensures
            r@ == signed_plus(self@, quantity@),
        decreases
            if self@ is Single {
                1int
            } else {
                0int
            },
    {
        match self {
            LazyQuantity::Zero => LazyQuantity::Single(quantity),
            LazyQuantity::Single(current) => {
                match parse_signed_decimal(current) {
                    None => LazyQuantity::Single(quantity),
                    Some(as_int) => LazyQuantity::Aggregate(as_int).add(quantity),
                }
            },
            LazyQuantity::Aggregate(current_int) => match parse_signed_decimal(quantity) {
                None => self,
                Some(as_int) => LazyQuantity::Aggregate(saturating_add(current_int, as_int)),
            },
        }
    }

    /// The same quantity, as the quantity type that knows how to write itself
    fn settled(self) -> (r: lazy_quantity::LazyQuantity<'a>)
        ensures
            r@ == self@,
    {
        match self {
            LazyQuantity::Zero => lazy_quantity::LazyQuantity::Zero,
            LazyQuantity::Single(current) => lazy_quantity::LazyQuantity::Single(current),
            LazyQuantity::Aggregate(n) => lazy_quantity::LazyQuantity::Aggregate(n),
        }
    }

    /// Writes the quantity to a record, using the working buffer as an
    /// intermediate
    fn write_to_record(self, working: &mut Buffer<16384>, record: &mut ByteRecord)
        ensures
            record::record_fields(*final(record)) == record::record_fields(*old(record)) + lazy_quantity::quantity_fields(
                old(working).b@,
                seq![self@],
            ).0,
            final(working).b@ == lazy_quantity::quantity_fields(old(working).b@, seq![self@]).1,
            final(working).len == 0,
    {
        self.settled().write_to_record(working, record);
        proof {
            reveal_with_fuel(lazy_quantity::quantity_fields, 2);
            let w = buffer::written(old(working).b@, lazy_quantity::text_of(self@));
            assert(lazy_quantity::quantity_fields(old(working).b@, seq![self@]).0 =~= seq![w.0.subrange(0, w.1)]);
        }
    }
}

/// Determines if the slice starts with the given category prefix, and if it
/// does, the part after the next space: `None` when the prefix does not match
/// or no space follows
pub open spec fn category_value(slice: Seq<u8>, prefix: Seq<u8>) -> Option<Seq<u8>> {
    if slice.len() < prefix.len() || slice.subrange(0, prefix.len() as int) != prefix {
        None
    } else {
        match byte::find_spec(slice, 0, byte::space_pred()) {
            Some(sp) => Some(slice.subrange(sp + 1, slice.len() as int)),
            None => None,
        }
    }
}

/// Determines if the slice starts with the given category prefix, and if it
/// does, gives the number at the end of the slice (after the next space)
fn parse_category<'a>(slice: &'a [u8], prefix: &[u8]) -> (r: Option<&'a [u8]>)
    ensures
        buffers::opt_bytes(r) == category_value(slice@, prefix@),
{
    if slice.len() < prefix.len() {
        return None;
    }
    let mut i: usize = 0;
    while i < prefix.len()
        invariant
            i <= prefix@.len(),
            prefix@.len() <= slice@.len(),
            forall|j: int| 0 <= j < i ==> slice@[j] == prefix@[j],
        decreases prefix@.len() - i,
    {
        if slice[i] != prefix[i] {
            assert(slice@.subrange(0, prefix@.len() as int)[i as int] != prefix@[i as int]);
            return None;
        }
        i += 1;
    }
    assert(slice@.subrange(0, prefix@.len() as int) =~= prefix@);
    proof {
        byte::lemma_byte_callbacks();
        byte::lemma_find_spec_facts(slice@, 0, byte::space_pred());
    }
    let found = find_char(slice, 0, is_space);
    assert(byte::same_index(found, byte::find_spec(slice@, 0, byte::space_pred())));
    match found {
        Some(space) => Some(&slice[(space + 1)..slice.len()]),
        None => None,
    }
}

/// The category tag of read totals
pub open spec fn read_tag() -> Seq<u8> {
    seq![82u8, 101u8, 97u8, 100u8]
}

/// The category tag of write totals
pub open spec fn write_tag() -> Seq<u8> {
    seq![87u8, 114u8, 105u8, 116u8, 101u8]
}

/// The category tag of sync totals
pub open spec fn sync_tag() -> Seq<u8> {
    seq![83u8, 121u8, 110u8, 99u8]
}

/// The category tag of async totals
pub open spec fn async_tag() -> Seq<u8> {
    seq![65u8, 115u8, 121u8, 110u8, 99u8]
}

/// Read, write, sync and async totals
pub type IoTotals = (QuantityView, QuantityView, QuantityView, QuantityView);

/// The totals after one line of an I/O file: the category after the first
/// space picks the total that the number after it is added to
pub open spec fn io_step(line: Seq<u8>, q: IoTotals) -> IoTotals {
    match byte::find_spec(line, 0, byte::space_pred()) {
        None => q,
        Some(sp) => {
            let cat = line.subrange(sp + 1, line.len() as int);
            match category_value(cat, read_tag()) {
                Some(n) => (signed_plus(q.0, n), q.1, q.2, q.3),
                None => match category_value(cat, write_tag()) {
                    Some(n) => (q.0, signed_plus(q.1, n), q.2, q.3),
                    None => match category_value(cat, sync_tag()) {
                        Some(n) => (q.0, q.1, signed_plus(q.2, n), q.3),
                        None => match category_value(cat, async_tag()) {
                            Some(n) => (q.0, q.1, q.2, signed_plus(q.3, n)),
                            None => q,
                        },
                    },
                },
            }
        },
    }
}

/// The totals after the lines of `b` from line `k`
pub open spec fn io_totals(b: Seq<u8>, k: int, q: IoTotals) -> IoTotals
    decreases byte::lines_of(b).len() - k,
{
    let lines = byte::lines_of(b);
    if k < 0 || k >= lines.len() {
        q
    } else {
        io_totals(b, k + 1, io_step(line_at(b, lines[k]), q))
    }
}

/// The totals of an I/O file, from zero
pub open spec fn io_sums(b: Seq<u8>) -> IoTotals {
    io_totals(
        b,
        0,
        (QuantityView::Zero, QuantityView::Zero, QuantityView::Zero, QuantityView::Zero),
    )
}

/// Group of I/O quantities that are added up
struct IoQuantities<'a> {
    read_total: LazyQuantity<'a>,
    write_total: LazyQuantity<'a>,
    sync_total: LazyQuantity<'a>,
    async_total: LazyQuantity<'a>,
}

impl<'a> IoQuantities<'a> {
    /// The four totals
    spec fn totals(&self) -> IoTotals {
        (self.read_total@, self.write_total@, self.sync_total@, self.async_total@)
    }
}

/// Scans each line in the buffer and aggregates the trailing numbers to make
/// entries for read, write, sync, and async, which are written to the record
fn aggregate_lines(buffers: &mut WorkingBuffers)
    ensures
        ({
            let q = io_sums(old(buffers).buffer.b@);
            let out = lazy_quantity::quantity_fields(old(buffers).copy_buffer.b@, seq![q.0, q.1, q.2, q.3]);
            &&& record::record_fields(final(buffers).record) == record::record_fields(
                old(buffers).record,
            ) + out.0
            &&& final(buffers).copy_buffer.b@ == out.1
        }),
        final(buffers).copy_buffer.len == 0,
        final(buffers).buffer == old(buffers).buffer,
        final(buffers).slices == old(buffers).slices,
{
    let ghost b = buffers.buffer.b@;
    let ghost all = byte::lines_of(b);
    proof {
        byte::lemma_lines_in_range(b, 0);
    }
    let read_prefix: [u8; 4] = [82u8, 101u8, 97u8, 100u8];
    let write_prefix: [u8; 5] = [87u8, 114u8, 105u8, 116u8, 101u8];
    let sync_prefix: [u8; 4] = [83u8, 121u8, 110u8, 99u8];
    let async_prefix: [u8; 5] = [65u8, 115u8, 121u8, 110u8, 99u8];
    assert(read_prefix@ =~= read_tag());
    assert(write_prefix@ =~= write_tag());
    assert(sync_prefix@ =~= sync_tag());
    assert(async_prefix@ =~= async_tag());
    let mut quantities = IoQuantities {
        read_total: LazyQuantity::Zero,
        write_total: LazyQuantity::Zero,
        sync_total: LazyQuantity::Zero,
        async_total: LazyQuantity::Zero,
    };
    let mut lines = byte::ByteLines::new(buffers.buffer.b.as_slice());
    let ghost mut k: int = 0;
    let ghost rem0 = lines.remaining();
    let mut current = lines.next_line();
    proof {
        if all.len() > 0 {
            assert(rem0[0] == all[0]);
            assert(lines.remaining() =~= all.subrange(1, all.len() as int));
        }
    }
    while current.is_some()
        invariant
            lines.wf(),
            lines.source() == b,
            all == byte::lines_of(b),
            0 <= k <= all.len(),
            current is None ==> k == all.len(),
            current matches Some((l, st)) ==> k < all.len() && l@ == line_at(b, all[k]),
            current is Some ==> lines.remaining() == all.subrange(k + 1, all.len() as int),
            read_prefix@ == read_tag(),
            write_prefix@ == write_tag(),
            sync_prefix@ == sync_tag(),
            async_prefix@ == async_tag(),
            io_totals(b, k, quantities.totals()) == io_sums(b),
        decreases all.len() - k,
    {
        let (line, _) = current.unwrap();
        proof {
            byte::lemma_byte_callbacks();
            byte::lemma_find_spec_facts(line@, 0, byte::space_pred());
        }
        let found = find_char(line, 0, is_space);
        assert(byte::same_index(found, byte::find_spec(line@, 0, byte::space_pred())));
        let line_len = line.len();
        if let Some(space) = found {
            let category_to_end = &line[(space + 1)..line_len];
            if let Some(number_slice) = parse_category(category_to_end, read_prefix.as_slice()) {
                quantities.read_total = quantities.read_total.add(number_slice);
            } else if let Some(number_slice) = parse_category(
                category_to_end,
                write_prefix.as_slice(),
            ) {
                quantities.write_total = quantities.write_total.add(number_slice);
            } else if let Some(number_slice) = parse_category(
                category_to_end,
                sync_prefix.as_slice(),
            ) {
                quantities.sync_total = quantities.sync_total.add(number_slice);
            } else if let Some(number_slice) = parse_category(
                category_to_end,
                async_prefix.as_slice(),
            ) {
                quantities.async_total = quantities.async_total.add(number_slice);
            }
        }
        let ghost rem = lines.remaining();
        current = lines.next_line();
        proof {
            k = k + 1;
            if k < all.len() {
                assert(rem[0] == all[k]);
                assert(lines.remaining() =~= all.subrange(k + 1, all.len() as int));
            }
        }
    }
    let ghost q = quantities.totals();
    let ghost t = buffers.copy_buffer.b@;
    let ghost f0 = record::record_fields(buffers.record);
    quantities.read_total.write_to_record(&mut buffers.copy_buffer, &mut buffers.record);
    quantities.write_total.write_to_record(&mut buffers.copy_buffer, &mut buffers.record);
    quantities.sync_total.write_to_record(&mut buffers.copy_buffer, &mut buffers.record);
    quantities.async_total.write_to_record(&mut buffers.copy_buffer, &mut buffers.record);
    proof {
        lazy_quantity::lemma_quantity_fields_push(t, seq![q.0], q.1);
        lazy_quantity::lemma_quantity_fields_push(t, seq![q.0, q.1], q.2);
        lazy_quantity::lemma_quantity_fields_push(t, seq![q.0, q.1, q.2], q.3);
        assert(seq![q.0].push(q.1) =~= seq![q.0, q.1]);
        assert(seq![q.0, q.1].push(q.2) =~= seq![q.0, q.1, q.2]);
        assert(seq![q.0, q.1, q.2].push(q.3) =~= seq![q.0, q.1, q.2, q.3]);
        let out = lazy_quantity::quantity_fields(t, seq![q.0, q.1, q.2, q.3]);
        assert(record::record_fields(buffers.record) =~= f0 + out.0);
    }
}


/// The fields an I/O file gives and the copy buffer afterwards: four empty
/// fields (one per category) when its trimmed content is empty, else the
/// read, write, sync and async totals
pub open spec fn io_output(b: Seq<u8>, len: int, t: Seq<u8>) -> (Seq<Seq<u8>>, Seq<u8>) {
    if trimmed_empty(b, len) {
        (empties(4), t)
    } else {
        let q = io_sums(b);
        lazy_quantity::quantity_fields(t, seq![q.0, q.1, q.2, q.3])
    }
}

/// Tries to read an I/O file and creates aggregate stats for read, write,
/// sync, and async. The files hold lines such as `8:0 Read 4272128`, one per
/// device and category, and a last line with the overall total.
pub fn io(read: Option<usize>, buffers: &mut WorkingBuffers)
    requires
        read_fits(old(buffers), read),
    ensures
        ({
            let len = len_after_read(old(buffers).buffer.len, read);
            let b = old(buffers).buffer.b@;
            let out = io_output(b, len, old(buffers).copy_buffer.b@);
            &&& record::record_fields(final(buffers).record) == record::record_fields(
                old(buffers).record,
            ) + out.0
            &&& final(buffers).copy_buffer.b@ == out.1
            &&& final(buffers).copy_buffer.len == if trimmed_empty(b, len) {
                old(buffers).copy_buffer.len
            } else {
                0
            }
            &&& final(buffers).buffer.len == 0
            &&& final(buffers).buffer.b@ == buffer::zeroed(b, 0, len)
        }),
        final(buffers).slices == old(buffers).slices,
{
    let ghost f0 = record::record_fields(buffers.record);
    read_to_buffer(read, buffers);
    let trimmed = buffers.buffer.trim();
    if content_len_raw(trimmed) == 0 {
        let empty: [u8; 0] = [];
        assert(empty@ =~= Seq::<u8>::empty());
        push_field(&mut buffers.record, empty.as_slice());
        push_field(&mut buffers.record, empty.as_slice());
        push_field(&mut buffers.record, empty.as_slice());
        push_field(&mut buffers.record, empty.as_slice());
        assert(record::record_fields(buffers.record) =~= f0 + empties(4));
    } else {
        aggregate_lines(buffers);
    }
    buffers.buffer.clear();
}

/// The total after one line of a simple I/O file: the number after the first
/// space is added
pub open spec fn simple_step(line: Seq<u8>, q: QuantityView) -> QuantityView {
    match byte::find_spec(line, 0, byte::space_pred()) {
        None => q,
        Some(sp) => signed_plus(q, line.subrange(sp + 1, line.len() as int)),
    }
}

/// The total after the lines of `b` from line `k`
pub open spec fn simple_total(b: Seq<u8>, k: int, q: QuantityView) -> QuantityView
    decreases byte::lines_of(b).len() - k,
{
    let lines = byte::lines_of(b);
    if k < 0 || k >= lines.len() {
        q
    } else {
        simple_total(b, k + 1, simple_step(line_at(b, lines[k]), q))
    }
}

/// Scans each line in the buffer and aggregates the trailing numbers to make a
/// single entry, which is written to the record
fn aggregate_lines_simple(buffers: &mut WorkingBuffers)
    ensures
        ({
            let q = simple_total(old(buffers).buffer.b@, 0, QuantityView::Zero);
            let out = lazy_quantity::quantity_fields(old(buffers).copy_buffer.b@, seq![q]);
            &&& record::record_fields(final(buffers).record) == record::record_fields(
                old(buffers).record,
            ) + out.0
            &&& final(buffers).copy_buffer.b@ == out.1
        }),
        final(buffers).copy_buffer.len == 0,
        final(buffers).buffer == old(buffers).buffer,
        final(buffers).slices == old(buffers).slices,
{
    let ghost b = buffers.buffer.b@;
    let ghost all = byte::lines_of(b);
    proof {
        byte::lemma_lines_in_range(b, 0);
    }
    let mut quantity = LazyQuantity::Zero;
    let mut lines = byte::ByteLines::new(buffers.buffer.b.as_slice());
    let ghost mut k: int = 0;
    let ghost rem0 = lines.remaining();
    let mut current = lines.next_line();
    proof {
        if all.len() > 0 {
            assert(rem0[0] == all[0]);
            assert(lines.remaining() =~= all.subrange(1, all.len() as int));
        }
    }
    while current.is_some()
        invariant
            lines.wf(),
            lines.source() == b,
            all == byte::lines_of(b),
            0 <= k <= all.len(),
            current is None ==> k == all.len(),
            current matches Some((l, st)) ==> k < all.len() && l@ == line_at(b, all[k]),
            current is Some ==> lines.remaining() == all.subrange(k + 1, all.len() as int),
            simple_total(b, k, quantity@) == simple_total(b, 0, QuantityView::Zero),
        decreases all.len() - k,
    {
        let (line, _) = current.unwrap();
        proof {
            byte::lemma_byte_callbacks();
            byte::lemma_find_spec_facts(line@, 0, byte::space_pred());
        }
        let found = find_char(line, 0, is_space);
        assert(byte::same_index(found, byte::find_spec(line@, 0, byte::space_pred())));
        let line_len = line.len();
        if let Some(space) = found {
            let number_slice = &line[(space + 1)..line_len];
            quantity = quantity.add(number_slice);
        }
        let ghost rem = lines.remaining();
        current = lines.next_line();
        proof {
            k = k + 1;
            if k < all.len() {
                assert(rem[0] == all[k]);
                assert(lines.remaining() =~= all.subrange(k + 1, all.len() as int));
            }
        }
    }
    quantity.write_to_record(&mut buffers.copy_buffer, &mut buffers.record);
}

/// The fields a simple I/O file gives and the copy buffer afterwards: one
/// empty field when its trimmed content is empty, else the total
pub open spec fn simple_io_output(b: Seq<u8>, len: int, t: Seq<u8>) -> (Seq<Seq<u8>>, Seq<u8>) {
    if trimmed_empty(b, len) {
        (seq![Seq::<u8>::empty()], t)
    } else {
        lazy_quantity::quantity_fields(t, seq![simple_total(b, 0, QuantityView::Zero)])
    }
}

/// Tries to read a simple I/O file, with lines such as `8:0 213264`, and
/// aggregates them to make a total
pub fn simple_io(read: Option<usize>, buffers: &mut WorkingBuffers)
    requires
        read_fits(old(buffers), read),
    ensures
        ({
            let len = len_after_read(old(buffers).buffer.len, read);
            let b = old(buffers).buffer.b@;
            let out = simple_io_output(b, len, old(buffers).copy_buffer.b@);
            &&& record::record_fields(final(buffers).record) == record::record_fields(
                old(buffers).record,
            ) + out.0
            &&& final(buffers).copy_buffer.b@ == out.1
            &&& final(buffers).copy_buffer.len == if trimmed_empty(b, len) {
                old(buffers).copy_buffer.len
            } else {
                0
            }
            &&& final(buffers).buffer.len == 0
            &&& final(buffers).buffer.b@ == buffer::zeroed(b, 0, len)
        }),
        final(buffers).slices == old(buffers).slices,
{
    let ghost f0 = record::record_fields(buffers.record);
    read_to_buffer(read, buffers);
    let trimmed = buffers.buffer.trim();
    if content_len_raw(trimmed) == 0 {
        let empty: [u8; 0] = [];
        assert(empty@ =~= Seq::<u8>::empty());
        push_field(&mut buffers.record, empty.as_slice());
        assert(record::record_fields(buffers.record) =~= f0 + seq![Seq::<u8>::empty()]);
    } else {
        aggregate_lines_simple(buffers);
    }
    buffers.buffer.clear();
}

/// The first of `source` equal to `target` from index `s` is found there
pub proof fn lemma_find_index_first(source: Seq<Seq<u8>>, target: Seq<u8>, s: int, i: int)
    requires
        0 <= s <= i < source.len(),
        source[i] == target,
        forall|j: int| s <= j < i ==> source[j] != target,
    ensures
        find_index_from(source, target, s) == Some(i),
    decreases i - s,
{
    if s < i {
        lemma_find_index_first(source, target, s + 1, i);
    }
}

/// A target that `source` does not hold from index `s` on is not found
pub proof fn lemma_find_index_absent(source: Seq<Seq<u8>>, target: Seq<u8>, s: int)
    requires
        0 <= s,
        forall|j: int| s <= j < source.len() ==> source[j] != target,
    ensures
        find_index_from(source, target, s) is None,
    decreases source.len() - s,
{
    if s < source.len() {
        lemma_find_index_absent(source, target, s + 1);
    }
}

/// The trimmed key of line `k` of `content`: what comes before its first
/// separator, trimmed; `None` when the line has no separator
pub open spec fn line_key(content: Seq<u8>, k: int) -> Option<Seq<u8>> {
    let line = line_at(content, byte::lines_of(content)[k]);
    match byte::find_spec(line, 0, byte::space_pred()) {
        Some(sp) => Some(buffer::trim_raw_spec(line.subrange(0, sp))),
        None => None,
    }
}

/// Entry `i` is the first of `entries` with its text
pub open spec fn first_of(entries: Seq<Seq<u8>>, i: int) -> bool {
    &&& 0 <= i < entries.len()
    &&& forall|j: int| 0 <= j < i ==> entries[j] != entries[i]
}

/// The layout from line `k0` on maps each line to the entry its key names
proof fn lemma_layout_lines(content: Seq<u8>, entries: Seq<Seq<u8>>, k0: int)
    requires
        0 <= k0 <= byte::lines_of(content).len(),
    ensures
        layout_from(content, entries, k0).len() == byte::lines_of(content).len() - k0,
        forall|k: int|
            #![trigger line_key(content, k)]
            k0 <= k < byte::lines_of(content).len() ==> {
                let e = layout_from(content, entries, k0)[k - k0];
                &&& line_key(content, k) is None ==> e is None
                &&& forall|i: int|
                    first_of(entries, i) && line_key(content, k) == Some(entries[i]) ==> e == Some(
                        (i, entries[i].len() as int),
                    )
                &&& (forall|j: int| 0 <= j < entries.len() ==> Some(entries[j]) != line_key(content, k))
                    ==> e is None
            },
    decreases byte::lines_of(content).len() - k0,
{
    let lines = byte::lines_of(content);
    if k0 < lines.len() {
        lemma_layout_lines(content, entries, k0 + 1);
        let rest = layout_from(content, entries, k0 + 1);
        let here = layout_from(content, entries, k0);
        let line = line_at(content, lines[k0]);
        assert forall|k: int| #![trigger line_key(content, k)] k0 <= k < lines.len() implies {
            let e = here[k - k0];
            &&& line_key(content, k) is None ==> e is None
            &&& forall|i: int|
                first_of(entries, i) && line_key(content, k) == Some(entries[i]) ==> e == Some(
                    (i, entries[i].len() as int),
                )
            &&& (forall|j: int| 0 <= j < entries.len() ==> Some(entries[j]) != line_key(content, k))
                ==> e is None
        } by {
            if k > k0 {
                assert(here[k - k0] == rest[k - (k0 + 1)]);
            } else {
                match byte::find_spec(line, 0, byte::space_pred()) {
                    None => {},
                    Some(sp) => {
                        let key = buffer::trim_raw_spec(line.subrange(0, sp));
                        assert forall|i: int|
                            first_of(entries, i) && line_key(content, k) == Some(
                                entries[i],
                            ) implies here[0] == Some((i, entries[i].len() as int)) by {
                            lemma_find_index_first(entries, key, 0, i);
                        }
                        if forall|j: int| 0 <= j < entries.len() ==> Some(entries[j]) != line_key(
                            content,
                            k,
                        ) {
                            assert forall|j: int| 0 <= j < entries.len() implies entries[j]
                                != key by {
                                assert(Some(entries[j]) != line_key(content, k));
                            }
                            lemma_find_index_absent(entries, key, 0);
                        }
                    },
                }
            }
        }
    }
}

/// The layout of a stat file has one element per line: a line whose trimmed
/// key names an entry is mapped to that entry (the first with that name) and
/// its length; a line without a separator, or whose key names no entry, is
/// mapped to nothing
pub proof fn law_layout_maps_each_line(content: Seq<u8>, entries: Seq<Seq<u8>>)
    ensures
        layout_from(content, entries, 0).len() == byte::lines_of(content).len(),
        forall|k: int|
            0 <= k < byte::lines_of(content).len() ==> {
                let e = #[trigger] layout_from(content, entries, 0)[k];
                &&& line_key(content, k) is None ==> e is None
                &&& forall|i: int|
                    first_of(entries, i) && line_key(content, k) == Some(entries[i]) ==> e == Some(
                        (i, entries[i].len() as int),
                    )
                &&& (forall|j: int| 0 <= j < entries.len() ==> Some(entries[j]) != line_key(content, k))
                    ==> e is None
            },
{
    lemma_layout_lines(content, entries, 0);
    assert forall|k: int| 0 <= k < byte::lines_of(content).len() implies {
        let e = #[trigger] layout_from(content, entries, 0)[k];
        &&& line_key(content, k) is None ==> e is None
        &&& forall|i: int|
            first_of(entries, i) && line_key(content, k) == Some(entries[i]) ==> e == Some(
                (i, entries[i].len() as int),
            )
        &&& (forall|j: int| 0 <= j < entries.len() ==> Some(entries[j]) != line_key(content, k))
            ==> e is None
    } by {
        assert(k - 0 == k);
    }
}

/// A quantity after adding each of the texts in turn, as the I/O readers add
/// the values of their lines
pub open spec fn signed_plus_all(q: QuantityView, texts: Seq<Seq<u8>>) -> QuantityView
    decreases texts.len(),
{
    if texts.len() == 0 {
        q
    } else {
        signed_plus_all(signed_plus(q, texts[0]), texts.drop_first())
    }
}

/// Adding texts that all parse to a total adds their values to it
proof fn lemma_signed_plus_all_aggregate(acc: u64, texts: Seq<Seq<u8>>, vals: Seq<u64>)
    requires
        texts.len() == vals.len(),
        forall|i: int| 0 <= i < texts.len() ==> number::parse_signed_u64(#[trigger] texts[i]) == Some(
            vals[i],
        ),
    ensures
        signed_plus_all(QuantityView::Aggregate(acc), texts) == QuantityView::Aggregate(
            lazy_quantity::sat_sum_from(acc, vals),
        ),
    decreases texts.len(),
{
    if texts.len() > 0 {
        assert(number::parse_signed_u64(texts[0]) == Some(vals[0]));
        let rest = texts.drop_first();
        assert forall|i: int| 0 <= i < rest.len() implies number::parse_signed_u64(
            #[trigger] rest[i],
        ) == Some(vals.drop_first()[i]) by {
            assert(rest[i] == texts[i + 1]);
        }
        lemma_signed_plus_all_aggregate(number::sat_add(acc, vals[0]), rest, vals.drop_first());
    }
}

/// Adding a value that parses to a total adds it (saturating at the largest
/// `u64`), whatever the total already holds
pub proof fn law_signed_plus_adds_to_total(c: u64, text: Seq<u8>, w: u64)
    requires
        number::parse_signed_u64(text) == Some(w),
    ensures
        signed_plus(QuantityView::Aggregate(c), text) == QuantityView::Aggregate(
            number::sat_add(c, w),
        ),
{
}

/// Two or more values that all parse are added up by the I/O readers
/// (saturating at the largest `u64`): every value counts, not only the first
/// two
pub proof fn law_signed_values_add_up(texts: Seq<Seq<u8>>, vals: Seq<u64>)
    requires
        texts.len() == vals.len(),
        texts.len() >= 2,
        forall|i: int| 0 <= i < texts.len() ==> number::parse_signed_u64(#[trigger] texts[i]) == Some(
            vals[i],
        ),
    ensures
        signed_plus_all(QuantityView::Zero, texts) == QuantityView::Aggregate(
            lazy_quantity::sat_sum_from(0, vals),
        ),
{
    assert(number::parse_signed_u64(texts[0]) == Some(vals[0]));
    assert(number::parse_signed_u64(texts[1]) == Some(vals[1]));
    let rest = texts.drop_first().drop_first();
    let rest_vals = vals.drop_first().drop_first();
    assert forall|i: int| 0 <= i < rest.len() implies number::parse_signed_u64(#[trigger] rest[i])
        == Some(rest_vals[i]) by {
        assert(rest[i] == texts[i + 2]);
    }
    lemma_signed_plus_all_aggregate(number::sat_add(vals[0], vals[1]), rest, rest_vals);
    assert(texts.drop_first()[0] == texts[1]);
    assert(signed_plus_all(QuantityView::Zero, texts) == signed_plus_all(
        QuantityView::Single(texts[0]),
        texts.drop_first(),
    ));
    assert(signed_plus_all(QuantityView::Single(texts[0]), texts.drop_first()) == signed_plus_all(
        QuantityView::Aggregate(number::sat_add(vals[0], vals[1])),
        rest,
    ));
    assert(number::sat_add(0, vals[0]) == vals[0]);
    assert(vals.drop_first()[0] == vals[1]);
    assert(lazy_quantity::sat_sum_from(0, vals) == lazy_quantity::sat_sum_from(
        number::sat_add(0, vals[0]),
        vals.drop_first(),
    ));
    assert(lazy_quantity::sat_sum_from(vals[0], vals.drop_first()) == lazy_quantity::sat_sum_from(
        number::sat_add(vals[0], vals[1]),
        rest_vals,
    ));
}

/// What follows the first separator of line `k` of `b` (nothing when it has
/// none)
pub open spec fn line_value(b: Seq<u8>, k: int) -> Seq<u8> {
    let line = line_at(b, byte::lines_of(b)[k]);
    match byte::find_spec(line, 0, byte::space_pred()) {
        Some(sp) => line.subrange(sp + 1, line.len() as int),
        None => Seq::empty(),
    }
}

/// The total of a simple I/O file from line `k0` on adds the values of those
/// lines in turn
proof fn lemma_simple_total_adds(b: Seq<u8>, k0: int, q: QuantityView)
    requires
        0 <= k0 <= byte::lines_of(b).len(),
        forall|k: int|
            0 <= k < byte::lines_of(b).len() ==> byte::find_spec(
                #[trigger] line_at(b, byte::lines_of(b)[k]),
                0,
                byte::space_pred(),
            ) is Some,
    ensures
        simple_total(b, k0, q) == signed_plus_all(
            q,
            Seq::new(byte::lines_of(b).len(), |k: int| line_value(b, k)).subrange(
                k0,
                byte::lines_of(b).len() as int,
            ),
        ),
    decreases byte::lines_of(b).len() - k0,
{
    let n = byte::lines_of(b).len() as int;
    let texts = Seq::new(n as nat, |k: int| line_value(b, k));
    if k0 < n {
        let line = line_at(b, byte::lines_of(b)[k0]);
        assert(byte::find_spec(line, 0, byte::space_pred()) is Some);
        let q2 = simple_step(line, q);
        assert(q2 == signed_plus(q, texts[k0]));
        lemma_simple_total_adds(b, k0 + 1, q2);
        let sub = texts.subrange(k0, n);
        assert(sub[0] == texts[k0]);
        assert(sub.drop_first() =~= texts.subrange(k0 + 1, n));
    } else {
        assert(texts.subrange(k0, n) =~= Seq::<Seq<u8>>::empty());
    }
}

/// A simple I/O file (one `device value` line per device) gives the sum of
/// the values of all its lines (saturating at the largest `u64`), when there
/// are two or more and all of them parse
pub proof fn law_simple_io_adds_every_device(b: Seq<u8>, vals: Seq<u64>)
    requires
        byte::lines_of(b).len() == vals.len(),
        vals.len() >= 2,
        forall|k: int|
            0 <= k < byte::lines_of(b).len() ==> byte::find_spec(
                #[trigger] line_at(b, byte::lines_of(b)[k]),
                0,
                byte::space_pred(),
            ) is Some,
        forall|k: int|
            0 <= k < vals.len() ==> number::parse_signed_u64(#[trigger] line_value(b, k)) == Some(
                vals[k],
            ),
    ensures
        simple_total(b, 0, QuantityView::Zero) == QuantityView::Aggregate(
            lazy_quantity::sat_sum_from(0, vals),
        ),
{
    let n = byte::lines_of(b).len() as int;
    let texts = Seq::new(n as nat, |k: int| line_value(b, k));
    lemma_simple_total_adds(b, 0, QuantityView::Zero);
    assert(texts.subrange(0, n) =~= texts);
    assert forall|i: int| 0 <= i < texts.len() implies number::parse_signed_u64(
        #[trigger] texts[i],
    ) == Some(vals[i]) by {
        assert(texts[i] == line_value(b, i));
    }
    law_signed_values_add_up(texts, vals);
}

} // verus!
