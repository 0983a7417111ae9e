//! Reading of cgroup v2 interface files into record fields. The caller reads
//! a file into the working buffer and hands over the outcome of that read:
//! `None` when there was no file handle or the read failed, `Some(n)` when
//! `n` bytes were read into `buffers.buffer.b`.

use vstd::prelude::*;
use crate::collection::buffers::WorkingBuffers;
use crate::collection::collect::read::{self as v1_read, find_index};
use crate::util::buffer::{self, BufferLike};
use crate::util::byte::{self, content_len_raw, find_char, is_space};
use crate::util::record::{self, push_field};
use crate::util::lazy_quantity::{self, LazyQuantity, QuantityView};

verus! {

/// Marks a read whose written fields were all empty
#[derive(Copy, Clone, PartialEq, Eq, Structural, Debug)]
pub struct Empty;

/// The managed length of the working buffer after a read: a successful read
/// sets it to the number of bytes read
pub open spec fn loaded_len(old_len: usize, read: Option<usize>) -> int {
    match read {
        Some(n) => n as int,
        None => old_len as int,
    }
}

/// The read fits in the working buffer
pub open spec fn read_fits(buffers: &WorkingBuffers, read: Option<usize>) -> bool {
    loaded_len(buffers.buffer.len, read) <= 16384
}

/// Sets the buffer length to the read length, giving that length when
/// something was read
fn read_to_buffer(read: Option<usize>, buffers: &mut WorkingBuffers) -> (r: Option<usize>)
    requires
        read_fits(old(buffers), read),
    ensures
        final(buffers).buffer.len == loaded_len(old(buffers).buffer.len, read),
        final(buffers).buffer.b == old(buffers).buffer.b,
        final(buffers).copy_buffer == old(buffers).copy_buffer,
        final(buffers).slices == old(buffers).slices,
        final(buffers).record == old(buffers).record,
        r is Some <==> v1_read::read_some(read),
        r matches Some(n) ==> read == Some(n),
{
    match read {
        None => None,
        Some(len) => {
            buffers.buffer.len = len;
            if len == 0 {
                None
            } else {
                Some(len)
            }
        },
    }
}

/// The content of a single-value file: its trimmed bytes when something was
/// read, else nothing
pub open spec fn single_content(b: Seq<u8>, read: Option<usize>) -> Seq<u8> {
    match read {
        Some(n) => if n > 0 {
            buffer::trim_spec(b.subrange(0, n as int))
        } else {
            Seq::empty()
        },
        None => Seq::empty(),
    }
}

/// The field written for a single-value file: its content, or the default
/// when the content is empty
pub open spec fn single_field(b: Seq<u8>, read: Option<usize>, default: Seq<u8>) -> Seq<u8> {
    if byte::content_len(single_content(b, read)) == 0 {
        default
    } else {
        single_content(b, read)
    }
}

/// Writes the content of a single-value file as the next field of the record,
/// or the default when it is empty, which then gives `Err(Empty)`
pub fn single_value_file(read: Option<usize>, buffers: &mut WorkingBuffers, default: &'static [u8]) -> (r:
    Result<(), Empty>)
    requires
        read_fits(old(buffers), read),
    ensures
        record::record_fields(final(buffers).record) == record::record_fields(old(buffers).record).push(
            single_field(old(buffers).buffer.b@, read, default@),
        ),
        r is Err <==> byte::content_len(single_content(old(buffers).buffer.b@, read)) == 0,
        final(buffers).buffer.len == 0,
        final(buffers).buffer.b@ == buffer::zeroed(
            old(buffers).buffer.b@,
            0,
            loaded_len(old(buffers).buffer.len, read),
        ),
        final(buffers).copy_buffer == old(buffers).copy_buffer,
        final(buffers).slices == old(buffers).slices,
{
    let empty: [u8; 0] = [];
    assert(empty@ =~= Seq::<u8>::empty());
    let is_empty = match read_to_buffer(read, buffers) {
        None => {
            push_field(&mut buffers.record, default);
            true
        },
        Some(_) => {
            let content = buffers.buffer.trim();
            if content_len_raw(content) == 0 {
                push_field(&mut buffers.record, default);
                true
            } else {
                push_field(&mut buffers.record, content);
                false
            }
        },
    };
    proof {
        if !v1_read::read_some(read) {
            assert(single_content(old(buffers).buffer.b@, read) =~= Seq::<u8>::empty());
            assert(byte::content_len(Seq::<u8>::empty()) == 0);
        }
    }
    buffers.buffer.clear();
    if is_empty {
        Err(Empty)
    } else {
        Ok(())
    }
}


/// The values found after one line of a flat keyed file: a line holding a
/// space is split into key and value there, and a key that is one of `keys`
/// (the first that matches) has its value replaced
pub open spec fn keyed_step(line: Seq<u8>, keys: Seq<Seq<u8>>, vals: Seq<Seq<u8>>) -> Seq<Seq<u8>> {
    match byte::find_spec(line, 0, byte::space_pred()) {
        None => vals,
        Some(sp) => match v1_read::find_index_from(keys, line.subrange(0, sp), 0) {
            Some(i) => vals.update(i, line.subrange(sp + 1, line.len() as int)),
            None => vals,
        },
    }
}

/// The values found after the lines of `b` from line `k`
pub open spec fn keyed_values(b: Seq<u8>, keys: Seq<Seq<u8>>, k: int, vals: Seq<Seq<u8>>) -> Seq<
    Seq<u8>,
>
    decreases byte::lines_of(b).len() - k,
{
    let lines = byte::lines_of(b);
    if k < 0 || k >= lines.len() {
        vals
    } else {
        keyed_values(b, keys, k + 1, keyed_step(v1_read::line_at(b, lines[k]), keys, vals))
    }
}

/// The value found for each key in the lines of `b` (empty when none is)
pub open spec fn keyed_found(b: Seq<u8>, keys: Seq<Seq<u8>>) -> Seq<Seq<u8>> {
    keyed_values(b, keys, 0, Seq::new(keys.len(), |i: int| Seq::<u8>::empty()))
}

/// The fields a flat keyed file gives: per key its value, or its default when
/// the value is empty
pub open spec fn keyed_fields(b: Seq<u8>, keys: Seq<Seq<u8>>, defaults: Seq<Seq<u8>>) -> Seq<Seq<u8>> {
    let found = keyed_found(b, keys);
    Seq::new(
        keys.len(),
        |i: int|
            if found[i].len() == 0 {
                defaults[i]
            } else {
                found[i]
            },
    )
}

/// The key of line `k` of `b`: what comes before its first space; `None`
/// when the line has none
pub open spec fn keyed_line_key(b: Seq<u8>, k: int) -> Option<Seq<u8>> {
    let line = v1_read::line_at(b, byte::lines_of(b)[k]);
    match byte::find_spec(line, 0, byte::space_pred()) {
        Some(sp) => Some(line.subrange(0, sp)),
        None => None,
    }
}

/// The value of line `k` of `b`: what follows its first space
pub open spec fn keyed_line_value(b: Seq<u8>, k: int) -> Seq<u8> {
    let line = v1_read::line_at(b, byte::lines_of(b)[k]);
    match byte::find_spec(line, 0, byte::space_pred()) {
        Some(sp) => line.subrange(sp + 1, line.len() as int),
        None => Seq::empty(),
    }
}

/// Key `i` is the first of `keys` with its text
pub open spec fn first_key(keys: Seq<Seq<u8>>, i: int) -> bool {
    &&& 0 <= i < keys.len()
    &&& forall|j: int| 0 <= j < i ==> keys[j] != keys[i]
}

/// From line `k0` on, the value of a key is the value of the last line with
/// that key, or what it was when no line has it
proof fn lemma_keyed_last(b: Seq<u8>, keys: Seq<Seq<u8>>, i: int, k0: int, vals: Seq<Seq<u8>>)
    requires
        first_key(keys, i),
        vals.len() == keys.len(),
        0 <= k0 <= byte::lines_of(b).len(),
    ensures
        keyed_values(b, keys, k0, vals).len() == keys.len(),
        forall|k: int|
            #![trigger keyed_line_key(b, k)]
            k0 <= k < byte::lines_of(b).len() && keyed_line_key(b, k) == Some(keys[i]) && (forall|
                k2: int,
            |
                k < k2 < byte::lines_of(b).len() ==> keyed_line_key(b, k2) != Some(keys[i]))
                ==> keyed_values(b, keys, k0, vals)[i] == keyed_line_value(b, k),
        (forall|k: int|
            k0 <= k < byte::lines_of(b).len() ==> keyed_line_key(b, k) != Some(keys[i]))
            ==> keyed_values(b, keys, k0, vals)[i] == vals[i],
    decreases byte::lines_of(b).len() - k0,
{
    let lines = byte::lines_of(b);
    if k0 < lines.len() {
        let line = v1_read::line_at(b, lines[k0]);
        let v2 = keyed_step(line, keys, vals);
        match byte::find_spec(line, 0, byte::space_pred()) {
            None => {},
            Some(sp) => {
                let key = line.subrange(0, sp);
                v1_read::lemma_find_index_range(keys, key, 0);
                if key == keys[i] {
                    v1_read::lemma_find_index_first(keys, key, 0, i);
                }
            },
        }
        assert(v2.len() == keys.len());
        assert(keyed_line_key(b, k0) == Some(keys[i]) ==> v2[i] == keyed_line_value(b, k0));
        assert(keyed_line_key(b, k0) != Some(keys[i]) ==> v2[i] == vals[i]);
        lemma_keyed_last(b, keys, i, k0 + 1, v2);
    }
}

/// A flat keyed file gives each key (the first of its text in `keys`) the
/// value of the last line with that key, or nothing when no line has it;
/// every key counts, wherever it stands in `keys`
pub proof fn law_keyed_value_is_last_line(b: Seq<u8>, keys: Seq<Seq<u8>>, i: int)
    requires
        first_key(keys, i),
    ensures
        keyed_found(b, keys).len() == keys.len(),
        forall|k: int|
            #![trigger keyed_line_key(b, k)]
            0 <= k < byte::lines_of(b).len() && keyed_line_key(b, k) == Some(keys[i]) && (forall|
                k2: int,
            |
                k < k2 < byte::lines_of(b).len() ==> keyed_line_key(b, k2) != Some(keys[i]))
                ==> keyed_found(b, keys)[i] == keyed_line_value(b, k),
        (forall|k: int|
            0 <= k < byte::lines_of(b).len() ==> keyed_line_key(b, k) != Some(keys[i]))
            ==> keyed_found(b, keys)[i].len() == 0,
{
    lemma_keyed_last(b, keys, i, 0, Seq::new(keys.len(), |j: int| Seq::<u8>::empty()));
}

/// Reads a flat keyed file, with lines such as `usage_usec 1234`, writing
/// the value of each of `keys` as a field in the same order (its default
/// when no value was found). Gives `Err(Empty)` when no value was found.
/// Every line of the buffer is scanned, whatever the read gave.
pub fn flat_keyed_file<const K: usize>(
    read: Option<usize>,
    buffers: &mut WorkingBuffers,
    keys: &[&'static [u8]; K],
    defaults: &[&'static [u8]; K],
) -> (r: Result<(), Empty>)
    requires
        read_fits(old(buffers), read),
    ensures
        ({
            let b = old(buffers).buffer.b@;
            let key_views = v1_read::byte_views(keys@);
            &&& record::record_fields(final(buffers).record) == record::record_fields(
                old(buffers).record,
            ) + keyed_fields(b, key_views, v1_read::byte_views(defaults@))
            &&& r is Err <==> forall|i: int|
                0 <= i < K ==> (#[trigger] keyed_found(b, key_views)[i]).len() == 0
        }),
        final(buffers).buffer.len == 0,
        final(buffers).buffer.b@ == buffer::zeroed(
            old(buffers).buffer.b@,
            0,
            loaded_len(old(buffers).buffer.len, read),
        ),
        final(buffers).copy_buffer == old(buffers).copy_buffer,
        final(buffers).slices == old(buffers).slices,
{
    let ghost b = buffers.buffer.b@;
    let ghost key_views = v1_read::byte_views(keys@);
    let ghost default_views = v1_read::byte_views(defaults@);
    let ghost f0 = record::record_fields(buffers.record);
    read_to_buffer(read, buffers);
    let ghost len = buffers.buffer.len;
    let ghost all = byte::lines_of(b);
    proof {
        byte::lemma_lines_in_range(b, 0);
    }
    let key_slice = keys.as_slice();
    let nothing = &buffers.buffer.b.as_slice()[0..0];
    let mut slices: Vec<&[u8]> = Vec::new();
    let mut j: usize = 0;
    while j < K
        invariant
            j <= K,
            slices@.len() == j,
            nothing@ == Seq::<u8>::empty(),
            forall|m: int| 0 <= m < j ==> (#[trigger] slices@[m])@ == Seq::<u8>::empty(),
        decreases K - j,
    {
        slices.push(nothing);
        j += 1;
    }
    assert(v1_read::byte_views(slices@) =~= Seq::new(K as nat, |i: int| Seq::<u8>::empty()));
    let mut lines = byte::ByteLines::new(buffers.buffer.b.as_slice());
    let ghost mut k: int = 0;
    let ghost rem0 = lines.remaining();
    let mut current = lines.next_line();
    proof {
        if all.len() > 0 {
            assert(rem0[0] == all[0]);
            assert(lines.remaining() =~= all.subrange(1, all.len() as int));
        }
    }
    while current.is_some()
        invariant
            lines.wf(),
            lines.source() == b,
            all == byte::lines_of(b),
            0 <= k <= all.len(),
            current is None ==> k == all.len(),
            current matches Some((l, st)) ==> k < all.len() && l@ == v1_read::line_at(b, all[k]),
            current is Some ==> lines.remaining() == all.subrange(k + 1, all.len() as int),
            key_slice@ == keys@,
            key_views == v1_read::byte_views(keys@),
            key_views.len() == K,
            slices@.len() == K,
            keyed_values(b, key_views, k, v1_read::byte_views(slices@)) == keyed_found(
                b,
                key_views,
            ),
        decreases all.len() - k,
    {
        let (line, _) = current.unwrap();
        proof {
            byte::lemma_byte_callbacks();
            byte::lemma_find_spec_facts(line@, 0, byte::space_pred());
        }
        let found = find_char(line, 0, is_space);
        assert(byte::same_index(found, byte::find_spec(line@, 0, byte::space_pred())));
        let line_len = line.len();
        if let Some(space) = found {
            let key = &line[0..space];
            let value = &line[(space + 1)..line_len];
            let ghost before = slices@;
            let hit = find_index(key_slice, key);
            proof {
                v1_read::lemma_find_index_range(key_views, key@, 0);
            }
            if let Some(i) = hit {
                slices.set(i, value);
                assert(v1_read::byte_views(slices@) =~= v1_read::byte_views(before).update(
                    i as int,
                    value@,
                ));
            }
        }
        let ghost rem = lines.remaining();
        current = lines.next_line();
        proof {
            k = k + 1;
            if k < all.len() {
                assert(rem[0] == all[k]);
                assert(lines.remaining() =~= all.subrange(k + 1, all.len() as int));
            }
        }
    }
    let ghost found_views = v1_read::byte_views(slices@);
    assert(found_views == keyed_found(b, key_views));
    let mut all_empty = true;
    let mut i: usize = 0;
    while i < K
        invariant
            i <= K,
            slices@.len() == K,
            found_views == v1_read::byte_views(slices@),
            found_views == keyed_found(b, key_views),
            default_views == v1_read::byte_views(defaults@),
            defaults@.len() == K,
            key_views.len() == K,
            buffers.buffer.len == len,
            buffers.buffer.b@ == b,
            buffers.copy_buffer == old(buffers).copy_buffer,
            buffers.slices == old(buffers).slices,
            all_empty <==> forall|m: int| 0 <= m < i ==> (#[trigger] found_views[m]).len() == 0,
            record::record_fields(buffers.record) == f0 + keyed_fields(
                b,
                key_views,
                default_views,
            ).subrange(0, i as int),
        decreases K - i,
    {
        let slice = slices[i];
        let empty = slice.len() == 0;
        all_empty = all_empty && empty;
        if empty {
            push_field(&mut buffers.record, defaults[i]);
        } else {
            push_field(&mut buffers.record, slice);
        }
        assert(keyed_fields(b, key_views, default_views).subrange(0, i + 1) =~= keyed_fields(
            b,
            key_views,
            default_views,
        ).subrange(0, i as int).push(keyed_fields(b, key_views, default_views)[i as int]));
        i += 1;
    }
    assert(keyed_fields(b, key_views, default_views).subrange(0, K as int) =~= keyed_fields(
        b,
        key_views,
        default_views,
    ));
    buffers.buffer.clear();
    if all_empty {
        Err(Empty)
    } else {
        Ok(())
    }
}


/// The predicate that marks the separator of a key and its value
pub open spec fn equals_pred() -> spec_fn(u8) -> bool {
    |c: u8| c == 61u8
}

/// Whether the byte is an equals sign
fn is_equals(c: u8) -> (r: bool)
    ensures
        r == (c == 61u8),
{
    c == 61u8
}

/// `is_equals` computes `equals_pred`
proof fn lemma_equals_callback()
    ensures
        byte::computes(is_equals, equals_pred()),
{
}

/// Where the first field of `rem` ends: at its first space, or at its end
pub open spec fn field_end(rem: Seq<u8>) -> int {
    match byte::find_spec(rem, 0, byte::space_pred()) {
        Some(sp) => sp,
        None => rem.len() as int,
    }
}

/// What follows the first field of `rem` and the space after it
pub open spec fn after_field(rem: Seq<u8>) -> Seq<u8> {
    if field_end(rem) < rem.len() {
        rem.subrange(field_end(rem) + 1, rem.len() as int)
    } else {
        Seq::empty()
    }
}

/// The `key=value` pairs given by the fields of `rem`: the fields are
/// separated by spaces (the last one runs to the end), and fields without an
/// equals sign are skipped
pub open spec fn io_pairs(rem: Seq<u8>) -> Seq<(Seq<u8>, Seq<u8>)>
    decreases rem.len(),
{
    if rem.len() == 0 {
        Seq::empty()
    } else {
        proof {
            byte::lemma_find_spec_facts(rem, 0, byte::space_pred());
        }
        let pair = rem.subrange(0, field_end(rem));
        let rest = after_field(rem);
        match byte::find_spec(pair, 0, equals_pred()) {
            Some(eq) => seq![(pair.subrange(0, eq), pair.subrange(eq + 1, pair.len() as int))]
                + io_pairs(rest),
            None => io_pairs(rest),
        }
    }
}

/// The fields of an io.stat line: what follows the first space (which ends
/// the device), or nothing when there is no space
pub open spec fn line_fields(line: Seq<u8>) -> Seq<u8> {
    match byte::find_spec(line, 0, byte::space_pred()) {
        Some(sp) => line.subrange(sp + 1, line.len() as int),
        None => Seq::empty(),
    }
}

/// Iterates over the `key=value` pairs of a line of an io.stat file
pub struct IoLineFieldIter<'a> {
    remainder: &'a [u8],
}

impl<'a> IoLineFieldIter<'a> {
    /// The pairs not yet returned
    pub closed spec fn pairs(&self) -> Seq<(Seq<u8>, Seq<u8>)> {
        io_pairs(self.remainder@)
    }

    /// Starts iterating over the fields after the device of the line
    pub fn new(line: &'a [u8]) -> (r: Self)
        ensures
            r.pairs() == io_pairs(line_fields(line@)),
    {
        proof {
            byte::lemma_byte_callbacks();
            byte::lemma_find_spec_facts(line@, 0, byte::space_pred());
        }
        let found = find_char(line, 0, is_space);
        assert(byte::same_index(found, byte::find_spec(line@, 0, byte::space_pred())));
        let line_len = line.len();
        match found {
            Some(space) => IoLineFieldIter { remainder: &line[(space + 1)..line_len] },
            None => {
                let r = IoLineFieldIter { remainder: &line[0..0] };
                assert(r.remainder@ =~= Seq::<u8>::empty());
                r
            },
        }
    }

    /// Returns the next `key=value` pair as the key and the value, or `None`
    /// once there is none left
    pub fn next(&mut self) -> (r: Option<(&'a [u8], &'a [u8])>)
        ensures
            old(self).pairs().len() == 0 ==> r is None && final(self).pairs().len() == 0,
            old(self).pairs().len() > 0 ==> {
                &&& r matches Some((key, value)) && (key@, value@) == old(self).pairs()[0]
                &&& final(self).pairs() == old(self).pairs().drop_first()
            },
    {
        proof {
            byte::lemma_byte_callbacks();
            lemma_equals_callback();
        }
        while self.remainder.len() > 0
            invariant
                io_pairs(self.remainder@) == io_pairs(old(self).remainder@),
            decreases self.remainder@.len(),
        {
            proof {
                byte::lemma_byte_callbacks();
                lemma_equals_callback();
                byte::lemma_find_spec_facts(self.remainder@, 0, byte::space_pred());
            }
            let rem = self.remainder;
            let found = find_char(rem, 0, is_space);
            assert(byte::same_index(found, byte::find_spec(rem@, 0, byte::space_pred())));
            let rem_len = rem.len();
            let end = match found {
                Some(space) => space,
                None => rem_len,
            };
            assert(end == field_end(rem@));
            let pair = &rem[0..end];
            let rest = if end < rem_len {
                &rem[(end + 1)..rem_len]
            } else {
                &rem[rem_len..rem_len]
            };
            assert(rest@ =~= after_field(rem@));
            self.remainder = rest;
            proof {
                byte::lemma_find_spec_facts(pair@, 0, equals_pred());
            }
            let eq = find_char(pair, 0, is_equals);
            assert(byte::same_index(eq, byte::find_spec(pair@, 0, equals_pred())));
            if let Some(equals) = eq {
                let pair_len = pair.len();
                let key = &pair[0..equals];
                let value = &pair[(equals + 1)..pair_len];
                assert(io_pairs(rem@) == seq![(key@, value@)] + io_pairs(rest@));
                assert((seq![(key@, value@)] + io_pairs(rest@)).drop_first() =~= io_pairs(
                    rest@,
                ));
                return Some((key, value));
            }
        }
        None
    }
}


/// The quantities after adding one pair: its value is added to the quantity
/// of the first key equal to its key
pub open spec fn pair_step(
    keys: Seq<Seq<u8>>,
    q: Seq<QuantityView>,
    pair: (Seq<u8>, Seq<u8>),
) -> Seq<QuantityView> {
    match v1_read::find_index_from(keys, pair.0, 0) {
        Some(i) => q.update(i, lazy_quantity::plus_spec(q[i], pair.1)),
        None => q,
    }
}

/// The quantities after adding the pairs in order
pub open spec fn pairs_fold(
    keys: Seq<Seq<u8>>,
    q: Seq<QuantityView>,
    pairs: Seq<(Seq<u8>, Seq<u8>)>,
) -> Seq<QuantityView>
    decreases pairs.len(),
{
    if pairs.len() == 0 {
        q
    } else {
        pairs_fold(keys, pair_step(keys, q, pairs[0]), pairs.drop_first())
    }
}

/// The quantities after the lines of `b` from line `k`
pub open spec fn io_stat_values(b: Seq<u8>, keys: Seq<Seq<u8>>, k: int, q: Seq<QuantityView>) -> Seq<
    QuantityView,
>
    decreases byte::lines_of(b).len() - k,
{
    let lines = byte::lines_of(b);
    if k < 0 || k >= lines.len() {
        q
    } else {
        io_stat_values(
            b,
            keys,
            k + 1,
            pairs_fold(keys, q, io_pairs(line_fields(v1_read::line_at(b, lines[k])))),
        )
    }
}

/// The total of each key over the lines of `b`, from zero
pub open spec fn io_stat_totals(b: Seq<u8>, keys: Seq<Seq<u8>>) -> Seq<QuantityView> {
    io_stat_values(b, keys, 0, Seq::new(keys.len(), |i: int| QuantityView::Zero))
}

/// The pairs still to add: the pair in hand, if any, then those after it
pub open spec fn pending(pair: Option<(&[u8], &[u8])>, rest: Seq<(Seq<u8>, Seq<u8>)>) -> Seq<
    (Seq<u8>, Seq<u8>),
> {
    match pair {
        Some((key, value)) => seq![(key@, value@)] + rest,
        None => rest,
    }
}

/// The views of a sequence of quantities
pub open spec fn quantity_views(v: Seq<LazyQuantity>) -> Seq<QuantityView> {
    v.map_values(|x: LazyQuantity| x@)
}

/// Reads an io.stat file, whose lines give per device `key=value` pairs, and
/// writes the total over all devices of each of `keys` as a field, in the same
/// order. Gives `Err(Empty)` when every total stayed zero (no value was found).
/// Every line of the buffer is scanned, whatever the read gave.
pub fn io_stat_file<const K: usize>(
    read: Option<usize>,
    buffers: &mut WorkingBuffers,
    keys: &[&'static [u8]; K],
) -> (r: Result<(), Empty>)
    requires
        read_fits(old(buffers), read),
        old(buffers).copy_buffer.len <= 16384,
    ensures
        ({
            let totals = io_stat_totals(old(buffers).buffer.b@, v1_read::byte_views(keys@));
            let out = lazy_quantity::quantity_fields(old(buffers).copy_buffer.b@, totals);
            &&& record::record_fields(final(buffers).record) == record::record_fields(
                old(buffers).record,
            ) + out.0
            &&& final(buffers).copy_buffer.b@ == buffer::zeroed(
                out.1,
                0,
                if K == 0 {
                    old(buffers).copy_buffer.len as int
                } else {
                    0
                },
            )
            &&& r is Err <==> forall|i: int| 0 <= i < K ==> #[trigger] totals[i] is Zero
        }),
        final(buffers).copy_buffer.len == 0,
        final(buffers).buffer.len == 0,
        final(buffers).buffer.b@ == buffer::zeroed(
            old(buffers).buffer.b@,
            0,
            loaded_len(old(buffers).buffer.len, read),
        ),
        final(buffers).slices == old(buffers).slices,
{
    let ghost b = buffers.buffer.b@;
    let ghost t = buffers.copy_buffer.b@;
    let ghost key_views = v1_read::byte_views(keys@);
    let ghost f0 = record::record_fields(buffers.record);
    read_to_buffer(read, buffers);
    let ghost len = buffers.buffer.len;
    let ghost all = byte::lines_of(b);
    proof {
        byte::lemma_lines_in_range(b, 0);
    }
    let key_slice = keys.as_slice();
    let mut quantities: Vec<LazyQuantity> = Vec::new();
    let mut j: usize = 0;
    while j < K
        invariant
            j <= K,
            quantities@.len() == j,
            forall|m: int| 0 <= m < j ==> (#[trigger] quantities@[m])@ == QuantityView::Zero,
        decreases K - j,
    {
        quantities.push(LazyQuantity::new());
        j += 1;
    }
    assert(quantity_views(quantities@) =~= Seq::new(K as nat, |i: int| QuantityView::Zero));
    let mut lines = byte::ByteLines::new(buffers.buffer.b.as_slice());
    let ghost mut k: int = 0;
    let ghost rem0 = lines.remaining();
    let mut current = lines.next_line();
    proof {
        if all.len() > 0 {
            assert(rem0[0] == all[0]);
            assert(lines.remaining() =~= all.subrange(1, all.len() as int));
        }
    }
    while current.is_some()
        invariant
            lines.wf(),
            lines.source() == b,
            all == byte::lines_of(b),
            0 <= k <= all.len(),
            current is None ==> k == all.len(),
            current matches Some((l, st)) ==> k < all.len() && l@ == v1_read::line_at(b, all[k]),
            current is Some ==> lines.remaining() == all.subrange(k + 1, all.len() as int),
            key_slice@ == keys@,
            key_views == v1_read::byte_views(keys@),
            key_views.len() == K,
            quantities@.len() == K,
            io_stat_values(b, key_views, k, quantity_views(quantities@)) == io_stat_totals(
                b,
                key_views,
            ),
        decreases all.len() - k,
    {
        let (line, _) = current.unwrap();
        let ghost q_line = quantity_views(quantities@);
        let mut fields = IoLineFieldIter::new(line);
        let ghost first = fields.pairs();
        let mut pair = fields.next();
        assert(pending(pair, fields.pairs()) =~= first);
        while pair.is_some()
            invariant
                key_slice@ == keys@,
                key_views == v1_read::byte_views(keys@),
                key_views.len() == K,
                quantities@.len() == K,
                pair is None ==> fields.pairs().len() == 0,
                pairs_fold(key_views, quantity_views(quantities@), pending(pair, fields.pairs()))
                    == pairs_fold(key_views, q_line, io_pairs(line_fields(line@))),
            decreases fields.pairs().len() + if pair is Some {
                1int
            } else {
                0int
            },
        {
            let (key, value) = pair.unwrap();
            let ghost before = quantity_views(quantities@);
            let ghost rest = fields.pairs();
            assert((seq![(key@, value@)] + rest).drop_first() =~= rest);
            let hit = find_index(key_slice, key);
            proof {
                v1_read::lemma_find_index_range(key_views, key@, 0);
            }
            if let Some(i) = hit {
                let cur = quantities[i];
                quantities.set(i, cur.plus(value));
                assert(quantity_views(quantities@) =~= before.update(
                    i as int,
                    lazy_quantity::plus_spec(before[i as int], value@),
                ));
            }
            pair = fields.next();
            assert(pending(pair, fields.pairs()) =~= rest);
        }
        let ghost rem = lines.remaining();
        current = lines.next_line();
        proof {
            k = k + 1;
            if k < all.len() {
                assert(rem[0] == all[k]);
                assert(lines.remaining() =~= all.subrange(k + 1, all.len() as int));
            }
        }
    }
    let ghost totals = quantity_views(quantities@);
    assert(totals == io_stat_totals(b, key_views));
    let mut all_zero = true;
    let mut i: usize = 0;
    while i < K
        invariant
            i <= K,
            quantities@.len() == K,
            totals == quantity_views(quantities@),
            totals.len() == K,
            buffers.buffer.len == len,
            buffers.buffer.b@ == b,
            buffers.slices == old(buffers).slices,
            all_zero <==> forall|m: int| 0 <= m < i ==> #[trigger] totals[m] is Zero,
            record::record_fields(buffers.record) == f0 + lazy_quantity::quantity_fields(
                t,
                totals.subrange(0, i as int),
            ).0,
            buffers.copy_buffer.b@ == lazy_quantity::quantity_fields(
                t,
                totals.subrange(0, i as int),
            ).1,
            i > 0 ==> buffers.copy_buffer.len == 0,
            i == 0 ==> buffers.copy_buffer.len == old(buffers).copy_buffer.len,
            buffers.copy_buffer.len <= 16384,
        decreases K - i,
    {
        let qty = quantities[i];
        all_zero = all_zero && qty.is_zero();
        let ghost fields_before = record::record_fields(buffers.record);
        let ghost copy_before = buffers.copy_buffer.b@;
        qty.write_to_record(&mut buffers.copy_buffer, &mut buffers.record);
        proof {
            reveal_with_fuel(lazy_quantity::quantity_fields, 2);
            lazy_quantity::lemma_quantity_fields_push(t, totals.subrange(0, i as int), totals[i as int]);
            assert(totals.subrange(0, i as int).push(totals[i as int]) =~= totals.subrange(
                0,
                i + 1,
            ));
            let w = buffer::written(copy_before, lazy_quantity::text_of(totals[i as int]));
            assert(lazy_quantity::quantity_fields(copy_before, seq![totals[i as int]]).0 =~= seq![
                w.0.subrange(0, w.1),
            ]);
            assert(record::record_fields(buffers.record) =~= f0 + lazy_quantity::quantity_fields(
                t,
                totals.subrange(0, i + 1),
            ).0);
        }
        i += 1;
    }
    assert(totals.subrange(0, K as int) =~= totals);
    buffers.buffer.clear();
    buffers.copy_buffer.clear();
    if all_zero {
        Err(Empty)
    } else {
        Ok(())
    }
}

/// Adding pairs keeps one quantity per key
pub proof fn lemma_pairs_fold_len(
    keys: Seq<Seq<u8>>,
    q: Seq<QuantityView>,
    pairs: Seq<(Seq<u8>, Seq<u8>)>,
)
    requires
        q.len() == keys.len(),
    ensures
        pairs_fold(keys, q, pairs).len() == keys.len(),
    decreases pairs.len(),
{
    if pairs.len() > 0 {
        v1_read::lemma_find_index_range(keys, pairs[0].0, 0);
        lemma_pairs_fold_len(keys, pair_step(keys, q, pairs[0]), pairs.drop_first());
    }
}

/// The totals of an io.stat file hold one quantity per key
pub proof fn lemma_io_stat_values_len(b: Seq<u8>, keys: Seq<Seq<u8>>, k: int, q: Seq<QuantityView>)
    requires
        q.len() == keys.len(),
    ensures
        io_stat_values(b, keys, k, q).len() == keys.len(),
    decreases byte::lines_of(b).len() - k,
{
    let lines = byte::lines_of(b);
    if 0 <= k < lines.len() {
        let pairs = io_pairs(line_fields(v1_read::line_at(b, lines[k])));
        lemma_pairs_fold_len(keys, q, pairs);
        lemma_io_stat_values_len(b, keys, k + 1, pairs_fold(keys, q, pairs));
    }
}

} // verus!
