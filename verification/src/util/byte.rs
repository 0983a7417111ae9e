//! Manipulation methods for treating byte arrays (`[u8]`) as ASCII strings

use vstd::prelude::*;

verus! {

/// Byte value of a line feed
pub const N: u8 = 10u8;
/// Byte value of a carriage return
pub const R: u8 = 13u8;
/// Byte value of a normal space
pub const S: u8 = 32u8;

/// Whether the byte is a line feed or a carriage return
pub open spec fn spec_is_newline(c: u8) -> bool {
    c == N || c == R
}

/// Whether the byte is a normal space
pub open spec fn spec_is_space(c: u8) -> bool {
    c == S
}

/// Whether the byte is a line feed, carriage return or normal space
pub open spec fn spec_is_whitespace(c: u8) -> bool {
    spec_is_newline(c) || spec_is_space(c)
}

/// Returns true if the given char is a line feed, carriage return, or normal
/// space
pub fn is_whitespace(c: u8) -> (r: bool)
    ensures
        r == spec_is_whitespace(c),
{
    is_newline(c) || is_space(c)
}

/// Returns true if the given char is a normal whitespace
pub fn is_space(c: u8) -> (r: bool)
    ensures
        r == spec_is_space(c),
{
    c == S
}

/// Returns true if the given char is a line feed or carriage return
pub fn is_newline(c: u8) -> (r: bool)
    ensures
        r == spec_is_newline(c),
{
    c == N || c == R
}

/// The callback `f` computes exactly `pred`
pub open spec fn computes<F: Fn(u8) -> bool>(f: F, pred: spec_fn(u8) -> bool) -> bool {
    forall|c: u8, b: bool| #[trigger] call_ensures(f, (c,), b) ==> b == pred(c)
}

/// Scans `s` from `start`: the first index whose byte satisfies `pred`, unless
/// a NUL byte (that does not satisfy `pred`) or the end of `s` comes first
pub open spec fn find_spec(s: Seq<u8>, start: int, pred: spec_fn(u8) -> bool) -> Option<int>
    decreases s.len() - start,
{
    if start < 0 || start >= s.len() {
        None
    } else if pred(s[start]) {
        Some(start)
    } else if s[start] == 0 {
        None
    } else {
        find_spec(s, start + 1, pred)
    }
}

/// What `find_spec` returns lies in range, satisfies the predicate, and is
/// preceded only by non-NUL bytes that do not satisfy it
pub proof fn lemma_find_spec_facts(s: Seq<u8>, start: int, pred: spec_fn(u8) -> bool)
    requires
        0 <= start,
    ensures
        find_spec(s, start, pred) matches Some(i) ==> {
            &&& start <= i < s.len()
            &&& pred(s[i])
            &&& forall|j: int| start <= j < i ==> !pred(s[j]) && s[j] != 0
        },
    decreases s.len() - start,
{
    if start < s.len() && !pred(s[start]) && s[start] != 0 {
        lemma_find_spec_facts(s, start + 1, pred);
    }
}

/// An executable index agrees with a specification index
pub open spec fn same_index(r: Option<usize>, o: Option<int>) -> bool {
    match r {
        Some(i) => o == Some(i as int),
        None => o is None,
    }
}

/// Finds the position of the next character, starting at the given index. If a
/// NUL character is reached before the target, the result is an None. Else, if
/// the target is found, the result is a Some including the index of the target
/// char.
pub fn find_char<P>(buffer: &[u8], start: usize, is_target: P) -> (r: Option<usize>) where
    P: Fn(u8) -> bool,

    requires
        forall|c: u8| #[trigger] is_target.requires((c,)),
    ensures
        forall|pred: spec_fn(u8) -> bool| #[trigger]
            computes(is_target, pred) ==> same_index(r, find_spec(buffer@, start as int, pred)),
{
    let mut newline = start;
    while newline < buffer.len()
        invariant
            start <= newline,
            forall|c: u8| #[trigger] is_target.requires((c,)),
            forall|pred: spec_fn(u8) -> bool| #[trigger]
                computes(is_target, pred) ==> find_spec(buffer@, start as int, pred)
                    == find_spec(buffer@, newline as int, pred),
        decreases buffer.len() - newline,
    {
        let char_at = buffer[newline];
        let hit = is_target(char_at);
        if hit {
            assert forall|pred: spec_fn(u8) -> bool| #[trigger]
                computes(is_target, pred) implies find_spec(buffer@, newline as int, pred)
                == Some(newline as int) by {}
            return Some(newline);
        } else if char_at == 0 {
            return None;
        } else {
            newline += 1;
        }
    }
    None
}

/// Index of the first NUL byte of `s` at or after `i`, or the length of `s`
pub open spec fn first_nul_from(s: Seq<u8>, i: int) -> int
    decreases s.len() - i,
{
    if i < 0 || i >= s.len() {
        s.len() as int
    } else if s[i] == 0 {
        i
    } else {
        first_nul_from(s, i + 1)
    }
}

/// Length of the content of `s`: everything before the first NUL byte
pub open spec fn content_len(s: Seq<u8>) -> int {
    first_nul_from(s, 0)
}

/// The first NUL index lies in range and only non-NUL bytes precede it
pub proof fn lemma_first_nul_facts(s: Seq<u8>, i: int)
    requires
        0 <= i <= s.len(),
    ensures
        i <= first_nul_from(s, i) <= s.len(),
        first_nul_from(s, i) < s.len() ==> s[first_nul_from(s, i)] == 0,
        forall|j: int| i <= j < first_nul_from(s, i) ==> s[j] != 0,
    decreases s.len() - i,
{
    if i < s.len() && s[i] != 0 {
        lemma_first_nul_facts(s, i + 1);
    }
}

/// The predicate that marks line ends
pub open spec fn newline_pred() -> spec_fn(u8) -> bool {
    |c: u8| spec_is_newline(c)
}

/// The predicate that marks field separators
pub open spec fn space_pred() -> spec_fn(u8) -> bool {
    |c: u8| spec_is_space(c)
}

/// `is_newline` computes `newline_pred`, and `is_space` computes `space_pred`
pub proof fn lemma_byte_callbacks()
    ensures
        computes(is_newline, newline_pred()),
        computes(is_space, space_pred()),
{
}

/// The lines of `s` starting at `pos`, as `(start, length)` pairs: each line
/// ends at a line feed or carriage return; the trailing part after the last
/// line end counts as a line when it has content before a NUL byte
pub open spec fn lines_from(s: Seq<u8>, pos: int) -> Seq<(int, int)>
    decreases s.len() + 1 - pos,
{
    if pos < 0 || pos > s.len() {
        Seq::empty()
    } else {
        match find_spec(s, pos, newline_pred()) {
            Some(p) => {
                proof {
                    lemma_find_spec_facts(s, pos, newline_pred());
                }
                seq![(pos, p - pos)] + lines_from(s, p + 1)
            },
            None => {
                let rem = first_nul_from(s, pos) - pos;
                if rem > 0 {
                    seq![(pos, rem)]
                } else {
                    Seq::empty()
                }
            },
        }
    }
}

/// The lines of `s` as `(start, length)` pairs
pub open spec fn lines_of(s: Seq<u8>) -> Seq<(int, int)> {
    lines_from(s, 0)
}

/// Every line lies within the scanned sequence, after `pos`
pub proof fn lemma_lines_in_range(s: Seq<u8>, pos: int)
    requires
        0 <= pos <= s.len(),
    ensures
        forall|k: int|
            0 <= k < lines_from(s, pos).len() ==> pos <= #[trigger] lines_from(s, pos)[k].0
                && 0 <= lines_from(s, pos)[k].1 && lines_from(s, pos)[k].0 + lines_from(
                s,
                pos,
            )[k].1 <= s.len(),
    decreases s.len() + 1 - pos,
{
    lemma_find_spec_facts(s, pos, newline_pred());
    lemma_first_nul_facts(s, pos);
    match find_spec(s, pos, newline_pred()) {
        Some(p) => {
            lemma_lines_in_range(s, p + 1);
            let rest = lines_from(s, p + 1);
            assert forall|k: int| 0 <= k < lines_from(s, pos).len() implies pos
                <= #[trigger] lines_from(s, pos)[k].0 && 0 <= lines_from(s, pos)[k].1
                && lines_from(s, pos)[k].0 + lines_from(s, pos)[k].1 <= s.len() by {
                if k > 0 {
                    assert(lines_from(s, pos)[k] == rest[k - 1]);
                }
            }
        },
        None => {},
    }
}

/// Skipping non-NUL bytes does not change where the first NUL is
pub proof fn lemma_first_nul_skip(s: Seq<u8>, a: int, b: int)
    requires
        0 <= a <= b <= s.len(),
        forall|j: int| a <= j < b ==> s[j] != 0,
    ensures
        first_nul_from(s, a) == first_nul_from(s, b),
    decreases b - a,
{
    if a < b {
        lemma_first_nul_skip(s, a + 1, b);
    }
}

/// When a scan finds nothing, no byte before the first NUL satisfies the
/// predicate
pub proof fn lemma_find_none(s: Seq<u8>, start: int, pred: spec_fn(u8) -> bool)
    requires
        0 <= start <= s.len(),
        find_spec(s, start, pred) is None,
    ensures
        forall|j: int| start <= j < first_nul_from(s, start) ==> !pred(#[trigger] s[j]),
    decreases s.len() - start,
{
    if start < s.len() && s[start] != 0 {
        lemma_find_none(s, start + 1, pred);
    }
}

/// The lines from `pos` tile the content from `pos` up to the first NUL
/// byte: they follow each other separated by one line end, hold no line end
/// or NUL byte, and the last one ends at the end of the content or just
/// before a final line end
pub proof fn lemma_lines_tile(s: Seq<u8>, pos: int)
    requires
        0 <= pos <= s.len(),
    ensures
        ({
            let ls = lines_from(s, pos);
            let n = first_nul_from(s, pos);
            &&& ls.len() == 0 ==> n == pos
            &&& ls.len() > 0 ==> ls[0].0 == pos
            &&& forall|k: int| 0 <= k < ls.len() ==> 0 <= #[trigger] ls[k].1 && ls[k].0 + ls[k].1 <= n
            &&& forall|k: int, j: int|
                0 <= k < ls.len() && #[trigger] ls[k].0 <= j < ls[k].0 + ls[k].1 ==> !spec_is_newline(
                    #[trigger] s[j],
                ) && s[j] != 0
            &&& forall|k: int|
                0 <= k < ls.len() - 1 ==> #[trigger] ls[k + 1].0 == ls[k].0 + ls[k].1 + 1
                    && spec_is_newline(s[ls[k].0 + ls[k].1])
            &&& ls.len() > 0 ==> (ls.last().0 + ls.last().1 == n || (ls.last().0 + ls.last().1 + 1
                == n && spec_is_newline(s[n - 1])))
        }),
    decreases s.len() + 1 - pos,
{
    lemma_find_spec_facts(s, pos, newline_pred());
    lemma_first_nul_facts(s, pos);
    let ls = lines_from(s, pos);
    let n = first_nul_from(s, pos);
    match find_spec(s, pos, newline_pred()) {
        Some(p) => {
            lemma_first_nul_skip(s, pos, p + 1);
            lemma_lines_tile(s, p + 1);
            let rest = lines_from(s, p + 1);
            assert(ls == seq![(pos, p - pos)] + rest);
            assert forall|k: int| 0 <= k < ls.len() implies 0 <= #[trigger] ls[k].1 && ls[k].0
                + ls[k].1 <= n by {
                if k > 0 {
                    assert(ls[k] == rest[k - 1]);
                }
            }
            assert forall|k: int, j: int|
                0 <= k < ls.len() && #[trigger] ls[k].0 <= j < ls[k].0 + ls[k].1 implies !spec_is_newline(
                #[trigger] s[j],
            ) && s[j] != 0 by {
                if k > 0 {
                    assert(ls[k] == rest[k - 1]);
                    assert(rest[k - 1].0 <= j < rest[k - 1].0 + rest[k - 1].1);
                } else {
                    assert(!(newline_pred())(s[j]));
                }
            }
            assert forall|k: int| 0 <= k < ls.len() - 1 implies #[trigger] ls[k + 1].0 == ls[k].0
                + ls[k].1 + 1 && spec_is_newline(s[ls[k].0 + ls[k].1]) by {
                assert(ls[k + 1] == rest[k]);
                if k > 0 {
                    assert(ls[k] == rest[k - 1]);
                    assert(rest[(k - 1) + 1].0 == rest[k - 1].0 + rest[k - 1].1 + 1);
                } else {
                    assert((newline_pred())(s[p]));
                }
            }
            if rest.len() > 0 {
                assert(ls.last() == rest.last());
            } else {
                assert((newline_pred())(s[p]));
            }
        },
        None => {
            lemma_find_none(s, pos, newline_pred());
            let rem = n - pos;
            if rem > 0 {
                assert(ls == seq![(pos, rem)]);
                assert forall|k: int, j: int|
                    0 <= k < ls.len() && #[trigger] ls[k].0 <= j < ls[k].0 + ls[k].1 implies !spec_is_newline(
                    #[trigger] s[j],
                ) && s[j] != 0 by {
                    assert(!(newline_pred())(s[j]));
                }
            }
        },
    }
}

/// The lines of a buffer tile its content (everything before the first NUL
/// byte): the first starts at 0, each next one starts just after the line
/// end that closes the one before it, no line holds a line end or a NUL
/// byte, and the last one ends at the end of the content or just before a
/// final line end; so the lines joined by their line ends give the content
/// back, up to one trailing line end
pub proof fn law_lines_tile_content(s: Seq<u8>)
    ensures
        ({
            let ls = lines_of(s);
            let n = content_len(s);
            &&& ls.len() == 0 ==> n == 0
            &&& ls.len() > 0 ==> ls[0].0 == 0
            &&& forall|k: int| 0 <= k < ls.len() ==> 0 <= #[trigger] ls[k].1 && ls[k].0 + ls[k].1 <= n
            &&& forall|k: int, j: int|
                0 <= k < ls.len() && #[trigger] ls[k].0 <= j < ls[k].0 + ls[k].1 ==> !spec_is_newline(
                    #[trigger] s[j],
                ) && s[j] != 0
            &&& forall|k: int|
                0 <= k < ls.len() - 1 ==> #[trigger] ls[k + 1].0 == ls[k].0 + ls[k].1 + 1
                    && spec_is_newline(s[ls[k].0 + ls[k].1])
            &&& ls.len() > 0 ==> (ls.last().0 + ls.last().1 == n || (ls.last().0 + ls.last().1 + 1
                == n && spec_is_newline(s[n - 1])))
        }),
{
    lemma_lines_tile(s, 0);
}

/// Provides iteration over the lines of a raw byte buffer
pub struct ByteLines<'a> {
    buffer: &'a [u8],
    position: usize,
    done: bool,
}

impl<'a> ByteLines<'a> {
    /// The scanned buffer
    pub closed spec fn source(&self) -> Seq<u8> {
        self.buffer@
    }

    /// The `(start, length)` pairs of the lines not yet returned
    pub closed spec fn remaining(&self) -> Seq<(int, int)> {
        if self.done {
            Seq::empty()
        } else {
            lines_from(self.buffer@, self.position as int)
        }
    }

    /// Internal consistency of the iterator: the position lies in the buffer,
    /// and while lines remain, no NUL byte comes before it
    pub closed spec fn wf(&self) -> bool {
        &&& self.position <= self.buffer@.len()
        &&& !self.done ==> forall|j: int| 0 <= j < self.position ==> self.buffer@[j] != 0
    }

    /// Instantiates a new iterator with the given source byte buffer
    pub fn new(buffer: &'a [u8]) -> (r: Self)
        ensures
            r.wf(),
            r.source() == buffer@,
            r.remaining() == lines_of(buffer@),
    {
        ByteLines { buffer, position: 0, done: false }
    }

    /// Returns the next line (without its line end) and the index where it
    /// starts, or `None` once all lines have been returned
    pub fn next_line(&mut self) -> (r: Option<(&'a [u8], usize)>)
        requires
            old(self).wf(),
        ensures
            final(self).wf(),
            final(self).source() == old(self).source(),
            old(self).remaining().len() == 0 ==> r is None && final(self).remaining().len() == 0,
            old(self).remaining().len() > 0 ==> {
                let (st, ln) = old(self).remaining()[0];
                &&& r matches Some((line, start)) && start == st && line@ == old(
                    self,
                ).source().subrange(st, st + ln)
                &&& final(self).remaining() == old(self).remaining().drop_first()
            },
            r matches Some((line, start)) ==> {
                &&& start + line@.len() <= content_len(old(self).source())
                &&& forall|j: int|
                    0 <= j < line@.len() ==> !spec_is_newline(#[trigger] line@[j]) && line@[j] != 0
                &&& forall|k: int|
                    0 <= k < final(self).remaining().len() ==> #[trigger] final(self).remaining()[k].0
                        > start + line@.len()
            },
    {
        if self.done {
            return None;
        }
        proof {
            lemma_byte_callbacks();
            lemma_find_spec_facts(self.buffer@, self.position as int, newline_pred());
            lemma_first_nul_facts(self.buffer@, self.position as int);
            lemma_first_nul_skip(self.buffer@, 0, self.position as int);
            lemma_lines_tile(self.buffer@, self.position as int);
        }
        let found = find_char(self.buffer, self.position, is_newline);
        assert(same_index(found, find_spec(self.buffer@, self.position as int, newline_pred())));
        match found {
            Some(pos) => {
                assert(find_spec(self.buffer@, self.position as int, newline_pred()) == Some(pos as int));
                let blen = self.buffer.len();
                assert(pos < blen);
                let line = &self.buffer[self.position..pos];
                let result = Some((line, self.position));
                let ghost ls = lines_from(self.buffer@, self.position as int);
                proof {
                    assert(ls[0] == (self.position as int, pos - self.position));
                    assert forall|j: int| 0 <= j < line@.len() implies !spec_is_newline(
                        #[trigger] line@[j],
                    ) && line@[j] != 0 by {
                        assert(line@[j] == self.buffer@[ls[0].0 + j]);
                    }
                    lemma_lines_in_range(self.buffer@, pos + 1);
                }
                self.position = pos + 1;
                result
            },
            None => {
                self.done = true;
                let rest = &self.buffer[self.position..self.buffer.len()];
                let remaining_len = content_len_raw(rest);
                proof {
                    assert forall|j: int| 0 <= j < rest@.len() implies first_nul_from(rest@, j)
                        + self.position == first_nul_from(self.buffer@, j + self.position) by {
                        lemma_first_nul_shift(self.buffer@, self.position as int, j);
                    }
                }
                if remaining_len > 0 {
                    Some((&self.buffer[self.position..(self.position + remaining_len)], self.position))
                } else {
                    None
                }
            },
        }
    }
}

/// The first NUL of a suffix is the first NUL of the whole, shifted
pub proof fn lemma_first_nul_shift(s: Seq<u8>, off: int, j: int)
    requires
        0 <= off <= s.len(),
        0 <= j <= s.len() - off,
    ensures
        first_nul_from(s.subrange(off, s.len() as int), j) + off == first_nul_from(s, j + off),
    decreases s.len() - off - j,
{
    if j < s.len() - off {
        lemma_first_nul_shift(s, off, j + 1);
    }
}

/// Determines the length of the non-zero content in a raw buffer slice
pub fn content_len_raw(buf: &[u8]) -> (len: usize)
    ensures
        len == content_len(buf@),
{
    let mut len: usize = 0;
    while len < buf.len() && buf[len] != 0
        invariant
            len <= buf.len(),
            first_nul_from(buf@, 0) == first_nul_from(buf@, len as int),
        decreases buf.len() - len,
    {
        len += 1;
    }
    len
}

} // verus!
