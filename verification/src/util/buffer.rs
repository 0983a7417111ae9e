//! `Buffer`, a statically-sized working buffer that can additionally track
//! the length of its content when used in managed mode.

use vstd::prelude::*;
use vstd::string::StringSliceAdditionalSpecFns;
use crate::util::byte::{self, content_len_raw, is_whitespace};

verus! {

/// First index at or after `i` whose byte is not whitespace, or the length
pub open spec fn skip_ws_from(s: Seq<u8>, i: int) -> int
    decreases s.len() - i,
{
    if i < 0 || i >= s.len() {
        s.len() as int
    } else if byte::spec_is_whitespace(s[i]) {
        skip_ws_from(s, i + 1)
    } else {
        i
    }
}

/// Walking back from `e` (but not past `lo`), the first index whose byte is
/// not whitespace, or `lo`
pub open spec fn back_ws_from(s: Seq<u8>, lo: int, e: int) -> int
    decreases e - lo,
{
    if e > lo && byte::spec_is_whitespace(s[e]) {
        back_ws_from(s, lo, e - 1)
    } else {
        e
    }
}

/// Bounds of `s` without its leading and trailing whitespace
pub open spec fn trim_bounds(s: Seq<u8>) -> (int, int) {
    let lo = skip_ws_from(s, 0);
    if s.len() == 0 || lo == s.len() {
        (lo, lo)
    } else {
        (lo, back_ws_from(s, lo, s.len() - 1) + 1)
    }
}

/// `s` without its leading and trailing whitespace
pub open spec fn trim_spec(s: Seq<u8>) -> Seq<u8> {
    s.subrange(trim_bounds(s).0, trim_bounds(s).1)
}

/// Facts on the whitespace scans
pub proof fn lemma_skip_ws_facts(s: Seq<u8>, i: int)
    requires
        0 <= i <= s.len(),
    ensures
        i <= skip_ws_from(s, i) <= s.len(),
        skip_ws_from(s, i) < s.len() ==> !byte::spec_is_whitespace(s[skip_ws_from(s, i)]),
        forall|j: int| i <= j < skip_ws_from(s, i) ==> byte::spec_is_whitespace(s[j]),
    decreases s.len() - i,
{
    if i < s.len() && byte::spec_is_whitespace(s[i]) {
        lemma_skip_ws_facts(s, i + 1);
    }
}

/// Facts on the backward whitespace scan
pub proof fn lemma_back_ws_facts(s: Seq<u8>, lo: int, e: int)
    requires
        0 <= lo <= e < s.len(),
    ensures
        lo <= back_ws_from(s, lo, e) <= e,
        back_ws_from(s, lo, e) > lo ==> !byte::spec_is_whitespace(s[back_ws_from(s, lo, e)]),
        forall|j: int| back_ws_from(s, lo, e) < j <= e ==> byte::spec_is_whitespace(s[j]),
    decreases e - lo,
{
    if e > lo && byte::spec_is_whitespace(s[e]) {
        lemma_back_ws_facts(s, lo, e - 1);
    }
}

/// The trimmed bounds lie within the sequence
pub proof fn lemma_trim_bounds(s: Seq<u8>)
    ensures
        0 <= trim_bounds(s).0 <= trim_bounds(s).1 <= s.len(),
{
    lemma_skip_ws_facts(s, 0);
    if s.len() > 0 && skip_ws_from(s, 0) < s.len() {
        lemma_back_ws_facts(s, skip_ws_from(s, 0), s.len() - 1);
    }
}

/// Computes `trim_bounds` of `s[0..len]`
fn trim_bounds_exec(s: &[u8], len: usize) -> (r: (usize, usize))
    requires
        len <= s@.len(),
    ensures
        r.0 as int == trim_bounds(s@.subrange(0, len as int)).0,
        r.1 as int == trim_bounds(s@.subrange(0, len as int)).1,
{
    let ghost c = s@.subrange(0, len as int);
    let mut start: usize = 0;
    while start < len && is_whitespace(s[start])
        invariant
            start <= len <= s@.len(),
            c == s@.subrange(0, len as int),
            skip_ws_from(c, 0) == skip_ws_from(c, start as int),
        decreases len - start,
    {
        start += 1;
    }
    if len == 0 {
        return (start, start);
    }
    if start == len {
        return (start, start);
    }
    let mut end: usize = len - 1;
    while end > start && is_whitespace(s[end])
        invariant
            start <= end < len <= s@.len(),
            c == s@.subrange(0, len as int),
            start == skip_ws_from(c, 0),
            back_ws_from(c, start as int, len - 1) == back_ws_from(c, start as int, end as int),
        decreases end - start,
    {
        end -= 1;
    }
    (start, end + 1)
}

/// Working buffer of raw bytes. Can operate both in **managed** mode (where
/// it keeps track of length) and **unmanaged** mode (where it acts as a plain
/// byte buffer, whose content ends at the first NUL byte).
pub struct Buffer<const SIZE: usize> {
    pub len: usize,
    pub b: [u8; SIZE],
}

/// `s` with every position in `[lo, hi)` set to 0
pub open spec fn zeroed(s: Seq<u8>, lo: int, hi: int) -> Seq<u8> {
    Seq::new(s.len(), |i: int| if lo <= i < hi { 0u8 } else { s[i] })
}

/// Index of the last NUL byte of `s` strictly before `i`, or -1
pub open spec fn last_nul_before(s: Seq<u8>, i: int) -> int
    decreases i,
{
    if i <= 0 {
        -1
    } else if s[i - 1] == 0 {
        i - 1
    } else {
        last_nul_before(s, i - 1)
    }
}

/// `s` with the prefix of its first `n` bytes replaced by `data` (as many as
/// fit) and the number of bytes written
pub open spec fn written(s: Seq<u8>, data: Seq<u8>) -> (Seq<u8>, int) {
    let n = if data.len() <= s.len() { data.len() as int } else { s.len() as int };
    (data.subrange(0, n) + s.subrange(n, s.len() as int), n)
}

/// Operations on working buffers
pub trait BufferLike {
    /// The raw bytes of the buffer
    spec fn bytes(&self) -> Seq<u8>;

    /// The managed length of the content
    spec fn managed_len(&self) -> int;

    /// **(Managed)** Clears a buffer by setting each element to 0 until it
    /// reaches the end of the content
    fn clear(&mut self)
        requires
            old(self).managed_len() <= old(self).bytes().len(),
        ensures
            final(self).bytes() == zeroed(old(self).bytes(), 0, old(self).managed_len()),
            final(self).managed_len() == 0,
    ;

    /// **(Unmanaged)** Clears a buffer by setting each element to 0 until it
    /// reaches a 0 value, starting from the start of the buffer
    fn clear_unmanaged(&mut self)
        ensures
            final(self).bytes() == zeroed(old(self).bytes(), 0, byte::content_len(old(self).bytes())),
            final(self).managed_len() == 0,
    ;

    /// **(Unmanaged)** clears a buffer by setting each element to 0 until it
    /// reaches a 0 value, starting from the end of the buffer
    fn clear_unmanaged_backwards(&mut self)
        ensures
            final(self).bytes() == zeroed(
                old(self).bytes(),
                last_nul_before(old(self).bytes(), old(self).bytes().len() as int) + 1,
                old(self).bytes().len() as int,
            ),
            final(self).managed_len() == 0,
    ;

    /// **(Managed)** returns the content without leading and trailing
    /// whitespace
    fn trim(&self) -> (r: &[u8])
        requires
            self.managed_len() <= self.bytes().len(),
        ensures
            r@ == trim_spec(self.bytes().subrange(0, self.managed_len())),
    ;

    /// **(Unmanaged)** Finds the length of the buffer's contents, ended by a 0
    /// terminator
    fn unmanaged_len(&self) -> (r: usize)
        ensures
            r == byte::content_len(self.bytes()),
    ;

    /// **(Managed)** Gets a sub-slice of the buffer that only includes
    /// the managed content
    fn content(&self) -> (r: &[u8])
        requires
            self.managed_len() <= self.bytes().len(),
        ensures
            r@ == self.bytes().subrange(0, self.managed_len()),
    ;

    /// **(Unmanaged)** Gets a sub-slice of the buffer that only includes
    /// non-NUL characters
    fn content_unmanaged(&self) -> (r: &[u8])
        ensures
            r@ == self.bytes().subrange(0, byte::content_len(self.bytes())),
    ;
}

impl<const SIZE: usize> Buffer<SIZE> {
    /// An empty buffer: no content and all bytes 0
    pub fn new() -> (r: Self)
        ensures
            r.len == 0,
            r.b@ == Seq::new(SIZE as nat, |i: int| 0u8),
    {
        let r = Buffer { len: 0, b: [0u8; SIZE] };
        assert(r.b@ =~= Seq::new(SIZE as nat, |i: int| 0u8));
        r
    }

    /// Copies the bytes of `src` into a new buffer, truncating to its size
    pub fn from_str_truncate(src: &str) -> (r: Self)
        ensures
            r.len == if src.spec_bytes().len() <= SIZE {
                src.spec_bytes().len() as int
            } else {
                SIZE as int
            },
            r.b@ == written(Seq::new(SIZE as nat, |i: int| 0u8), src.spec_bytes()).0,
    {
        let mut buffer = Self::new();
        let bytes = src.as_bytes();
        let mut len: usize = 0;
        while len < bytes.len() && len < SIZE
            invariant
                len <= bytes@.len(),
                len <= SIZE,
                bytes@ == src.spec_bytes(),
                buffer.b@.len() == SIZE,
                forall|i: int| 0 <= i < len ==> buffer.b@[i] == bytes@[i],
                forall|i: int| len <= i < SIZE ==> buffer.b@[i] == 0u8,
            decreases SIZE - len,
        {
            buffer.b[len] = bytes[len];
            len += 1;
        }
        buffer.len = len;
        assert(buffer.b@ =~= written(Seq::new(SIZE as nat, |i: int| 0u8), src.spec_bytes()).0);
        buffer
    }

    /// Writes `data` at the start of the buffer, as much of it as fits, and
    /// returns the number of bytes written
    pub fn write(&mut self, data: &[u8]) -> (n: usize)
        ensures
            final(self).b@ == written(old(self).b@, data@).0,
            n == written(old(self).b@, data@).1,
            final(self).len == old(self).len,
    {
        let mut i: usize = 0;
        while i < data.len() && i < SIZE
            invariant
                i <= data@.len(),
                i <= SIZE,
                self.b@.len() == SIZE,
                self.len == old(self).len,
                forall|j: int| 0 <= j < i ==> self.b@[j] == data@[j],
                forall|j: int| i <= j < SIZE ==> self.b@[j] == old(self).b@[j],
            decreases SIZE - i,
        {
            self.b[i] = data[i];
            i += 1;
        }
        assert(self.b@ =~= written(old(self).b@, data@).0);
        i
    }
}

impl<const SIZE: usize> BufferLike for Buffer<SIZE> {
    open spec fn bytes(&self) -> Seq<u8> {
        self.b@
    }

    open spec fn managed_len(&self) -> int {
        self.len as int
    }

    fn trim(&self) -> (r: &[u8]) {
        let s = self.b.as_slice();
        let (start, end) = trim_bounds_exec(s, self.len);
        proof {
            lemma_trim_bounds(s@.subrange(0, self.len as int));
        }
        let r = &s[start..end];
        assert(r@ =~= trim_spec(self.bytes().subrange(0, self.managed_len())));
        r
    }

    fn content_unmanaged(&self) -> (r: &[u8]) {
        let s = self.b.as_slice();
        let end = content_len_raw(s);
        proof {
            byte::lemma_first_nul_facts(s@, 0);
        }
        &s[0..end]
    }

    fn content(&self) -> (r: &[u8]) {
        let s = self.b.as_slice();
        &s[0..self.len]
    }

    fn clear(&mut self) {
        let mut i: usize = 0;
        while i < self.len
            invariant
                i <= self.len,
                self.len == old(self).len,
                self.len <= SIZE,
                self.b@.len() == SIZE,
                forall|j: int| 0 <= j < i ==> self.b@[j] == 0u8,
                forall|j: int| i <= j < SIZE ==> self.b@[j] == old(self).b@[j],
            decreases self.len - i,
        {
            self.b[i] = 0u8;
            i += 1;
        }
        self.len = 0;
        assert(self.b@ =~= zeroed(old(self).b@, 0, old(self).len as int));
    }

    fn clear_unmanaged(&mut self) {
        let ghost s = self.b@;
        let mut i: usize = 0;
        proof {
            byte::lemma_first_nul_facts(s, 0);
        }
        while i < SIZE && self.b[i] != 0u8
            invariant
                i <= SIZE,
                s == old(self).b@,
                s.len() == SIZE,
                self.b@.len() == SIZE,
                i <= byte::content_len(s) <= s.len(),
                forall|j: int| 0 <= j < i ==> self.b@[j] == 0u8,
                forall|j: int| i <= j < SIZE ==> self.b@[j] == s[j],
                forall|j: int| 0 <= j < byte::content_len(s) ==> #[trigger] s[j] != 0,
                byte::content_len(s) < s.len() ==> s[byte::content_len(s)] == 0,
            decreases SIZE - i,
        {
            self.b[i] = 0u8;
            i += 1;
        }
        if i < SIZE {
            assert(self.b@[i as int] == s[i as int]);
            assert(s[i as int] == 0);
        }
        assert(i == byte::content_len(s));
        self.len = 0;
        assert(self.b@ =~= zeroed(s, 0, byte::content_len(s)));
    }

    fn clear_unmanaged_backwards(&mut self) {
        let ghost s = self.b@;
        let mut i: usize = SIZE;
        while i > 0 && self.b[i - 1] != 0u8
            invariant
                i <= SIZE,
                s == old(self).b@,
                s.len() == SIZE,
                self.b@.len() == SIZE,
                last_nul_before(s, i as int) == last_nul_before(s, SIZE as int),
                forall|j: int| i <= j < SIZE ==> self.b@[j] == 0u8,
                forall|j: int| 0 <= j < i ==> self.b@[j] == s[j],
            decreases i,
        {
            self.b[i - 1] = 0u8;
            i -= 1;
        }
        self.len = 0;
        assert(self.b@ =~= zeroed(s, last_nul_before(s, SIZE as int) + 1, SIZE as int));
    }

    fn unmanaged_len(&self) -> (r: usize) {
        content_len_raw(self.b.as_slice())
    }
}

/// What `trim_raw` gives for `buf`: the trimmed content, or the first byte
/// when there is no content
pub open spec fn trim_raw_spec(buf: Seq<u8>) -> Seq<u8> {
    if byte::content_len(buf) == 0 {
        buf.subrange(0, 1)
    } else {
        trim_spec(buf.subrange(0, byte::content_len(buf)))
    }
}

/// Trims a raw buffer slice to not include any starting or ending whitespace.
/// The content ends at the first NUL byte; when there is none, the result is
/// the first byte of the slice.
pub fn trim_raw(buf: &[u8]) -> (r: &[u8])
    requires
        buf@.len() > 0,
    ensures
        r@ == trim_raw_spec(buf@),
{
    let len: usize = content_len_raw(buf);
    proof {
        byte::lemma_first_nul_facts(buf@, 0);
    }
    if len == 0 {
        return &buf[0..1];
    }
    let (start, end) = trim_bounds_exec(buf, len);
    proof {
        lemma_trim_bounds(buf@.subrange(0, len as int));
    }
    let r = &buf[start..end];
    assert(r@ =~= trim_spec(buf@.subrange(0, len as int)));
    r
}

} // verus!
