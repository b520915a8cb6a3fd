//! The text store: a gap buffer over raw bytes with a line-start index.
use vstd::prelude::*;
use vstd::string::*;
use vstd::utf8::*;

use crate::text::{lossy_of, lossy_string, utf8_str};

verus! {

/// Gap preallocated by `new` and the least amount by which the gap grows.
pub const INITIAL_GAP: usize = 1024;

/// Largest content length for which an insertion is guaranteed to fit in memory
/// arithmetic (the buffer array, gap included, stays below `usize::MAX`).
pub const MAX_CONTENT: usize = usize::MAX / 4;

pub open spec fn is_newline(b: u8) -> bool {
    b == 10u8
}

/// Start offsets of the lines of the first `n` bytes of `c`: `0`, then one past
/// each newline, in order.
pub open spec fn line_starts_upto(c: Seq<u8>, n: nat) -> Seq<int>
    decreases n,
{
    if n == 0 {
        seq![0int]
    } else {
        let prev = line_starts_upto(c, (n - 1) as nat);
        if is_newline(c[n - 1]) {
            prev.push(n as int)
        } else {
            prev
        }
    }
}

/// Start offsets of all lines of `c`.
pub open spec fn line_starts(c: Seq<u8>) -> Seq<int> {
    line_starts_upto(c, c.len())
}

/// Number of lines of `c`: one more than the number of newlines.
pub open spec fn line_count_of(c: Seq<u8>) -> nat {
    line_starts(c).len()
}

/// Offset at which line `l` starts.
pub open spec fn line_start_of(c: Seq<u8>, l: int) -> int {
    line_starts(c)[l]
}

/// Offset at which line `l` ends: before its terminating newline, or at the end
/// of `c` for the last line.
pub open spec fn line_end_of(c: Seq<u8>, l: int) -> int {
    if l + 1 < line_count_of(c) {
        line_starts(c)[l + 1] - 1
    } else {
        c.len() as int
    }
}

/// Byte length of line `l`, its newline excluded.
pub open spec fn line_len_of(c: Seq<u8>, l: int) -> int {
    line_end_of(c, l) - line_start_of(c, l)
}

/// Bytes of line `l`, its newline excluded.
pub open spec fn line_of(c: Seq<u8>, l: int) -> Seq<u8> {
    c.subrange(line_start_of(c, l), line_end_of(c, l))
}

/// `c` with `t` inserted at `pos`, clamped to the end.
pub open spec fn insert_spec(c: Seq<u8>, pos: int, t: Seq<u8>) -> Seq<u8> {
    let p = if pos < c.len() { pos } else { c.len() as int };
    c.subrange(0, p) + t + c.subrange(p, c.len() as int)
}

/// How many bytes a deletion of `len` bytes at `pos` actually removes.
pub open spec fn removed_count(c: Seq<u8>, pos: int, len: int) -> int {
    if len <= 0 || pos >= c.len() {
        0
    } else if len < c.len() - pos {
        len
    } else {
        c.len() - pos
    }
}

/// `c` after deleting `len` bytes at `pos`, clamped to the end.
pub open spec fn delete_spec(c: Seq<u8>, pos: int, len: int) -> Seq<u8> {
    let n = removed_count(c, pos, len);
    if n == 0 {
        c
    } else {
        c.subrange(0, pos) + c.subrange(pos + n, c.len() as int)
    }
}

/// Length in bytes of the UTF-8 sequence that a lead byte announces.
/// The bytes of `c` from `start` to `end`, both clamped into range.
pub open spec fn clamped_slice(c: Seq<u8>, start: int, end: int) -> Seq<u8> {
    let s = if start < c.len() { start } else { c.len() as int };
    let e = if end < s { s } else if end < c.len() { end } else { c.len() as int };
    c.subrange(s, e)
}

pub open spec fn char_len_of(b: u8) -> int {
    if b & 0x80 == 0 {
        1
    } else if b & 0xE0 == 0xC0 {
        2
    } else if b & 0xF0 == 0xE0 {
        3
    } else {
        4
    }
}

pub proof fn lemma_line_starts_upto(c: Seq<u8>, n: nat)
    requires
        n <= c.len(),
    ensures
        1 <= line_starts_upto(c, n).len() <= n + 1,
        line_starts_upto(c, n)[0] == 0,
        forall|i: int, j: int|
            0 <= i < j < line_starts_upto(c, n).len() ==> line_starts_upto(c, n)[i]
                < line_starts_upto(c, n)[j],
        forall|i: int|
            0 <= i < line_starts_upto(c, n).len() ==> 0 <= #[trigger] line_starts_upto(c, n)[i]
                <= n,
        forall|i: int|
            1 <= i < line_starts_upto(c, n).len() ==> is_newline(
                c[#[trigger] line_starts_upto(c, n)[i] - 1],
            ),
    decreases n,
{
    if n > 0 {
        lemma_line_starts_upto(c, (n - 1) as nat);
    }
}

/// The line-start index of any content: starts at 0, strictly increasing,
/// within the content, each later entry one past a newline.
pub proof fn lemma_line_starts(c: Seq<u8>)
    ensures
        1 <= line_starts(c).len() <= c.len() + 1,
        line_starts(c)[0] == 0,
        forall|i: int, j: int|
            0 <= i < j < line_starts(c).len() ==> line_starts(c)[i] < line_starts(c)[j],
        forall|i: int|
            0 <= i < line_starts(c).len() ==> 0 <= #[trigger] line_starts(c)[i] <= c.len(),
        forall|i: int|
            1 <= i < line_starts(c).len() ==> is_newline(c[#[trigger] line_starts(c)[i] - 1]),
{
    lemma_line_starts_upto(c, c.len());
}

/// Bounds of every line: `0 <= start <= end <= len`.
pub proof fn lemma_line_bounds(c: Seq<u8>, l: int)
    requires
        0 <= l < line_count_of(c),
    ensures
        0 <= line_start_of(c, l) <= line_end_of(c, l) <= c.len(),
        line_of(c, l).len() == line_len_of(c, l),
        l == 0 ==> line_start_of(c, l) == 0,
        l + 1 < line_count_of(c) ==> line_end_of(c, l) + 1 == line_start_of(c, l + 1),
{
    lemma_line_starts(c);
    if l + 1 < line_count_of(c) {
        assert(line_starts(c)[l] < line_starts(c)[l + 1]);
    }
}

/// Copies `count` elements from `src` to `dst` within `data`; the two ranges
/// may overlap.
fn copy_within(data: &mut Vec<u8>, src: usize, dst: usize, count: usize)
    requires
        src + count <= old(data)@.len(),
        dst + count <= old(data)@.len(),
    ensures
        final(data)@.len() == old(data)@.len(),
        forall|k: int|
            dst <= k < dst + count ==> #[trigger] final(data)@[k] == old(data)@[k - dst + src],
        forall|k: int|
            0 <= k < old(data)@.len() && !(dst <= k < dst + count) ==> #[trigger] final(data)@[k]
                == old(data)@[k],
{
    let ghost orig = data@;
    let total = data.len();
    if dst <= src {
        let mut i: usize = 0;
        while i < count
            invariant
                i <= count,
                src + count <= orig.len(),
                dst + count <= orig.len(),
                orig.len() == total,
                dst <= src,
                data@.len() == orig.len(),
                forall|k: int| dst <= k < dst + i ==> #[trigger] data@[k] == orig[k - dst + src],
                forall|k: int|
                    0 <= k < orig.len() && !(dst <= k < dst + i) ==> #[trigger] data@[k]
                        == orig[k],
            decreases count - i,
        {
            let b = data[src + i];
            data.set(dst + i, b);
            i += 1;
        }
    } else {
        let mut i: usize = count;
        while i > 0
            invariant
                i <= count,
                src + count <= orig.len(),
                dst + count <= orig.len(),
                orig.len() == total,
                src < dst,
                data@.len() == orig.len(),
                forall|k: int|
                    dst + i <= k < dst + count ==> #[trigger] data@[k] == orig[k - dst + src],
                forall|k: int|
                    0 <= k < orig.len() && !(dst + i <= k < dst + count) ==> #[trigger] data@[k]
                        == orig[k],
            decreases i,
        {
            i -= 1;
            let b = data[src + i];
            data.set(dst + i, b);
        }
    }
}

/// Writes `bytes` into `data` starting at `at`.
fn write_bytes(data: &mut Vec<u8>, at: usize, bytes: &[u8])
    requires
        at + bytes@.len() <= old(data)@.len(),
    ensures
        final(data)@.len() == old(data)@.len(),
        forall|k: int| at <= k < at + bytes@.len() ==> #[trigger] final(data)@[k] == bytes@[k - at],
        forall|k: int|
            0 <= k < old(data)@.len() && !(at <= k < at + bytes@.len())
                ==> #[trigger] final(data)@[k] == old(data)@[k],
{
    let ghost orig = data@;
    let total = data.len();
    let n = bytes.len();
    let mut i: usize = 0;
    while i < n
        invariant
            i <= n,
            n == bytes@.len(),
            at + n <= orig.len(),
            orig.len() == total,
            data@.len() == orig.len(),
            forall|k: int| at <= k < at + i ==> #[trigger] data@[k] == bytes@[k - at],
            forall|k: int| 0 <= k < orig.len() && !(at <= k < at + i) ==> #[trigger] data@[k] == orig[k],
        decreases n - i,
    {
        data.set(at + i, bytes[i]);
        i += 1;
    }
}

/// An edit of the content, as `insert` and `delete` perform it.
pub enum Edit {
    Insert { pos: nat, bytes: Seq<u8> },
    Delete { pos: nat, len: nat },
}

pub open spec fn apply_edit(c: Seq<u8>, e: Edit) -> Seq<u8> {
    match e {
        Edit::Insert { pos, bytes } => insert_spec(c, pos as int, bytes),
        Edit::Delete { pos, len } => delete_spec(c, pos as int, len as int),
    }
}

/// `c` after the edits `es`, in order.
pub open spec fn apply_edits(c: Seq<u8>, es: Seq<Edit>) -> Seq<u8>
    decreases es.len(),
{
    if es.len() == 0 {
        c
    } else {
        apply_edit(apply_edits(c, es.drop_last()), es.last())
    }
}

/// Total number of bytes that the insertions of `es` insert.
pub open spec fn inserted_total(es: Seq<Edit>) -> int
    decreases es.len(),
{
    if es.len() == 0 {
        0
    } else {
        inserted_total(es.drop_last()) + match es.last() {
            Edit::Insert { pos, bytes } => bytes.len() as int,
            Edit::Delete { .. } => 0,
        }
    }
}

/// Total number of bytes that the deletions of `es`, applied from `c`,
/// actually remove.
pub open spec fn removed_total(c: Seq<u8>, es: Seq<Edit>) -> int
    decreases es.len(),
{
    if es.len() == 0 {
        0
    } else {
        removed_total(c, es.drop_last()) + match es.last() {
            Edit::Insert { .. } => 0,
            Edit::Delete { pos, len } => removed_count(
                apply_edits(c, es.drop_last()),
                pos as int,
                len as int,
            ),
        }
    }
}

/// After any sequence of insertions and deletions, the length is the
/// starting length plus the bytes inserted minus the bytes actually removed.
pub proof fn lemma_len_after_edits(c: Seq<u8>, es: Seq<Edit>)
    ensures
        apply_edits(c, es).len() == c.len() + inserted_total(es) - removed_total(c, es),
    decreases es.len(),
{
    if es.len() > 0 {
        let init = es.drop_last();
        lemma_len_after_edits(c, init);
        let d = apply_edits(c, init);
        match es.last() {
            Edit::Insert { pos, bytes } => {
                assert(insert_spec(d, pos as int, bytes).len() == d.len() + bytes.len());
            },
            Edit::Delete { pos, len } => {
                assert(delete_spec(d, pos as int, len as int).len() == d.len() - removed_count(
                    d,
                    pos as int,
                    len as int,
                ));
            },
        }
    }
}

pub struct Buffer {
    data: Vec<u8>,
    gap_start: usize,
    gap_end: usize,
    lines: Vec<usize>,
    modified: bool,
    file_path: Option<String>,
}

impl View for Buffer {
    type V = Seq<u8>;

    /// The logical content: the bytes before the gap followed by those after it.
    closed spec fn view(&self) -> Seq<u8> {
        self.data@.subrange(0, self.gap_start as int) + self.data@.subrange(
            self.gap_end as int,
            self.data@.len() as int,
        )
    }
}

impl Buffer {
    /// Internal consistency: the gap lies within the array and the line index
    /// is the line-start index of the content.
    pub closed spec fn wf(&self) -> bool {
        &&& self.gap_ok()
        &&& self@.len() <= MAX_CONTENT
        &&& self.lines@.len() == line_starts(self@).len()
        &&& forall|i: int|
            0 <= i < self.lines@.len() ==> #[trigger] self.lines@[i] as int == line_starts(
                self@,
            )[i]
    }

    pub closed spec fn gap_ok(&self) -> bool {
        self.gap_start <= self.gap_end <= self.data@.len()
    }

    /// The content of a well-formed buffer never exceeds `MAX_CONTENT` bytes.
    pub proof fn lemma_len_bound(&self)
        requires
            self.wf(),
        ensures
            self@.len() <= MAX_CONTENT,
    {
    }

    pub closed spec fn spec_modified(&self) -> bool {
        self.modified
    }

    pub closed spec fn spec_file_path(&self) -> Option<String> {
        self.file_path
    }

    /// An empty buffer with no file attached.
    pub fn new() -> (r: Buffer)
        ensures
            r.wf(),
            r@ == Seq::<u8>::empty(),
            !r.spec_modified(),
            r.spec_file_path() is None,
    {
        let data = vec![0u8; INITIAL_GAP];
        let r = Buffer {
            data,
            gap_start: 0,
            gap_end: INITIAL_GAP,
            lines: vec![0],
            modified: false,
            file_path: None,
        };
        assert(r@ =~= Seq::<u8>::empty());
        r
    }

    pub fn len(&self) -> (r: usize)
        requires
            self.wf(),
        ensures
            r == self@.len(),
    {
        self.content_len()
    }

    pub fn is_empty(&self) -> (r: bool)
        requires
            self.wf(),
        ensures
            r == (self@.len() == 0),
    {
        self.len() == 0
    }

    pub fn is_modified(&self) -> (r: bool)
        ensures
            r == self.spec_modified(),
    {
        self.modified
    }

    /// Clears the modified flag after the content was written out.
    pub fn mark_saved(&mut self)
        ensures
            final(self)@ == old(self)@,
            final(self).wf() == old(self).wf(),
            !final(self).spec_modified(),
            final(self).spec_file_path() == old(self).spec_file_path(),
    {
        self.modified = false;
    }

    pub fn file_path(&self) -> (r: Option<&String>)
        ensures
            r == (match self.spec_file_path() {
                Some(p) => Some(&p),
                None => None::<&String>,
            }),
    {
        match &self.file_path {
            Some(p) => Some(p),
            None => None,
        }
    }

    fn content_len(&self) -> (r: usize)
        requires
            self.gap_ok(),
        ensures
            r == self@.len(),
    {
        self.data.len() - self.gap_len()
    }

    fn gap_len(&self) -> (r: usize)
        requires
            self.gap_ok(),
        ensures
            r == self.gap_end - self.gap_start,
    {
        self.gap_end - self.gap_start
    }

    fn logical_to_physical(&self, pos: usize) -> (r: usize)
        requires
            self.gap_ok(),
            pos < self@.len(),
        ensures
            r < self.data@.len(),
            self.data@[r as int] == self@[pos as int],
    {
        if pos < self.gap_start {
            pos
        } else {
            let g = self.gap_len();
            let n = self.data.len();
            assert(self@.len() == n - g);
            pos + g
        }
    }

    fn raw_byte_at(&self, pos: usize) -> (r: u8)
        requires
            self.gap_ok(),
            pos < self@.len(),
        ensures
            r == self@[pos as int],
    {
        self.data[self.logical_to_physical(pos)]
    }

    /// The byte at `pos`, or `None` past the end.
    pub fn byte_at(&self, pos: usize) -> (r: Option<u8>)
        requires
            self.wf(),
        ensures
            r == (if pos < self@.len() {
                Some(self@[pos as int])
            } else {
                None::<u8>
            }),
    {
        if pos >= self.len() {
            return None;
        }
        Some(self.raw_byte_at(pos))
    }

    /// Moves the gap so that it starts at `pos`; the content is unchanged.
    fn move_gap(&mut self, pos: usize)
        requires
            old(self).gap_ok(),
            pos <= old(self)@.len(),
        ensures
            final(self).gap_ok(),
            final(self)@ == old(self)@,
            final(self).gap_start == pos,
            final(self).gap_end - final(self).gap_start == old(self).gap_end - old(self).gap_start,
            final(self).data@.len() == old(self).data@.len(),
            final(self).lines == old(self).lines,
            final(self).modified == old(self).modified,
            final(self).file_path == old(self).file_path,
    {
        let ghost c = self@;
        if pos == self.gap_start {
            return;
        }
        if pos < self.gap_start {
            let count = self.gap_start - pos;
            let dst = self.gap_end - count;
            copy_within(&mut self.data, pos, dst, count);
            self.gap_start = pos;
            self.gap_end = dst;
        } else {
            let count = pos - self.gap_start;
            let src = self.gap_end;
            let total = self.data.len();
            assert(self@.len() == self.data@.len() - (self.gap_end - self.gap_start));
            copy_within(&mut self.data, src, self.gap_start, count);
            self.gap_start = pos;
            self.gap_end = src + count;
        }
        assert(self@ =~= c);
    }

    /// Grows the gap, if needed, so that it holds at least `needed` bytes; the
    /// content is unchanged.
    fn ensure_gap(&mut self, needed: usize)
        requires
            old(self).gap_ok(),
            old(self)@.len() + needed <= MAX_CONTENT,
        ensures
            final(self).gap_ok(),
            final(self)@ == old(self)@,
            final(self).gap_end - final(self).gap_start >= needed,
            final(self).lines == old(self).lines,
            final(self).modified == old(self).modified,
            final(self).file_path == old(self).file_path,
    {
        let ghost c = self@;
        if self.gap_len() >= needed {
            return;
        }
        let len = self.content_len();
        let quarter = len / 4;
        let mut grow = if INITIAL_GAP < quarter {
            quarter
        } else {
            INITIAL_GAP
        };
        if grow < needed {
            grow = needed;
        }
        let old_len = self.data.len();
        let after_gap = old_len - self.gap_end;
        let ghost before = self.data@;
        self.data.resize(old_len + grow, 0);
        assert(forall|k: int| 0 <= k < old_len ==> self.data@[k] == before[k]) by {
            assert(self.data@.subrange(0, old_len as int) == before);
            assert forall|k: int| 0 <= k < old_len implies self.data@[k] == before[k] by {
                assert(self.data@.subrange(0, old_len as int)[k] == self.data@[k]);
            }
        }
        if after_gap > 0 {
            let new_after_start = self.data.len() - after_gap;
            copy_within(&mut self.data, self.gap_end, new_after_start, after_gap);
            self.gap_end = new_after_start;
        } else {
            self.gap_end = self.data.len();
        }
        assert(self@ =~= c);
    }

    /// Recomputes the line-start index from the content.
    fn rebuild_lines(&mut self)
        requires
            old(self).gap_ok(),
            old(self)@.len() <= MAX_CONTENT,
        ensures
            final(self).wf(),
            final(self)@ == old(self)@,
            final(self).modified == old(self).modified,
            final(self).file_path == old(self).file_path,
    {
        let mut lines: Vec<usize> = Vec::new();
        lines.push(0);
        let total = self.content_len();
        let mut i: usize = 0;
        while i < total
            invariant
                self.gap_ok(),
                total == self@.len(),
                i <= total,
                lines@.len() == line_starts_upto(self@, i as nat).len(),
                forall|k: int|
                    0 <= k < lines@.len() ==> #[trigger] lines@[k] as int == line_starts_upto(
                        self@,
                        i as nat,
                    )[k],
            decreases total - i,
        {
            if self.raw_byte_at(i) == 10u8 {
                lines.push(i + 1);
            }
            i += 1;
        }
        self.lines = lines;
    }

    /// Inserts `text` at `pos`, clamped to the end of the content.
    pub fn insert(&mut self, pos: usize, text: &str)
        requires
            old(self).wf(),
            old(self)@.len() + text.spec_bytes().len() <= MAX_CONTENT,
        ensures
            final(self).wf(),
            final(self)@ == insert_spec(old(self)@, pos as int, text.spec_bytes()),
            final(self)@.len() == old(self)@.len() + text.spec_bytes().len(),
            final(self).spec_modified(),
            final(self).spec_file_path() == old(self).spec_file_path(),
    {
        let ghost c = self@;
        let len = self.len();
        let p = if pos < len {
            pos
        } else {
            len
        };
        let bytes = text.as_bytes();
        let n = bytes.len();
        self.ensure_gap(n);
        self.move_gap(p);
        let ghost mid = self.data@;
        write_bytes(&mut self.data, self.gap_start, bytes);
        self.gap_start = self.gap_start + n;
        assert(self@ =~= insert_spec(c, pos as int, text.spec_bytes()));
        self.modified = true;
        self.rebuild_lines();
    }

    /// Deletes up to `len` bytes at `pos` and returns them as text. Nothing
    /// happens when `len` is zero or `pos` is at or past the end.
    pub fn delete(&mut self, pos: usize, len: usize) -> (r: String)
        requires
            old(self).wf(),
        ensures
            final(self).wf(),
            final(self)@ == delete_spec(old(self)@, pos as int, len as int),
            final(self)@.len() == old(self)@.len() - removed_count(old(self)@, pos as int, len as int),
            removed_count(old(self)@, pos as int, len as int) == 0 ==> r@ == Seq::<char>::empty(),
            removed_count(old(self)@, pos as int, len as int) > 0 ==> r@ == lossy_of(
                old(self)@.subrange(
                    pos as int,
                    pos + removed_count(old(self)@, pos as int, len as int),
                ),
            ),
            ({
                let removed = old(self)@.subrange(
                    pos as int,
                    pos + removed_count(old(self)@, pos as int, len as int),
                );
                removed_count(old(self)@, pos as int, len as int) > 0 && valid_utf8(removed)
                    ==> encode_utf8(r@) == removed
            }),
            final(self).spec_modified() == (old(self).spec_modified() || removed_count(
                old(self)@,
                pos as int,
                len as int,
            ) > 0),
            final(self).spec_file_path() == old(self).spec_file_path(),
    {
        let ghost c = self@;
        let total = self.len();
        if len == 0 || pos >= total {
            return String::new();
        }
        let n = if len < total - pos {
            len
        } else {
            total - pos
        };
        let deleted = self.slice_bytes(pos, pos + n);
        self.move_gap(pos);
        let total_len = self.data.len();
        assert(self@.len() == self.data@.len() - (self.gap_end - self.gap_start));
        self.gap_end = self.gap_end + n;
        assert(self@ =~= delete_spec(c, pos as int, len as int));
        self.modified = true;
        self.rebuild_lines();
        lossy_string(deleted.as_slice())
    }

    /// The bytes from `start` to `end`, both clamped to the content.
    pub fn slice_bytes(&self, start: usize, end: usize) -> (r: Vec<u8>)
        requires
            self.wf(),
        ensures
            r@ == clamped_slice(self@, start as int, end as int),
    {
        let total = self.content_len();
        let s = if start < total {
            start
        } else {
            total
        };
        let e = if end < s {
            s
        } else if end < total {
            end
        } else {
            total
        };
        let mut out: Vec<u8> = Vec::new();
        let mut i = s;
        while i < e
            invariant
                self.gap_ok(),
                total == self@.len(),
                s <= i <= e <= total,
                out@ == self@.subrange(s as int, i as int),
            decreases e - i,
        {
            out.push(self.raw_byte_at(i));
            i += 1;
            assert(out@ =~= self@.subrange(s as int, i as int));
        }
        out
    }

    /// The text from `start` to `end`, both clamped to the content.
    pub fn slice(&self, start: usize, end: usize) -> (r: String)
        requires
            self.wf(),
        ensures
            r@ == lossy_of(clamped_slice(self@, start as int, end as int)),
            valid_utf8(clamped_slice(self@, start as int, end as int)) ==> encode_utf8(r@)
                == clamped_slice(self@, start as int, end as int),
    {
        let b = self.slice_bytes(start, end);
        lossy_string(b.as_slice())
    }

    /// The whole content as bytes.
    pub fn text_bytes(&self) -> (r: Vec<u8>)
        requires
            self.wf(),
        ensures
            r@ == self@,
    {
        let total = self.len();
        let r = self.slice_bytes(0, total);
        assert(r@ =~= self@);
        r
    }

    /// The whole content as text.
    pub fn text(&self) -> (r: String)
        requires
            self.wf(),
        ensures
            r@ == lossy_of(self@),
            valid_utf8(self@) ==> encode_utf8(r@) == self@,
    {
        let b = self.text_bytes();
        lossy_string(b.as_slice())
    }

    pub fn line_count(&self) -> (r: usize)
        requires
            self.wf(),
        ensures
            r == line_count_of(self@),
    {
        self.lines.len()
    }

    /// Offset at which line `line` starts, or `None` past the last line.
    pub fn line_start(&self, line: usize) -> (r: Option<usize>)
        requires
            self.wf(),
        ensures
            r == (if line < line_count_of(self@) {
                Some(line_start_of(self@, line as int) as usize)
            } else {
                None::<usize>
            }),
    {
        if line < self.lines.len() {
            Some(self.lines[line])
        } else {
            None
        }
    }

    /// Offset at which line `line` ends (before its newline), or `None` past
    /// the last line.
    pub fn line_end(&self, line: usize) -> (r: Option<usize>)
        requires
            self.wf(),
        ensures
            r == (if line < line_count_of(self@) {
                Some(line_end_of(self@, line as int) as usize)
            } else {
                None::<usize>
            }),
    {
        if line >= self.lines.len() {
            return None;
        }
        proof {
            lemma_line_bounds(self@, line as int);
        }
        if line + 1 < self.lines.len() {
            Some(self.lines[line + 1] - 1)
        } else {
            Some(self.len())
        }
    }

    /// The bytes of line `line` without its newline; empty past the last line.
    pub fn line_bytes(&self, line: usize) -> (r: Vec<u8>)
        requires
            self.wf(),
        ensures
            line < line_count_of(self@) ==> r@ == line_of(self@, line as int),
            line >= line_count_of(self@) ==> r@.len() == 0,
    {
        let total = self.len();
        if line >= self.lines.len() {
            return Vec::new();
        }
        proof {
            lemma_line_bounds(self@, line as int);
        }
        match (self.line_start(line), self.line_end(line)) {
            (Some(s), Some(e)) => self.slice_bytes(s, e),
            _ => Vec::new(),
        }
    }

    /// The text of line `line` without its newline, or `None` past the last
    /// line.
    pub fn get_line(&self, line: usize) -> (r: Option<String>)
        requires
            self.wf(),
        ensures
            r is Some <==> line < line_count_of(self@),
            r is Some ==> r->0@ == lossy_of(line_of(self@, line as int)),
            r is Some && valid_utf8(line_of(self@, line as int)) ==> encode_utf8(r->0@) == line_of(
                self@,
                line as int,
            ),
    {
        if line >= self.line_count() {
            return None;
        }
        let b = self.line_bytes(line);
        Some(lossy_string(b.as_slice()))
    }

    /// The line that holds byte `byte_pos`: the last line whose start is at
    /// or before it.
    pub fn byte_to_line(&self, byte_pos: usize) -> (r: usize)
        requires
            self.wf(),
        ensures
            r < line_count_of(self@),
            line_start_of(self@, r as int) <= byte_pos,
            r + 1 < line_count_of(self@) ==> byte_pos < line_start_of(self@, r + 1),
    {
        proof {
            lemma_line_starts(self@);
        }
        let ghost ls = line_starts(self@);
        // Binary search for the last start <= byte_pos; lines[0] == 0.
        let mut lo: usize = 0;
        let mut hi: usize = self.lines.len();
        while lo + 1 < hi
            invariant
                self.wf(),
                ls == line_starts(self@),
                ls[0] == 0,
                forall|i: int, j: int| 0 <= i < j < ls.len() ==> ls[i] < ls[j],
                0 <= lo < hi <= ls.len(),
                ls[lo as int] <= byte_pos,
                hi < ls.len() ==> byte_pos < ls[hi as int],
            decreases hi - lo,
        {
            let mid = lo + (hi - lo) / 2;
            if self.lines[mid] <= byte_pos {
                lo = mid;
            } else {
                hi = mid;
            }
        }
        lo
    }

    /// The character that starts at `byte_pos`: the bytes announced by its
    /// lead byte, when they are all present and form valid UTF-8.
    pub fn char_at(&self, byte_pos: usize) -> (r: Option<char>)
        requires
            self.wf(),
        ensures
            r == (if byte_pos < self@.len() && byte_pos + char_len_of(self@[byte_pos as int])
                <= self@.len() && valid_utf8(
                self@.subrange(
                    byte_pos as int,
                    byte_pos + char_len_of(self@[byte_pos as int]),
                ),
            ) {
                Some(
                    decode_utf8(
                        self@.subrange(
                            byte_pos as int,
                            byte_pos + char_len_of(self@[byte_pos as int]),
                        ),
                    )[0],
                )
            } else {
                None::<char>
            }),
    {
        let total = self.len();
        if byte_pos >= total {
            return None;
        }
        let first = self.raw_byte_at(byte_pos);
        let n = utf8_char_len(first);
        if n > total - byte_pos {
            return None;
        }
        let bytes = self.slice_bytes(byte_pos, byte_pos + n);
        match utf8_str(bytes.as_slice()) {
            Some(s) => {
                proof {
                    assert(bytes@.len() > 0);
                    assert(decode_utf8(bytes@).len() > 0);
                }
                Some(s.as_str().get_char(0))
            },
            None => None,
        }
    }

    /// A buffer holding `content`, loaded from the file at `path`, unmodified.
    pub fn load(content: &[u8], path: Option<String>) -> (r: Buffer)
        requires
            content@.len() <= MAX_CONTENT,
        ensures
            r.wf(),
            r@ == content@,
            !r.spec_modified(),
            r.spec_file_path() == path,
    {
        let len = content.len();
        let quarter = len / 4;
        let gap = if INITIAL_GAP < quarter {
            quarter
        } else {
            INITIAL_GAP
        };
        let mut data: Vec<u8> = Vec::new();
        let mut i: usize = 0;
        while i < len
            invariant
                i <= len,
                len == content@.len(),
                data@ == content@.subrange(0, i as int),
            decreases len - i,
        {
            data.push(content[i]);
            i += 1;
            assert(data@ =~= content@.subrange(0, i as int));
        }
        data.resize(len + gap, 0);
        let mut buf = Buffer {
            data,
            gap_start: len,
            gap_end: len + gap,
            lines: Vec::new(),
            modified: false,
            file_path: path,
        };
        assert(buf@ =~= content@);
        buf.rebuild_lines();
        buf
    }

    /// Records that the content now lives in the file at `path`: the path is
    /// kept and the modified flag cleared.
    pub fn saved_as(&mut self, path: String)
        ensures
            final(self)@ == old(self)@,
            final(self).wf() == old(self).wf(),
            !final(self).spec_modified(),
            final(self).spec_file_path() == Some(path),
    {
        self.file_path = Some(path);
        self.modified = false;
    }
}

/// Length in bytes of the UTF-8 sequence that starts with `first_byte`.
pub fn utf8_char_len(first_byte: u8) -> (r: usize)
    ensures
        r == char_len_of(first_byte),
{
    if first_byte & 0x80 == 0 {
        1
    } else if first_byte & 0xE0 == 0xC0 {
        2
    } else if first_byte & 0xF0 == 0xE0 {
        3
    } else {
        4
    }
}

} // verus!
