//! Cursor navigation over a buffer: a line, a byte column within it, and the
//! column the cursor returns to on vertical moves.
use vstd::prelude::*;

use crate::buffer::{
    lemma_line_bounds, lemma_line_starts, line_count_of, line_start_of, MAX_CONTENT, line_len_of, line_of, Buffer,
};

verus! {

/// A UTF-8 continuation byte (`10xxxxxx`).
pub open spec fn is_continuation(b: u8) -> bool {
    b & 0xC0 == 0x80
}

/// Walks back from `p` over continuation bytes, stopping at 0.
pub open spec fn back_over_continuations(s: Seq<u8>, p: int) -> int
    decreases p,
{
    if p > 0 && is_continuation(s[p]) {
        back_over_continuations(s, p - 1)
    } else {
        p
    }
}

/// Walking back over continuation bytes never passes the start.
proof fn lemma_back_over_continuations(s: Seq<u8>, p: int)
    requires
        p >= 0,
    ensures
        0 <= back_over_continuations(s, p) <= p,
    decreases p,
{
    if p > 0 && is_continuation(s[p]) {
        lemma_back_over_continuations(s, p - 1);
    }
}

/// The character before a non-zero column starts before it.
pub proof fn lemma_prev_boundary_before(s: Seq<u8>, col: int)
    requires
        col > 0,
    ensures
        0 <= prev_boundary(s, col) < col,
{
    lemma_back_over_continuations(s, col - 1);
}

/// Walks forward from `p` over continuation bytes, stopping at the end.
pub open spec fn forward_over_continuations(s: Seq<u8>, p: int) -> int
    decreases s.len() - p,
{
    if 0 <= p < s.len() && is_continuation(s[p]) {
        forward_over_continuations(s, p + 1)
    } else {
        p
    }
}

/// Start of the character before byte column `col`.
pub open spec fn prev_boundary(s: Seq<u8>, col: int) -> int {
    if col <= 0 {
        0
    } else {
        back_over_continuations(s, col - 1)
    }
}

/// End of the character at byte column `col`.
pub open spec fn next_boundary(s: Seq<u8>, col: int) -> int {
    if col >= s.len() {
        s.len() as int
    } else {
        forward_over_continuations(s, col + 1)
    }
}

/// ASCII letters and digits, and `_`.
pub open spec fn is_word(b: u8) -> bool {
    (48 <= b <= 57) || (65 <= b <= 90) || (97 <= b <= 122) || b == 95
}

/// Walks back from `p` while the byte before is not a word byte.
pub open spec fn skip_separators_back(s: Seq<u8>, p: int) -> int
    decreases p,
{
    if 0 < p <= s.len() && !is_word(s[p - 1]) {
        skip_separators_back(s, p - 1)
    } else {
        p
    }
}

/// Walks back from `p` while the byte before is a word byte.
pub open spec fn skip_word_back(s: Seq<u8>, p: int) -> int
    decreases p,
{
    if 0 < p <= s.len() && is_word(s[p - 1]) {
        skip_word_back(s, p - 1)
    } else {
        p
    }
}

/// Walks forward from `p` while the byte there is a word byte.
pub open spec fn skip_word_forward(s: Seq<u8>, p: int) -> int
    decreases s.len() - p,
{
    if 0 <= p < s.len() && is_word(s[p]) {
        skip_word_forward(s, p + 1)
    } else {
        p
    }
}

/// Walks forward from `p` while the byte there is not a word byte.
pub open spec fn skip_separators_forward(s: Seq<u8>, p: int) -> int
    decreases s.len() - p,
{
    if 0 <= p < s.len() && !is_word(s[p]) {
        skip_separators_forward(s, p + 1)
    } else {
        p
    }
}

/// Index of the first byte at or after `i` that is neither a space nor a tab,
/// or 0 when there is none.
pub open spec fn first_non_blank_from(s: Seq<u8>, i: int) -> int
    decreases s.len() - i,
{
    if i < 0 || i >= s.len() {
        0
    } else if s[i] != 32u8 && s[i] != 9u8 {
        i
    } else {
        first_non_blank_from(s, i + 1)
    }
}

pub open spec fn first_non_blank(s: Seq<u8>) -> int {
    first_non_blank_from(s, 0)
}

/// Bytes of line `l` of `c`, or nothing past the last line.
pub open spec fn line_bytes_or_empty(c: Seq<u8>, l: int) -> Seq<u8> {
    if 0 <= l < line_count_of(c) {
        line_of(c, l)
    } else {
        Seq::empty()
    }
}

/// Byte length of line `l` of `c`, or 0 past the last line.
pub open spec fn line_len_or_zero(c: Seq<u8>, l: int) -> int {
    if 0 <= l < line_count_of(c) {
        line_len_of(c, l)
    } else {
        0
    }
}

/// Index of the last line of `c`.
pub open spec fn last_line(c: Seq<u8>) -> int {
    line_count_of(c) - 1
}

pub struct Cursor {
    pub line: usize,
    pub col: usize,
    pub desired_col: usize,
}

impl Cursor {
    /// The cursor stands on an existing line, within or at the end of it.
    pub open spec fn valid(&self, c: Seq<u8>) -> bool {
        &&& self.line < line_count_of(c)
        &&& self.col <= line_len_of(c, self.line as int)
    }

    pub fn new() -> (r: Cursor)
        ensures
            r.line == 0,
            r.col == 0,
            r.desired_col == 0,
    {
        Cursor { line: 0, col: 0, desired_col: 0 }
    }

    /// Moves to `line` and `col`, each clamped into range; the desired column
    /// follows.
    pub fn set_position(&mut self, line: usize, col: usize, buf: &Buffer)
        requires
            buf.wf(),
        ensures
            final(self).line == (if line < last_line(buf@) {
                line as int
            } else {
                last_line(buf@)
            }),
            final(self).col == (if col < line_len_of(buf@, final(self).line as int) {
                col as int
            } else {
                line_len_of(buf@, final(self).line as int)
            }),
            final(self).desired_col == final(self).col,
            final(self).valid(buf@),
    {
        proof {
            lemma_line_starts(buf@);
        }
        let max_line = buf.line_count() - 1;
        self.line = if line < max_line {
            line
        } else {
            max_line
        };
        let line_len = line_byte_len(buf, self.line);
        self.col = if col < line_len {
            col
        } else {
            line_len
        };
        self.desired_col = self.col;
    }

    /// One character left, wrapping to the end of the previous line.
    pub fn move_left(&mut self, buf: &Buffer)
        requires
            buf.wf(),
            old(self).valid(buf@),
        ensures
            old(self).col > 0 ==> final(self).line == old(self).line && final(self).col
                == prev_boundary(line_of(buf@, old(self).line as int), old(self).col as int),
            old(self).col == 0 && old(self).line > 0 ==> final(self).line == old(self).line - 1
                && final(self).col == line_len_of(buf@, old(self).line - 1),
            old(self).col == 0 && old(self).line == 0 ==> final(self).line == 0
                && final(self).col == 0,
            final(self).desired_col == final(self).col,
            final(self).valid(buf@),
    {
        proof {
            lemma_line_bounds(buf@, self.line as int);
        }
        if self.col > 0 {
            let line_text = buf.line_bytes(self.line);
            self.col = prev_char_boundary(line_text.as_slice(), self.col);
        } else if self.line > 0 {
            self.line = self.line - 1;
            self.col = line_byte_len(buf, self.line);
        }
        self.desired_col = self.col;
    }

    /// One character right, wrapping to the start of the next line.
    pub fn move_right(&mut self, buf: &Buffer)
        requires
            buf.wf(),
            old(self).valid(buf@),
        ensures
            old(self).col < line_len_of(buf@, old(self).line as int) ==> final(self).line
                == old(self).line && final(self).col == next_boundary(
                line_of(buf@, old(self).line as int),
                old(self).col as int,
            ),
            old(self).col == line_len_of(buf@, old(self).line as int) && old(self).line
                < last_line(buf@) ==> final(self).line == old(self).line + 1 && final(self).col
                == 0,
            old(self).col == line_len_of(buf@, old(self).line as int) && old(self).line
                == last_line(buf@) ==> final(self).line == old(self).line && final(self).col
                == old(self).col,
            final(self).desired_col == final(self).col,
            final(self).valid(buf@),
    {
        proof {
            lemma_line_bounds(buf@, self.line as int);
            lemma_line_starts(buf@);
            buf.lemma_len_bound();
        }
        let line_len = line_byte_len(buf, self.line);
        if self.col < line_len {
            let line_text = buf.line_bytes(self.line);
            self.col = next_char_boundary(line_text.as_slice(), self.col);
        } else if self.line + 1 < buf.line_count() {
            self.line = self.line + 1;
            self.col = 0;
        }
        self.desired_col = self.col;
    }

    /// One line up, to the desired column or the end of the shorter line.
    pub fn move_up(&mut self, buf: &Buffer)
        requires
            buf.wf(),
        ensures
            old(self).line > 0 && old(self).line <= last_line(buf@) ==> final(self).line
                == old(self).line - 1 && final(self).col == min_int(
                old(self).desired_col as int,
                line_len_of(buf@, old(self).line - 1),
            ),
            !(old(self).line > 0 && old(self).line <= last_line(buf@)) ==> *final(self)
                == *old(self),
            final(self).desired_col == old(self).desired_col,
    {
        if self.line > 0 && self.line < buf.line_count() {
            self.line = self.line - 1;
            let line_len = line_byte_len(buf, self.line);
            self.col = if self.desired_col < line_len {
                self.desired_col
            } else {
                line_len
            };
        }
    }

    /// One line down, to the desired column or the end of the shorter line.
    pub fn move_down(&mut self, buf: &Buffer)
        requires
            buf.wf(),
        ensures
            old(self).line < last_line(buf@) ==> final(self).line == old(self).line + 1
                && final(self).col == min_int(
                old(self).desired_col as int,
                line_len_of(buf@, old(self).line + 1),
            ),
            old(self).line >= last_line(buf@) ==> *final(self) == *old(self),
            final(self).desired_col == old(self).desired_col,
    {
        proof {
            lemma_line_starts(buf@);
        }
        if self.line < buf.line_count() - 1 {
            self.line = self.line + 1;
            let line_len = line_byte_len(buf, self.line);
            self.col = if self.desired_col < line_len {
                self.desired_col
            } else {
                line_len
            };
        }
    }

    /// To the start of the previous word, wrapping to the end of the previous
    /// line when at column 0.
    pub fn move_word_left(&mut self, buf: &Buffer)
        requires
            buf.wf(),
            old(self).valid(buf@),
        ensures
            old(self).col > 0 ==> final(self).line == old(self).line && final(self).col
                == skip_word_back(
                line_of(buf@, old(self).line as int),
                skip_separators_back(line_of(buf@, old(self).line as int), old(self).col as int),
            ),
            old(self).col == 0 && old(self).line > 0 ==> final(self).line == old(self).line - 1
                && final(self).col == line_len_of(buf@, old(self).line - 1),
            old(self).col == 0 && old(self).line == 0 ==> final(self).line == 0
                && final(self).col == 0,
            final(self).desired_col == final(self).col,
            final(self).valid(buf@),
    {
        proof {
            lemma_line_bounds(buf@, self.line as int);
        }
        if self.col == 0 {
            if self.line > 0 {
                self.line = self.line - 1;
                self.col = line_byte_len(buf, self.line);
            }
            self.desired_col = self.col;
            return;
        }
        let line_text = buf.line_bytes(self.line);
        let bytes = line_text.as_slice();
        let ghost s = bytes@;
        let mut pos = self.col;
        while pos > 0 && !is_word_byte(bytes[pos - 1])
            invariant
                pos <= self.col <= s.len(),
                s == bytes@,
                skip_separators_back(s, pos as int) == skip_separators_back(s, self.col as int),
            decreases pos,
        {
            pos = pos - 1;
        }
        let ghost mid = pos;
        while pos > 0 && is_word_byte(bytes[pos - 1])
            invariant
                pos <= mid <= self.col <= s.len(),
                s == bytes@,
                mid == skip_separators_back(s, self.col as int),
                skip_word_back(s, pos as int) == skip_word_back(s, mid as int),
            decreases pos,
        {
            pos = pos - 1;
        }
        self.col = pos;
        self.desired_col = self.col;
    }

    /// Past the current word and the separators after it, wrapping to the
    /// start of the next line when at the end of the line.
    pub fn move_word_right(&mut self, buf: &Buffer)
        requires
            buf.wf(),
            old(self).valid(buf@),
        ensures
            old(self).col < line_len_of(buf@, old(self).line as int) ==> final(self).line
                == old(self).line && final(self).col == skip_separators_forward(
                line_of(buf@, old(self).line as int),
                skip_word_forward(line_of(buf@, old(self).line as int), old(self).col as int),
            ),
            old(self).col == line_len_of(buf@, old(self).line as int) && old(self).line
                < last_line(buf@) ==> final(self).line == old(self).line + 1 && final(self).col
                == 0,
            old(self).col == line_len_of(buf@, old(self).line as int) && old(self).line
                == last_line(buf@) ==> final(self).line == old(self).line && final(self).col
                == old(self).col,
            final(self).desired_col == final(self).col,
            final(self).valid(buf@),
    {
        proof {
            lemma_line_bounds(buf@, self.line as int);
            lemma_line_starts(buf@);
            buf.lemma_len_bound();
        }
        let line_len = line_byte_len(buf, self.line);
        if self.col >= line_len {
            if self.line + 1 < buf.line_count() {
                self.line = self.line + 1;
                self.col = 0;
            }
            self.desired_col = self.col;
            return;
        }
        let line_text = buf.line_bytes(self.line);
        let bytes = line_text.as_slice();
        let ghost s = bytes@;
        let len = bytes.len();
        let mut pos = self.col;
        while pos < len && is_word_byte(bytes[pos])
            invariant
                self.col <= pos <= len,
                len == s.len(),
                s == bytes@,
                skip_word_forward(s, pos as int) == skip_word_forward(s, self.col as int),
            decreases len - pos,
        {
            pos = pos + 1;
        }
        let ghost mid = pos;
        while pos < len && !is_word_byte(bytes[pos])
            invariant
                mid <= pos <= len,
                len == s.len(),
                s == bytes@,
                mid == skip_word_forward(s, self.col as int),
                skip_separators_forward(s, pos as int) == skip_separators_forward(s, mid as int),
            decreases len - pos,
        {
            pos = pos + 1;
        }
        self.col = pos;
        self.desired_col = self.col;
    }

    /// Smart home: to the first non-blank byte when past it, to column 0 when
    /// on it (and it is not 0), otherwise to the first non-blank byte.
    pub fn move_home(&mut self, buf: &Buffer)
        requires
            buf.wf(),
        ensures
            ({
                let fnb = first_non_blank(line_bytes_or_empty(buf@, old(self).line as int));
                final(self).col == (if old(self).col > fnb {
                    fnb
                } else if old(self).col == fnb && fnb != 0 {
                    0
                } else {
                    fnb
                })
            }),
            final(self).line == old(self).line,
            final(self).desired_col == final(self).col,
    {
        let line_text = buf.line_bytes(self.line);
        let fnb = first_non_blank_index(line_text.as_slice());
        if self.col > fnb {
            self.col = fnb;
        } else if self.col == fnb && fnb != 0 {
            self.col = 0;
        } else {
            self.col = fnb;
        }
        self.desired_col = self.col;
    }

    /// To the end of the current line.
    pub fn move_end(&mut self, buf: &Buffer)
        requires
            buf.wf(),
        ensures
            final(self).line == old(self).line,
            final(self).col == line_len_or_zero(buf@, old(self).line as int),
            final(self).desired_col == final(self).col,
    {
        self.col = line_byte_len(buf, self.line);
        self.desired_col = self.col;
    }

    /// `page_height` lines up, stopping at the first line; the column follows
    /// the desired column.
    pub fn move_page_up(&mut self, buf: &Buffer, page_height: usize)
        requires
            buf.wf(),
        ensures
            final(self).line == (if old(self).line >= page_height {
                old(self).line - page_height
            } else {
                0
            }),
            final(self).col == min_int(
                old(self).desired_col as int,
                line_len_or_zero(buf@, final(self).line as int),
            ),
            final(self).desired_col == old(self).desired_col,
    {
        self.line = if self.line >= page_height {
            self.line - page_height
        } else {
            0
        };
        let line_len = line_byte_len(buf, self.line);
        self.col = if self.desired_col < line_len {
            self.desired_col
        } else {
            line_len
        };
    }

    /// `page_height` lines down, stopping at the last line; the column follows
    /// the desired column.
    pub fn move_page_down(&mut self, buf: &Buffer, page_height: usize)
        requires
            buf.wf(),
        ensures
            final(self).line == min_int(old(self).line + page_height, last_line(buf@)),
            final(self).col == min_int(
                old(self).desired_col as int,
                line_len_of(buf@, final(self).line as int),
            ),
            final(self).desired_col == old(self).desired_col,
            final(self).valid(buf@),
    {
        proof {
            lemma_line_starts(buf@);
        }
        let max_line = buf.line_count() - 1;
        self.line = if self.line >= max_line || page_height >= max_line - self.line {
            max_line
        } else {
            self.line + page_height
        };
        let line_len = line_byte_len(buf, self.line);
        self.col = if self.desired_col < line_len {
            self.desired_col
        } else {
            line_len
        };
    }

    pub fn move_to_start(&mut self)
        ensures
            final(self).line == 0,
            final(self).col == 0,
            final(self).desired_col == 0,
    {
        self.line = 0;
        self.col = 0;
        self.desired_col = 0;
    }

    /// To the end of the last line.
    pub fn move_to_end(&mut self, buf: &Buffer)
        requires
            buf.wf(),
        ensures
            final(self).line == last_line(buf@),
            final(self).col == line_len_of(buf@, last_line(buf@)),
            final(self).desired_col == final(self).col,
            final(self).valid(buf@),
    {
        proof {
            lemma_line_starts(buf@);
        }
        self.line = buf.line_count() - 1;
        self.col = line_byte_len(buf, self.line);
        self.desired_col = self.col;
    }

    /// Absolute byte offset of the cursor: start of its line plus its column.
    pub fn byte_offset(&self, buf: &Buffer) -> (r: usize)
        requires
            buf.wf(),
            self.valid(buf@),
        ensures
            r == line_start_of(buf@, self.line as int) + self.col,
            r <= buf@.len(),
    {
        proof {
            lemma_line_bounds(buf@, self.line as int);
            buf.lemma_len_bound();
        }
        let line_start = match buf.line_start(self.line) {
            Some(s) => s,
            None => 0,
        };
        line_start + self.col
    }

    /// Pulls the line and then the column back into range. A valid cursor is
    /// left as it is.
    pub fn clamp(&mut self, buf: &Buffer)
        requires
            buf.wf(),
        ensures
            final(self).line == min_int(old(self).line as int, last_line(buf@)),
            final(self).col == min_int(
                old(self).col as int,
                line_len_of(buf@, final(self).line as int),
            ),
            final(self).desired_col == old(self).desired_col,
            final(self).valid(buf@),
            old(self).valid(buf@) ==> *final(self) == *old(self),
    {
        proof {
            lemma_line_starts(buf@);
        }
        let max_line = buf.line_count() - 1;
        if self.line > max_line {
            self.line = max_line;
        }
        let line_len = line_byte_len(buf, self.line);
        if self.col > line_len {
            self.col = line_len;
        }
    }
}

pub open spec fn min_int(a: int, b: int) -> int {
    if a < b {
        a
    } else {
        b
    }
}

/// Byte length of line `line` of `buf`, or 0 past the last line.
fn line_byte_len(buf: &Buffer, line: usize) -> (r: usize)
    requires
        buf.wf(),
    ensures
        r == line_len_or_zero(buf@, line as int),
{
    proof {
        buf.lemma_len_bound();
        if line < line_count_of(buf@) {
            lemma_line_bounds(buf@, line as int);
        }
    }
    match (buf.line_start(line), buf.line_end(line)) {
        (Some(s), Some(e)) => e - s,
        _ => 0,
    }
}

/// Start of the character before byte column `byte_col` of `line`.
pub(crate) fn prev_char_boundary(line: &[u8], byte_col: usize) -> (r: usize)
    requires
        byte_col <= line@.len(),
    ensures
        r == prev_boundary(line@, byte_col as int),
        byte_col > 0 ==> r < byte_col,
        byte_col == 0 ==> r == 0,
{
    if byte_col == 0 {
        return 0;
    }
    let mut pos = byte_col - 1;
    while pos > 0 && line[pos] & 0xC0 == 0x80
        invariant
            pos < byte_col <= line@.len(),
            back_over_continuations(line@, pos as int) == back_over_continuations(
                line@,
                byte_col - 1,
            ),
        decreases pos,
    {
        pos = pos - 1;
    }
    pos
}

/// End of the character at byte column `byte_col` of `line`.
pub(crate) fn next_char_boundary(line: &[u8], byte_col: usize) -> (r: usize)
    ensures
        r == next_boundary(line@, byte_col as int),
        byte_col < line@.len() ==> byte_col < r <= line@.len(),
{
    let len = line.len();
    if byte_col >= len {
        return len;
    }
    let mut pos = byte_col + 1;
    while pos < len && line[pos] & 0xC0 == 0x80
        invariant
            byte_col < pos <= len,
            len == line@.len(),
            forward_over_continuations(line@, pos as int) == forward_over_continuations(
                line@,
                byte_col + 1,
            ),
        decreases len - pos,
    {
        pos = pos + 1;
    }
    pos
}

/// Index of the first byte that is neither a space nor a tab, or 0.
fn first_non_blank_index(s: &[u8]) -> (r: usize)
    ensures
        r == first_non_blank(s@),
{
    let len = s.len();
    let mut i: usize = 0;
    while i < len
        invariant
            i <= len,
            len == s@.len(),
            first_non_blank_from(s@, i as int) == first_non_blank(s@),
        decreases len - i,
    {
        if s[i] != 32u8 && s[i] != 9u8 {
            return i;
        }
        i += 1;
    }
    0
}

/// ASCII letters and digits, and `_`, make up words.
fn is_word_byte(b: u8) -> (r: bool)
    ensures
        r == is_word(b),
{
    (48 <= b && b <= 57) || (65 <= b && b <= 90) || (97 <= b && b <= 122) || b == 95
}

} // verus!
