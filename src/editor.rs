//! The editor: one document with its cursor, selection, clipboard, undo
//! history, search session and mini-prompt, driven by input events. Terminal
//! and file I/O stay with the host, which performs the returned actions.
use vstd::prelude::*;
use vstd::string::*;
use vstd::utf8::*;

use crate::buffer::{
    delete_spec, insert_spec, lemma_line_bounds, lemma_line_starts, line_count_of, line_end_of, line_of,
    line_start_of, line_len_of, char_len_of, clamped_slice, Buffer, MAX_CONTENT,
};
use crate::cursor::{
    is_continuation, last_line, min_int, next_char_boundary, prev_char_boundary, Cursor,
};
use crate::input::{Event, Key, KeyEvent, MouseButton};
use crate::render::{decimal, usize_digits, Color, Screen};
use crate::terminal::ColorMode;
use crate::search::{find_all_matches, matches_from};
use crate::text::{char_string, lossy_of, lossy_string, lower_of, with_number};
use crate::undo::{
    replay_ops, revert_ops, CursorState, Group, GroupContext, Operation, UndoStack,
};

verus! {

// ---------------------------------------------------------------------------
// Column helpers
// ---------------------------------------------------------------------------

/// Number of decimal digits of `n` (1 for 0).
pub open spec fn digit_count(n: nat) -> nat
    decreases n,
{
    if n < 10 {
        1
    } else {
        1 + digit_count(n / 10)
    }
}

/// Width of the line-number gutter: the digits of the line count plus a
/// space on each side, at least 4.
pub open spec fn gutter_width_for(line_count: nat) -> nat {
    if digit_count(line_count) + 2 < 4 {
        4
    } else {
        digit_count(line_count) + 2
    }
}

pub fn compute_gutter_width(line_count: usize) -> (r: usize)
    ensures
        r == gutter_width_for(line_count as nat),
{
    let mut n = line_count;
    let mut d: usize = 1;
    proof {
        lemma_digit_count_small(line_count as nat);
    }
    while n >= 10
        invariant
            d + digit_count(n as nat) == 1 + digit_count(line_count as nat),
            d >= 1,
            digit_count(line_count as nat) <= line_count / 2 + 1,
        decreases n,
    {
        n = n / 10;
        d = d + 1;
    }
    if d + 2 < 4 {
        4
    } else {
        d + 2
    }
}

proof fn lemma_digit_count_small(n: nat)
    ensures
        digit_count(n) <= n / 2 + 1,
        digit_count(n) >= 1,
    decreases n,
{
    if n >= 10 {
        lemma_digit_count_small(n / 10);
    }
}

/// Number of characters that start in the first `k` bytes of `s`.
pub open spec fn chars_before(s: Seq<u8>, k: int) -> nat
    decreases k,
{
    if k <= 0 {
        0
    } else {
        chars_before(s, k - 1) + if is_continuation(s[k - 1]) {
            0nat
        } else {
            1nat
        }
    }
}

/// Display column of byte column `byte_col` of `line`: the characters before
/// it, with the column clamped to the line.
pub fn byte_col_to_display_col(line: &str, byte_col: usize) -> (r: usize)
    ensures
        r == chars_before(
            line.spec_bytes(),
            if byte_col < line.spec_bytes().len() {
                byte_col as int
            } else {
                line.spec_bytes().len() as int
            },
        ),
{
    let bytes = line.as_bytes();
    let n = bytes.len();
    let end = if byte_col < n {
        byte_col
    } else {
        n
    };
    let mut count: usize = 0;
    let mut i: usize = 0;
    while i < end
        invariant
            i <= end <= n,
            n == bytes@.len(),
            bytes@ == line.spec_bytes(),
            count == chars_before(bytes@, i as int),
            count <= i,
        decreases end - i,
    {
        if bytes[i] & 0xC0 != 0x80 {
            count = count + 1;
        }
        i = i + 1;
    }
    count
}

/// Byte offset at which `k` characters (start bytes) of `s` have been passed
/// from offset `i`: the end of the `k`-th character, or the end of `s`.
pub open spec fn advance_chars(s: Seq<u8>, i: int, k: nat) -> int
    decreases k, s.len() - i,
{
    if k == 0 || i >= s.len() {
        if i < s.len() { i } else { s.len() as int }
    } else {
        advance_chars(s, crate::cursor::next_boundary(s, i), (k - 1) as nat)
    }
}

/// Byte column of display column `display_col` of `line`.
pub fn display_col_to_byte_col(line: &str, display_col: usize) -> (r: usize)
    ensures
        r == advance_chars(line.spec_bytes(), 0, display_col as nat),
{
    let bytes = line.as_bytes();
    let n = bytes.len();
    let mut pos: usize = 0;
    let mut k: usize = display_col;
    while k > 0 && pos < n
        invariant
            pos <= n,
            n == bytes@.len(),
            bytes@ == line.spec_bytes(),
            advance_chars(bytes@, pos as int, k as nat) == advance_chars(
                bytes@,
                0,
                display_col as nat,
            ),
        decreases k,
    {
        pos = next_char_boundary(bytes, pos);
        k = k - 1;
    }
    pos
}

// ---------------------------------------------------------------------------
// Editor state
// ---------------------------------------------------------------------------

#[derive(Clone, Copy, PartialEq, Eq, Debug, Structural)]
pub enum MessageType {
    Info,
    Error,
    Warning,
}

/// What a mini-prompt does with its input once confirmed.
pub enum PromptAction {
    OpenFile,
    Find,
    Replace,
    ReplaceWith(String),
}

/// A one-line input field with a label; `cursor_pos` is a byte offset into
/// `input`.
pub struct Prompt {
    pub label: String,
    pub input: String,
    pub cursor_pos: usize,
    pub action: PromptAction,
}

/// The bytes of `b` before `from`, then `ins`, then those from `to` on.
pub open spec fn splice_spec(b: Seq<u8>, from: int, to: int, ins: Seq<u8>) -> Seq<u8> {
    b.subrange(0, from) + ins + b.subrange(to, b.len() as int)
}

fn splice(b: &[u8], from: usize, to: usize, ins: &[u8]) -> (r: Vec<u8>)
    requires
        from <= to <= b@.len(),
    ensures
        r@ == splice_spec(b@, from as int, to as int, ins@),
{
    let mut out: Vec<u8> = Vec::new();
    let mut i: usize = 0;
    while i < from
        invariant
            i <= from <= to <= b@.len(),
            out@ == b@.subrange(0, i as int),
        decreases from - i,
    {
        out.push(b[i]);
        i += 1;
        proof {
            assert(out@ =~= b@.subrange(0, i as int));
        }
    }
    out.extend_from_slice(ins);
    let n = b.len();
    let ghost mid = out@;
    let mut j: usize = to;
    while j < n
        invariant
            to <= j <= n,
            n == b@.len(),
            out@ == mid + b@.subrange(to as int, j as int),
        decreases n - j,
    {
        out.push(b[j]);
        j += 1;
        proof {
            assert(out@ =~= mid + b@.subrange(to as int, j as int));
        }
    }
    proof {
        assert(out@ =~= splice_spec(b@, from as int, to as int, ins@));
    }
    out
}

impl Prompt {
    /// The prompt's cursor, clamped to its input.
    pub open spec fn pos_in(&self) -> int {
        if self.cursor_pos <= encode_utf8(self.input@).len() {
            self.cursor_pos as int
        } else {
            encode_utf8(self.input@).len() as int
        }
    }

    /// Inserts `text` at the cursor and moves past it.
    pub fn insert_str(&mut self, text: &str)
        ensures
            ({
                let b = encode_utf8(old(self).input@);
                let p = old(self).pos_in();
                p + text.spec_bytes().len() <= usize::MAX ==> final(self).input@ == lossy_of(
                    splice_spec(b, p, p, text.spec_bytes()),
                ) && final(self).cursor_pos == p + text.spec_bytes().len()
            }),
    {
        let b = self.input.as_str().as_bytes();
        let len = b.len();
        let pos = if self.cursor_pos <= len {
            self.cursor_pos
        } else {
            len
        };
        let t = text.as_bytes();
        if t.len() > usize::MAX - pos {
            return;
        }
        let joined = splice(b, pos, pos, t);
        self.input = lossy_string(joined.as_slice());
        self.cursor_pos = pos + t.len();
    }

    /// Deletes the character before the cursor. Returns whether the input
    /// changed.
    pub fn backspace(&mut self) -> (r: bool)
        ensures
            ({
                let b = encode_utf8(old(self).input@);
                let p = old(self).pos_in();
                let q = crate::cursor::prev_boundary(b, p);
                &&& r == (p > 0)
                &&& r ==> final(self).input@ == lossy_of(splice_spec(b, q, p, Seq::empty()))
                    && final(self).cursor_pos == q
                &&& !r ==> final(self).input == old(self).input
            }),
    {
        let b = self.input.as_str().as_bytes();
        let len = b.len();
        let pos = if self.cursor_pos <= len {
            self.cursor_pos
        } else {
            len
        };
        if pos == 0 {
            return false;
        }
        let new_pos = prev_char_boundary(b, pos);
        let joined = splice(b, new_pos, pos, &[]);
        self.input = lossy_string(joined.as_slice());
        self.cursor_pos = new_pos;
        true
    }

    /// Deletes the character at the cursor. Returns whether the input changed.
    pub fn delete(&mut self) -> (r: bool)
        ensures
            ({
                let b = encode_utf8(old(self).input@);
                let p = old(self).pos_in();
                let q = crate::cursor::next_boundary(b, p);
                &&& r == (p < b.len())
                &&& r ==> final(self).input@ == lossy_of(splice_spec(b, p, q, Seq::empty()))
                    && final(self).cursor_pos == p
                &&& !r ==> final(self).input == old(self).input
            }),
    {
        let b = self.input.as_str().as_bytes();
        let len = b.len();
        let pos = if self.cursor_pos <= len {
            self.cursor_pos
        } else {
            len
        };
        if pos >= len {
            return false;
        }
        let end = next_char_boundary(b, pos);
        let joined = splice(b, pos, end, &[]);
        self.input = lossy_string(joined.as_slice());
        self.cursor_pos = pos;
        true
    }

    /// One character left.
    pub fn move_left(&mut self)
        ensures
            final(self).input == old(self).input,
            final(self).cursor_pos == crate::cursor::prev_boundary(
                encode_utf8(old(self).input@),
                old(self).pos_in(),
            ),
    {
        let b = self.input.as_str().as_bytes();
        let len = b.len();
        let pos = if self.cursor_pos <= len {
            self.cursor_pos
        } else {
            len
        };
        self.cursor_pos = prev_char_boundary(b, pos);
    }

    /// One character right.
    pub fn move_right(&mut self)
        ensures
            final(self).input == old(self).input,
            final(self).cursor_pos == crate::cursor::next_boundary(
                encode_utf8(old(self).input@),
                old(self).pos_in(),
            ),
    {
        let b = self.input.as_str().as_bytes();
        let len = b.len();
        let pos = if self.cursor_pos <= len {
            self.cursor_pos
        } else {
            len
        };
        self.cursor_pos = next_char_boundary(b, pos);
    }

    pub fn move_home(&mut self)
        ensures
            final(self).input == old(self).input,
            final(self).cursor_pos == 0,
    {
        self.cursor_pos = 0;
    }

    pub fn move_end(&mut self)
        ensures
            final(self).input == old(self).input,
            final(self).cursor_pos == encode_utf8(old(self).input@).len(),
    {
        self.cursor_pos = self.input.as_str().as_bytes().len();
    }
}

/// A selection: `anchor` stays where it started, `head` follows the cursor.
#[derive(Clone, Copy, Debug, PartialEq, Eq, Structural)]
pub struct Selection {
    pub anchor: usize,
    pub head: usize,
}

impl Selection {
    /// The selected byte range, smaller end first.
    pub fn range(&self) -> (r: (usize, usize))
        ensures
            r.0 == (if self.anchor <= self.head {
                self.anchor
            } else {
                self.head
            }),
            r.1 == (if self.anchor <= self.head {
                self.head
            } else {
                self.anchor
            }),
    {
        if self.anchor <= self.head {
            (self.anchor, self.head)
        } else {
            (self.head, self.anchor)
        }
    }
}

/// An active search: the pattern, its matches in the buffer text, and the
/// match the cursor was last moved to.
pub struct SearchState {
    pub pattern: String,
    pub matches: Vec<(usize, usize)>,
    pub current: Option<usize>,
}

/// Work that only the host can do, asked for by the editor.
pub enum EditorAction {
    /// Nothing to do.
    Continue,
    /// Leave the editor.
    Quit,
    /// Write `contents` to the file at `path`, then report with
    /// `Editor::save_finished`.
    Save { path: String, contents: Vec<u8> },
    /// Read the file at the path, then report with `Editor::open_finished`.
    Open(String),
}

pub struct Editor {
    buffer: Buffer,
    cursor: Cursor,
    screen: Screen,
    color_mode: ColorMode,
    file_label: Option<String>,
    scroll_row: usize,
    scroll_col: usize,
    gutter_width: usize,
    status_height: usize,
    message: Option<String>,
    message_type: MessageType,
    quit_confirm: bool,
    selection: Option<Selection>,
    clipboard: String,
    prompt: Option<Prompt>,
    undo_stack: UndoStack,
    search: Option<SearchState>,
    search_origin: Option<usize>,
    running: bool,
}

/// The selection lies within content `c`.
pub open spec fn selection_ok(sel: Option<Selection>, c: Seq<u8>) -> bool {
    match sel {
        Some(s) => s.anchor <= c.len() && s.head <= c.len(),
        None => true,
    }
}

impl Editor {
    pub closed spec fn wf(&self) -> bool {
        &&& self.buffer.wf()
        &&& self.cursor.valid(self.buffer@)
        &&& self.undo_stack.has_pending_start()
        &&& self.screen.wf()
        &&& self.screen.spec_width() <= u16::MAX
        &&& self.screen.spec_height() <= u16::MAX
        &&& selection_ok(self.selection, self.buffer@)
        &&& match self.search {
            Some(st) => match st.current {
                Some(i) => i < st.matches@.len(),
                None => true,
            },
            None => true,
        }
    }

    /// In a well-formed editor the cursor stands within its line.
    pub proof fn lemma_cursor_valid(&self)
        requires
            self.wf(),
        ensures
            self.spec_cursor().valid(self.content()),
            self.content().len() <= MAX_CONTENT,
    {
        self.buffer.lemma_len_bound();
    }

    /// Scroll offsets: first text line and first display column shown.
    pub closed spec fn spec_scroll(&self) -> (usize, usize) {
        (self.scroll_row, self.scroll_col)
    }

    /// The document content.
    pub closed spec fn content(&self) -> Seq<u8> {
        self.buffer@
    }

    pub closed spec fn spec_cursor(&self) -> Cursor {
        self.cursor
    }

    pub closed spec fn spec_selection(&self) -> Option<Selection> {
        self.selection
    }

    pub closed spec fn spec_undo(&self) -> UndoStack {
        self.undo_stack
    }

    pub closed spec fn spec_search(&self) -> Option<SearchState> {
        self.search
    }

    /// An editor on an empty document for a `width` by `height` terminal.
    pub fn new(width: u16, height: u16, color_mode: ColorMode) -> (r: Editor)
        ensures
            r.wf(),
            r.content().len() == 0,
    {
        let buffer = Buffer::new();
        Self::with_buffer(buffer, None, width, height, color_mode)
    }

    /// An editor on the document `content` read from a file; `label` is how
    /// the file is named in the status bar. Fails on content larger than
    /// `MAX_CONTENT` bytes.
    pub fn open(
        content: &[u8],
        path: String,
        label: String,
        width: u16,
        height: u16,
        color_mode: ColorMode,
    ) -> (r: Result<Editor, String>)
        ensures
            r is Ok <==> content@.len() <= MAX_CONTENT,
            r matches Ok(e) ==> e.wf() && e.content() == content@,
    {
        if content.len() > MAX_CONTENT {
            return Err("File too large".to_string());
        }
        let buffer = Buffer::load(content, Some(path));
        Ok(Self::with_buffer(buffer, Some(label), width, height, color_mode))
    }

    fn with_buffer(
        buffer: Buffer,
        file_label: Option<String>,
        width: u16,
        height: u16,
        color_mode: ColorMode,
    ) -> (r: Editor)
        requires
            buffer.wf(),
        ensures
            r.wf(),
            r.content() == buffer@,
    {
        proof {
            lemma_line_starts(buffer@);
            lemma_screen_size(width, height);
        }
        let gutter_width = compute_gutter_width(buffer.line_count());
        Editor {
            buffer,
            cursor: Cursor::new(),
            screen: Screen::new(width as usize, height as usize),
            color_mode,
            file_label,
            scroll_row: 0,
            scroll_col: 0,
            gutter_width,
            status_height: 2,
            message: None,
            message_type: MessageType::Info,
            quit_confirm: false,
            selection: None,
            clipboard: String::new(),
            prompt: None,
            undo_stack: UndoStack::new(),
            search: None,
            search_origin: None,
            running: true,
        }
    }

    pub fn buffer(&self) -> (r: &Buffer)
        ensures
            r@ == self.content(),
            self.wf() ==> r.wf(),
    {
        &self.buffer
    }

    pub fn cursor(&self) -> (r: &Cursor)
        ensures
            *r == self.spec_cursor(),
    {
        &self.cursor
    }

    pub fn selection(&self) -> (r: Option<Selection>)
        ensures
            r == self.spec_selection(),
    {
        self.selection
    }

    pub closed spec fn spec_message(&self) -> Option<String> {
        self.message
    }

    pub closed spec fn spec_message_type(&self) -> MessageType {
        self.message_type
    }

    /// The cursor offset from before the current search session began, when
    /// a session was started from the search prompt.
    pub closed spec fn spec_search_origin(&self) -> Option<usize> {
        self.search_origin
    }

    pub closed spec fn spec_clipboard(&self) -> String {
        self.clipboard
    }

    pub closed spec fn spec_running(&self) -> bool {
        self.running
    }

    pub closed spec fn spec_prompt(&self) -> Option<Prompt> {
        self.prompt
    }

    /// The message shown below the status bar, if any.
    pub fn message(&self) -> (r: Option<&String>)
        ensures
            r == (match self.spec_message() {
                Some(m) => Some(&m),
                None => None::<&String>,
            }),
    {
        match &self.message {
            Some(m) => Some(m),
            None => None,
        }
    }

    pub fn clipboard(&self) -> (r: &String)
        ensures
            *r == self.spec_clipboard(),
    {
        &self.clipboard
    }

    /// False once the editor was asked to quit.
    pub fn is_running(&self) -> (r: bool)
        ensures
            r == self.spec_running(),
    {
        self.running
    }

    /// The open mini-prompt, if any.
    pub fn prompt(&self) -> (r: Option<&Prompt>)
        ensures
            r == (match self.spec_prompt() {
                Some(p) => Some(&p),
                None => None::<&Prompt>,
            }),
    {
        match &self.prompt {
            Some(p) => Some(p),
            None => None,
        }
    }

    /// The matches of the active search and the index of the current one.
    pub fn search_matches(&self) -> (r: Option<(Vec<(usize, usize)>, Option<usize>)>)
        ensures
            r is Some <==> self.spec_search() is Some,
            r matches Some(m) ==> m.0@ == self.spec_search()->0.matches@ && m.1
                == self.spec_search()->0.current,
    {
        match &self.search {
            Some(st) => Some((copy_ranges(&st.matches), st.current)),
            None => None,
        }
    }

    fn set_message(&mut self, msg: &str, msg_type: MessageType)
        ensures
            final(self).wf() == old(self).wf(),
            final(self).content() == old(self).content(),
            final(self).spec_cursor() == old(self).spec_cursor(),
            final(self).spec_selection() == old(self).spec_selection(),
            final(self).spec_undo() == old(self).spec_undo(),
            final(self).spec_search() == old(self).spec_search(),
            final(self).clipboard == old(self).clipboard,
            final(self).prompt == old(self).prompt,
            final(self).spec_search_origin() == old(self).spec_search_origin(),
            final(self).spec_message_type() == msg_type,
            final(self).spec_message() matches Some(m) && m@ == msg@,
            final(self).spec_scroll() == old(self).spec_scroll(),
    {
        self.message = Some(msg.to_string());
        self.message_type = msg_type;
    }

    fn set_message_string(&mut self, msg: String, msg_type: MessageType)
        ensures
            final(self).wf() == old(self).wf(),
            final(self).content() == old(self).content(),
            final(self).spec_cursor() == old(self).spec_cursor(),
            final(self).spec_selection() == old(self).spec_selection(),
            final(self).spec_undo() == old(self).spec_undo(),
            final(self).spec_search() == old(self).spec_search(),
            final(self).clipboard == old(self).clipboard,
            final(self).prompt == old(self).prompt,
            final(self).spec_search_origin() == old(self).spec_search_origin(),
            final(self).spec_message_type() == msg_type,
            final(self).spec_message() == Some(msg),
            final(self).spec_scroll() == old(self).spec_scroll(),
    {
        self.message = Some(msg);
        self.message_type = msg_type;
    }

    // -----------------------------------------------------------------------
    // Selection
    // -----------------------------------------------------------------------

    fn start_or_continue_selection(&mut self)
        requires
            old(self).wf(),
        ensures
            final(self).wf(),
            final(self).content() == old(self).content(),
            final(self).spec_cursor() == old(self).spec_cursor(),
            old(self).spec_selection() is Some ==> final(self).spec_selection() == old(self).spec_selection(),
            old(self).spec_selection() is None ==> final(self).spec_selection() == Some(
                Selection {
                    anchor: (line_start_of(old(self).content(), old(self).spec_cursor().line as int)
                        + old(self).spec_cursor().col) as usize,
                    head: (line_start_of(old(self).content(), old(self).spec_cursor().line as int)
                        + old(self).spec_cursor().col) as usize,
                },
            ),
            final(self).spec_undo() == old(self).spec_undo(),
    {
        if self.selection.is_none() {
            let offset = self.cursor.byte_offset(&self.buffer);
            self.selection = Some(Selection { anchor: offset, head: offset });
        }
    }

    fn extend_selection(&mut self)
        requires
            old(self).wf(),
        ensures
            final(self).wf(),
            final(self).content() == old(self).content(),
            final(self).spec_cursor() == old(self).spec_cursor(),
            old(self).spec_selection() is None ==> final(self).spec_selection() is None,
            old(self).spec_selection() matches Some(s) ==> final(self).spec_selection() == Some(
                Selection {
                    anchor: s.anchor,
                    head: (line_start_of(old(self).content(), old(self).spec_cursor().line as int)
                        + old(self).spec_cursor().col) as usize,
                },
            ),
            final(self).spec_undo() == old(self).spec_undo(),
    {
        if let Some(sel) = self.selection {
            let head = self.cursor.byte_offset(&self.buffer);
            self.selection = Some(Selection { anchor: sel.anchor, head });
        }
    }

    /// The selected byte range, smaller end first.
    pub fn selection_range(&self) -> (r: Option<(usize, usize)>)
        ensures
            r is Some <==> self.spec_selection() is Some,
            r matches Some(p) ==> {
                let s = self.spec_selection()->0;
                &&& p.0 == (if s.anchor <= s.head {
                    s.anchor
                } else {
                    s.head
                })
                &&& p.1 == (if s.anchor <= s.head {
                    s.head
                } else {
                    s.anchor
                })
            },
    {
        match self.selection {
            Some(sel) => Some(sel.range()),
            None => None,
        }
    }

    /// Snapshot of the cursor.
    fn cursor_state(&self) -> (r: CursorState)
        ensures
            r == cursor_state_of(self.spec_cursor()),
    {
        CursorState {
            line: self.cursor.line,
            col: self.cursor.col,
            desired_col: self.cursor.desired_col,
        }
    }

    /// Puts the cursor at a snapshot, pulled back into range.
    fn restore_cursor(&mut self, state: CursorState)
        requires
            old(self).wf(),
        ensures
            final(self).wf(),
            final(self).content() == old(self).content(),
            final(self).spec_selection() == old(self).spec_selection(),
            final(self).spec_cursor().desired_col == state.desired_col,
            state.line < line_count_of(old(self).content()) && state.col
                <= crate::buffer::line_len_of(old(self).content(), state.line as int)
                ==> final(self).spec_cursor().line == state.line && final(self).spec_cursor().col
                == state.col,
    {
        self.cursor.line = state.line;
        self.cursor.col = state.col;
        self.cursor.desired_col = state.desired_col;
        self.cursor.clamp(&self.buffer);
    }

    /// Moves the cursor to byte `byte_pos`, clamped into the document.
    pub fn jump_to_byte(&mut self, byte_pos: usize)
        requires
            old(self).wf(),
        ensures
            final(self).wf(),
            final(self).content() == old(self).content(),
            final(self).spec_selection() == old(self).spec_selection(),
            final(self).spec_search() == old(self).spec_search(),
            final(self).spec_undo() == old(self).spec_undo(),
            byte_pos <= old(self).content().len() ==> line_start_of(
                final(self).content(),
                final(self).spec_cursor().line as int,
            ) + final(self).spec_cursor().col == byte_pos,
            final(self).spec_cursor().desired_col == final(self).spec_cursor().col,
            final(self).spec_search_origin() == old(self).spec_search_origin(),
    {
        let line = self.buffer.byte_to_line(byte_pos);
        proof {
            lemma_line_bounds(self.buffer@, line as int);
            self.buffer.lemma_len_bound();
        }
        let line_start = match self.buffer.line_start(line) {
            Some(s) => s,
            None => 0,
        };
        let col = byte_pos - line_start;
        self.cursor.set_position(line, col, &self.buffer);
    }

    /// Deletes the selected text, records the deletion for undo, puts the
    /// cursor at the selection's start and clears the selection. Returns the
    /// deleted text, or `None` when nothing was selected.
    pub fn delete_selection(&mut self) -> (r: Option<String>)
        requires
            old(self).wf(),
        ensures
            final(self).wf(),
            final(self).spec_selection() is None,
            old(self).spec_selection() is None ==> r is None && final(self).content() == old(self).content() && final(self).spec_cursor() == old(self).spec_cursor() && final(self).spec_undo() == old(self).spec_undo(),
            old(self).spec_selection() matches Some(s) ==> {
                let start = if s.anchor <= s.head {
                    s.anchor
                } else {
                    s.head
                };
                let end = if s.anchor <= s.head {
                    s.head
                } else {
                    s.anchor
                };
                let removed = old(self).content().subrange(start as int, end as int);
                &&& start == end ==> r is None && final(self).content() == old(self).content()
                    && final(self).spec_cursor() == old(self).spec_cursor() && final(self).spec_undo() == old(self).spec_undo()
                &&& start < end ==> {
                    &&& r is Some && r->0@ == lossy_of(removed)
                    &&& valid_utf8(removed) ==> encode_utf8(r->0@) == removed
                    &&& final(self).content() == old(self).content().subrange(0, start as int)
                        + old(self).content().subrange(end as int, old(self).content().len() as int)
                    &&& line_start_of(final(self).content(), final(self).spec_cursor().line as int)
                        + final(self).spec_cursor().col == start
                    &&& final(self).spec_cursor().desired_col == final(self).spec_cursor().col
                    &&& final(self).spec_cursor().valid(final(self).content())
                    &&& UndoStack::recorded(
                        old(self).spec_undo(),
                        final(self).spec_undo(),
                        Operation::Delete { pos: start, text: r->0 },
                        cursor_state_of(old(self).spec_cursor()),
                        GroupContext::Other,
                        true,
                    )
                }
            },
            old(self).spec_selection() matches Some(sel) && sel.anchor != sel.head ==> search_current(
                final(self).spec_search(),
                final(self).content(),
            ),
    {
        let (start, end) = match self.selection_range() {
            Some(p) => p,
            None => {
                return None;
            },
        };
        if start == end {
            self.selection = None;
            return None;
        }
        let before = self.cursor_state();
        let deleted = self.buffer.slice(start, end);
        self.buffer.delete(start, end - start);
        self.undo_stack.record(
            Operation::Delete { pos: start, text: deleted.clone() },
            before,
            GroupContext::Other,
        );
        self.selection = None;
        self.cursor.clamp(&self.buffer);
        self.jump_to_byte(start);
        self.refresh_search();
        Some(deleted)
    }

    // -----------------------------------------------------------------------
    // Editing
    // -----------------------------------------------------------------------

    /// Inserts `text` at the cursor and records it for undo under `ctx`; the
    /// cursor stays put. Returns false, changing nothing, when the document
    /// would exceed `MAX_CONTENT` bytes.
    fn insert_at_cursor(&mut self, text: &str, ctx: GroupContext) -> (r: bool)
        requires
            old(self).wf(),
            old(self).spec_selection() is None,
        ensures
            final(self).wf(),
            final(self).spec_selection() == old(self).spec_selection(),
            r == (old(self).content().len() + text.spec_bytes().len() <= MAX_CONTENT),
            r ==> final(self).content() == insert_spec(
                old(self).content(),
                line_start_of(old(self).content(), old(self).spec_cursor().line as int)
                    + old(self).spec_cursor().col,
                text.spec_bytes(),
            ),
            !r ==> final(self).content() == old(self).content(),
            !r ==> final(self).spec_undo() == old(self).spec_undo(),
            r ==> recorded_insertion(
                old(self).spec_undo(),
                final(self).spec_undo(),
                (line_start_of(old(self).content(), old(self).spec_cursor().line as int)
                    + old(self).spec_cursor().col) as usize,
                text@,
                cursor_state_of(old(self).spec_cursor()),
                ctx,
            ),
    {
        let n = text.as_bytes().len();
        let len = self.buffer.len();
        proof {
            self.buffer.lemma_len_bound();
        }
        if n > MAX_CONTENT - len {
            self.set_message("Document too large", MessageType::Error);
            return false;
        }
        let before = self.cursor_state();
        let pos = self.cursor.byte_offset(&self.buffer);
        self.buffer.insert(pos, text);
        let owned = text.to_string();
        proof {
            assert(owned@ == text@);
        }
        let op = Operation::Insert { pos, text: owned };
        let ghost ins_op = op;
        self.undo_stack.record(op, before, ctx);
        proof {
            assert(is_insert_op(ins_op, pos, text@));
        }
        self.cursor.clamp(&self.buffer);
        true
    }

    /// Types `ch` at the cursor and moves past it.
    fn insert_char(&mut self, ch: char)
        requires
            old(self).wf(),
            old(self).spec_selection() is None,
        ensures
            final(self).wf(),
            final(self).spec_selection() is None,
            old(self).content().len() + encode_utf8(seq![ch]).len() <= MAX_CONTENT ==> final(self).content() == insert_spec(
                old(self).content(),
                line_start_of(old(self).content(), old(self).spec_cursor().line as int)
                    + old(self).spec_cursor().col,
                encode_utf8(seq![ch]),
            ),
    {
        let s = char_string(ch);
        if self.insert_at_cursor(s.as_str(), GroupContext::Typing) {
            self.cursor.move_right(&self.buffer);
        }
    }

    /// Inserts a line break at the cursor and moves past it.
    fn insert_newline(&mut self)
        requires
            old(self).wf(),
            old(self).spec_selection() is None,
        ensures
            final(self).wf(),
            old(self).content().len() + encode_utf8(seq!['\n']).len() <= MAX_CONTENT
                ==> final(self).content() == insert_spec(
                old(self).content(),
                line_start_of(old(self).content(), old(self).spec_cursor().line as int)
                    + old(self).spec_cursor().col,
                encode_utf8(seq!['\n']),
            ),
    {
        proof {
            reveal_strlit("\n");
            assert("\n"@ =~= seq!['\n']);
        }
        if self.insert_at_cursor("\n", GroupContext::Other) {
            self.cursor.move_right(&self.buffer);
        }
    }

    /// Inserts four spaces at the cursor and moves past them.
    fn insert_tab(&mut self)
        requires
            old(self).wf(),
            old(self).spec_selection() is None,
        ensures
            final(self).wf(),
    {
        if self.insert_at_cursor("    ", GroupContext::Other) {
            let mut i: usize = 0;
            while i < 4
                invariant
                    self.wf(),
                decreases 4 - i,
            {
                self.cursor.move_right(&self.buffer);
                i += 1;
            }
        }
    }

    /// Inserts pasted text at the cursor as one undo unit and moves past it.
    pub fn handle_paste(&mut self, text: &str)
        requires
            old(self).wf(),
        ensures
            final(self).wf(),
            final(self).spec_selection() is None,
            ({
                let c = content_without_selection(old(self).content(), old(self).spec_selection());
                c.len() + text.spec_bytes().len() <= MAX_CONTENT ==> final(self).content()
                    == insert_spec(
                    c,
                    paste_point(old(self).content(), old(self).spec_cursor(), old(self).spec_selection()),
                    text.spec_bytes(),
                )
            }),
            ({
                let c = content_without_selection(old(self).content(), old(self).spec_selection());
                let at = paste_point(old(self).content(), old(self).spec_cursor(), old(self).spec_selection());
                c.len() + text.spec_bytes().len() <= MAX_CONTENT ==> {
                    &&& final(self).spec_undo().pending_ops().len() == 1
                    &&& is_insert_op(final(self).spec_undo().pending_ops()[0], at as usize, text@)
                    &&& final(self).spec_undo().redo_groups().len() == 0
                    &&& no_selection_text(old(self).spec_selection()) ==> recorded_insertion(
                        old(self).spec_undo(),
                        final(self).spec_undo(),
                        at as usize,
                        text@,
                        cursor_state_of(old(self).spec_cursor()),
                        GroupContext::Paste,
                    )
                }
            }),
            search_current(final(self).spec_search(), final(self).content()),
    {
        proof {
            if let Some(sel) = self.selection {
                let c = self.buffer@;
                let start = if sel.anchor <= sel.head { sel.anchor } else { sel.head };
                assert(c.subrange(0, start as int) + c.subrange(start as int, c.len() as int) =~= c);
            }
        }
        self.delete_selection();
        let ghost u_mid = self.undo_stack;
        let ghost cur_mid = self.cursor;
        let ghost c_mid = self.buffer@;
        if self.insert_at_cursor(text, GroupContext::Paste) {
            proof {
                let at = (line_start_of(c_mid, cur_mid.line as int) + cur_mid.col) as usize;
                assert(u_mid.splits(GroupContext::Paste, false));
                let op = choose|op: Operation|
                    #[trigger] is_insert_op(op, at, text@) && (UndoStack::recorded(
                        u_mid,
                        self.undo_stack,
                        op,
                        cursor_state_of(cur_mid),
                        GroupContext::Paste,
                        true,
                    ) || UndoStack::recorded(
                        u_mid,
                        self.undo_stack,
                        op,
                        cursor_state_of(cur_mid),
                        GroupContext::Paste,
                        false,
                    )) && (u_mid.splits(GroupContext::Paste, false) ==> UndoStack::recorded(
                        u_mid,
                        self.undo_stack,
                        op,
                        cursor_state_of(cur_mid),
                        GroupContext::Paste,
                        true,
                    ));
                assert(self.undo_stack.pending_ops() == seq![op]);
            }
            let n = text.unicode_len();
            let ghost c = self.buffer@;
            let ghost u = self.undo_stack;
            let mut i: usize = 0;
            while i < n
                invariant
                    self.wf(),
                    self.buffer@ == c,
                    self.undo_stack == u,
                    self.selection is None,
                decreases n - i,
            {
                self.cursor.move_right(&self.buffer);
                i += 1;
            }
        }
        self.refresh_search();
    }

    /// Deletes the character before the cursor (the line break when at the
    /// start of a line) and moves the cursor back over it.
    fn backspace(&mut self)
        requires
            old(self).wf(),
            old(self).spec_selection() is None,
        ensures
            final(self).wf(),
            ({
                let c = old(self).content();
                let cur = old(self).spec_cursor();
                let o = line_start_of(c, cur.line as int) + cur.col;
                let q = char_start_before(c, cur);
                &&& o == 0 ==> final(self).content() == c && final(self).spec_cursor() == cur
                    && final(self).spec_undo() == old(self).spec_undo()
                &&& o > 0 ==> {
                    &&& 0 <= q < o
                    &&& final(self).content() == c.subrange(0, q) + c.subrange(o, c.len() as int)
                    &&& line_start_of(final(self).content(), final(self).spec_cursor().line as int)
                        + final(self).spec_cursor().col == q
                    &&& final(self).spec_cursor().desired_col == final(self).spec_cursor().col
                    &&& recorded_deletion(
                        old(self).spec_undo(),
                        final(self).spec_undo(),
                        q as usize,
                        lossy_of(c.subrange(q, o)),
                        cursor_state_of(cur),
                        GroupContext::Deleting,
                    )
                }
            }),
    {
        let pos = self.cursor.byte_offset(&self.buffer);
        if pos == 0 {
            return;
        }
        let ghost c = self.buffer@;
        let ghost cur = self.cursor;
        let before = self.cursor_state();
        proof {
            lemma_line_bounds(c, cur.line as int);
            if cur.line > 0 {
                lemma_line_bounds(c, cur.line - 1);
            }
            if cur.col > 0 {
                crate::cursor::lemma_prev_boundary_before(line_of(c, cur.line as int), cur.col as int);
            }
        }
        self.cursor.move_left(&self.buffer);
        let new_pos = self.cursor.byte_offset(&self.buffer);
        if new_pos >= pos {
            return;
        }
        let deleted = self.buffer.slice(new_pos, pos);
        self.buffer.delete(new_pos, pos - new_pos);
        let del = Operation::Delete { pos: new_pos, text: deleted };
        let ghost del_op = del;
        self.undo_stack.record(del, before, GroupContext::Deleting);
        proof {
            assert(c.subrange(new_pos as int, pos as int) == clamped_slice(
                c,
                new_pos as int,
                pos as int,
            ));
            assert(is_delete_op(del_op, new_pos, lossy_of(c.subrange(new_pos as int, pos as int))));
        }
        self.cursor.clamp(&self.buffer);
        self.jump_to_byte(new_pos);
    }

    /// Deletes the character at the cursor, when one starts there.
    fn delete_at_cursor(&mut self)
        requires
            old(self).wf(),
            old(self).spec_selection() is None,
        ensures
            final(self).wf(),
            ({
                let c = old(self).content();
                let pos = line_start_of(c, old(self).spec_cursor().line as int)
                    + old(self).spec_cursor().col;
                &&& pos < c.len() && pos + char_len_of(c[pos]) <= c.len() && valid_utf8(
                    c.subrange(pos, pos + char_len_of(c[pos])),
                ) ==> final(self).content() == delete_spec(c, pos, char_len_of(c[pos]))
                &&& pos >= c.len() ==> final(self).content() == c
            }),
    {
        let pos = self.cursor.byte_offset(&self.buffer);
        if pos >= self.buffer.len() {
            return;
        }
        if let Some(_ch) = self.buffer.char_at(pos) {
            let first = match self.buffer.byte_at(pos) {
                Some(b) => b,
                None => {
                    return;
                },
            };
            let char_len = crate::buffer::utf8_char_len(first);
            let before = self.cursor_state();
            let deleted = self.buffer.slice(pos, pos + char_len);
            self.buffer.delete(pos, char_len);
            self.undo_stack.record(
                Operation::Delete { pos, text: deleted },
                before,
                GroupContext::Deleting,
            );
            self.cursor.clamp(&self.buffer);
        }
    }

    // -----------------------------------------------------------------------
    // Clipboard
    // -----------------------------------------------------------------------

    /// Copies the selection, or the current line with its line break when
    /// nothing is selected, into the clipboard.
    fn copy_selection(&mut self)
        requires
            old(self).wf(),
        ensures
            final(self).wf(),
            final(self).content() == old(self).content(),
    {
        if let Some((start, end)) = self.selection_range() {
            if start != end {
                let text = self.buffer.slice(start, end);
                let len = text.as_str().unicode_len();
                self.clipboard = text;
                let msg = with_number("Copied ", len, " chars");
                self.set_message_string(msg, MessageType::Info);
                return;
            }
        }
        self.copy_current_line();
    }

    /// Copies the current line, with a line break, into the clipboard.
    fn copy_current_line(&mut self)
        requires
            old(self).wf(),
        ensures
            final(self).wf(),
            final(self).content() == old(self).content(),
            final(self).clipboard@ == lossy_of(
                crate::buffer::line_of(old(self).content(), old(self).spec_cursor().line as int).push(10u8),
            ),
    {
        let mut bytes = self.buffer.line_bytes(self.cursor.line);
        let line_text = lossy_string(bytes.as_slice());
        let len = line_text.as_str().unicode_len();
        bytes.push(10u8);
        self.clipboard = lossy_string(bytes.as_slice());
        let msg = with_number("Copied line (", len, " chars)");
        self.set_message_string(msg, MessageType::Info);
    }

    /// Moves the selection, or the current line when nothing is selected,
    /// into the clipboard.
    fn cut_selection(&mut self)
        requires
            old(self).wf(),
        ensures
            final(self).wf(),
    {
        if let Some((start, end)) = self.selection_range() {
            if start != end {
                let text = match self.delete_selection() {
                    Some(t) => t,
                    None => String::new(),
                };
                let len = text.as_str().unicode_len();
                self.clipboard = text;
                let msg = with_number("Cut ", len, " chars");
                self.set_message_string(msg, MessageType::Info);
                return;
            }
        }
        self.selection = None;
        self.cut_current_line();
    }

    /// Moves the current line, with its line break unless it is the last
    /// line, into the clipboard; the cursor goes to column 0.
    fn cut_current_line(&mut self)
        requires
            old(self).wf(),
            old(self).spec_selection() is None,
        ensures
            final(self).wf(),
            ({
                let l = old(self).spec_cursor().line as int;
                let c = old(self).content();
                let start = line_start_of(c, l);
                let end = if l + 1 < line_count_of(c) {
                    line_end_of(c, l) + 1
                } else {
                    line_end_of(c, l)
                };
                final(self).content() == delete_spec(c, start, end - start)
            }),
            final(self).spec_cursor().col == 0,
    {
        let before = self.cursor_state();
        let line = self.cursor.line;
        proof {
            lemma_line_bounds(self.buffer@, line as int);
            lemma_line_starts(self.buffer@);
            self.buffer.lemma_len_bound();
        }
        let line_start = match self.buffer.line_start(line) {
            Some(s) => s,
            None => 0,
        };
        let line_end = match self.buffer.line_end(line) {
            Some(e) => e,
            None => 0,
        };
        let end = if line + 1 < self.buffer.line_count() {
            line_end + 1
        } else {
            line_end
        };
        let text = self.buffer.slice(line_start, end);
        let len = text.as_str().unicode_len();
        self.buffer.delete(line_start, end - line_start);
        self.undo_stack.record(
            Operation::Delete { pos: line_start, text: text.clone() },
            before,
            GroupContext::Cut,
        );
        self.cursor.clamp(&self.buffer);
        self.cursor.col = 0;
        self.cursor.desired_col = 0;
        self.clipboard = text;
        let msg = with_number("Cut line (", len, " chars)");
        self.set_message_string(msg, MessageType::Info);
    }

    /// Replaces the selection, if any, with the clipboard's text.
    fn paste_clipboard(&mut self)
        requires
            old(self).wf(),
        ensures
            final(self).wf(),
    {
        if self.clipboard.as_str().unicode_len() == 0 {
            self.set_message("Clipboard is empty", MessageType::Warning);
            return;
        }
        let text = self.clipboard.clone();
        self.handle_paste(text.as_str());
    }

    /// Selects the whole document and moves the cursor to its end.
    pub fn select_all(&mut self)
        requires
            old(self).wf(),
        ensures
            final(self).wf(),
            final(self).content() == old(self).content(),
            final(self).spec_selection() == Some(
                Selection { anchor: 0, head: old(self).content().len() as usize },
            ),
    {
        let len = self.buffer.len();
        self.selection = Some(Selection { anchor: 0, head: len });
        self.cursor.move_to_end(&self.buffer);
    }

    // -----------------------------------------------------------------------
    // Undo, save, quit
    // -----------------------------------------------------------------------

    /// Undoes the latest group and restores the cursor from before it.
    pub fn undo(&mut self)
        requires
            old(self).wf(),
        ensures
            final(self).wf(),
            final(self).spec_selection() is None,
            old(self).spec_undo().undo_groups().len() == 0 && old(self).spec_undo().pending_ops().len()
                == 0 ==> final(self).content() == old(self).content(),
            old(self).spec_undo().undo_groups().len() > 0 || old(self).spec_undo().pending_ops().len()
                > 0 ==> final(self).content() == revert_ops(
                old(self).content(),
                final(self).spec_undo().redo_groups().last().ops@,
            ) && final(self).spec_undo().redo_groups().len() == old(self).spec_undo().redo_groups().len()
                + 1 && cursor_restored(
                final(self).spec_cursor(),
                final(self).content(),
                final(self).spec_undo().redo_groups().last().cursor_before,
            ),
            old(self).spec_undo().undo_groups().len() > 0 || old(self).spec_undo().pending_ops().len()
                > 0 ==> UndoStack::undone(
                old(self).spec_undo(),
                final(self).spec_undo(),
                cursor_state_of(old(self).spec_cursor()),
            ),
            old(self).spec_undo().undo_groups().len() == 0 && old(self).spec_undo().pending_ops().len()
                == 0 ==> final(self).spec_undo() == old(self).spec_undo(),
            search_current(final(self).spec_search(), final(self).content()),
    {
        self.selection = None;
        let cs = self.cursor_state();
        match self.undo_stack.undo(&mut self.buffer, cs) {
            Some(restored) => {
                self.cursor.line = restored.line;
                self.cursor.col = restored.col;
                self.cursor.desired_col = restored.desired_col;
                self.cursor.clamp(&self.buffer);
                self.set_message("Undo", MessageType::Info);
            },
            None => {
                self.set_message("Nothing to undo", MessageType::Warning);
            },
        }
        self.refresh_search();
    }

    /// Redoes the latest undone group and restores the cursor from after it.
    pub fn redo(&mut self)
        requires
            old(self).wf(),
        ensures
            final(self).wf(),
            final(self).spec_selection() is None,
            old(self).spec_undo().redo_groups().len() == 0 ==> final(self).content() == old(self).content(),
            old(self).spec_undo().redo_groups().len() > 0 ==> final(self).content() == replay_ops(
                old(self).content(),
                old(self).spec_undo().redo_groups().last().ops@,
            ) && cursor_restored(
                final(self).spec_cursor(),
                final(self).content(),
                old(self).spec_undo().redo_groups().last().cursor_after,
            ),
            old(self).spec_undo().redo_groups().len() > 0 ==> UndoStack::redone(
                old(self).spec_undo(),
                final(self).spec_undo(),
            ),
            old(self).spec_undo().redo_groups().len() == 0 ==> final(self).spec_undo() == old(self).spec_undo(),
            search_current(final(self).spec_search(), final(self).content()),
    {
        self.selection = None;
        match self.undo_stack.redo(&mut self.buffer) {
            Some(restored) => {
                self.cursor.line = restored.line;
                self.cursor.col = restored.col;
                self.cursor.desired_col = restored.desired_col;
                self.cursor.clamp(&self.buffer);
                self.set_message("Redo", MessageType::Info);
            },
            None => {
                self.set_message("Nothing to redo", MessageType::Warning);
            },
        }
        self.refresh_search();
    }

    /// Asks the host to write the document to its file; without a file name
    /// reports an error instead.
    fn save(&mut self) -> (r: EditorAction)
        requires
            old(self).wf(),
        ensures
            final(self).wf(),
            final(self).content() == old(self).content(),
            r matches EditorAction::Save { contents, .. } ==> contents@ == old(self).content(),
    {
        let path = match self.buffer.file_path() {
            Some(p) => p.clone(),
            None => {
                self.set_message("No file name", MessageType::Error);
                return EditorAction::Continue;
            },
        };
        EditorAction::Save { path, contents: self.buffer.text_bytes() }
    }

    /// The host's report on a save: on success the document and the undo
    /// history are marked saved.
    pub fn save_finished(&mut self, result: Result<(), String>)
        requires
            old(self).wf(),
        ensures
            final(self).wf(),
            final(self).content() == old(self).content(),
            result is Ok ==> final(self).spec_undo().is_at_saved_spec(),
    {
        match result {
            Ok(()) => {
                self.buffer.mark_saved();
                let cs = self.cursor_state();
                self.undo_stack.mark_saved(cs);
                self.set_message("Saved!", MessageType::Info);
            },
            Err(e) => {
                let mut bytes: Vec<u8> = Vec::new();
                bytes.extend_from_slice("Save failed: ".as_bytes());
                bytes.extend_from_slice(e.as_str().as_bytes());
                self.set_message_string(lossy_string(bytes.as_slice()), MessageType::Error);
            },
        }
    }

    /// Leaves the editor, unless there are unsaved changes and this is the
    /// first request: then asks for confirmation.
    fn quit(&mut self) -> (r: EditorAction)
        requires
            old(self).wf(),
        ensures
            final(self).wf(),
            final(self).content() == old(self).content(),
            r is Quit <==> (!old(self).buffer.spec_modified() || old(self).quit_confirm),
    {
        if self.buffer.is_modified() && !self.quit_confirm {
            self.quit_confirm = true;
            self.set_message(
                "Unsaved changes! Press Ctrl+Q again to quit without saving.",
                MessageType::Warning,
            );
            return EditorAction::Continue;
        }
        self.running = false;
        EditorAction::Quit
    }

    // -----------------------------------------------------------------------
    // Viewport and mouse
    // -----------------------------------------------------------------------

    fn text_area_height(&self) -> (r: usize)
        ensures
            r == (if self.screen.spec_height() >= self.status_height {
                self.screen.spec_height() - self.status_height
            } else {
                0
            }),
    {
        let h = self.screen.height();
        if h >= self.status_height {
            h - self.status_height
        } else {
            0
        }
    }

    fn text_area_width(&self) -> (r: usize)
        ensures
            r == (if self.screen.spec_width() >= self.gutter_width {
                self.screen.spec_width() - self.gutter_width
            } else {
                0
            }),
    {
        let w = self.screen.width();
        if w >= self.gutter_width {
            w - self.gutter_width
        } else {
            0
        }
    }

    /// Display column of the cursor within its line.
    fn cursor_display_col(&self) -> (r: usize)
        requires
            self.wf(),
    {
        let bytes = self.buffer.line_bytes(self.cursor.line);
        let line_text = lossy_string(bytes.as_slice());
        byte_col_to_display_col(line_text.as_str(), self.cursor.col)
    }

    /// Scrolls so that the cursor is inside the text area.
    fn adjust_viewport(&mut self)
        requires
            old(self).wf(),
        ensures
            final(self).wf(),
            final(self).content() == old(self).content(),
            final(self).spec_cursor() == old(self).spec_cursor(),
    {
        let h = self.text_area_height();
        let w = self.text_area_width();
        if h > 0 {
            if self.cursor.line < self.scroll_row {
                self.scroll_row = self.cursor.line;
            } else if self.cursor.line - self.scroll_row >= h {
                self.scroll_row = self.cursor.line - h + 1;
            }
        }
        let display_col = self.cursor_display_col();
        if w > 0 {
            if display_col < self.scroll_col {
                self.scroll_col = display_col;
            } else if display_col - self.scroll_col >= w {
                self.scroll_col = display_col - w + 1;
            }
        }
    }

    /// The terminal now measures `width` by `height`.
    pub fn resize(&mut self, width: u16, height: u16)
        requires
            old(self).wf(),
        ensures
            final(self).wf(),
            final(self).content() == old(self).content(),
    {
        proof {
            lemma_screen_size(width, height);
        }
        self.screen.resize(width as usize, height as usize);
        self.adjust_viewport();
    }

    /// A left click at screen `col`, `row` moves the cursor there, when it
    /// falls on the text.
    fn handle_mouse_click(&mut self, col: u16, row: u16)
        requires
            old(self).wf(),
        ensures
            final(self).wf(),
            final(self).content() == old(self).content(),
            final(self).spec_selection() is None,
    {
        self.selection = None;
        let screen_row = row as usize;
        let screen_col = col as usize;
        let h = self.text_area_height();
        if screen_row >= h {
            return;
        }
        if screen_row >= self.buffer.line_count() || self.scroll_row >= self.buffer.line_count()
            - screen_row {
            return;
        }
        let file_line = self.scroll_row + screen_row;
        if screen_col < self.gutter_width {
            return;
        }
        if self.scroll_col > usize::MAX - (screen_col - self.gutter_width) {
            return;
        }
        let display_col = screen_col - self.gutter_width + self.scroll_col;
        let bytes = self.buffer.line_bytes(file_line);
        let line_text = lossy_string(bytes.as_slice());
        let byte_col = display_col_to_byte_col(line_text.as_str(), display_col);
        self.cursor.set_position(file_line, byte_col, &self.buffer);
    }

    // -----------------------------------------------------------------------
    // Search
    // -----------------------------------------------------------------------

    /// Recomputes the matches of `pattern` in the document and moves the
    /// cursor to the first match that starts at or after the cursor offset
    /// from before the search session began (the current cursor when no
    /// session was started), wrapping to the first match. An empty pattern
    /// ends the search.
    pub fn update_search(&mut self, pattern: &str)
        requires
            old(self).wf(),
        ensures
            final(self).wf(),
            final(self).content() == old(self).content(),
            final(self).spec_selection() == old(self).spec_selection(),
            pattern@.len() == 0 ==> final(self).spec_search() is None,
            pattern@.len() > 0 ==> (final(self).spec_search() matches Some(st) && st.pattern@
                == pattern@ && st.matches@ == search_matches_of(old(self).content(), pattern@)
                && st.current == (if st.matches@.len() == 0 {
                None
            } else {
                Some(
                    first_at_or_after(
                        st.matches@,
                        match old(self).spec_search_origin() {
                            Some(o) => o as int,
                            None => line_start_of(
                                old(self).content(),
                                old(self).spec_cursor().line as int,
                            ) + old(self).spec_cursor().col,
                        },
                        0,
                    ) as usize,
                )
            })),
            pattern@.len() > 0 && final(self).spec_search() is Some && final(self).spec_search()->0.current is Some ==> {
                let st = final(self).spec_search()->0;
                let m = st.matches@[st.current->0 as int];
                &&& m.0 <= old(self).content().len() ==> line_start_of(
                    final(self).content(),
                    final(self).spec_cursor().line as int,
                ) + final(self).spec_cursor().col == m.0
                &&& final(self).spec_cursor().desired_col == final(self).spec_cursor().col
            },
            final(self).spec_search_origin() == old(self).spec_search_origin(),
    {
        if pattern.is_empty() {
            self.search = None;
            return;
        }
        let text = self.buffer.text();
        let matches = find_all_matches(text.as_str(), pattern);
        let cursor_byte = match self.search_origin {
            Some(o) => o,
            None => self.cursor.byte_offset(&self.buffer),
        };
        let current = if matches.len() == 0 {
            None
        } else {
            let idx = first_match_at_or_after(&matches, cursor_byte);
            self.jump_to_byte(matches[idx].0);
            Some(idx)
        };
        self.search = Some(SearchState { pattern: pattern.to_string(), matches, current });
    }

    /// Recomputes the matches of the active search over the current text,
    /// keeping its pattern; the current match stays when still in range.
    /// The cursor does not move.
    fn refresh_search(&mut self)
        requires
            old(self).wf(),
        ensures
            final(self).wf(),
            final(self).content() == old(self).content(),
            final(self).spec_cursor() == old(self).spec_cursor(),
            final(self).spec_selection() == old(self).spec_selection(),
            final(self).spec_undo() == old(self).spec_undo(),
            final(self).spec_search_origin() == old(self).spec_search_origin(),
            old(self).spec_search() is None ==> final(self).spec_search() is None,
            old(self).spec_search() is Some ==> search_current(final(self).spec_search(), final(self).content()),
            old(self).spec_search() is Some ==> final(self).spec_search() is Some && final(self).spec_search()->0.pattern == old(self).spec_search()->0.pattern,
    {
        let mut taken: Option<SearchState> = None;
        std::mem::swap(&mut taken, &mut self.search);
        if let Some(st) = taken {
            let text = self.buffer.text();
            let matches = find_all_matches(text.as_str(), st.pattern.as_str());
            proof {
                if st.pattern@.len() == 0 {
                    assert(matches@ =~= Seq::<(usize, usize)>::empty());
                }
            }
            let current = match st.current {
                Some(i) => if i < matches.len() {
                    Some(i)
                } else {
                    None
                },
                None => None,
            };
            self.search = Some(SearchState { pattern: st.pattern, matches, current });
        }
    }

    /// Moves to the next match, cyclically, and reports its position.
    pub fn search_next(&mut self)
        requires
            old(self).wf(),
        ensures
            final(self).wf(),
            final(self).content() == old(self).content(),
            old(self).spec_search() is Some && old(self).spec_search()->0.matches@.len() > 0 ==> {
                let st = old(self).spec_search()->0;
                let next = match st.current {
                    Some(i) => (i + 1) % st.matches@.len() as int,
                    None => 0,
                };
                &&& (final(self).spec_search() matches Some(st2) && st2.current == Some(
                    next as usize,
                ) && st2.matches@ == st.matches@)
                &&& final(self).spec_message_type() == MessageType::Info
                &&& final(self).spec_message() matches Some(msg) && msg@ == match_text(
                    (next + 1) as nat,
                    st.matches@.len(),
                )
                &&& st.matches@[next].0 <= old(self).content().len() ==> line_start_of(
                    final(self).content(),
                    final(self).spec_cursor().line as int,
                ) + final(self).spec_cursor().col == st.matches@[next].0
            },
            !(old(self).spec_search() is Some && old(self).spec_search()->0.matches@.len() > 0)
                ==> final(self).spec_cursor() == old(self).spec_cursor() && final(self).spec_search()
                == old(self).spec_search() && final(self).spec_message_type() == MessageType::Warning
                && (final(self).spec_message() matches Some(msg) && msg@ == "No search pattern"@),
    {
        let (total, next_idx, byte_pos) = match &self.search {
            Some(st) if st.matches.len() > 0 => {
                let total = st.matches.len();
                let next = match st.current {
                    Some(i) => (i + 1) % total,
                    None => 0,
                };
                (total, next, st.matches[next].0)
            },
            _ => {
                self.set_message("No search pattern", MessageType::Warning);
                return;
            },
        };
        self.jump_to_byte(byte_pos);
        self.set_current_match(next_idx);
        let msg = match_message(next_idx + 1, total);
        self.set_message_string(msg, MessageType::Info);
    }

    /// Moves to the previous match, cyclically, and reports its position.
    pub fn search_prev(&mut self)
        requires
            old(self).wf(),
        ensures
            final(self).wf(),
            final(self).content() == old(self).content(),
            old(self).spec_search() is Some && old(self).spec_search()->0.matches@.len() > 0 ==> {
                let st = old(self).spec_search()->0;
                let prev = match st.current {
                    Some(i) => if i == 0 {
                        st.matches@.len() - 1
                    } else {
                        i - 1
                    },
                    None => st.matches@.len() - 1,
                };
                &&& (final(self).spec_search() matches Some(st2) && st2.current == Some(
                    prev as usize,
                ) && st2.matches@ == st.matches@)
                &&& final(self).spec_message_type() == MessageType::Info
                &&& final(self).spec_message() matches Some(msg) && msg@ == match_text(
                    (prev + 1) as nat,
                    st.matches@.len(),
                )
                &&& st.matches@[prev].0 <= old(self).content().len() ==> line_start_of(
                    final(self).content(),
                    final(self).spec_cursor().line as int,
                ) + final(self).spec_cursor().col == st.matches@[prev].0
            },
            !(old(self).spec_search() is Some && old(self).spec_search()->0.matches@.len() > 0)
                ==> final(self).spec_cursor() == old(self).spec_cursor() && final(self).spec_search()
                == old(self).spec_search() && final(self).spec_message_type() == MessageType::Warning
                && (final(self).spec_message() matches Some(msg) && msg@ == "No search pattern"@),
    {
        let (total, prev_idx, byte_pos) = match &self.search {
            Some(st) if st.matches.len() > 0 => {
                let total = st.matches.len();
                let prev = match st.current {
                    Some(i) => if i == 0 {
                        total - 1
                    } else {
                        i - 1
                    },
                    None => total - 1,
                };
                (total, prev, st.matches[prev].0)
            },
            _ => {
                self.set_message("No search pattern", MessageType::Warning);
                return;
            },
        };
        self.jump_to_byte(byte_pos);
        self.set_current_match(prev_idx);
        let msg = match_message(prev_idx + 1, total);
        self.set_message_string(msg, MessageType::Info);
    }

    fn set_current_match(&mut self, idx: usize)
        requires
            old(self).wf(),
            old(self).spec_search() matches Some(st) && idx < st.matches@.len(),
        ensures
            final(self).wf(),
            final(self).content() == old(self).content(),
            final(self).spec_cursor() == old(self).spec_cursor(),
            final(self).spec_selection() == old(self).spec_selection(),
            final(self).spec_search() matches Some(st2) && st2.current == Some(idx)
                && st2.matches == old(self).spec_search()->0.matches,
    {
        let mut taken: Option<SearchState> = None;
        std::mem::swap(&mut taken, &mut self.search);
        if let Some(st) = taken {
            self.search = Some(
                SearchState { pattern: st.pattern, matches: st.matches, current: Some(idx) },
            );
        }
    }

    /// Whether byte `byte_pos` lies in a match, and if so whether in the
    /// current one.
    fn match_at_byte(&self, byte_pos: usize) -> (r: Option<bool>)
        requires
            self.wf(),
    {
        let search = match &self.search {
            Some(st) => st,
            None => {
                return None;
            },
        };
        let n = search.matches.len();
        let mut i: usize = 0;
        while i < n
            invariant
                i <= n,
                n == search.matches@.len(),
            decreases n - i,
        {
            let (start, end) = search.matches[i];
            if byte_pos >= start && byte_pos < end {
                let is_current = match search.current {
                    Some(c) => c == i,
                    None => false,
                };
                return Some(is_current);
            }
            if start > byte_pos {
                return None;
            }
            i += 1;
        }
        None
    }

    /// Replaces every match of `find_pattern` with `replacement`, last match
    /// first so that earlier offsets stay valid; each deletion and insertion is
    /// recorded as an undo group of its own. Ends the search. Returns the
    /// number of replacements.
    pub fn execute_replace_all(&mut self, find_pattern: &str, replacement: &str) -> (r: usize)
        requires
            old(self).wf(),
        ensures
            final(self).wf(),
            final(self).spec_search() is None,
            ({
                let ms = search_matches_of(old(self).content(), find_pattern@);
                let rep = replacement.spec_bytes();
                let u0 = old(self).spec_undo();
                let u = final(self).spec_undo();
                let base = u0.undo_groups().len() + (if u0.pending_ops().len() > 0 {
                    1int
                } else {
                    0
                });
                &&& r == ms.len()
                &&& final(self).content() == replaced_after(old(self).content(), ms, rep, 0)
                &&& r == 0 ==> u == u0 && final(self).spec_message_type() == MessageType::Warning
                    && (final(self).spec_message() matches Some(m) && m@
                    == "No matches to replace"@)
                &&& r > 0 ==> {
                    &&& final(self).spec_message_type() == MessageType::Info
                    &&& (final(self).spec_message() matches Some(m) && m@ == lossy_of(
                        "Replaced ".spec_bytes() + decimal(r as nat) + " occurrences".spec_bytes(),
                    ))
                }
                &&& r > 0 ==> replace_history(
                    old(self).content(),
                    ms,
                    replacement@,
                    u0,
                    u,
                    base,
                    0,
                )
            }),
    {
        let text = self.buffer.text();
        let matches = find_all_matches(text.as_str(), find_pattern);
        let count = matches.len();
        if count == 0 {
            self.search = None;
            self.set_message("No matches to replace", MessageType::Warning);
            return 0;
        }
        self.selection = None;
        let ghost c0 = self.buffer@;
        let ghost ms = matches@;
        let ghost u0 = self.undo_stack;
        let ghost rep = replacement.spec_bytes();
        let ghost base = u0.undo_groups().len() + (if u0.pending_ops().len() > 0 {
            1int
        } else {
            0
        });
        let mut i = count;
        while i > 0
            invariant
                self.wf(),
                self.selection is None,
                i <= count,
                count == ms.len(),
                matches@ == ms,
                rep == replacement.spec_bytes(),
                self.buffer@ == replaced_after(c0, ms, rep, i as int),
                i == count ==> self.undo_stack == u0,
                i < count ==> replace_history(c0, ms, replacement@, u0, self.undo_stack, base, i as int),
                base == u0.undo_groups().len() + (if u0.pending_ops().len() > 0 {
                    1int
                } else {
                    0
                }),
            decreases i,
        {
            let (start, end) = matches[i - 1];
            let len = if end >= start {
                end - start
            } else {
                0
            };
            let ghost u = self.undo_stack;
            let before = self.cursor_state();
            let deleted = self.buffer.slice(start, end);
            self.buffer.delete(start, len);
            let del = Operation::Delete { pos: start, text: deleted };
            let ghost del_op = del;
            self.undo_stack.record(del, before, GroupContext::Other);
            let ghost u1 = self.undo_stack;
            self.cursor.clamp(&self.buffer);
            let before2 = self.cursor_state();
            let text = replacement.to_string();
            proof {
                assert(text@ == replacement@);
            }
            let op = Operation::Insert { pos: start, text };
            let ghost ins_op = op;
            op.apply(&mut self.buffer);
            self.undo_stack.record(op, before2, GroupContext::Other);
            self.cursor.clamp(&self.buffer);
            proof {
                let k = i - 1;
                let u2 = self.undo_stack;
                let n = count as int;
                let g0 = u0.undo_groups().len() as int;
                assert(UndoStack::recorded(u, u1, del_op, before, GroupContext::Other, true));
                assert(UndoStack::recorded(u1, u2, ins_op, before2, GroupContext::Other, true));
                assert(is_delete_group(
                    u2.undo_groups()[base + 2 * (n - 1 - k)],
                    ms[k].0,
                    deleted_text(c0, ms, rep, k),
                ));
                if i < count {
                    assert(u1.undo_groups().drop_last() == u.undo_groups());
                    assert(u2.undo_groups().drop_last() == u1.undo_groups());
                    assert forall|j: int| 0 <= j < u.undo_groups().len() implies u2.undo_groups()[j]
                        == u.undo_groups()[j] by {
                        assert(u1.undo_groups()[j] == u1.undo_groups().drop_last()[j]);
                        assert(u2.undo_groups()[j] == u2.undo_groups().drop_last()[j]);
                    }
                    assert(u2.undo_groups().subrange(0, g0) =~= u.undo_groups().subrange(0, g0));
                    assert(u2.undo_groups()[base + 2 * (n - 1 - i) + 1] == u1.undo_groups()[base + 2
                        * (n - 1 - i) + 1]) by {
                        assert(u2.undo_groups()[base + 2 * (n - 1 - i) + 1]
                            == u2.undo_groups().drop_last()[base + 2 * (n - 1 - i) + 1]);
                    }
                    assert forall|q: int| k <= q < n implies is_delete_group(
                        u2.undo_groups()[base + 2 * (n - 1 - q)],
                        (#[trigger] ms[q]).0,
                        deleted_text(c0, ms, rep, q),
                    ) by {
                        if q > k {
                            assert(u2.undo_groups()[base + 2 * (n - 1 - q)] == u.undo_groups()[base
                                + 2 * (n - 1 - q)]);
                        }
                    }
                    assert forall|q: int| k < q < n implies is_insert_group(
                        u2.undo_groups()[base + 2 * (n - 1 - q) + 1],
                        (#[trigger] ms[q]).0,
                        replacement@,
                    ) by {
                        if q > i {
                            assert(u2.undo_groups()[base + 2 * (n - 1 - q) + 1]
                                == u.undo_groups()[base + 2 * (n - 1 - q) + 1]);
                        }
                    }
                } else {
                    if u0.pending_ops().len() > 0 {
                        assert(u1.undo_groups().drop_last() == u0.undo_groups());
                        assert(u2.undo_groups().drop_last() == u1.undo_groups());
                        assert(u2.undo_groups()[g0] == u1.undo_groups()[g0]) by {
                            assert(u2.undo_groups()[g0] == u2.undo_groups().drop_last()[g0]);
                        }
                        assert(u2.undo_groups().subrange(0, g0) =~= u0.undo_groups());
                    } else {
                        assert(u2.undo_groups().drop_last() == u1.undo_groups());
                        assert(u2.undo_groups().subrange(0, g0) =~= u0.undo_groups());
                    }
                    assert forall|q: int| k <= q < n implies is_delete_group(
                        u2.undo_groups()[base + 2 * (n - 1 - q)],
                        (#[trigger] ms[q]).0,
                        deleted_text(c0, ms, rep, q),
                    ) by {}
                }
            }
            i = i - 1;
        }
        self.search = None;
        let msg = with_number("Replaced ", count, " occurrences");
        self.set_message_string(msg, MessageType::Info);
        count
    }

    // -----------------------------------------------------------------------
    // Prompt
    // -----------------------------------------------------------------------

    fn start_prompt(&mut self, label: &str, action: PromptAction)
        requires
            old(self).wf(),
        ensures
            final(self).wf(),
            final(self).content() == old(self).content(),
    {
        self.prompt = Some(
            Prompt { label: label.to_string(), input: String::new(), cursor_pos: 0, action },
        );
        self.message = None;
    }

    /// Text to start a search with: the selection when it is a single line
    /// of at most 100 bytes, else the last pattern, else nothing.
    fn prefill_search_text(&self) -> (r: String)
        requires
            self.wf(),
    {
        if let Some((start, end)) = self.selection_range() {
            if start != end {
                let bytes = self.buffer.slice_bytes(start, end);
                if !has_newline(bytes.as_slice()) && bytes.len() <= 100 {
                    return lossy_string(bytes.as_slice());
                }
            }
        }
        match &self.search {
            Some(st) => st.pattern.clone(),
            None => String::new(),
        }
    }

    /// Opens the search prompt, filled in from the selection or the last
    /// pattern, and searches for that text at once.
    fn open_find_prompt(&mut self, action: PromptAction)
        requires
            old(self).wf(),
        ensures
            final(self).wf(),
            final(self).content() == old(self).content(),
            final(self).spec_search_origin() == Some(
                (line_start_of(old(self).content(), old(self).spec_cursor().line as int)
                    + old(self).spec_cursor().col) as usize,
            ),
    {
        // The search session starts here: matches are sought from this offset.
        self.search_origin = Some(self.cursor.byte_offset(&self.buffer));
        let prefill = self.prefill_search_text();
        let n = prefill.as_str().as_bytes().len();
        let empty = prefill.as_str().unicode_len() == 0;
        let input = prefill.clone();
        self.prompt = Some(
            Prompt { label: "Find: ".to_string(), input, cursor_pos: n, action },
        );
        self.message = None;
        if !empty {
            self.update_search(prefill.as_str());
        }
    }

    /// A key while the prompt is open: line editing, Enter to confirm,
    /// Escape to cancel. Search prompts search as the input changes.
    fn handle_prompt_key(&mut self, ke: KeyEvent) -> (r: EditorAction)
        requires
            old(self).wf(),
        ensures
            final(self).wf(),
    {
        let mut input_changed = false;
        if ke.key == Key::Enter && !ke.ctrl && !ke.alt {
            let mut taken: Option<Prompt> = None;
            std::mem::swap(&mut taken, &mut self.prompt);
            return match taken {
                Some(prompt) => {
                    if prompt.input.as_str().unicode_len() == 0 {
                        EditorAction::Continue
                    } else {
                        self.execute_prompt(prompt)
                    }
                },
                None => EditorAction::Continue,
            };
        }
        if ke.key == Key::Escape {
            self.prompt = None;
            return EditorAction::Continue;
        }
        if !ke.ctrl && !ke.alt {
            match &mut self.prompt {
                Some(prompt) => {
                    match ke.key {
                        Key::Backspace => {
                            input_changed = prompt.backspace();
                        },
                        Key::Delete => {
                            input_changed = prompt.delete();
                        },
                        Key::Left => prompt.move_left(),
                        Key::Right => prompt.move_right(),
                        Key::Home => prompt.move_home(),
                        Key::End => prompt.move_end(),
                        Key::Char(ch) => {
                            let s = char_string(ch);
                            prompt.insert_str(s.as_str());
                            input_changed = true;
                        },
                        _ => {},
                    }
                },
                None => {},
            }
        }
        if input_changed {
            let pattern = match &self.prompt {
                Some(prompt) => match prompt.action {
                    PromptAction::Find | PromptAction::Replace => Some(prompt.input.clone()),
                    _ => None,
                },
                None => None,
            };
            if let Some(p) = pattern {
                self.update_search(p.as_str());
            }
        }
        EditorAction::Continue
    }

    /// Carries out a confirmed prompt.
    fn execute_prompt(&mut self, prompt: Prompt) -> (r: EditorAction)
        requires
            old(self).wf(),
        ensures
            final(self).wf(),
    {
        match prompt.action {
            PromptAction::OpenFile => {
                let path = prompt.input.clone();
                self.prompt = Some(prompt);
                EditorAction::Open(path)
            },
            PromptAction::Find => {
                self.update_search(prompt.input.as_str());
                let report = match &self.search {
                    Some(st) => {
                        if st.matches.len() == 0 {
                            None
                        } else {
                            let current = match st.current {
                                Some(i) => i + 1,
                                None => 0,
                            };
                            Some((current, st.matches.len()))
                        }
                    },
                    None => Some((0, 0)),
                };
                match report {
                    None => self.set_message("No matches", MessageType::Warning),
                    Some((current, total)) => {
                        if total > 0 {
                            let msg = match_message(current, total);
                            self.set_message_string(msg, MessageType::Info);
                        }
                    },
                }
                EditorAction::Continue
            },
            PromptAction::Replace => {
                let pattern = prompt.input;
                self.update_search(pattern.as_str());
                let none_found = match &self.search {
                    Some(st) => st.matches.len() == 0,
                    None => false,
                };
                if none_found {
                    self.set_message("No matches", MessageType::Warning);
                    return EditorAction::Continue;
                }
                self.start_prompt("Replace with: ", PromptAction::ReplaceWith(pattern));
                EditorAction::Continue
            },
            PromptAction::ReplaceWith(find_pattern) => {
                let replacement = prompt.input;
                self.execute_replace_all(find_pattern.as_str(), replacement.as_str());
                EditorAction::Continue
            },
        }
    }

    /// The host's report on opening the file at `path` (named `label` in the
    /// status bar): on success the document, cursor, selection and history
    /// are replaced and the prompt closes; on failure the prompt stays open.
    pub fn open_finished(&mut self, path: String, label: String, result: Result<Vec<u8>, String>)
        requires
            old(self).wf(),
        ensures
            final(self).wf(),
            result is Ok && result->Ok_0@.len() <= MAX_CONTENT ==> {
                &&& final(self).content() == result->Ok_0@
                &&& final(self).spec_undo().undo_groups().len() == 0
                &&& final(self).spec_undo().redo_groups().len() == 0
                &&& final(self).spec_undo().is_at_saved_spec()
                &&& final(self).spec_selection() is None
                &&& final(self).spec_search() is None
                &&& final(self).spec_prompt() is None
                &&& final(self).spec_cursor() == Cursor { line: 0, col: 0, desired_col: 0 }
                &&& final(self).spec_scroll() == (0usize, 0usize)
                &&& final(self).spec_message_type() == MessageType::Info
            },
            result is Ok && result->Ok_0@.len() > MAX_CONTENT ==> final(self).content() == old(self).content() && final(self).spec_cursor() == old(self).spec_cursor() && final(self).spec_undo() == old(self).spec_undo() && final(self).spec_prompt() == old(self).spec_prompt() && final(self).spec_message_type() == MessageType::Error,
            result is Err ==> {
                &&& final(self).content() == old(self).content()
                &&& final(self).spec_cursor() == old(self).spec_cursor()
                &&& final(self).spec_undo() == old(self).spec_undo()
                &&& final(self).spec_prompt() == old(self).spec_prompt()
                &&& final(self).spec_message_type() == MessageType::Error
                &&& (final(self).spec_message() matches Some(m) && m@ == lossy_of(
                    "Error: ".spec_bytes() + encode_utf8(result->Err_0@),
                ))
            },
    {
        match result {
            Ok(bytes) => {
                if bytes.len() > MAX_CONTENT {
                    self.set_message("Error: file too large", MessageType::Error);
                    return;
                }
                let mut msg_bytes: Vec<u8> = Vec::new();
                msg_bytes.extend_from_slice("Opened: ".as_bytes());
                msg_bytes.extend_from_slice(label.as_str().as_bytes());
                self.buffer = Buffer::load(bytes.as_slice(), Some(path));
                self.file_label = Some(label);
                self.cursor = Cursor::new();
                proof {
                    lemma_line_starts(self.buffer@);
                }
                self.scroll_row = 0;
                self.scroll_col = 0;
                self.selection = None;
                self.undo_stack.clear();
                self.search = None;
                self.search_origin = None;
                self.prompt = None;
                self.gutter_width = compute_gutter_width(self.buffer.line_count());
                self.set_message_string(lossy_string(msg_bytes.as_slice()), MessageType::Info);
            },
            Err(e) => {
                let mut msg_bytes: Vec<u8> = Vec::new();
                msg_bytes.extend_from_slice("Error: ".as_bytes());
                msg_bytes.extend_from_slice(e.as_str().as_bytes());
                proof {
                    assert(msg_bytes@ =~= "Error: ".spec_bytes() + encode_utf8(e@));
                }
                self.set_message_string(lossy_string(msg_bytes.as_slice()), MessageType::Error);
            },
        }
    }

    // -----------------------------------------------------------------------
    // Events
    // -----------------------------------------------------------------------

    /// Handles one input event and returns the work left to the host.
    pub fn handle_event(&mut self, event: Event) -> (r: EditorAction)
        requires
            old(self).wf(),
        ensures
            final(self).wf(),
    {
        if self.prompt.is_none() {
            match &event {
                Event::Resize => {},
                _ => {
                    self.message = None;
                },
            }
        }
        match event {
            Event::Key(ke) => {
                if self.prompt.is_some() {
                    self.handle_prompt_key(ke)
                } else {
                    self.handle_key(ke)
                }
            },
            Event::Mouse(me) => {
                if self.prompt.is_none() && me.button == MouseButton::Left && me.pressed {
                    self.handle_mouse_click(me.col, me.row);
                }
                EditorAction::Continue
            },
            Event::Paste(text) => {
                match &mut self.prompt {
                    Some(prompt) => {
                        prompt.insert_str(text.as_str());
                    },
                    None => {
                        self.handle_paste(text.as_str());
                    },
                }
                EditorAction::Continue
            },
            Event::Resize => {
                self.adjust_viewport();
                EditorAction::Continue
            },
            Event::Nothing => EditorAction::Continue,
        }
    }

    /// A key with no prompt open: navigation (extending the selection with
    /// Shift), editing, clipboard, undo, search and file commands.
    fn handle_key(&mut self, ke: KeyEvent) -> (r: EditorAction)
        requires
            old(self).wf(),
        ensures
            final(self).wf(),
            is_nav_key(ke.key) && !ke.shift ==> final(self).spec_selection() is None,
            is_nav_key(ke.key) ==> final(self).content() == old(self).content() && final(self).spec_undo() == old(self).spec_undo(),
            is_nav_key(ke.key) && ke.shift ==> final(self).spec_selection() == Some(
                Selection {
                    anchor: match old(self).spec_selection() {
                        Some(sel) => sel.anchor,
                        None => (line_start_of(old(self).content(), old(self).spec_cursor().line as int)
                            + old(self).spec_cursor().col) as usize,
                    },
                    head: (line_start_of(final(self).content(), final(self).spec_cursor().line as int)
                        + final(self).spec_cursor().col) as usize,
                },
            ),
            ke.key is Char && !ke.ctrl && !ke.alt ==> final(self).spec_selection() is None,
            search_current(final(self).spec_search(), final(self).content()),
    {
        if !(ke.ctrl && ke.key == Key::Char('q')) {
            self.quit_confirm = false;
        }
        let is_nav = match ke.key {
            Key::Up | Key::Down | Key::Left | Key::Right | Key::Home | Key::End | Key::PageUp
            | Key::PageDown => true,
            _ => false,
        };
        if is_nav && ke.shift {
            self.start_or_continue_selection();
        }
        let mut action = EditorAction::Continue;
        match (ke.key, ke.ctrl, ke.alt) {
            (Key::Up, false, _) => self.cursor.move_up(&self.buffer),
            (Key::Down, false, _) => self.cursor.move_down(&self.buffer),
            (Key::Left, false, _) => self.cursor.move_left(&self.buffer),
            (Key::Right, false, _) => self.cursor.move_right(&self.buffer),
            (Key::Left, true, _) => self.cursor.move_word_left(&self.buffer),
            (Key::Right, true, _) => self.cursor.move_word_right(&self.buffer),
            (Key::Home, false, _) => self.cursor.move_home(&self.buffer),
            (Key::End, false, _) => self.cursor.move_end(&self.buffer),
            (Key::Home, true, _) => self.cursor.move_to_start(),
            (Key::End, true, _) => self.cursor.move_to_end(&self.buffer),
            (Key::PageUp, false, _) => {
                let h = self.text_area_height();
                self.scroll_row = if self.scroll_row >= h {
                    self.scroll_row - h
                } else {
                    0
                };
                self.cursor.move_page_up(&self.buffer, h);
            },
            (Key::PageDown, false, _) => {
                let h = self.text_area_height();
                proof {
                    lemma_line_starts(self.buffer@);
                }
                let max_line = self.buffer.line_count() - 1;
                self.scroll_row = if h >= max_line || self.scroll_row >= max_line - h {
                    max_line
                } else {
                    self.scroll_row + h
                };
                self.cursor.move_page_down(&self.buffer, h);
            },
            (Key::Char(ch), false, false) => {
                self.delete_selection();
                self.insert_char(ch);
            },
            (Key::Enter, false, false) => {
                self.delete_selection();
                self.insert_newline();
            },
            (Key::Tab, false, false) => {
                self.delete_selection();
                self.insert_tab();
            },
            (Key::Backspace, false, false) => {
                if self.delete_selection().is_none() {
                    self.backspace();
                }
            },
            (Key::Delete, false, false) => {
                if self.delete_selection().is_none() {
                    self.delete_at_cursor();
                }
            },
            (Key::Char('c'), true, false) => self.copy_selection(),
            (Key::Char('x'), true, false) => self.cut_selection(),
            (Key::Char('v'), true, false) => self.paste_clipboard(),
            (Key::Char('a'), true, false) => self.select_all(),
            (Key::Char('s'), true, false) => {
                action = self.save();
            },
            (Key::Char('q'), true, false) => {
                action = self.quit();
            },
            (Key::Char('z'), true, false) => self.undo(),
            (Key::Char('y'), true, false) => self.redo(),
            (Key::Char('f'), true, false) => self.open_find_prompt(PromptAction::Find),
            (Key::Char('h'), true, false) => self.open_find_prompt(PromptAction::Replace),
            (Key::F(3), false, false) => {
                if ke.shift {
                    self.search_prev();
                } else {
                    self.search_next();
                }
            },
            (Key::Char('o'), true, false) => self.start_prompt("Open: ", PromptAction::OpenFile),
            _ => {},
        }
        self.cursor.clamp(&self.buffer);
        if is_nav {
            if ke.shift {
                self.extend_selection();
            } else {
                self.selection = None;
            }
        }
        self.refresh_search();
        action
    }

    // -----------------------------------------------------------------------
    // Rendering
    // -----------------------------------------------------------------------

    /// Draws the frame (text with line numbers, selection and match
    /// highlighting, status bar, message or prompt line) and returns the bytes
    /// that update the terminal, cursor placement included.
    pub fn render(&mut self) -> (r: Vec<u8>)
        requires
            old(self).wf(),
        ensures
            final(self).wf(),
            final(self).content() == old(self).content(),
            final(self).spec_cursor() == old(self).spec_cursor(),
    {
        self.gutter_width = compute_gutter_width(self.buffer.line_count());
        self.adjust_viewport();
        let h = self.text_area_height();
        let screen_width = self.screen.width();
        let mut screen_row: usize = 0;
        while screen_row < h
            invariant
                self.wf(),
                self.content() == old(self).content(),
                self.spec_cursor() == old(self).spec_cursor(),
                screen_width == self.screen.spec_width(),
            decreases h - screen_row,
        {
            self.render_text_row(screen_row, screen_width);
            screen_row += 1;
        }
        self.render_status(h, screen_width);
        self.render_message_line(h, screen_width);
        let frame = self.screen.flush(&self.color_mode);
        let mut out: Vec<u8> = Vec::new();
        if frame.len() > 0 {
            out.extend_from_slice(crate::terminal::hide_cursor().as_bytes());
            out.extend_from_slice(frame.as_slice());
            out.extend_from_slice(crate::terminal::show_cursor().as_bytes());
        }
        let (row, col) = self.cursor_screen_position(h);
        let mv = crate::terminal::move_cursor(row, col);
        out.extend_from_slice(mv.as_slice());
        out
    }

    /// 1-based terminal position of the cursor: in the prompt input when a
    /// prompt is open, else in the text area.
    fn cursor_screen_position(&self, h: usize) -> (r: (u16, u16))
        requires
            self.wf(),
    {
        match &self.prompt {
            Some(prompt) => {
                let label_len = prompt.label.as_str().unicode_len();
                let input_col = byte_col_to_display_col(prompt.input.as_str(), prompt.cursor_pos);
                let col = sat_add(sat_add(sat_add(1, label_len), input_col), 1);
                let row = sat_add(h, 2);
                (row as u16, col as u16)
            },
            None => {
                let row = if self.cursor.line >= self.scroll_row {
                    self.cursor.line - self.scroll_row
                } else {
                    0
                };
                let display = self.cursor_display_col();
                let col = if display >= self.scroll_col {
                    display - self.scroll_col
                } else {
                    0
                };
                let col = sat_add(sat_add(col, self.gutter_width), 1);
                (sat_add(row, 1) as u16, col as u16)
            },
        }
    }

    /// Draws text row `screen_row`: a line number and the line's characters,
    /// or a tilde past the end of the document.
    fn render_text_row(&mut self, screen_row: usize, screen_width: usize)
        requires
            old(self).wf(),
            screen_width == old(self).screen.spec_width(),
        ensures
            final(self).wf(),
            final(self).content() == old(self).content(),
            final(self).spec_cursor() == old(self).spec_cursor(),
            final(self).screen.spec_width() == old(self).screen.spec_width(),
    {
        let gutter_fg = Color::Color256(240);
        let line_count = self.buffer.line_count();
        if screen_row >= line_count || self.scroll_row >= line_count - screen_row {
            self.screen.put_char(screen_row, 0, '~', gutter_fg, Color::Default, false);
            let mut col: usize = 1;
            while col < screen_width
                invariant
                    self.wf(),
                    self.content() == old(self).content(),
                    self.spec_cursor() == old(self).spec_cursor(),
                    screen_width == self.screen.spec_width(),
                decreases screen_width - col,
            {
                self.screen.put_char(screen_row, col, ' ', Color::Default, Color::Default, false);
                col += 1;
            }
            return;
        }
        let file_line = self.scroll_row + screen_row;
        // Gutter: right-aligned line number and a separating space.
        proof {
            lemma_line_starts(self.buffer@);
            self.buffer.lemma_len_bound();
        }
        let digits = usize_digits(file_line + 1);
        let num_str = lossy_string(digits.as_slice());
        let num_len = digits.len();
        let pad = if self.gutter_width > num_len {
            self.gutter_width - num_len - 1
        } else {
            0
        };
        let mut col: usize = 0;
        while col < pad
            invariant
                self.wf(),
                self.content() == old(self).content(),
                self.spec_cursor() == old(self).spec_cursor(),
                screen_width == self.screen.spec_width(),
            decreases pad - col,
        {
            self.screen.put_char(screen_row, col, ' ', gutter_fg, Color::Default, false);
            col += 1;
        }
        self.screen.put_str(screen_row, pad, num_str.as_str(), gutter_fg, Color::Default, false);
        let sep_col = sat_add(pad, num_len);
        if sep_col < self.gutter_width {
            self.screen.put_char(screen_row, sep_col, ' ', gutter_fg, Color::Default, false);
        }
        // Line content with selection and match highlighting.
        proof {
            lemma_line_bounds(self.buffer@, file_line as int);
        }
        let line_start = match self.buffer.line_start(file_line) {
            Some(v) => v,
            None => 0,
        };
        let line_end = match self.buffer.line_end(file_line) {
            Some(v) => v,
            None => 0,
        };
        let sel_range = self.selection_range();
        let mut display_col: usize = 0;
        let mut pos = line_start;
        while pos < line_end
            invariant
                self.wf(),
                self.content() == old(self).content(),
                self.spec_cursor() == old(self).spec_cursor(),
                screen_width == self.screen.spec_width(),
                line_start <= pos,
                line_end <= self.content().len(),
                display_col <= pos - line_start,
            decreases line_end - pos,
        {
            let (ch, step) = match self.buffer.char_at(pos) {
                Some(c) => {
                    let first = match self.buffer.byte_at(pos) {
                        Some(b) => b,
                        None => 0,
                    };
                    let n = crate::buffer::utf8_char_len(first);
                    (c, if n <= line_end - pos {
                        n
                    } else {
                        line_end - pos
                    })
                },
                None => ('\u{FFFD}', 1),
            };
            if display_col >= self.scroll_col {
                let screen_col = sat_add(display_col - self.scroll_col, self.gutter_width);
                if screen_col >= screen_width {
                    break;
                }
                let is_selected = match sel_range {
                    Some((s, e)) => pos >= s && pos < e,
                    None => false,
                };
                let (fg, bg, bold) = if is_selected {
                    (Color::Ansi(0), Color::Ansi(7), true)
                } else {
                    match self.match_at_byte(pos) {
                        Some(true) => (Color::Ansi(0), Color::Ansi(6), true),
                        Some(false) => (Color::Ansi(0), Color::Ansi(3), false),
                        None => (Color::Default, Color::Default, false),
                    }
                };
                self.screen.put_char(screen_row, screen_col, ch, fg, bg, bold);
            }
            pos = pos + step;
            display_col = display_col + 1;
        }
        // Rest of the row; the first cell shows a selected line break.
        let start_fill = sat_add(
            if display_col >= self.scroll_col {
                display_col - self.scroll_col
            } else {
                0
            },
            self.gutter_width,
        );
        let mut col = start_fill;
        while col < screen_width
            invariant
                self.wf(),
                self.content() == old(self).content(),
                self.spec_cursor() == old(self).spec_cursor(),
                screen_width == self.screen.spec_width(),
            decreases screen_width - col,
        {
            let trailing_selected = col == start_fill && match sel_range {
                Some((s, e)) => line_end >= s && line_end < e,
                None => false,
            };
            if trailing_selected {
                self.screen.put_char(screen_row, col, ' ', Color::Ansi(0), Color::Ansi(7), true);
            } else {
                self.screen.put_char(screen_row, col, ' ', Color::Default, Color::Default, false);
            }
            col += 1;
        }
    }

    /// Draws the status bar on row `h`: file name, modified marker, cursor
    /// position and color mode.
    fn render_status(&mut self, h: usize, screen_width: usize)
        requires
            old(self).wf(),
            screen_width == old(self).screen.spec_width(),
        ensures
            final(self).wf(),
            final(self).content() == old(self).content(),
            final(self).spec_cursor() == old(self).spec_cursor(),
            final(self).screen.spec_width() == old(self).screen.spec_width(),
    {
        if h >= self.screen.height() {
            return;
        }
        let fg = Color::Ansi(0);
        let bg = Color::Ansi(7);
        let mut left: Vec<u8> = Vec::new();
        left.push(32u8);
        match &self.file_label {
            Some(label) => left.extend_from_slice(label.as_str().as_bytes()),
            None => left.extend_from_slice("[No Name]".as_bytes()),
        }
        if self.buffer.is_modified() {
            left.extend_from_slice(" [+]".as_bytes());
        }
        let mut right: Vec<u8> = Vec::new();
        right.extend_from_slice("Ln ".as_bytes());
        let line_digits = usize_digits(sat_add(self.cursor.line, 1));
        right.extend_from_slice(line_digits.as_slice());
        right.extend_from_slice(", Col ".as_bytes());
        let col_digits = usize_digits(sat_add(self.cursor_display_col(), 1));
        right.extend_from_slice(col_digits.as_slice());
        right.extend_from_slice(" | ".as_bytes());
        match self.color_mode {
            ColorMode::TrueColor => right.extend_from_slice("TrueColor".as_bytes()),
            ColorMode::Color256 => right.extend_from_slice("256color".as_bytes()),
            ColorMode::Color16 => right.extend_from_slice("16color".as_bytes()),
        }
        right.push(32u8);
        let mut col: usize = 0;
        while col < screen_width
            invariant
                self.wf(),
                self.content() == old(self).content(),
                self.spec_cursor() == old(self).spec_cursor(),
                screen_width == self.screen.spec_width(),
            decreases screen_width - col,
        {
            self.screen.put_char(h, col, ' ', fg, bg, true);
            col += 1;
        }
        let left_text = lossy_string(left.as_slice());
        self.screen.put_str(h, 0, left_text.as_str(), fg, bg, true);
        let right_start = if screen_width >= right.len() {
            screen_width - right.len()
        } else {
            0
        };
        let right_text = lossy_string(right.as_slice());
        self.screen.put_str(h, right_start, right_text.as_str(), fg, bg, true);
    }

    /// Draws the line below the status bar: the prompt with its input (and
    /// any message after it), or the message.
    fn render_message_line(&mut self, h: usize, screen_width: usize)
        requires
            old(self).wf(),
            screen_width == old(self).screen.spec_width(),
        ensures
            final(self).wf(),
            final(self).content() == old(self).content(),
            final(self).spec_cursor() == old(self).spec_cursor(),
    {
        let msg_row = sat_add(h, 1);
        if msg_row >= self.screen.height() {
            return;
        }
        let mut col: usize = 0;
        while col < screen_width
            invariant
                self.wf(),
                self.content() == old(self).content(),
                self.spec_cursor() == old(self).spec_cursor(),
                screen_width == self.screen.spec_width(),
            decreases screen_width - col,
        {
            self.screen.put_char(msg_row, col, ' ', Color::Default, Color::Default, false);
            col += 1;
        }
        let msg_fg = match self.message_type {
            MessageType::Info => Color::Ansi(2),
            MessageType::Error => Color::Ansi(1),
            MessageType::Warning => Color::Ansi(3),
        };
        let mut prompt_texts: Option<(String, String)> = None;
        if let Some(prompt) = &self.prompt {
            prompt_texts = Some((prompt.label.clone(), prompt.input.clone()));
        }
        match prompt_texts {
            Some((label, input)) => {
                self.screen.put_str(msg_row, 1, label.as_str(), Color::Ansi(3), Color::Default, false);
                let input_start = sat_add(1, label.as_str().unicode_len());
                self.screen.put_str(
                    msg_row,
                    input_start,
                    input.as_str(),
                    Color::Default,
                    Color::Default,
                    false,
                );
                let err_start = sat_add(sat_add(input_start, input.as_str().unicode_len()), 2);
                let msg = match &self.message {
                    Some(m) => Some(m.clone()),
                    None => None,
                };
                if let Some(m) = msg {
                    if err_start < screen_width {
                        self.screen.put_str(msg_row, err_start, m.as_str(), msg_fg, Color::Default, false);
                    }
                }
            },
            None => {
                let msg = match &self.message {
                    Some(m) => Some(m.clone()),
                    None => None,
                };
                if let Some(m) = msg {
                    self.screen.put_str(msg_row, 1, m.as_str(), msg_fg, Color::Default, false);
                }
            },
        }
    }
}

/// The matches a search for `pattern` finds in content `c`.
pub open spec fn search_matches_of(c: Seq<u8>, pattern: Seq<char>) -> Seq<(usize, usize)> {
    if pattern.len() == 0 {
        Seq::empty()
    } else {
        matches_from(encode_utf8(lower_of(lossy_of(c))), encode_utf8(lower_of(pattern)), 0)
    }
}

/// Index of the first match from `i` on that starts at or after `pos`, or 0
/// when there is none.
pub open spec fn first_at_or_after(ms: Seq<(usize, usize)>, pos: int, i: int) -> int
    decreases ms.len() - i,
{
    if i < 0 || i >= ms.len() {
        0
    } else if ms[i].0 >= pos {
        i
    } else {
        first_at_or_after(ms, pos, i + 1)
    }
}

fn first_match_at_or_after(ms: &Vec<(usize, usize)>, pos: usize) -> (r: usize)
    requires
        ms@.len() > 0,
    ensures
        r == first_at_or_after(ms@, pos as int, 0),
        r < ms@.len(),
{
    let n = ms.len();
    let mut i: usize = 0;
    while i < n
        invariant
            i <= n,
            n == ms@.len(),
            first_at_or_after(ms@, pos as int, i as int) == first_at_or_after(ms@, pos as int, 0),
        decreases n - i,
    {
        if ms[i].0 >= pos {
            return i;
        }
        i += 1;
    }
    0
}

/// `c` with the range `m` replaced by `rep` (the insertion is skipped when it
/// would take the content past `MAX_CONTENT` bytes).
pub open spec fn replace_one(c: Seq<u8>, m: (usize, usize), rep: Seq<u8>) -> Seq<u8> {
    let d = delete_spec(c, m.0 as int, if m.1 >= m.0 { m.1 - m.0 } else { 0 });
    if d.len() + rep.len() <= MAX_CONTENT {
        insert_spec(d, m.0 as int, rep)
    } else {
        d
    }
}

/// `full` shortened for display: a leading `home` directory (the whole
/// path, or followed by `/`) is written as `~`.
pub open spec fn shortened(full: Seq<u8>, home: Option<Seq<u8>>) -> Seq<u8> {
    match home {
        Some(h) => {
            if h.len() <= full.len() && full.subrange(0, h.len() as int) == h {
                let rest = full.subrange(h.len() as int, full.len() as int);
                if rest.len() == 0 {
                    seq![126u8]
                } else if rest[0] == 47u8 {
                    seq![126u8] + rest
                } else {
                    full
                }
            } else {
                full
            }
        },
        None => full,
    }
}

/// Whether `full` starts with `prefix`.
fn starts_with_bytes(full: &[u8], prefix: &[u8]) -> (r: bool)
    ensures
        r == (prefix@.len() <= full@.len() && full@.subrange(0, prefix@.len() as int) == prefix@),
{
    let n = prefix.len();
    if n > full.len() {
        return false;
    }
    let mut i: usize = 0;
    while i < n
        invariant
            i <= n,
            n == prefix@.len(),
            n <= full@.len(),
            forall|k: int| 0 <= k < i ==> full@[k] == prefix@[k],
        decreases n - i,
    {
        if full[i] != prefix[i] {
            proof {
                assert(full@.subrange(0, n as int)[i as int] != prefix@[i as int]);
            }
            return false;
        }
        i += 1;
    }
    proof {
        assert(full@.subrange(0, n as int) =~= prefix@);
    }
    true
}

/// Shortens a path for display: a leading home directory becomes `~`.
pub fn shorten_path(full: &str, home: Option<&str>) -> (r: String)
    ensures
        r@ == lossy_of(
            shortened(
                full.spec_bytes(),
                match home {
                    Some(h) => Some(h.spec_bytes()),
                    None => None,
                },
            ),
        ),
{
    let f = full.as_bytes();
    let mut out: Vec<u8> = Vec::new();
    if let Some(h) = home {
        let hb = h.as_bytes();
        if starts_with_bytes(f, hb) {
            let n = hb.len();
            if n == f.len() {
                out.push(126u8);
                proof {
                    assert(f@.subrange(n as int, f@.len() as int).len() == 0);
                    assert(out@ =~= seq![126u8]);
                }
                return lossy_string(out.as_slice());
            }
            if f[n] == 47u8 {
                out.push(126u8);
                let mut i = n;
                while i < f.len()
                    invariant
                        n <= i <= f@.len(),
                        out@ == seq![126u8] + f@.subrange(n as int, i as int),
                    decreases f@.len() - i,
                {
                    out.push(f[i]);
                    i += 1;
                    proof {
                        assert(out@ =~= seq![126u8] + f@.subrange(n as int, i as int));
                    }
                }
                return lossy_string(out.as_slice());
            }
        }
    }
    lossy_string(f)
}

/// Keys that move the cursor.
pub open spec fn is_nav_key(k: Key) -> bool {
    k is Up || k is Down || k is Left || k is Right || k is Home || k is End || k is PageUp
        || k is PageDown
}

/// Cursor `c` stands at snapshot `st`, its line and column pulled back into
/// content `t`.
pub open spec fn cursor_restored(c: Cursor, t: Seq<u8>, st: CursorState) -> bool {
    &&& c.line == min_int(st.line as int, last_line(t))
    &&& c.col == min_int(st.col as int, line_len_of(t, c.line as int))
    &&& c.desired_col == st.desired_col
}

/// Snapshot of cursor `c`.
pub open spec fn cursor_state_of(c: Cursor) -> CursorState {
    CursorState { line: c.line, col: c.col, desired_col: c.desired_col }
}

/// `a + b`, or `usize::MAX` when that overflows.
fn sat_add(a: usize, b: usize) -> (r: usize)
    ensures
        r == (if a + b <= usize::MAX {
            (a + b) as usize
        } else {
            usize::MAX
        }),
{
    if a > usize::MAX - b {
        usize::MAX
    } else {
        a + b
    }
}

/// Whether `b` holds a line break.
fn has_newline(b: &[u8]) -> (r: bool)
    ensures
        r == exists|i: int| 0 <= i < b@.len() && b@[i] == 10u8,
{
    let n = b.len();
    let mut i: usize = 0;
    while i < n
        invariant
            i <= n,
            n == b@.len(),
            forall|k: int| 0 <= k < i ==> b@[k] != 10u8,
        decreases n - i,
    {
        if b[i] == 10u8 {
            return true;
        }
        i += 1;
    }
    false
}

/// Content `c` after the ranges of `ms` from index `j` on were each
/// replaced by `rep`, the last range first.
pub open spec fn replaced_after(c: Seq<u8>, ms: Seq<(usize, usize)>, rep: Seq<u8>, j: int) -> Seq<
    u8,
>
    decreases ms.len() - j,
{
    if j < 0 || j >= ms.len() {
        c
    } else {
        replace_one(replaced_after(c, ms, rep, j + 1), ms[j], rep)
    }
}

/// The text that replacing range `k` of `ms` deletes.
pub open spec fn deleted_text(c: Seq<u8>, ms: Seq<(usize, usize)>, rep: Seq<u8>, k: int) -> Seq<
    char,
> {
    lossy_of(clamped_slice(replaced_after(c, ms, rep, k + 1), ms[k].0 as int, ms[k].1 as int))
}

/// Start of the character before the cursor `cur` in content `c`: within its
/// line, or the line break before the line when at column 0.
pub open spec fn char_start_before(c: Seq<u8>, cur: Cursor) -> int {
    if cur.col > 0 {
        line_start_of(c, cur.line as int) + crate::cursor::prev_boundary(
            line_of(c, cur.line as int),
            cur.col as int,
        )
    } else {
        line_start_of(c, cur.line as int) - 1
    }
}

/// Content `c` with the selection's bytes removed, when it selects any.
pub open spec fn content_without_selection(c: Seq<u8>, sel: Option<Selection>) -> Seq<u8> {
    match sel {
        Some(s) => {
            let start = if s.anchor <= s.head { s.anchor } else { s.head };
            let end = if s.anchor <= s.head { s.head } else { s.anchor };
            c.subrange(0, start as int) + c.subrange(end as int, c.len() as int)
        },
        None => c,
    }
}

/// The selection selects nothing.
pub open spec fn no_selection_text(sel: Option<Selection>) -> bool {
    match sel {
        Some(s) => s.anchor == s.head,
        None => true,
    }
}

/// Where text typed or pasted goes: the start of a non-empty selection, else
/// the cursor.
pub open spec fn paste_point(c: Seq<u8>, cur: Cursor, sel: Option<Selection>) -> int {
    match sel {
        Some(s) if s.anchor != s.head => if s.anchor <= s.head {
            s.anchor as int
        } else {
            s.head as int
        },
        _ => line_start_of(c, cur.line as int) + cur.col,
    }
}

/// `op` deletes `text` at `pos`.
pub open spec fn is_delete_op(op: Operation, pos: usize, text: Seq<char>) -> bool {
    match op {
        Operation::Delete { pos: p, text: t } => p == pos && t@ == text,
        _ => false,
    }
}

/// History `u` is `u0` after recording, under `ctx` and with cursor `cb`, a
/// deletion of `text` at `pos` (the clock deciding whether a new group
/// opened).
pub open spec fn recorded_deletion(
    u0: UndoStack,
    u: UndoStack,
    pos: usize,
    text: Seq<char>,
    cb: CursorState,
    ctx: GroupContext,
) -> bool {
    exists|op: Operation|
        #[trigger] is_delete_op(op, pos, text) && (UndoStack::recorded(u0, u, op, cb, ctx, true)
            || UndoStack::recorded(u0, u, op, cb, ctx, false))
}

/// History `u` is `u0` after recording, under `ctx` and with cursor `cb`, an
/// insertion of `text` at `pos`; a new group opens whenever the rules ask for
/// one without a timeout, and otherwise as the clock decided.
pub open spec fn recorded_insertion(
    u0: UndoStack,
    u: UndoStack,
    pos: usize,
    text: Seq<char>,
    cb: CursorState,
    ctx: GroupContext,
) -> bool {
    exists|op: Operation|
        #[trigger] is_insert_op(op, pos, text) && (UndoStack::recorded(u0, u, op, cb, ctx, true)
            || UndoStack::recorded(u0, u, op, cb, ctx, false)) && (u0.splits(ctx, false)
            ==> UndoStack::recorded(u0, u, op, cb, ctx, true))
}

/// `op` inserts `text` at `pos`.
pub open spec fn is_insert_op(op: Operation, pos: usize, text: Seq<char>) -> bool {
    match op {
        Operation::Insert { pos: p, text: t } => p == pos && t@ == text,
        _ => false,
    }
}

/// `g` holds a single deletion of `text` at `pos`.
pub open spec fn is_delete_group(g: Group, pos: usize, text: Seq<char>) -> bool {
    g.ops@.len() == 1 && match g.ops@[0] {
        Operation::Delete { pos: p, text: t } => p == pos && t@ == text,
        _ => false,
    }
}

/// `g` holds a single insertion of `text` at `pos`.
pub open spec fn is_insert_group(g: Group, pos: usize, text: Seq<char>) -> bool {
    g.ops@.len() == 1 && is_insert_op(g.ops@[0], pos, text)
}

/// The undo history `u` after replace-all has handled the ranges of `ms`
/// from index `i` on, starting from history `u0` and content `c0`: the
/// earlier history is kept (its pending operations closed into a group),
/// then for each handled range, last first, a group deleting the range and
/// a group inserting `rep` there; the insertion for range `i` is still
/// pending. `base` is where the new groups begin.
pub open spec fn replace_history(
    c0: Seq<u8>,
    ms: Seq<(usize, usize)>,
    rep: Seq<char>,
    u0: UndoStack,
    u: UndoStack,
    base: int,
    i: int,
) -> bool {
    let n = ms.len() as int;
    let g0 = u0.undo_groups().len() as int;
    &&& 0 <= i < n
    &&& u.undo_groups().len() == base + 2 * (n - i) - 1
    &&& u.undo_groups().subrange(0, g0) == u0.undo_groups()
    &&& u0.pending_ops().len() > 0 ==> u.undo_groups()[g0].ops@ == u0.pending_ops()
    &&& forall|k: int|
        i <= k < n ==> is_delete_group(
            u.undo_groups()[base + 2 * (n - 1 - k)],
            (#[trigger] ms[k]).0,
            deleted_text(c0, ms, encode_utf8(rep), k),
        )
    &&& forall|k: int|
        i < k < n ==> is_insert_group(
            u.undo_groups()[base + 2 * (n - 1 - k) + 1],
            (#[trigger] ms[k]).0,
            rep,
        )
    &&& u.pending_ops().len() == 1 && is_insert_op(u.pending_ops()[0], ms[i].0, rep)
    &&& u.redo_groups().len() == 0
}

/// The search, when active, lists exactly the matches of its pattern in
/// content `c`.
pub open spec fn search_current(search: Option<SearchState>, c: Seq<u8>) -> bool {
    match search {
        Some(st) => st.matches@ == search_matches_of(c, st.pattern@),
        None => true,
    }
}

/// The text "Match `k` of `total`".
pub open spec fn match_text(k: nat, total: nat) -> Seq<char> {
    lossy_of("Match ".spec_bytes() + decimal(k) + " of ".spec_bytes() + decimal(total))
}

/// "Match `k` of `total`".
fn match_message(k: usize, total: usize) -> (r: String)
    ensures
        r@ == match_text(k as nat, total as nat),
{
    let mut bytes: Vec<u8> = Vec::new();
    bytes.extend_from_slice("Match ".as_bytes());
    let a = usize_digits(k);
    bytes.extend_from_slice(a.as_slice());
    bytes.extend_from_slice(" of ".as_bytes());
    let b = usize_digits(total);
    bytes.extend_from_slice(b.as_slice());
    proof {
        assert(bytes@ =~= "Match ".spec_bytes() + decimal(k as nat) + " of ".spec_bytes()
            + decimal(total as nat));
    }
    lossy_string(bytes.as_slice())
}

/// A copy of a list of byte ranges.
fn copy_ranges(v: &Vec<(usize, usize)>) -> (r: Vec<(usize, usize)>)
    ensures
        r@ == v@,
{
    let mut out: Vec<(usize, usize)> = Vec::new();
    let mut i: usize = 0;
    while i < v.len()
        invariant
            i <= v@.len(),
            out@ == v@.subrange(0, i as int),
        decreases v@.len() - i,
    {
        out.push(v[i]);
        i += 1;
        proof {
            assert(out@ =~= v@.subrange(0, i as int));
        }
    }
    proof {
        assert(out@ =~= v@);
    }
    out
}

/// A `u16` by `u16` screen fits in memory arithmetic.
proof fn lemma_screen_size(width: u16, height: u16)
    ensures
        (width as usize) * (height as usize) <= usize::MAX,
{
    assert((width as int) * (height as int) <= 65535 * 65535) by (nonlinear_arith)
        requires
            width <= 65535,
            height <= 65535,
    ;
}

} // verus!
