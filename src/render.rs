//! A double-buffered character grid and the ANSI byte stream that brings the
//! terminal from the previous frame to the current one.
use vstd::prelude::*;
use vstd::string::*;
use vstd::utf8::*;

use crate::terminal::ColorMode;

verus! {

#[derive(Clone, Copy, PartialEq, Eq, Debug, Structural)]
pub enum Color {
    Default,
    Ansi(u8),
    Color256(u8),
    Rgb(u8, u8, u8),
}

#[derive(Clone, Copy, PartialEq, Eq, Debug, Structural)]
pub struct Cell {
    pub ch: char,
    pub fg: Color,
    pub bg: Color,
    pub bold: bool,
}

/// A blank cell: a space in the default colors.
pub open spec fn blank_cell() -> Cell {
    Cell { ch: ' ', fg: Color::Default, bg: Color::Default, bold: false }
}

impl Default for Cell {
    fn default() -> (r: Self)
        ensures
            r == blank_cell(),
    {
        Cell { ch: ' ', fg: Color::Default, bg: Color::Default, bold: false }
    }
}

// ---------------------------------------------------------------------------
// Color downgrade
// ---------------------------------------------------------------------------

/// Index (0 to 5) of the nearest of the cube levels 0, 95, 135, 175, 215, 255.
pub open spec fn cube_index_of(v: u8) -> u8 {
    if v < 48 {
        0
    } else if v < 115 {
        1
    } else if v < 155 {
        2
    } else if v < 195 {
        3
    } else if v < 235 {
        4
    } else {
        5
    }
}

/// Nearest xterm-256 palette entry of an RGB color: grays go to the gray ramp
/// (or the cube's black and white at the extremes), other colors to the
/// 6x6x6 cube.
pub open spec fn ansi256_of_rgb(r: u8, g: u8, b: u8) -> u8 {
    if r == g && g == b {
        if r < 8 {
            16
        } else if r > 248 {
            231
        } else {
            (gray_step(r) + 232) as u8
        }
    } else {
        (16 + 36 * cube_index_of(r) + 6 * cube_index_of(g) + cube_index_of(b)) as u8
    }
}

/// Step (0 to 23) of the 24-step gray ramp nearest to gray level `v`.
pub open spec fn gray_step(v: u8) -> int {
    let s = (v - 8) * 24 / 240;
    if s > 23 {
        23
    } else {
        s
    }
}

/// The RGB value of the cube level with index `i`.
pub open spec fn cube_level(i: int) -> u8 {
    if i == 0 {
        0
    } else {
        (55 + 40 * i) as u8
    }
}

/// RGB value of a palette entry: the 16 basic colors, the cube, the gray ramp.
pub open spec fn rgb_of_ansi256(n: u8) -> (u8, u8, u8) {
    if n < 16 {
        basic_rgb(n)
    } else if n < 232 {
        (cube_level((n - 16) / 36), cube_level(((n - 16) % 36) / 6), cube_level((n - 16) % 6))
    } else {
        let v = (8 + 10 * (n - 232)) as u8;
        (v, v, v)
    }
}

pub open spec fn basic_rgb(n: u8) -> (u8, u8, u8) {
    if n == 0 {
        (0, 0, 0)
    } else if n == 1 {
        (128, 0, 0)
    } else if n == 2 {
        (0, 128, 0)
    } else if n == 3 {
        (128, 128, 0)
    } else if n == 4 {
        (0, 0, 128)
    } else if n == 5 {
        (128, 0, 128)
    } else if n == 6 {
        (0, 128, 128)
    } else if n == 7 {
        (192, 192, 192)
    } else if n == 8 {
        (128, 128, 128)
    } else if n == 9 {
        (255, 0, 0)
    } else if n == 10 {
        (0, 255, 0)
    } else if n == 11 {
        (255, 255, 0)
    } else if n == 12 {
        (0, 0, 255)
    } else if n == 13 {
        (255, 0, 255)
    } else if n == 14 {
        (0, 255, 255)
    } else {
        (255, 255, 255)
    }
}

/// Nearest basic color of a palette entry: entries below 16 are kept; others
/// take the hue from which channels exceed 128 (blue, green, red bits) and
/// the bright variant when the weighted luminance exceeds 170.
pub open spec fn ansi16_of_ansi256(n: u8) -> u8 {
    if n < 16 {
        n
    } else {
        let (r, g, b) = rgb_of_ansi256(n);
        let luma = (r * 299 + g * 587 + b * 114) / 1000;
        let base = (if b > 128 { 4int } else { 0 }) + (if g > 128 { 2int } else { 0 }) + (if r > 128 { 1int } else { 0 });
        if luma > 170 {
            (base + 8) as u8
        } else {
            base as u8
        }
    }
}

/// The color actually emitted under `mode`: RGB is downgraded to the palette
/// in 256-color mode and to the basic colors in 16-color mode, and palette
/// colors to the basic colors in 16-color mode.
pub open spec fn effective_color_of(color: Color, mode: ColorMode) -> Color {
    match (color, mode) {
        (Color::Rgb(r, g, b), ColorMode::Color256) => Color::Color256(ansi256_of_rgb(r, g, b)),
        (Color::Rgb(r, g, b), ColorMode::Color16) => Color::Ansi(
            ansi16_of_ansi256(ansi256_of_rgb(r, g, b)),
        ),
        (Color::Color256(n), ColorMode::Color16) => Color::Ansi(ansi16_of_ansi256(n)),
        _ => color,
    }
}

fn color_cube_index(v: u8) -> (r: u8)
    ensures
        r == cube_index_of(v),
        r <= 5,
{
    if v < 48 {
        0
    } else if v < 115 {
        1
    } else if v < 155 {
        2
    } else if v < 195 {
        3
    } else if v < 235 {
        4
    } else {
        5
    }
}

/// Converts an RGB color to the nearest xterm-256 palette index.
pub fn rgb_to_ansi256(r: u8, g: u8, b: u8) -> (res: u8)
    ensures
        res == ansi256_of_rgb(r, g, b),
        res >= 16,
{
    if r == g && g == b {
        if r < 8 {
            return 16;
        }
        if r > 248 {
            return 231;
        }
        let step = (r as u16 - 8) * 24 / 240;
        let step = if step > 23 {
            23
        } else {
            step
        };
        return (step as u8) + 232;
    }
    let ri = color_cube_index(r);
    let gi = color_cube_index(g);
    let bi = color_cube_index(b);
    16 + 36 * ri + 6 * gi + bi
}

fn ansi256_to_rgb(n: u8) -> (r: (u8, u8, u8))
    ensures
        r == rgb_of_ansi256(n),
{
    if n < 16 {
        basic_color_rgb(n)
    } else if n < 232 {
        let idx = n - 16;
        (cube_value(idx / 36), cube_value((idx % 36) / 6), cube_value(idx % 6))
    } else {
        let v = 8 + 10 * (n - 232);
        (v, v, v)
    }
}

fn cube_value(i: u8) -> (r: u8)
    requires
        i <= 5,
    ensures
        r == cube_level(i as int),
{
    if i == 0 {
        0
    } else {
        55 + 40 * i
    }
}

fn basic_color_rgb(n: u8) -> (r: (u8, u8, u8))
    requires
        n < 16,
    ensures
        r == basic_rgb(n),
{
    match n {
        0 => (0, 0, 0),
        1 => (128, 0, 0),
        2 => (0, 128, 0),
        3 => (128, 128, 0),
        4 => (0, 0, 128),
        5 => (128, 0, 128),
        6 => (0, 128, 128),
        7 => (192, 192, 192),
        8 => (128, 128, 128),
        9 => (255, 0, 0),
        10 => (0, 255, 0),
        11 => (255, 255, 0),
        12 => (0, 0, 255),
        13 => (255, 0, 255),
        14 => (0, 255, 255),
        _ => (255, 255, 255),
    }
}

/// Maps a 256-color index to the nearest basic ANSI color index (0 to 15).
pub fn ansi256_to_ansi16(n: u8) -> (r: u8)
    ensures
        r == ansi16_of_ansi256(n),
        r <= 15,
{
    if n < 16 {
        return n;
    }
    let (r, g, b) = ansi256_to_rgb(n);
    let luma = (r as u32 * 299 + g as u32 * 587 + b as u32 * 114) / 1000;
    let ri: u8 = if r > 128 {
        1
    } else {
        0
    };
    let gi: u8 = if g > 128 {
        2
    } else {
        0
    };
    let bi: u8 = if b > 128 {
        4
    } else {
        0
    };
    let base = bi + gi + ri;
    if luma > 170 {
        base + 8
    } else {
        base
    }
}

/// The color emitted for `color` under `mode`.
pub fn effective_color(color: Color, mode: &ColorMode) -> (r: Color)
    ensures
        r == effective_color_of(color, *mode),
{
    match (color, mode) {
        (Color::Rgb(r, g, b), ColorMode::Color256) => Color::Color256(rgb_to_ansi256(r, g, b)),
        (Color::Rgb(r, g, b), ColorMode::Color16) => Color::Ansi(
            ansi256_to_ansi16(rgb_to_ansi256(r, g, b)),
        ),
        (Color::Color256(n), ColorMode::Color16) => Color::Ansi(ansi256_to_ansi16(n)),
        _ => color,
    }
}

// ---------------------------------------------------------------------------
// ANSI output
// ---------------------------------------------------------------------------

/// Decimal digits of `n`, most significant first.
pub open spec fn decimal(n: nat) -> Seq<u8>
    decreases n,
{
    if n < 10 {
        seq![(48 + n) as u8]
    } else {
        decimal(n / 10).push((48 + n % 10) as u8)
    }
}

/// `ESC [`, the control sequence introducer.
pub open spec fn csi() -> Seq<u8> {
    seq![27u8, 91u8]
}

/// The sequence that moves the terminal cursor to 0-based `row` and `col`.
pub open spec fn cursor_pos_bytes(row: nat, col: nat) -> Seq<u8> {
    csi() + decimal(row + 1) + seq![59u8] + decimal(col + 1) + seq![72u8]
}

/// SGR code of basic color `n` as a foreground or a background.
pub open spec fn ansi_code(n: u8, fg: bool) -> nat {
    if n < 8 {
        (if fg { 30nat } else { 40nat }) + n as nat
    } else {
        ((if fg { 90nat } else { 100nat }) + n as nat - 8) as nat
    }
}

/// The sequence that selects `color` (downgraded for `mode`) as foreground
/// (`fg`) or background.
#[verifier::opaque]
pub open spec fn color_bytes(color: Color, mode: ColorMode, fg: bool) -> Seq<u8> {
    match effective_color_of(color, mode) {
        Color::Default => csi() + seq![(if fg { 51u8 } else { 52u8 }), 57u8, 109u8],
        Color::Ansi(n) => csi() + decimal(ansi_code(n, fg)) + seq![109u8],
        Color::Color256(n) => csi() + seq![(if fg { 51u8 } else { 52u8 }), 56u8, 59u8, 53u8, 59u8]
            + decimal(n as nat) + seq![109u8],
        Color::Rgb(r, g, b) => csi() + seq![(if fg { 51u8 } else { 52u8 }), 56u8, 59u8, 50u8, 59u8]
            + decimal(r as nat) + seq![59u8] + decimal(g as nat) + seq![59u8] + decimal(b as nat)
            + seq![109u8],
    }
}

/// The attributes in effect on the terminal: foreground, background, bold.
pub type Style = (Color, Color, bool);

/// The sequence that switches bold to `cell.bold` when it differs from `st`.
pub open spec fn bold_change(cell: Cell, st: Style) -> Seq<u8> {
    if cell.bold != st.2 {
        if cell.bold {
            csi() + seq![49u8, 109u8]
        } else {
            csi() + seq![50u8, 50u8, 109u8]
        }
    } else {
        Seq::empty()
    }
}

/// The sequence that selects `cell.fg` when it differs from `st`.
pub open spec fn fg_change(cell: Cell, st: Style, mode: ColorMode) -> Seq<u8> {
    if cell.fg != st.0 {
        color_bytes(cell.fg, mode, true)
    } else {
        Seq::empty()
    }
}

/// The sequence that selects `cell.bg` when it differs from `st`.
pub open spec fn bg_change(cell: Cell, st: Style, mode: ColorMode) -> Seq<u8> {
    if cell.bg != st.1 {
        color_bytes(cell.bg, mode, false)
    } else {
        Seq::empty()
    }
}

/// The bytes that draw `cell` at `row`, `col` when `st` is in effect: cursor
/// position, the attributes that differ, then the character.
pub open spec fn cell_bytes(cell: Cell, row: nat, col: nat, st: Style, mode: ColorMode) -> Seq<u8> {
    cursor_pos_bytes(row, col) + bold_change(cell, st) + fg_change(cell, st, mode) + bg_change(
        cell,
        st,
        mode,
    ) + encode_utf8(seq![cell.ch])
}

/// The bytes for the cells from `row`, `col` on (row-major), drawing each cell
/// that differs from `prev` (every cell when `full`), starting in style `st`.
pub open spec fn diff_from(
    cur: Seq<Cell>,
    prev: Seq<Cell>,
    full: bool,
    w: nat,
    h: nat,
    mode: ColorMode,
    row: nat,
    col: nat,
    st: Style,
) -> Seq<u8>
    decreases h - row, w - col,
{
    if row >= h {
        Seq::empty()
    } else if col >= w {
        diff_from(cur, prev, full, w, h, mode, row + 1, 0, st)
    } else {
        let cell = cur[(row * w + col) as int];
        if full || prev[(row * w + col) as int] != cell {
            cell_bytes(cell, row, col, st, mode) + diff_from(
                cur,
                prev,
                full,
                w,
                h,
                mode,
                row,
                col + 1,
                (cell.fg, cell.bg, cell.bold),
            )
        } else {
            diff_from(cur, prev, full, w, h, mode, row, col + 1, st)
        }
    }
}

/// Appends the decimal digits of `n`.
pub fn write_usize(buf: &mut Vec<u8>, n: usize)
    ensures
        final(buf)@ == old(buf)@ + decimal(n as nat),
    decreases n,
{
    if n >= 10 {
        write_usize(buf, n / 10);
    }
    buf.push(48u8 + (n % 10) as u8);
    proof {
        if n < 10 {
            assert(final(buf)@ =~= old(buf)@ + decimal(n as nat));
        }
    }
}

/// The decimal digits of `n`.
pub fn usize_digits(n: usize) -> (r: Vec<u8>)
    ensures
        r@ == decimal(n as nat),
{
    let mut buf: Vec<u8> = Vec::new();
    write_usize(&mut buf, n);
    proof {
        assert(buf@ =~= decimal(n as nat));
    }
    buf
}

fn write_cursor_pos(buf: &mut Vec<u8>, row: usize, col: usize)
    requires
        row < usize::MAX,
        col < usize::MAX,
    ensures
        final(buf)@ == old(buf)@ + cursor_pos_bytes(row as nat, col as nat),
{
    let ghost b0 = buf@;
    buf.push(27u8);
    buf.push(91u8);
    write_usize(buf, row + 1);
    buf.push(59u8);
    write_usize(buf, col + 1);
    buf.push(72u8);
    proof {
        assert(buf@ =~= b0 + cursor_pos_bytes(row as nat, col as nat));
    }
}

/// Relies on `char::encode_utf8`: the UTF-8 encoding of one character.
#[verifier::external_body]
fn char_utf8(ch: char) -> (r: Vec<u8>)
    ensures
        r@ == encode_utf8(seq![ch]),
{
    let mut tmp = [0u8; 4];
    ch.encode_utf8(&mut tmp).as_bytes().to_vec()
}

fn write_char(buf: &mut Vec<u8>, ch: char)
    ensures
        final(buf)@ == old(buf)@ + encode_utf8(seq![ch]),
{
    let bytes = char_utf8(ch);
    buf.extend_from_slice(bytes.as_slice());
}

fn write_color(buf: &mut Vec<u8>, color: Color, mode: &ColorMode, fg: bool)
    ensures
        final(buf)@ == old(buf)@ + color_bytes(color, *mode, fg),
{
    let ghost b0 = buf@;
    let lead: u8 = if fg {
        51
    } else {
        52
    };
    buf.push(27u8);
    buf.push(91u8);
    match effective_color(color, mode) {
        Color::Default => {
            buf.push(lead);
            buf.push(57u8);
            buf.push(109u8);
        },
        Color::Ansi(n) => {
            let base: usize = if fg {
                30
            } else {
                40
            };
            let code: usize = if n < 8 {
                base + n as usize
            } else {
                base + 60 + n as usize - 8
            };
            write_usize(buf, code);
            buf.push(109u8);
        },
        Color::Color256(n) => {
            buf.push(lead);
            buf.push(56u8);
            buf.push(59u8);
            buf.push(53u8);
            buf.push(59u8);
            write_usize(buf, n as usize);
            buf.push(109u8);
        },
        Color::Rgb(r, g, b) => {
            buf.push(lead);
            buf.push(56u8);
            buf.push(59u8);
            buf.push(50u8);
            buf.push(59u8);
            write_usize(buf, r as usize);
            buf.push(59u8);
            write_usize(buf, g as usize);
            buf.push(59u8);
            write_usize(buf, b as usize);
            buf.push(109u8);
        },
    }
    proof {
        reveal(color_bytes);
        assert(buf@ =~= b0 + color_bytes(color, *mode, fg));
    }
}

/// Appends the sequence that selects `color` as foreground.
fn write_fg_color(buf: &mut Vec<u8>, color: Color, mode: &ColorMode)
    ensures
        final(buf)@ == old(buf)@ + color_bytes(color, *mode, true),
{
    write_color(buf, color, mode, true);
}

/// Appends the sequence that selects `color` as background.
fn write_bg_color(buf: &mut Vec<u8>, color: Color, mode: &ColorMode)
    ensures
        final(buf)@ == old(buf)@ + color_bytes(color, *mode, false),
{
    write_color(buf, color, mode, false);
}

/// Appends the bytes that draw `cell` at `row`, `col` while `st` is in effect.
#[verifier::rlimit(30)]
fn write_cell(buf: &mut Vec<u8>, cell: Cell, row: usize, col: usize, st: Style, mode: &ColorMode)
    requires
        row < usize::MAX,
        col < usize::MAX,
    ensures
        final(buf)@ == old(buf)@ + cell_bytes(cell, row as nat, col as nat, st, *mode),
{
    let ghost b0 = buf@;
    write_cursor_pos(buf, row, col);
    let ghost b1 = buf@;
    if cell.bold != st.2 {
        if cell.bold {
            buf.push(27u8);
            buf.push(91u8);
            buf.push(49u8);
            buf.push(109u8);
        } else {
            buf.push(27u8);
            buf.push(91u8);
            buf.push(50u8);
            buf.push(50u8);
            buf.push(109u8);
        }
    }
    proof {
        assert(buf@ =~= b1 + bold_change(cell, st));
    }
    let ghost b2 = buf@;
    if cell.fg != st.0 {
        write_fg_color(buf, cell.fg, mode);
    }
    proof {
        assert(buf@ =~= b2 + fg_change(cell, st, *mode));
    }
    let ghost b3 = buf@;
    if cell.bg != st.1 {
        write_bg_color(buf, cell.bg, mode);
    }
    proof {
        assert(buf@ =~= b3 + bg_change(cell, st, *mode));
    }
    let ghost b4 = buf@;
    write_char(buf, cell.ch);
    proof {
        let cp = cursor_pos_bytes(row as nat, col as nat);
        let bc = bold_change(cell, st);
        let fc = fg_change(cell, st, *mode);
        let gc = bg_change(cell, st, *mode);
        let ch = encode_utf8(seq![cell.ch]);
        assert(buf@ == b0 + cp + bc + fc + gc + ch);
        assert(b0 + cp + bc + fc + gc + ch =~= b0 + (cp + bc + fc + gc + ch));
    }
}

// ---------------------------------------------------------------------------
// Screen
// ---------------------------------------------------------------------------

/// A grid of blank cells, row-major.
fn make_grid(width: usize, height: usize) -> (r: Vec<Cell>)
    requires
        width * height <= usize::MAX,
    ensures
        r@.len() == width * height,
        forall|k: int| 0 <= k < r@.len() ==> r@[k] == blank_cell(),
{
    let n = width * height;
    let mut cells: Vec<Cell> = Vec::new();
    let mut i: usize = 0;
    while i < n
        invariant
            i <= n,
            cells@.len() == i,
            forall|k: int| 0 <= k < i ==> cells@[k] == blank_cell(),
        decreases n - i,
    {
        cells.push(Cell::default());
        i += 1;
    }
    cells
}

pub struct Screen {
    width: usize,
    height: usize,
    cells: Vec<Cell>,
    prev_cells: Vec<Cell>,
}

impl Screen {
    pub closed spec fn spec_width(&self) -> nat {
        self.width as nat
    }

    pub closed spec fn spec_height(&self) -> nat {
        self.height as nat
    }

    /// The frame being built, row-major.
    pub closed spec fn frame(&self) -> Seq<Cell> {
        self.cells@
    }

    /// The frame last sent to the terminal, row-major; empty when the next
    /// output must redraw everything.
    pub closed spec fn shown(&self) -> Seq<Cell> {
        self.prev_cells@
    }

    pub closed spec fn wf(&self) -> bool {
        &&& self.cells@.len() == self.width * self.height
        &&& self.width * self.height <= usize::MAX
        &&& (self.prev_cells@.len() == 0 || self.prev_cells@.len() == self.width * self.height)
    }

    /// A blank `width` by `height` screen that has not been drawn yet.
    pub fn new(width: usize, height: usize) -> (r: Self)
        requires
            width * height <= usize::MAX,
        ensures
            r.wf(),
            r.spec_width() == width,
            r.spec_height() == height,
            r.frame().len() == width * height,
            forall|k: int| 0 <= k < r.frame().len() ==> r.frame()[k] == blank_cell(),
            r.shown().len() == 0,
    {
        Screen { width, height, cells: make_grid(width, height), prev_cells: Vec::new() }
    }

    pub fn width(&self) -> (r: usize)
        ensures
            r == self.spec_width(),
    {
        self.width
    }

    pub fn height(&self) -> (r: usize)
        ensures
            r == self.spec_height(),
    {
        self.height
    }

    /// The frame being built, as rows of cells.
    pub fn cells(&self) -> (r: Vec<Vec<Cell>>)
        requires
            self.wf(),
        ensures
            r@.len() == self.spec_height(),
            forall|i: int|
                0 <= i < self.spec_height() ==> (#[trigger] r@[i])@.len() == self.spec_width(),
            forall|i: int, j: int|
                0 <= i < self.spec_height() && 0 <= j < self.spec_width() ==> r@[i]@[j]
                    == self.frame()[i * self.spec_width() + j],
    {
        let mut rows: Vec<Vec<Cell>> = Vec::new();
        let mut i: usize = 0;
        while i < self.height
            invariant
                self.wf(),
                i <= self.height,
                rows@.len() == i,
                forall|a: int| 0 <= a < i ==> (#[trigger] rows@[a])@.len() == self.width,
                forall|a: int, j: int|
                    0 <= a < i && 0 <= j < self.width ==> rows@[a]@[j] == self.frame()[a
                        * self.width + j],
            decreases self.height - i,
        {
            let mut row: Vec<Cell> = Vec::new();
            let mut j: usize = 0;
            while j < self.width
                invariant
                    self.wf(),
                    i < self.height,
                    j <= self.width,
                    row@.len() == j,
                    forall|b: int| 0 <= b < j ==> row@[b] == self.frame()[i * self.width + b],
                decreases self.width - j,
            {
                proof {
                    lemma_cell_index(i as int, j as int, self.width as int, self.height as int);
                }
                row.push(self.cells[i * self.width + j]);
                j += 1;
            }
            rows.push(row);
            i += 1;
        }
        rows
    }

    /// Resets every cell of the frame to blank.
    pub fn clear(&mut self)
        requires
            old(self).wf(),
        ensures
            final(self).wf(),
            final(self).spec_width() == old(self).spec_width(),
            final(self).spec_height() == old(self).spec_height(),
            final(self).shown() == old(self).shown(),
            final(self).frame().len() == old(self).frame().len(),
            forall|k: int| 0 <= k < final(self).frame().len() ==> final(self).frame()[k] == blank_cell(),
    {
        self.cells = make_grid(self.width, self.height);
    }

    /// Sets the cell at `row`, `col`; positions off the screen are ignored.
    pub fn put_cell(&mut self, row: usize, col: usize, cell: Cell)
        requires
            old(self).wf(),
        ensures
            final(self).wf(),
            final(self).spec_width() == old(self).spec_width(),
            final(self).spec_height() == old(self).spec_height(),
            final(self).shown() == old(self).shown(),
            final(self).frame() == (if row < old(self).spec_height() && col < old(
                self,
            ).spec_width() {
                old(self).frame().update(row * old(self).spec_width() + col, cell)
            } else {
                old(self).frame()
            }),
    {
        if row < self.height && col < self.width {
            proof {
                lemma_cell_index(row as int, col as int, self.width as int, self.height as int);
            }
            let idx = row * self.width + col;
            self.cells.set(idx, cell);
        }
    }

    pub fn put_char(&mut self, row: usize, col: usize, ch: char, fg: Color, bg: Color, bold: bool)
        requires
            old(self).wf(),
        ensures
            final(self).wf(),
            final(self).spec_width() == old(self).spec_width(),
            final(self).spec_height() == old(self).spec_height(),
            final(self).shown() == old(self).shown(),
            final(self).frame() == (if row < old(self).spec_height() && col < old(
                self,
            ).spec_width() {
                old(self).frame().update(
                    row * old(self).spec_width() + col,
                    Cell { ch, fg, bg, bold },
                )
            } else {
                old(self).frame()
            }),
    {
        self.put_cell(row, col, Cell { ch, fg, bg, bold });
    }

    /// Writes the characters of `text` from `row`, `col` rightwards, cut at
    /// the right edge; a row off the screen is ignored.
    pub fn put_str(
        &mut self,
        row: usize,
        col: usize,
        text: &str,
        fg: Color,
        bg: Color,
        bold: bool,
    )
        requires
            old(self).wf(),
        ensures
            final(self).wf(),
            final(self).spec_width() == old(self).spec_width(),
            final(self).spec_height() == old(self).spec_height(),
            final(self).shown() == old(self).shown(),
            final(self).frame().len() == old(self).frame().len(),
            forall|j: int|
                0 <= j < text@.len() && row < old(self).spec_height() && col + j < old(
                    self,
                ).spec_width() ==> #[trigger] final(self).frame()[row * old(self).spec_width()
                    + col + j] == (Cell { ch: text@[j], fg, bg, bold }),
            forall|k: int|
                0 <= k < old(self).frame().len() && !(row < old(self).spec_height() && row
                    * old(self).spec_width() + col <= k < row * old(self).spec_width() + col
                    + text@.len() && k < row * old(self).spec_width() + old(self).spec_width())
                    ==> #[trigger] final(self).frame()[k] == old(self).frame()[k],
    {
        if row >= self.height {
            return;
        }
        let n = text.unicode_len();
        let ghost w = self.width as int;
        let mut j: usize = 0;
        while j < n
            invariant
                self.wf(),
                self.width == old(self).width,
                self.height == old(self).height,
                self.prev_cells == old(self).prev_cells,
                w == self.width as int,
                row < self.height,
                n == text@.len(),
                j <= n,
                self.cells@.len() == old(self).cells@.len(),
                forall|a: int|
                    0 <= a < j && col + a < w ==> #[trigger] self.cells@[row * w + col + a] == (Cell {
                        ch: text@[a],
                        fg,
                        bg,
                        bold,
                    }),
                forall|k: int|
                    0 <= k < old(self).cells@.len() && !(row * w + col <= k < row * w + col + j
                        && k < row * w + w) ==> #[trigger] self.cells@[k] == old(self).cells@[k],
            decreases n - j,
        {
            if j < self.width && col < self.width - j {
                proof {
                    lemma_cell_index(row as int, col + j, self.width as int, self.height as int);
                }
                let ch = text.get_char(j);
                let idx = row * self.width + col + j;
                assert(idx == row * w + col + j);
                self.cells.set(idx, Cell { ch, fg, bg, bold });
            }
            j += 1;
        }
    }

    /// The bytes that bring the terminal from the shown frame to the frame
    /// being built: each changed cell (every cell when nothing was shown yet)
    /// with its position and attribute changes, then an attribute reset if
    /// anything was drawn.
    pub fn build_diff_output(&self, color_mode: &ColorMode) -> (r: Vec<u8>)
        requires
            self.wf(),
            self.spec_width() < usize::MAX,
            self.spec_height() < usize::MAX,
        ensures
            ({
                let d = diff_from(
                    self.frame(),
                    self.shown(),
                    self.shown().len() == 0,
                    self.spec_width(),
                    self.spec_height(),
                    *color_mode,
                    0,
                    0,
                    (Color::Default, Color::Default, false),
                );
                r@ == (if d.len() == 0 {
                    d
                } else {
                    d + csi() + seq![48u8, 109u8]
                })
            }),
    {
        let mut buf: Vec<u8> = Vec::new();
        let mut cur_fg = Color::Default;
        let mut cur_bg = Color::Default;
        let mut cur_bold = false;
        let full_redraw = self.prev_cells.len() == 0;
        let w = self.width;
        let h = self.height;
        let ghost total = diff_from(
            self.cells@,
            self.prev_cells@,
            full_redraw,
            w as nat,
            h as nat,
            *color_mode,
            0,
            0,
            (Color::Default, Color::Default, false),
        );
        let mut row: usize = 0;
        while row < h
            invariant
                self.wf(),
                w == self.width,
                h == self.height,
                w < usize::MAX,
                h < usize::MAX,
                full_redraw == (self.prev_cells@.len() == 0),
                row <= h,
                buf@ + diff_from(
                    self.cells@,
                    self.prev_cells@,
                    full_redraw,
                    w as nat,
                    h as nat,
                    *color_mode,
                    row as nat,
                    0,
                    (cur_fg, cur_bg, cur_bold),
                ) == total,
            decreases h - row,
        {
            let mut col: usize = 0;
            while col < w
                invariant
                    self.wf(),
                    w == self.width,
                    h == self.height,
                    w < usize::MAX,
                    h < usize::MAX,
                    full_redraw == (self.prev_cells@.len() == 0),
                    row < h,
                    col <= w,
                    buf@ + diff_from(
                        self.cells@,
                        self.prev_cells@,
                        full_redraw,
                        w as nat,
                        h as nat,
                        *color_mode,
                        row as nat,
                        col as nat,
                        (cur_fg, cur_bg, cur_bold),
                    ) == total,
                decreases w - col,
            {
                proof {
                    lemma_cell_index(row as int, col as int, w as int, h as int);
                }
                let idx = row * w + col;
                let cell = self.cells[idx];
                let changed = full_redraw || self.prev_cells[idx] != cell;
                if changed {
                    write_cell(&mut buf, cell, row, col, (cur_fg, cur_bg, cur_bold), color_mode);
                    cur_fg = cell.fg;
                    cur_bg = cell.bg;
                    cur_bold = cell.bold;
                }
                col += 1;
            }
            row += 1;
        }
        proof {
            assert(buf@ =~= total);
        }
        if buf.len() > 0 {
            buf.push(27u8);
            buf.push(91u8);
            buf.push(48u8);
            buf.push(109u8);
            proof {
                assert(buf@ =~= total + csi() + seq![48u8, 109u8]);
            }
        }
        buf
    }

    /// Computes the output for the frame being built, then makes that frame
    /// the shown one and starts a blank frame. Returns the bytes to send.
    pub fn flush(&mut self, color_mode: &ColorMode) -> (r: Vec<u8>)
        requires
            old(self).wf(),
            old(self).spec_width() < usize::MAX,
            old(self).spec_height() < usize::MAX,
        ensures
            final(self).wf(),
            final(self).spec_width() == old(self).spec_width(),
            final(self).spec_height() == old(self).spec_height(),
            final(self).shown() == old(self).frame(),
            forall|k: int| 0 <= k < final(self).frame().len() ==> final(self).frame()[k] == blank_cell(),
            final(self).frame().len() == old(self).frame().len(),
            ({
                let d = diff_from(
                    old(self).frame(),
                    old(self).shown(),
                    old(self).shown().len() == 0,
                    old(self).spec_width(),
                    old(self).spec_height(),
                    *color_mode,
                    0,
                    0,
                    (Color::Default, Color::Default, false),
                );
                r@ == (if d.len() == 0 {
                    d
                } else {
                    d + csi() + seq![48u8, 109u8]
                })
            }),
    {
        let out = self.build_diff_output(color_mode);
        std::mem::swap(&mut self.prev_cells, &mut self.cells);
        self.cells = make_grid(self.width, self.height);
        out
    }

    /// Changes the dimensions; the frame becomes blank and the next output
    /// redraws everything.
    pub fn resize(&mut self, width: usize, height: usize)
        requires
            width * height <= usize::MAX,
        ensures
            final(self).wf(),
            final(self).spec_width() == width,
            final(self).spec_height() == height,
            final(self).frame().len() == width * height,
            forall|k: int| 0 <= k < final(self).frame().len() ==> final(self).frame()[k] == blank_cell(),
            final(self).shown().len() == 0,
    {
        self.width = width;
        self.height = height;
        self.cells = make_grid(width, height);
        self.prev_cells = Vec::new();
    }
}

/// The cell at `row`, `col` of a `w` by `h` grid lies within it.
proof fn lemma_cell_index(row: int, col: int, w: int, h: int)
    requires
        0 <= row < h,
        0 <= col < w,
    ensures
        0 <= row * w + col < w * h,
        row * w + w <= w * h,
{
    assert(row * w + col < w * h) by (nonlinear_arith)
        requires
            0 <= row < h,
            0 <= col < w,
    ;
    assert(row * w + w <= w * h) by (nonlinear_arith)
        requires
            0 <= row < h,
            0 <= col < w,
    ;
    assert(0 <= row * w) by (nonlinear_arith)
        requires
            0 <= row,
            0 <= w,
    ;
}

} // verus!
