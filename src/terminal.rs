//! Terminal color capabilities and the escape sequences that switch terminal
//! features; the bytes are written out by the host.
use vstd::prelude::*;
use vstd::string::*;
use vstd::utf8::*;

use crate::render::{csi, decimal, usize_digits};
use crate::search::occurs_at;
use crate::text::{lower_of, to_lower};

verus! {

#[derive(Clone, Copy, PartialEq, Eq, Debug, Structural)]
pub enum ColorMode {
    TrueColor,
    Color256,
    Color16,
}

/// `needle` occurs somewhere in `hay`.
pub open spec fn contains_bytes(hay: Seq<u8>, needle: Seq<u8>) -> bool {
    exists|i: int| occurs_at(hay, needle, i)
}

/// The color mode announced by the `COLORTERM` and `TERM` variables (given
/// when set): true color for `truecolor` or `24bit`, 256 colors when `TERM`
/// mentions `256color`, 16 colors otherwise; case is ignored.
pub open spec fn color_mode_of(colorterm: Option<Seq<char>>, term: Option<Seq<char>>) -> ColorMode {
    if colorterm is Some && (lower_of(colorterm->0) == "truecolor"@ || lower_of(colorterm->0)
        == "24bit"@) {
        ColorMode::TrueColor
    } else if term is Some && contains_bytes(
        encode_utf8(lower_of(term->0)),
        encode_utf8("256color"@),
    ) {
        ColorMode::Color256
    } else {
        ColorMode::Color16
    }
}

fn contains(hay: &[u8], needle: &[u8]) -> (r: bool)
    ensures
        r == contains_bytes(hay@, needle@),
{
    let n = hay.len();
    let m = needle.len();
    if m > n {
        return false;
    }
    let mut i: usize = 0;
    while i <= n - m
        invariant
            n == hay@.len(),
            m == needle@.len(),
            m <= n,
            i <= n - m + 1,
            forall|k: int| 0 <= k < i ==> !occurs_at(hay@, needle@, k),
        decreases n - m + 1 - i,
    {
        let mut j: usize = 0;
        let mut same = true;
        while j < m
            invariant
                j <= m,
                i + m <= n,
                n == hay@.len(),
                m == needle@.len(),
                same == (forall|q: int| 0 <= q < j ==> hay@[i + q] == needle@[q]),
            decreases m - j,
        {
            if hay[i + j] != needle[j] {
                same = false;
            }
            j += 1;
        }
        if same {
            proof {
                assert(hay@.subrange(i as int, i + m) =~= needle@);
                assert(occurs_at(hay@, needle@, i as int));
            }
            return true;
        }
        proof {
            assert(!occurs_at(hay@, needle@, i as int)) by {
                if occurs_at(hay@, needle@, i as int) {
                    assert forall|q: int| 0 <= q < m implies hay@[i + q] == needle@[q] by {
                        assert(hay@.subrange(i as int, i + m)[q] == hay@[i + q]);
                    }
                }
            }
        }
        i += 1;
    }
    false
}

/// Decides the color mode from the values of `COLORTERM` and `TERM`.
pub fn color_mode_from(colorterm: Option<&str>, term: Option<&str>) -> (r: ColorMode)
    ensures
        r == color_mode_of(
            match colorterm {
                Some(s) => Some(s@),
                None => None,
            },
            match term {
                Some(s) => Some(s@),
                None => None,
            },
        ),
{
    if let Some(val) = colorterm {
        let val = to_lower(val);
        if val == "truecolor".to_string() || val == "24bit".to_string() {
            return ColorMode::TrueColor;
        }
    }
    if let Some(t) = term {
        let t = to_lower(t);
        if contains(t.as_str().as_bytes(), "256color".as_bytes()) {
            return ColorMode::Color256;
        }
    }
    ColorMode::Color16
}

/// Turns on mouse button reporting in SGR encoding.
pub fn enable_mouse() -> (r: &'static str)
    ensures
        r@ == "\x1b[?1000h\x1b[?1006h"@,
{
    "\x1b[?1000h\x1b[?1006h"
}

pub fn disable_mouse() -> (r: &'static str)
    ensures
        r@ == "\x1b[?1006l\x1b[?1000l"@,
{
    "\x1b[?1006l\x1b[?1000l"
}

/// Makes the terminal wrap pasted text in paste markers.
pub fn enable_bracketed_paste() -> (r: &'static str)
    ensures
        r@ == "\x1b[?2004h"@,
{
    "\x1b[?2004h"
}

pub fn disable_bracketed_paste() -> (r: &'static str)
    ensures
        r@ == "\x1b[?2004l"@,
{
    "\x1b[?2004l"
}

pub fn hide_cursor() -> (r: &'static str)
    ensures
        r@ == "\x1b[?25l"@,
{
    "\x1b[?25l"
}

pub fn show_cursor() -> (r: &'static str)
    ensures
        r@ == "\x1b[?25h"@,
{
    "\x1b[?25h"
}

pub fn clear_screen() -> (r: &'static str)
    ensures
        r@ == "\x1b[2J"@,
{
    "\x1b[2J"
}

/// The sequence that moves the terminal cursor to 1-based `row`, `col`.
pub fn move_cursor(row: u16, col: u16) -> (r: Vec<u8>)
    ensures
        r@ == csi() + decimal(row as nat) + seq![59u8] + decimal(col as nat) + seq![72u8],
{
    let mut out: Vec<u8> = Vec::new();
    out.push(27u8);
    out.push(91u8);
    let r = usize_digits(row as usize);
    out.extend_from_slice(r.as_slice());
    out.push(59u8);
    let c = usize_digits(col as usize);
    out.extend_from_slice(c.as_slice());
    out.push(72u8);
    proof {
        assert(out@ =~= csi() + decimal(row as nat) + seq![59u8] + decimal(col as nat) + seq![72u8]);
    }
    out
}

} // verus!
