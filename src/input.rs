//! Input events and their decoding from the bytes a terminal sends.
use vstd::prelude::*;

use crate::text::lossy_string;

verus! {

#[derive(Debug, Clone, Copy, PartialEq, Eq, Structural)]
pub enum Key {
    Char(char),
    Enter,
    Tab,
    Backspace,
    Delete,
    Escape,
    Up,
    Down,
    Left,
    Right,
    Home,
    End,
    PageUp,
    PageDown,
    F(u8),
}

#[derive(Debug, Clone, Copy, PartialEq, Eq, Structural)]
pub struct KeyEvent {
    pub key: Key,
    pub ctrl: bool,
    pub alt: bool,
    pub shift: bool,
}

impl KeyEvent {
    pub fn plain(key: Key) -> (r: Self)
        ensures
            r == (KeyEvent { key, ctrl: false, alt: false, shift: false }),
    {
        KeyEvent { key, ctrl: false, alt: false, shift: false }
    }

    pub fn ctrl(key: Key) -> (r: Self)
        ensures
            r == (KeyEvent { key, ctrl: true, alt: false, shift: false }),
    {
        KeyEvent { key, ctrl: true, alt: false, shift: false }
    }

    pub fn alt(key: Key) -> (r: Self)
        ensures
            r == (KeyEvent { key, ctrl: false, alt: true, shift: false }),
    {
        KeyEvent { key, ctrl: false, alt: true, shift: false }
    }
}

#[derive(Debug, Clone, Copy, PartialEq, Eq, Structural)]
pub enum MouseButton {
    Left,
    Middle,
    Right,
    ScrollUp,
    ScrollDown,
}

#[derive(Debug, Clone, Copy, PartialEq, Eq, Structural)]
pub struct MouseEvent {
    pub button: MouseButton,
    pub col: u16,
    pub row: u16,
    pub pressed: bool,
}

#[derive(Debug, Clone, PartialEq, Eq)]
pub enum Event {
    Key(KeyEvent),
    Mouse(MouseEvent),
    Paste(String),
    Resize,
    Nothing,
}

pub open spec fn plain_key(key: Key) -> Event {
    Event::Key(KeyEvent { key, ctrl: false, alt: false, shift: false })
}

/// Modifier flags (ctrl, alt, shift) of an xterm modifier parameter, which
/// encodes `1 + shift + 2 * alt + 4 * ctrl`.
pub open spec fn modifier_flags(value: u16) -> (bool, bool, bool) {
    let v = (if value >= 1 { value - 1 } else { 0 }) as u8;
    (v & 4 != 0, v & 2 != 0, v & 1 != 0)
}

/// Decodes an xterm modifier parameter into (ctrl, alt, shift).
pub fn decode_modifier(value: u16) -> (r: (bool, bool, bool))
    ensures
        r == modifier_flags(value),
{
    let v = value.saturating_sub(1) as u8;
    let shift = v & 1 != 0;
    let alt = v & 2 != 0;
    let ctrl = v & 4 != 0;
    (ctrl, alt, shift)
}

pub open spec fn key_event_with(key: Key, mods: (bool, bool, bool)) -> Event {
    Event::Key(KeyEvent { key, ctrl: mods.0, alt: mods.1, shift: mods.2 })
}

fn key_with_mod(key: Key, mods: (bool, bool, bool)) -> (r: Event)
    ensures
        r == key_event_with(key, mods),
{
    Event::Key(KeyEvent { key, ctrl: mods.0, alt: mods.1, shift: mods.2 })
}

/// Modifiers given by parameter `idx`, when present and above 1.
pub open spec fn modifier_at(params: Seq<u16>, idx: int) -> (bool, bool, bool) {
    if 0 <= idx < params.len() && params[idx] > 1 {
        modifier_flags(params[idx])
    } else {
        (false, false, false)
    }
}

fn modifier_param(params: &[u16], idx: usize) -> (r: (bool, bool, bool))
    ensures
        r == modifier_at(params@, idx as int),
{
    if idx < params.len() && params[idx] > 1 {
        decode_modifier(params[idx])
    } else {
        (false, false, false)
    }
}

/// The key of a `CSI n ~` sequence.
pub open spec fn tilde_key(n: u16) -> Option<Key> {
    if n == 1 || n == 7 {
        Some(Key::Home)
    } else if n == 3 {
        Some(Key::Delete)
    } else if n == 4 || n == 8 {
        Some(Key::End)
    } else if n == 5 {
        Some(Key::PageUp)
    } else if n == 6 {
        Some(Key::PageDown)
    } else if 11 <= n <= 15 {
        Some(Key::F((n - 10) as u8))
    } else if 17 <= n <= 21 {
        Some(Key::F((n - 11) as u8))
    } else if n == 23 || n == 24 {
        Some(Key::F((n - 12) as u8))
    } else {
        None
    }
}

/// The event of a CSI sequence with final byte `f` and parameters `params`:
/// arrows, Home and End with the modifier in the second parameter; `~` keys
/// with the modifier in the second parameter when there are two.
pub open spec fn csi_event(f: u8, params: Seq<u16>) -> Event {
    if f == 65 {
        key_event_with(Key::Up, modifier_at(params, 1))
    } else if f == 66 {
        key_event_with(Key::Down, modifier_at(params, 1))
    } else if f == 67 {
        key_event_with(Key::Right, modifier_at(params, 1))
    } else if f == 68 {
        key_event_with(Key::Left, modifier_at(params, 1))
    } else if f == 72 {
        key_event_with(Key::Home, modifier_at(params, 1))
    } else if f == 70 {
        key_event_with(Key::End, modifier_at(params, 1))
    } else if f == 126 && params.len() > 0 {
        match tilde_key(params[0]) {
            Some(k) => key_event_with(k, modifier_at(params, if params.len() >= 2 { 1 } else { 99 })),
            None => Event::Nothing,
        }
    } else {
        Event::Nothing
    }
}

fn tilde_key_of(n: u16) -> (r: Option<Key>)
    ensures
        r == tilde_key(n),
{
    match n {
        1 | 7 => Some(Key::Home),
        3 => Some(Key::Delete),
        4 | 8 => Some(Key::End),
        5 => Some(Key::PageUp),
        6 => Some(Key::PageDown),
        11..=15 => Some(Key::F((n - 10) as u8)),
        17..=21 => Some(Key::F((n - 11) as u8)),
        23 | 24 => Some(Key::F((n - 12) as u8)),
        _ => None,
    }
}

/// Decodes the final byte of a CSI sequence with its parameters.
pub fn decode_csi_final(final_byte: u8, params: &[u16]) -> (r: Event)
    ensures
        r == csi_event(final_byte, params@),
{
    match final_byte {
        65 => key_with_mod(Key::Up, modifier_param(params, 1)),
        66 => key_with_mod(Key::Down, modifier_param(params, 1)),
        67 => key_with_mod(Key::Right, modifier_param(params, 1)),
        68 => key_with_mod(Key::Left, modifier_param(params, 1)),
        72 => key_with_mod(Key::Home, modifier_param(params, 1)),
        70 => key_with_mod(Key::End, modifier_param(params, 1)),
        126 if params.len() > 0 => {
            let mod_idx: usize = if params.len() >= 2 {
                1
            } else {
                99
            };
            let mods = modifier_param(params, mod_idx);
            match tilde_key_of(params[0]) {
                Some(k) => key_with_mod(k, mods),
                None => Event::Nothing,
            }
        },
        _ => Event::Nothing,
    }
}

/// The mouse event of an SGR report: button from the low bits and the wheel
/// bit, 1-based coordinates made 0-based.
pub open spec fn sgr_mouse_event(btn_bits: u16, col: u16, row: u16, pressed: bool) -> Event {
    let b = btn_bits & 0x43;
    let button = if b == 0 {
        Some(MouseButton::Left)
    } else if b == 1 {
        Some(MouseButton::Middle)
    } else if b == 2 {
        Some(MouseButton::Right)
    } else if b == 64 {
        Some(MouseButton::ScrollUp)
    } else if b == 65 {
        Some(MouseButton::ScrollDown)
    } else {
        None
    };
    match button {
        Some(button) => Event::Mouse(
            MouseEvent {
                button,
                col: if col >= 1 { (col - 1) as u16 } else { 0 },
                row: if row >= 1 { (row - 1) as u16 } else { 0 },
                pressed,
            },
        ),
        None => Event::Nothing,
    }
}

pub fn parse_sgr_mouse(btn_bits: u16, col: u16, row: u16, pressed: bool) -> (r: Event)
    ensures
        r == sgr_mouse_event(btn_bits, col, row, pressed),
{
    let button = match btn_bits & 0x43 {
        0 => MouseButton::Left,
        1 => MouseButton::Middle,
        2 => MouseButton::Right,
        64 => MouseButton::ScrollUp,
        65 => MouseButton::ScrollDown,
        _ => {
            return Event::Nothing;
        },
    };
    Event::Mouse(
        MouseEvent {
            button,
            col: col.saturating_sub(1),
            row: row.saturating_sub(1),
            pressed,
        },
    )
}

// ---------------------------------------------------------------------------
// Byte stream decoding
// ---------------------------------------------------------------------------

/// Most parameters a CSI sequence keeps.
pub const MAX_CSI_PARAMS: usize = 8;

/// Longest paste kept; a paste ends once it is longer.
pub const MAX_PASTE: usize = 1_048_576;

/// Relies on `char::from_u32`: the character with scalar value `v`, if `v`
/// is a Unicode scalar value.
#[verifier::external_body]
fn char_from_u32(v: u32) -> (r: Option<char>)
    ensures
        r is Some <==> (v < 0xD800 || (0xE000 <= v && v <= 0x10FFFF)),
        r is Some ==> r->0 as u32 == v,
{
    char::from_u32(v)
}

/// The event that a lone byte stands for, or `None` when it starts an escape
/// or multi-byte sequence.
pub open spec fn ground_event(b: u8) -> Option<Event> {
    if b == 0x1b || (b >= 0xc0 && b < 0xf8) {
        None
    } else if b == 0x0d {
        Some(plain_key(Key::Enter))
    } else if b == 0x09 {
        Some(plain_key(Key::Tab))
    } else if b == 0x00 {
        Some(Event::Key(KeyEvent { key: Key::Char(' '), ctrl: true, alt: false, shift: false }))
    } else if 0x01 <= b <= 0x1a {
        Some(
            Event::Key(
                KeyEvent { key: Key::Char((b + 96) as u8 as char), ctrl: true, alt: false, shift: false },
            ),
        )
    } else if b == 0x7f {
        Some(plain_key(Key::Backspace))
    } else if 0x20 <= b <= 0x7e {
        Some(plain_key(Key::Char(b as char)))
    } else {
        Some(Event::Nothing)
    }
}

/// Decodes a byte read with no sequence under way.
fn decode_first_byte(b: u8) -> (r: Option<Event>)
    ensures
        r == ground_event(b),
{
    if b == 0x1b || (b >= 0xc0 && b < 0xf8) {
        None
    } else if b == 0x0d {
        Some(Event::Key(KeyEvent::plain(Key::Enter)))
    } else if b == 0x09 {
        Some(Event::Key(KeyEvent::plain(Key::Tab)))
    } else if b == 0x00 {
        Some(Event::Key(KeyEvent::ctrl(Key::Char(' '))))
    } else if 0x01 <= b && b <= 0x1a {
        let c = (b + 96) as char;
        Some(Event::Key(KeyEvent::ctrl(Key::Char(c))))
    } else if b == 0x7f {
        Some(Event::Key(KeyEvent::plain(Key::Backspace)))
    } else if 0x20 <= b && b <= 0x7e {
        Some(Event::Key(KeyEvent::plain(Key::Char(b as char))))
    } else {
        Some(Event::Nothing)
    }
}

/// The event after `ESC` and then `b`; `None` when `b` opens a CSI or SS3
/// sequence.
pub open spec fn escape_event(b: u8) -> Option<Event> {
    if b == 91 || b == 79 {
        None
    } else if 0x20 <= b <= 0x7e {
        Some(Event::Key(KeyEvent { key: Key::Char(b as char), ctrl: false, alt: true, shift: false }))
    } else {
        Some(plain_key(Key::Escape))
    }
}

fn parse_escape(b: u8) -> (r: Option<Event>)
    ensures
        r == escape_event(b),
{
    if b == 91 || b == 79 {
        None
    } else if 0x20 <= b && b <= 0x7e {
        Some(Event::Key(KeyEvent::alt(Key::Char(b as char))))
    } else {
        Some(Event::Key(KeyEvent::plain(Key::Escape)))
    }
}

/// The event of an SS3 sequence (`ESC O b`).
pub open spec fn ss3_event(b: u8) -> Event {
    if b == 80 {
        plain_key(Key::F(1))
    } else if b == 81 {
        plain_key(Key::F(2))
    } else if b == 82 {
        plain_key(Key::F(3))
    } else if b == 83 {
        plain_key(Key::F(4))
    } else if b == 72 {
        plain_key(Key::Home)
    } else if b == 70 {
        plain_key(Key::End)
    } else {
        Event::Nothing
    }
}

fn parse_ss3(b: u8) -> (r: Event)
    ensures
        r == ss3_event(b),
{
    let key = match b {
        80 => Key::F(1),
        81 => Key::F(2),
        82 => Key::F(3),
        83 => Key::F(4),
        72 => Key::Home,
        70 => Key::End,
        _ => {
            return Event::Nothing;
        },
    };
    Event::Key(KeyEvent::plain(key))
}

/// Continuation bytes a UTF-8 lead byte announces, with the bits it carries.
pub open spec fn utf8_lead(lead: u8) -> Option<(u8, u32)> {
    if lead & 0xE0 == 0xC0 {
        Some((1u8, (lead & 0x1F) as u32))
    } else if lead & 0xF0 == 0xE0 {
        Some((2u8, (lead & 0x0F) as u32))
    } else if lead & 0xF8 == 0xF0 {
        Some((3u8, (lead & 0x07) as u32))
    } else {
        None
    }
}

fn decode_utf8_lead(lead: u8) -> (r: Option<(u8, u32)>)
    ensures
        r == utf8_lead(lead),
{
    if lead & 0xE0 == 0xC0 {
        Some((1, (lead & 0x1F) as u32))
    } else if lead & 0xF0 == 0xE0 {
        Some((2, (lead & 0x0F) as u32))
    } else if lead & 0xF8 == 0xF0 {
        Some((3, (lead & 0x07) as u32))
    } else {
        None
    }
}

/// The paste terminator `ESC [ 2 0 1 ~`.
pub open spec fn paste_end() -> Seq<u8> {
    seq![27u8, 91u8, 50u8, 48u8, 49u8, 126u8]
}

/// `buf` ends with the paste terminator.
fn ends_with_paste_end(buf: &Vec<u8>) -> (r: bool)
    ensures
        r == (buf@.len() >= 6 && buf@.subrange(buf@.len() - 6, buf@.len() as int) == paste_end()),
{
    let n = buf.len();
    if n < 6 {
        return false;
    }
    let r = buf[n - 6] == 27u8 && buf[n - 5] == 91u8 && buf[n - 4] == 50u8 && buf[n - 3] == 48u8
        && buf[n - 2] == 49u8 && buf[n - 1] == 126u8;
    proof {
        let tail = buf@.subrange(n - 6, n as int);
        if r {
            assert(tail =~= paste_end());
        } else {
            assert(tail != paste_end()) by {
                if tail == paste_end() {
                    assert(tail[0] == buf@[n - 6]);
                    assert(tail[1] == buf@[n - 5]);
                    assert(tail[2] == buf@[n - 4]);
                    assert(tail[3] == buf@[n - 3]);
                    assert(tail[4] == buf@[n - 2]);
                    assert(tail[5] == buf@[n - 1]);
                }
            }
        }
    }
    r
}

/// Where the decoder stands within a multi-byte input sequence.
enum DecodeState {
    Ground,
    Escape,
    Csi { params: Vec<u16>, current: u16, has_digit: bool, sgr: bool },
    Ss3,
    Utf8 { remaining: u8, codepoint: u32 },
    Paste { bytes: Vec<u8> },
}

/// Turns the bytes read from the terminal, one at a time, into events. `None`
/// stands for a read that timed out.
pub struct InputDecoder {
    state: DecodeState,
}

/// A CSI sequence keeps at most `MAX_CSI_PARAMS` parameters.
spec fn state_ok(state: DecodeState) -> bool {
    match state {
        DecodeState::Csi { params, .. } => params@.len() <= MAX_CSI_PARAMS,
        _ => true,
    }
}

impl InputDecoder {
    #[verifier::type_invariant]
    closed spec fn inv(self) -> bool {
        state_ok(self.state)
    }

    /// No sequence is under way.
    pub closed spec fn is_idle(&self) -> bool {
        self.state is Ground
    }

    /// An `ESC` was read and nothing after it yet.
    pub closed spec fn after_escape(&self) -> bool {
        self.state is Escape
    }

    /// `ESC O` was read and its final byte is awaited.
    pub closed spec fn in_ss3(&self) -> bool {
        self.state is Ss3
    }

    pub fn new() -> (r: Self)
        ensures
            r.is_idle(),
    {
        InputDecoder { state: DecodeState::Ground }
    }

    /// Takes the next byte, or `None` for a timed-out read, and returns the
    /// event it completes, if any. With no sequence under way a timeout gives
    /// `Event::Nothing` and a lone byte gives its event at once.
    pub fn feed(&mut self, byte: Option<u8>) -> (r: Option<Event>)
        ensures
            r is Some ==> final(self).is_idle(),
            old(self).is_idle() && byte is None ==> r == Some(Event::Nothing),
            old(self).is_idle() && byte is Some && ground_event(byte->0) is Some ==> r
                == ground_event(byte->0),
            old(self).is_idle() && byte == Some(0x1bu8) ==> r is None && final(self).after_escape(),
            old(self).after_escape() && byte is None ==> r == Some(plain_key(Key::Escape)),
            old(self).after_escape() && byte is Some && escape_event(byte->0) is Some ==> r
                == escape_event(byte->0),
            old(self).after_escape() && byte == Some(79u8) ==> r is None && final(self).in_ss3(),
            old(self).in_ss3() && byte is Some ==> r == Some(ss3_event(byte->0)),
    {
        proof {
            use_type_invariant(&*self);
        }
        let mut state = DecodeState::Ground;
        std::mem::swap(&mut state, &mut self.state);
        let (next, out) = match state {
            DecodeState::Ground => match byte {
                None => (DecodeState::Ground, Some(Event::Nothing)),
                Some(b) => match decode_first_byte(b) {
                    Some(ev) => (DecodeState::Ground, Some(ev)),
                    None => {
                        if b == 0x1b {
                            (DecodeState::Escape, None)
                        } else {
                            match decode_utf8_lead(b) {
                                Some((n, cp)) => (
                                    DecodeState::Utf8 { remaining: n, codepoint: cp },
                                    None,
                                ),
                                None => (DecodeState::Ground, Some(Event::Nothing)),
                            }
                        }
                    },
                },
            },
            DecodeState::Escape => match byte {
                None => (DecodeState::Ground, Some(Event::Key(KeyEvent::plain(Key::Escape)))),
                Some(b) => match parse_escape(b) {
                    Some(ev) => (DecodeState::Ground, Some(ev)),
                    None => {
                        if b == 91 {
                            (
                                DecodeState::Csi {
                                    params: Vec::new(),
                                    current: 0,
                                    has_digit: false,
                                    sgr: false,
                                },
                                None,
                            )
                        } else {
                            (DecodeState::Ss3, None)
                        }
                    },
                },
            },
            DecodeState::Ss3 => match byte {
                None => (DecodeState::Ground, Some(Event::Nothing)),
                Some(b) => (DecodeState::Ground, Some(parse_ss3(b))),
            },
            DecodeState::Csi { params, current, has_digit, sgr } => match byte {
                None => (DecodeState::Ground, Some(Event::Nothing)),
                Some(b) => parse_csi(params, current, has_digit, sgr, b),
            },
            DecodeState::Utf8 { remaining, codepoint } => match byte {
                Some(b) if b & 0xC0 == 0x80 && codepoint < 0x0400_0000 => {
                    let cp = (codepoint << 6u32) | ((b & 0x3F) as u32);
                    if remaining <= 1 {
                        match char_from_u32(cp) {
                            Some(ch) => (
                                DecodeState::Ground,
                                Some(Event::Key(KeyEvent::plain(Key::Char(ch)))),
                            ),
                            None => (DecodeState::Ground, Some(Event::Nothing)),
                        }
                    } else {
                        (DecodeState::Utf8 { remaining: remaining - 1, codepoint: cp }, None)
                    }
                },
                _ => (DecodeState::Ground, Some(Event::Nothing)),
            },
            DecodeState::Paste { bytes } => read_bracketed_paste(bytes, byte),
        };
        self.state = next;
        out
    }
}

/// One byte of a CSI sequence: a parameter digit or separator, the SGR mouse
/// prefix, or the final byte that completes the event.
fn parse_csi(params: Vec<u16>, current: u16, has_digit: bool, sgr: bool, b: u8) -> (r: (
    DecodeState,
    Option<Event>,
))
    requires
        params@.len() <= MAX_CSI_PARAMS,
    ensures
        r.1 is Some ==> r.0 is Ground,
        state_ok(r.0),
{
    let mut params = params;
    if b == 60 {
        (DecodeState::Csi { params, current, has_digit, sgr: true }, None)
    } else if 48 <= b && b <= 57 {
        let digit = (b - 48) as u16;
        let current = if current > (u16::MAX - digit) / 10 {
            u16::MAX
        } else {
            current * 10 + digit
        };
        (DecodeState::Csi { params, current, has_digit: true, sgr }, None)
    } else if b == 59 {
        if params.len() < MAX_CSI_PARAMS {
            params.push(current);
        }
        (DecodeState::Csi { params, current: 0, has_digit: false, sgr }, None)
    } else if 0x40 <= b && b <= 0x7e {
        if (has_digit || params.len() > 0) && params.len() < MAX_CSI_PARAMS {
            params.push(current);
        }
        if sgr && (b == 77 || b == 109) && params.len() >= 3 {
            return (
                DecodeState::Ground,
                Some(parse_sgr_mouse(params[0], params[1], params[2], b == 77)),
            );
        }
        if b == 126 && params.len() == 1 && params[0] == 200 {
            return (DecodeState::Paste { bytes: Vec::new() }, None);
        }
        (DecodeState::Ground, Some(decode_csi_final(b, params.as_slice())))
    } else {
        (DecodeState::Ground, Some(Event::Nothing))
    }
}

/// One read during a bracketed paste: the paste ends at its terminator, at a
/// timeout, or once it outgrows `MAX_PASTE`.
fn read_bracketed_paste(bytes: Vec<u8>, byte: Option<u8>) -> (r: (DecodeState, Option<Event>))
    ensures
        r.1 is Some ==> r.0 is Ground,
        state_ok(r.0),
{
    let mut bytes = bytes;
    match byte {
        None => (DecodeState::Ground, Some(Event::Paste(lossy_string(bytes.as_slice())))),
        Some(b) => {
            bytes.push(b);
            if ends_with_paste_end(&bytes) {
                let n = bytes.len();
                bytes.truncate(n - 6);
                (DecodeState::Ground, Some(Event::Paste(lossy_string(bytes.as_slice()))))
            } else if bytes.len() > MAX_PASTE {
                (DecodeState::Ground, Some(Event::Paste(lossy_string(bytes.as_slice()))))
            } else {
                (DecodeState::Paste { bytes }, None)
            }
        },
    }
}

} // verus!
