use zelux::input::{
    decode_csi_final, decode_modifier, parse_sgr_mouse, Event, InputDecoder, Key, KeyEvent,
    MouseButton, MouseEvent,
};

#[test]
fn test_decode_modifier() {
    assert_eq!(decode_modifier(1), (false, false, false));
    assert_eq!(decode_modifier(2), (false, false, true));
    assert_eq!(decode_modifier(3), (false, true, false));
    assert_eq!(decode_modifier(5), (true, false, false));
    assert_eq!(decode_modifier(6), (true, false, true));
    assert_eq!(decode_modifier(8), (true, true, true));
}

#[test]
fn test_key_event_constructors() {
    let plain = KeyEvent::plain(Key::Enter);
    assert!(!plain.ctrl && !plain.alt && !plain.shift);
    let ctrl = KeyEvent::ctrl(Key::Char('c'));
    assert!(ctrl.ctrl && !ctrl.alt && !ctrl.shift);
    let alt = KeyEvent::alt(Key::Char('x'));
    assert!(!alt.ctrl && alt.alt && !alt.shift);
}

#[test]
fn test_decode_csi_arrows() {
    assert_eq!(decode_csi_final(b'A', &[]), Event::Key(KeyEvent::plain(Key::Up)));
    assert_eq!(
        decode_csi_final(b'C', &[1, 5]),
        Event::Key(KeyEvent { key: Key::Right, ctrl: true, alt: false, shift: false })
    );
}

#[test]
fn test_decode_csi_tilde() {
    assert_eq!(decode_csi_final(b'~', &[3]), Event::Key(KeyEvent::plain(Key::Delete)));
    assert_eq!(
        decode_csi_final(b'~', &[5, 2]),
        Event::Key(KeyEvent { key: Key::PageUp, ctrl: false, alt: false, shift: true })
    );
    assert_eq!(decode_csi_final(b'~', &[15]), Event::Key(KeyEvent::plain(Key::F(5))));
}

#[test]
fn test_sgr_mouse() {
    assert_eq!(
        parse_sgr_mouse(0, 10, 5, true),
        Event::Mouse(MouseEvent { button: MouseButton::Left, col: 9, row: 4, pressed: true })
    );
    assert_eq!(
        parse_sgr_mouse(65, 1, 1, true),
        Event::Mouse(MouseEvent { button: MouseButton::ScrollDown, col: 0, row: 0, pressed: true })
    );
}

// ---------------------------------------------------------------------------

fn decode(bytes: &[u8]) -> Vec<Event> {
    let mut dec = InputDecoder::new();
    let mut out = Vec::new();
    for &b in bytes {
        if let Some(ev) = dec.feed(Some(b)) {
            out.push(ev);
        }
    }
    if let Some(ev) = dec.feed(None) {
        out.push(ev);
    }
    out
}

#[test]
fn decoder_plain_and_control_bytes() {
    assert_eq!(
        decode(b"a\r\x03"),
        vec![
            Event::Key(KeyEvent::plain(Key::Char('a'))),
            Event::Key(KeyEvent::plain(Key::Enter)),
            Event::Key(KeyEvent::ctrl(Key::Char('c'))),
            Event::Nothing,
        ]
    );
}

#[test]
fn decoder_escape_sequences() {
    assert_eq!(decode(b"\x1b[1;5C")[0], Event::Key(KeyEvent { key: Key::Right, ctrl: true, alt: false, shift: false }));
    assert_eq!(decode(b"\x1bOR")[0], Event::Key(KeyEvent::plain(Key::F(3))));
    assert_eq!(decode(b"\x1bx")[0], Event::Key(KeyEvent::alt(Key::Char('x'))));
    assert_eq!(decode(b"\x1b"), vec![Event::Key(KeyEvent::plain(Key::Escape))]);
}

#[test]
fn decoder_mouse_and_paste() {
    assert_eq!(
        decode(b"\x1b[<0;10;5M")[0],
        Event::Mouse(MouseEvent { button: MouseButton::Left, col: 9, row: 4, pressed: true })
    );
    assert_eq!(decode(b"\x1b[200~hi\nthere\x1b[201~")[0], Event::Paste("hi\nthere".to_string()));
}

#[test]
fn decoder_utf8_characters() {
    assert_eq!(decode("é".as_bytes())[0], Event::Key(KeyEvent::plain(Key::Char('é'))));
    assert_eq!(decode("日".as_bytes())[0], Event::Key(KeyEvent::plain(Key::Char('日'))));
    assert_eq!(decode(&[0xC3, b'a'])[0], Event::Nothing);
    assert_eq!(decode(&[0xED, 0xA0, 0x80])[0], Event::Nothing);
}

#[test]
fn unknown_csi_final_is_nothing() {
    assert_eq!(decode_csi_final(b'Z', &[]), Event::Nothing);
    assert_eq!(decode_csi_final(b'~', &[99]), Event::Nothing);
    assert_eq!(parse_sgr_mouse(3, 1, 1, false), Event::Nothing);
}
