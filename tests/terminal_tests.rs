use zelux::terminal::{color_mode_from, enable_mouse, move_cursor, ColorMode};

#[test]
fn color_mode_from_environment_values() {
    assert_eq!(color_mode_from(Some("TrueColor"), None), ColorMode::TrueColor);
    assert_eq!(color_mode_from(Some("24BIT"), Some("xterm")), ColorMode::TrueColor);
    assert_eq!(color_mode_from(Some("yes"), Some("XTERM-256Color")), ColorMode::Color256);
    assert_eq!(color_mode_from(None, Some("vt100")), ColorMode::Color16);
    assert_eq!(color_mode_from(None, None), ColorMode::Color16);
}

#[test]
fn escape_sequences() {
    assert_eq!(enable_mouse(), "\x1b[?1000h\x1b[?1006h");
    assert_eq!(move_cursor(12, 3), b"\x1b[12;3H".to_vec());
}
