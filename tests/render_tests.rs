use zelux::render::{
    ansi256_to_ansi16, effective_color, rgb_to_ansi256, write_usize, Cell, Color, Screen,
};
use zelux::terminal::ColorMode;

#[test]
fn new_screen_dimensions() {
    let s = Screen::new(80, 24);
    assert_eq!(s.width(), 80);
    assert_eq!(s.height(), 24);
    assert_eq!(s.cells().len(), 24);
    assert_eq!(s.cells()[0].len(), 80);
}

#[test]
fn new_screen_default_cells() {
    let s = Screen::new(3, 2);
    for row in &s.cells() {
        for cell in row {
            assert_eq!(*cell, Cell::default());
        }
    }
}

#[test]
fn put_char_populates_cell() {
    let mut s = Screen::new(10, 5);
    s.put_char(2, 3, 'A', Color::Rgb(255, 0, 0), Color::Default, true);
    assert_eq!(s.cells()[2][3].ch, 'A');
    assert_eq!(s.cells()[2][3].fg, Color::Rgb(255, 0, 0));
    assert_eq!(s.cells()[2][3].bold, true);
}

#[test]
fn put_char_out_of_bounds() {
    let mut s = Screen::new(5, 5);
    s.put_char(10, 10, 'X', Color::Default, Color::Default, false);
}

#[test]
fn put_str_populates_cells() {
    let mut s = Screen::new(10, 5);
    s.put_str(0, 0, "Hi!", Color::Default, Color::Default, false);
    assert_eq!(s.cells()[0][0].ch, 'H');
    assert_eq!(s.cells()[0][1].ch, 'i');
    assert_eq!(s.cells()[0][2].ch, '!');
    assert_eq!(s.cells()[0][3].ch, ' ');
}

#[test]
fn put_str_truncates_at_edge() {
    let mut s = Screen::new(5, 1);
    s.put_str(0, 3, "Hello", Color::Default, Color::Default, false);
    assert_eq!(s.cells()[0][3].ch, 'H');
    assert_eq!(s.cells()[0][4].ch, 'e');
}

#[test]
fn put_str_row_out_of_bounds() {
    let mut s = Screen::new(5, 2);
    s.put_str(5, 0, "nope", Color::Default, Color::Default, false);
}

#[test]
fn clear_resets_cells() {
    let mut s = Screen::new(5, 3);
    s.put_char(1, 2, 'Z', Color::Ansi(1), Color::Ansi(2), true);
    s.clear();
    assert_eq!(s.cells()[1][2], Cell::default());
}

#[test]
fn resize_changes_dimensions() {
    let mut s = Screen::new(10, 5);
    s.resize(20, 10);
    assert_eq!(s.width(), 20);
    assert_eq!(s.height(), 10);
    assert_eq!(s.cells().len(), 10);
    assert_eq!(s.cells()[0].len(), 20);
}

#[test]
fn unchanged_screen_empty_diff() {
    let mut s = Screen::new(5, 3);
    let first = s.build_diff_output(&ColorMode::TrueColor);
    assert!(!first.is_empty());
    // Make the current frame the shown one and start a blank frame, as a
    // flush does, without sending anything.
    let _ = s.flush(&ColorMode::TrueColor);
    let second = s.build_diff_output(&ColorMode::TrueColor);
    assert!(second.is_empty());
}

#[test]
fn rgb_to_ansi256_black() {
    assert_eq!(rgb_to_ansi256(0, 0, 0), 16);
}

#[test]
fn rgb_to_ansi256_white() {
    assert_eq!(rgb_to_ansi256(255, 255, 255), 231);
}

#[test]
fn rgb_to_ansi256_gray() {
    let idx = rgb_to_ansi256(128, 128, 128);
    assert!((232..=255).contains(&idx));
}

#[test]
fn rgb_to_ansi256_red() {
    let idx = rgb_to_ansi256(255, 0, 0);
    assert_eq!(idx, 196);
}

#[test]
fn ansi256_to_ansi16_passthrough() {
    for i in 0..=15 {
        assert_eq!(ansi256_to_ansi16(i), i);
    }
}

#[test]
fn ansi256_to_ansi16_cube_color() {
    let n = ansi256_to_ansi16(196);
    assert!(n == 1 || n == 9);
}

#[test]
fn cell_default_equality() {
    let a = Cell::default();
    let b = Cell { ch: ' ', fg: Color::Default, bg: Color::Default, bold: false };
    assert_eq!(a, b);
}

#[test]
fn color_downgrade_rgb_to_256() {
    let c = effective_color(Color::Rgb(255, 0, 0), &ColorMode::Color256);
    assert_eq!(c, Color::Color256(196));
}

#[test]
fn color_downgrade_rgb_to_16() {
    let c = effective_color(Color::Rgb(255, 0, 0), &ColorMode::Color16);
    if let Color::Ansi(n) = c {
        assert!(n <= 15);
    } else {
        panic!("Expected Ansi color");
    }
}

#[test]
fn color_no_downgrade_in_truecolor() {
    let c = effective_color(Color::Rgb(42, 100, 200), &ColorMode::TrueColor);
    assert_eq!(c, Color::Rgb(42, 100, 200));
}

#[test]
fn write_usize_zero() {
    let mut buf = Vec::new();
    write_usize(&mut buf, 0);
    assert_eq!(buf, b"0");
}

#[test]
fn write_usize_multidigit() {
    let mut buf = Vec::new();
    write_usize(&mut buf, 123);
    assert_eq!(buf, b"123");
}

// ---------------------------------------------------------------------------

#[test]
fn gray_ramp_and_cube_values() {
    assert_eq!(rgb_to_ansi256(128, 128, 128), 244);
    assert_eq!(rgb_to_ansi256(248, 248, 248), 255);
    assert_eq!(rgb_to_ansi256(100, 150, 200), 16 + 36 + 12 + 4);
    assert_eq!(ansi256_to_ansi16(196), 1);
    assert_eq!(ansi256_to_ansi16(232), 0);
    assert_eq!(ansi256_to_ansi16(255), 15);
}

#[test]
fn diff_output_exact_bytes() {
    let mut s = Screen::new(2, 1);
    s.put_char(0, 1, 'é', Color::Ansi(9), Color::Default, true);
    let out = s.build_diff_output(&ColorMode::Color16);
    assert_eq!(out, "\x1b[1;1H \x1b[1;2H\x1b[1m\x1b[91mé\x1b[0m".as_bytes().to_vec());
}

#[test]
fn diff_output_only_changed_cells() {
    let mut s = Screen::new(3, 1);
    let _ = s.flush(&ColorMode::TrueColor);
    s.put_char(0, 2, 'x', Color::Rgb(1, 2, 3), Color::Color256(7), false);
    let out = s.build_diff_output(&ColorMode::TrueColor);
    assert_eq!(out, "\x1b[1;3H\x1b[38;2;1;2;3m\x1b[48;5;7mx\x1b[0m".as_bytes().to_vec());
}
