use kernel_console::vga_buffer::{Color, ColorCode, Writer, BUFFER_HEIGHT, BUFFER_WIDTH};

// Yellow on black: background 0, foreground 14.
const STYLE: u16 = 14;

fn fresh_writer() -> Writer {
    Writer::new(ColorCode::new(Color::Yellow, Color::Black))
}

fn cell(ch: u8) -> u16 {
    STYLE * 256 + ch as u16
}

#[test]
fn color_values() {
    assert_eq!(Color::Black.value(), 0);
    assert_eq!(Color::Yellow.value(), 14);
    assert_eq!(Color::White.value(), 15);
}

#[test]
fn color_code_packs_nibbles() {
    // Blue background, white foreground: 0x1F.
    assert_eq!(ColorCode::new(Color::White, Color::Blue).to_byte(), 0x1F);
    assert_eq!(ColorCode::new(Color::Yellow, Color::Black).to_byte(), 14);
}

#[test]
fn fresh_writer_is_blank() {
    let w = fresh_writer();
    assert_eq!(w.current_column(), 0);
    assert_eq!(w.read_cell(0, 0), cell(b' '));
    assert_eq!(w.read_cell(BUFFER_HEIGHT - 1, BUFFER_WIDTH - 1), cell(b' '));
}

#[test]
fn write_byte_places_glyph_and_advances() {
    let mut w = fresh_writer();
    w.write_byte(b'a');
    assert_eq!(w.current_column(), 1);
    assert_eq!(w.read_cell(BUFFER_HEIGHT - 1, 0), cell(b'a'));
    // Column invariant: the column stays within [0, BUFFER_WIDTH).
    assert!(w.current_column() < BUFFER_WIDTH);
}

#[test]
fn column_stays_in_range_for_long_input() {
    let mut w = fresh_writer();
    for i in 0..1000u32 {
        let b = if i % 7 == 0 { b'\n' } else { b'x' };
        w.write_byte(b);
        assert!(w.current_column() <= BUFFER_WIDTH);
    }
}

#[test]
fn wrap_after_full_row() {
    let mut w = fresh_writer();
    for _ in 0..BUFFER_WIDTH {
        w.write_byte(b'z');
    }
    // The row is full; the cursor sits at the row's end.
    assert_eq!(w.current_column(), BUFFER_WIDTH);
    assert_eq!(w.read_cell(BUFFER_HEIGHT - 1, BUFFER_WIDTH - 1), cell(b'z'));
    // The next glyph wraps: scroll, then placement at column 0.
    w.write_byte(b'q');
    assert_eq!(w.current_column(), 1);
    assert_eq!(w.read_cell(BUFFER_HEIGHT - 1, 0), cell(b'q'));
    // The filled row moved one row up (columns 1 and above).
    for c in 1..BUFFER_WIDTH {
        assert_eq!(w.read_cell(BUFFER_HEIGHT - 2, c), cell(b'z'));
    }
    // The rest of the bottom row is blank again.
    for c in 1..BUFFER_WIDTH {
        assert_eq!(w.read_cell(BUFFER_HEIGHT - 1, c), cell(b' '));
    }
}

#[test]
fn substitution_of_control_byte() {
    let mut w = fresh_writer();
    w.write_string(&[0x01]);
    let v = w.read_cell(BUFFER_HEIGHT - 1, 0);
    assert_eq!(v, cell(0xFE));
    assert_ne!(v, cell(0x01));
}

#[test]
fn write_string_passes_printable_and_newline() {
    let mut w = fresh_writer();
    w.write_string(b"Hi\x02!");
    assert_eq!(w.read_cell(BUFFER_HEIGHT - 1, 0), cell(b'H'));
    assert_eq!(w.read_cell(BUFFER_HEIGHT - 1, 1), cell(b'i'));
    assert_eq!(w.read_cell(BUFFER_HEIGHT - 1, 2), cell(0xFE));
    assert_eq!(w.read_cell(BUFFER_HEIGHT - 1, 3), cell(b'!'));
    assert_eq!(w.current_column(), 4);
}

#[test]
fn scroll_moves_rows_up_and_keeps_column_zero() {
    let mut w = fresh_writer();
    w.write_string(b"AB");
    w.write_byte(b'\n');
    assert_eq!(w.current_column(), 0);
    // Column 1 of the moved row carries 'B' up.
    assert_eq!(w.read_cell(BUFFER_HEIGHT - 2, 1), cell(b'B'));
    // Column 0 is never copied by the scroll (preserved quirk): the 'A'
    // does not move up; the stale blank stays.
    assert_eq!(w.read_cell(BUFFER_HEIGHT - 2, 0), cell(b' '));
    // The bottom row is cleared.
    assert_eq!(w.read_cell(BUFFER_HEIGHT - 1, 0), cell(b' '));
    assert_eq!(w.read_cell(BUFFER_HEIGHT - 1, 1), cell(b' '));
}

#[test]
fn two_scrolls_move_content_two_rows_up() {
    let mut w = fresh_writer();
    w.write_string(b" X\n\n");
    assert_eq!(w.read_cell(BUFFER_HEIGHT - 3, 1), cell(b'X'));
    assert_eq!(w.read_cell(BUFFER_HEIGHT - 2, 1), cell(b' '));
}
