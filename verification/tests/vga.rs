use leonos::vga::{CharAttr, Color, PortWrite, Writer, BUFFER_HEIGHT, BUFFER_WIDTH};

fn default_attr() -> CharAttr {
    CharAttr::new(Color::White, Color::Black, false)
}

fn fresh_writer() -> Writer {
    Writer::new(default_attr())
}

fn cell(w: &Writer, row: usize, col: usize) -> (u8, CharAttr) {
    let c = w.get_buffer().read(row, col);
    (c.code, c.attr)
}

#[test]
fn short_string_stays_on_row_zero() {
    let mut w = fresh_writer();
    w.write_string("hello");
    assert_eq!(w.row_pos(), 0);
    assert_eq!(w.col_pos(), 5);
    let text = b"hello";
    for (i, b) in text.iter().enumerate() {
        let (code, attr) = cell(&w, 0, i);
        assert_eq!(code, *b);
        assert_eq!(attr, default_attr());
    }
    let (code, _) = cell(&w, 0, 5);
    assert_eq!(code, 0);
}

#[test]
fn full_row_wraps_to_row_one() {
    let mut w = fresh_writer();
    let line: String = std::iter::repeat('x').take(BUFFER_WIDTH).collect();
    w.write_string(&line);
    assert_eq!(w.row_pos(), 1);
    assert_eq!(w.col_pos(), 0);
    for col in 0..BUFFER_WIDTH {
        let (code, attr) = cell(&w, 0, col);
        assert_eq!(code, b'x');
        assert_eq!(attr, default_attr());
    }
}

#[test]
fn newline_below_last_row_moves_down_only() {
    let mut w = fresh_writer();
    w.write_string("ab");
    w.write_byte(b'\n');
    assert_eq!(w.row_pos(), 1);
    assert_eq!(w.col_pos(), 0);
    // no cell was altered by the line feed
    assert_eq!(cell(&w, 0, 0).0, b'a');
    assert_eq!(cell(&w, 0, 1).0, b'b');
    assert_eq!(cell(&w, 1, 0).0, 0);
}

#[test]
fn newline_on_last_row_scrolls() {
    let mut w = fresh_writer();
    // one marker character per row, rows 0..=24
    for r in 0..BUFFER_HEIGHT {
        w.write_byte(b'A' + r as u8);
        if r + 1 < BUFFER_HEIGHT {
            w.write_byte(b'\n');
        }
    }
    assert_eq!(w.row_pos(), BUFFER_HEIGHT - 1);
    w.write_byte(b'\n');
    // every row now holds what the row under it held
    for r in 0..BUFFER_HEIGHT - 1 {
        assert_eq!(cell(&w, r, 0).0, b'A' + (r as u8) + 1);
    }
    // the last row is blank
    for col in 0..BUFFER_WIDTH {
        let (code, attr) = cell(&w, BUFFER_HEIGHT - 1, col);
        assert_eq!(code, 0);
        assert_eq!(attr, default_attr());
    }
    assert_eq!(w.row_pos(), BUFFER_HEIGHT - 1);
    assert_eq!(w.col_pos(), 0);
}

#[test]
fn backspace_mid_row_blanks_previous_cell() {
    let mut w = fresh_writer();
    w.write_string("ab");
    w.write_byte(0x8);
    assert_eq!(w.row_pos(), 0);
    assert_eq!(w.col_pos(), 1);
    assert_eq!(cell(&w, 0, 0).0, b'a');
    assert_eq!(cell(&w, 0, 1).0, 0);
}

#[test]
fn backspace_at_column_zero_wraps_up() {
    let mut w = fresh_writer();
    w.write_string("a\n");
    assert_eq!((w.row_pos(), w.col_pos()), (1, 0));
    w.write_byte(0x8);
    assert_eq!((w.row_pos(), w.col_pos()), (0, BUFFER_WIDTH - 1));
    assert_eq!(cell(&w, 0, BUFFER_WIDTH - 1).0, 0);
    assert_eq!(cell(&w, 0, 0).0, b'a');
}

#[test]
fn clear_current_row_blanks_only_that_row() {
    let mut w = fresh_writer();
    w.write_string("one\ntwo");
    assert_eq!(w.row_pos(), 1);
    w.clear_current_row();
    assert_eq!(w.row_pos(), 1);
    assert_eq!(w.col_pos(), 0);
    for col in 0..BUFFER_WIDTH {
        assert_eq!(cell(&w, 1, col).0, 0);
    }
    assert_eq!(cell(&w, 0, 0).0, b'o');
    assert_eq!(cell(&w, 0, 1).0, b'n');
    assert_eq!(cell(&w, 0, 2).0, b'e');
}

#[test]
fn clear_all_blanks_rows_up_to_position() {
    let mut w = fresh_writer();
    w.write_string("a\nb\nc");
    assert_eq!(w.row_pos(), 2);
    w.clear_all();
    assert_eq!((w.row_pos(), w.col_pos()), (0, 0));
    for r in 0..3 {
        for col in 0..BUFFER_WIDTH {
            assert_eq!(cell(&w, r, col).0, 0);
        }
    }
    // rows past the old position keep their contents
    for r in 3..BUFFER_HEIGHT {
        for col in 0..BUFFER_WIDTH {
            let (code, attr) = cell(&w, r, col);
            assert_eq!(code, 0);
            assert_eq!(attr, default_attr());
        }
    }
}

#[test]
fn round_trip_reads_back_exactly() {
    let mut w = fresh_writer();
    let text: String = (0..500).map(|i| (b'a' + (i % 26) as u8) as char).collect();
    w.write_string(&text);
    let bytes = text.as_bytes();
    for (k, b) in bytes.iter().enumerate() {
        let (code, attr) = cell(&w, k / BUFFER_WIDTH, k % BUFFER_WIDTH);
        assert_eq!(code, *b);
        assert_eq!(attr, default_attr());
    }
}

#[test]
fn cursor_protocol_one_pair_sequence_per_glyph() {
    let mut w = fresh_writer();
    w.write_byte(b'A');
    let log = w.port_log();
    // exactly one position-set sequence, for position 1
    assert_eq!(
        log.as_slice(),
        &[
            PortWrite { port: 0x3D4, value: 0x0F },
            PortWrite { port: 0x3D5, value: 1 },
            PortWrite { port: 0x3D4, value: 0x0E },
            PortWrite { port: 0x3D5, value: 0 },
        ]
    );
}

#[test]
fn cursor_protocol_high_byte_on_later_rows() {
    let mut w = fresh_writer();
    // move to row 4, column 0: position 320 = 0x140
    for _ in 0..4 {
        w.write_byte(b'\n');
    }
    let log = w.port_log();
    let n = log.len();
    let last = &log[n - 4..];
    assert_eq!(last[0], PortWrite { port: 0x3D4, value: 0x0F });
    assert_eq!(last[1], PortWrite { port: 0x3D5, value: 0x40 });
    assert_eq!(last[2], PortWrite { port: 0x3D4, value: 0x0E });
    assert_eq!(last[3], PortWrite { port: 0x3D5, value: 0x01 });
}

#[test]
fn hidden_cursor_makes_no_port_writes() {
    let mut w = fresh_writer();
    w.set_cursor_visible(false);
    let hide_len = w.port_log().len();
    // hiding itself issues exactly the two-byte hide sequence
    assert_eq!(
        w.port_log().as_slice(),
        &[
            PortWrite { port: 0x3D4, value: 0x0A },
            PortWrite { port: 0x3D5, value: 0x20 },
        ]
    );
    w.write_string("quiet\nlines");
    w.write_byte(0x8);
    w.clear_current_row();
    w.clear_all();
    assert_eq!(w.port_log().len(), hide_len);
    // showing the cursor again re-issues a position set, for position 0
    w.set_cursor_visible(true);
    assert_eq!(
        &w.port_log().as_slice()[hide_len..],
        &[
            PortWrite { port: 0x3D4, value: 0x0F },
            PortWrite { port: 0x3D5, value: 0 },
            PortWrite { port: 0x3D4, value: 0x0E },
            PortWrite { port: 0x3D5, value: 0 },
        ]
    );
}

#[test]
fn backspace_issues_three_pair_sequences() {
    let mut w = fresh_writer();
    w.write_string("ab");
    let before = w.port_log().len();
    w.write_byte(0x8);
    let log = w.port_log();
    assert_eq!(log.len(), before + 12);
    // retreat to 1, blank writes moving to 2, retreat to 1 again
    let tail = &log.as_slice()[before..];
    for (k, pos) in [(0usize, 1u8), (1, 2), (2, 1)] {
        assert_eq!(tail[4 * k], PortWrite { port: 0x3D4, value: 0x0F });
        assert_eq!(tail[4 * k + 1], PortWrite { port: 0x3D5, value: pos });
        assert_eq!(tail[4 * k + 2], PortWrite { port: 0x3D4, value: 0x0E });
        assert_eq!(tail[4 * k + 3], PortWrite { port: 0x3D5, value: 0 });
    }
}

#[test]
fn attribute_byte_packs_colors_and_blink() {
    let plain = CharAttr::new(Color::White, Color::Black, false);
    assert_eq!(plain.byte(), 0x0F);
    let loud = CharAttr::new(Color::Red, Color::Blue, true);
    assert_eq!(loud.byte(), 0x80 | (1 << 4) | 4);
    assert_eq!(Color::LightGreen.code(), 10);
}

#[test]
fn backspace_at_origin_blanks_the_first_cell() {
    // the retreat / blank / retreat run cannot move above the origin; its
    // middle write still blanks cell (0, 0) and the cursor stays there
    let mut w = fresh_writer();
    w.write_byte(0x8);
    assert_eq!((w.row_pos(), w.col_pos()), (0, 0));
    assert_eq!(cell(&w, 0, 0).0, 0);
}

#[test]
fn clears_issue_no_cursor_traffic() {
    let mut w = fresh_writer();
    w.write_string("abc");
    let before = w.port_log().len();
    w.clear_current_row();
    w.clear_all();
    assert_eq!(w.port_log().len(), before);
}
