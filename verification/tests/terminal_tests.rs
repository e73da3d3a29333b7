use liminal::Rgb;
use liminal::TerminalBuffer;
use liminal::Terminal;
use liminal::TerminalCell;
use liminal::TerminalConfig;

fn term(rows: u32, cols: u32, scrollback_limit: usize) -> Terminal {
    let config = TerminalConfig { rows, cols, scrollback_limit };
    Terminal::new(&config).expect("terminal construction never fails")
}

fn cell_at(t: &Terminal, row: usize, col: usize) -> TerminalCell {
    *t.get_buffer().get_cell(row, col).expect("cell in bounds")
}

#[test]
fn fresh_terminal_is_blank_with_cursor_at_origin() {
    let t = term(24, 80, 100);
    assert_eq!(t.get_cursor_position(), (0, 0));
    let c = cell_at(&t, 0, 0);
    assert_eq!(c.character, ' ');
    assert_eq!(c.foreground_color, Rgb { r: 200, g: 200, b: 200 });
    assert_eq!(c.background_color, Rgb { r: 0, g: 0, b: 0 });
    assert!(!c.bold && !c.italic && !c.underline);
    assert_eq!(t.get_buffer().get_visible_content().len(), 24);
    assert_eq!(t.get_buffer().get_visible_content()[0].len(), 80);
    assert!(t.get_buffer().get_scrollback().is_empty());
}

#[test]
fn printing_advances_cursor_and_writes_cells() {
    let mut t = term(24, 80, 100);
    t.process_data(b"Hi");
    assert_eq!(cell_at(&t, 0, 0).character, 'H');
    assert_eq!(cell_at(&t, 0, 1).character, 'i');
    assert_eq!(t.get_cursor_position(), (0, 2));
}

#[test]
fn newline_and_carriage_return_move_cursor() {
    // Feeding "A\nB\rC": print 'A' -> (0,1); '\n' -> (1,1); print 'B' at
    // (1,1) -> (1,2); '\r' -> (1,0); print 'C' at (1,0) -> (1,1).
    let mut t = term(24, 80, 100);
    t.process_data(b"A");
    assert_eq!(t.get_cursor_position(), (0, 1));
    t.process_data(b"\n");
    assert_eq!(t.get_cursor_position(), (1, 1));
    t.process_data(b"B");
    assert_eq!(cell_at(&t, 1, 1).character, 'B');
    assert_eq!(t.get_cursor_position(), (1, 2));
    t.process_data(b"\r");
    assert_eq!(t.get_cursor_position(), (1, 0));
    t.process_data(b"C");
    assert_eq!(cell_at(&t, 1, 0).character, 'C');
    assert_eq!(t.get_cursor_position(), (1, 1));
    assert_eq!(cell_at(&t, 0, 0).character, 'A');
}

#[test]
fn tab_advances_to_next_multiple_of_eight_clamped() {
    let mut t = term(4, 20, 10);
    t.process_data(b"ab\t");
    assert_eq!(t.get_cursor_position(), (0, 8));
    t.process_data(b"\t");
    assert_eq!(t.get_cursor_position(), (0, 16));
    t.process_data(b"\t");
    assert_eq!(t.get_cursor_position(), (0, 19));
}

#[test]
fn printing_wraps_at_the_last_column() {
    let mut t = term(3, 4, 10);
    t.process_data(b"abcd");
    assert_eq!(t.get_cursor_position(), (1, 0));
    assert_eq!(cell_at(&t, 0, 3).character, 'd');
}

#[test]
fn filling_the_grid_plus_one_scrolls_exactly_once() {
    // cols * rows + 1 ordinary characters: exactly one scroll, visible row
    // count unchanged.
    let rows = 5usize;
    let cols = 8usize;
    let mut t = term(rows as u32, cols as u32, 100);
    let bytes = vec![b'x'; rows * cols + 1];
    t.process_data(&bytes);
    assert_eq!(t.get_buffer().get_visible_content().len(), rows);
    assert_eq!(t.get_buffer().get_scrollback().len(), 1);
    assert_eq!(t.get_cursor_position(), (rows - 1, 1));
    // The scrolled-out line is the original top row, full of 'x'.
    assert_eq!(t.get_buffer().get_scrollback()[0][0].character, 'x');
}

#[test]
fn newline_on_last_row_scrolls_and_keeps_column() {
    let mut t = term(2, 10, 10);
    t.process_data(b"ab\ncd");
    assert_eq!(t.get_cursor_position(), (1, 4));
    t.process_data(b"\n");
    assert_eq!(t.get_cursor_position(), (1, 4));
    assert_eq!(t.get_buffer().get_scrollback().len(), 1);
    assert_eq!(t.get_buffer().get_scrollback()[0][0].character, 'a');
    assert_eq!(cell_at(&t, 0, 2).character, 'c');
    assert_eq!(cell_at(&t, 0, 3).character, 'd');
}

#[test]
fn red_foreground_applies_to_five_cells_then_reset_restores_default() {
    // Feeding "\x1b[31mHELLO\x1b[0m" paints the five printed cells with the
    // red palette entry; later prints are back at the default style.
    let mut t = term(24, 80, 100);
    t.process_data(b"\x1b[31mHELLO\x1b[0m");
    let red = Rgb { r: 205, g: 49, b: 49 };
    let expected = ['H', 'E', 'L', 'L', 'O'];
    for (i, ch) in expected.iter().enumerate() {
        let c = cell_at(&t, 0, i);
        assert_eq!(c.character, *ch);
        assert_eq!(c.foreground_color, red);
    }
    t.process_data(b"X");
    let c = cell_at(&t, 0, 5);
    assert_eq!(c.character, 'X');
    assert_eq!(c.foreground_color, Rgb { r: 200, g: 200, b: 200 });
    assert!(!c.bold);
}

#[test]
fn the_eight_foreground_palette_entries_are_exact() {
    let palette = [
        Rgb { r: 0, g: 0, b: 0 },
        Rgb { r: 205, g: 49, b: 49 },
        Rgb { r: 13, g: 188, b: 121 },
        Rgb { r: 229, g: 229, b: 16 },
        Rgb { r: 36, g: 114, b: 200 },
        Rgb { r: 188, g: 63, b: 188 },
        Rgb { r: 17, g: 168, b: 205 },
        Rgb { r: 229, g: 229, b: 229 },
    ];
    for (i, want) in palette.iter().enumerate() {
        let mut t = term(2, 10, 10);
        let seq = format!("\x1b[{}mZ", 30 + i);
        t.process_data(seq.as_bytes());
        assert_eq!(cell_at(&t, 0, 0).foreground_color, *want);
    }
    for (i, want) in palette.iter().enumerate() {
        let mut t = term(2, 10, 10);
        let seq = format!("\x1b[{}mZ", 40 + i);
        t.process_data(seq.as_bytes());
        assert_eq!(cell_at(&t, 0, 0).background_color, *want);
    }
}

#[test]
fn sgr_carries_multiple_codes_in_one_sequence() {
    let mut t = term(2, 10, 10);
    t.process_data(b"\x1b[1;3;4;32mQ");
    let c = cell_at(&t, 0, 0);
    assert!(c.bold && c.italic && c.underline);
    assert_eq!(c.foreground_color, Rgb { r: 13, g: 188, b: 121 });
}

#[test]
fn unrecognized_sgr_codes_are_ignored() {
    let mut t = term(2, 10, 10);
    t.process_data(b"\x1b[95mA");
    let c = cell_at(&t, 0, 0);
    assert_eq!(c.foreground_color, Rgb { r: 200, g: 200, b: 200 });
}

#[test]
fn cursor_movement_sequences_clamp_at_edges() {
    let mut t = term(10, 20, 10);
    t.process_data(b"\x1b[5;7H");
    assert_eq!(t.get_cursor_position(), (4, 6));
    t.process_data(b"\x1b[2A");
    assert_eq!(t.get_cursor_position(), (2, 6));
    t.process_data(b"\x1b[100A");
    assert_eq!(t.get_cursor_position(), (0, 6));
    t.process_data(b"\x1b[3B");
    assert_eq!(t.get_cursor_position(), (3, 6));
    t.process_data(b"\x1b[100B");
    assert_eq!(t.get_cursor_position(), (9, 6));
    t.process_data(b"\x1b[5C");
    assert_eq!(t.get_cursor_position(), (9, 11));
    t.process_data(b"\x1b[100C");
    assert_eq!(t.get_cursor_position(), (9, 19));
    t.process_data(b"\x1b[4D");
    assert_eq!(t.get_cursor_position(), (9, 15));
    t.process_data(b"\x1b[100D");
    assert_eq!(t.get_cursor_position(), (9, 0));
}

#[test]
fn absent_or_zero_parameter_defaults_to_one() {
    let mut t = term(10, 20, 10);
    t.process_data(b"\x1b[5;7H");
    t.process_data(b"\x1b[A");
    assert_eq!(t.get_cursor_position(), (3, 6));
    t.process_data(b"\x1b[0A");
    assert_eq!(t.get_cursor_position(), (2, 6));
    t.process_data(b"\x1b[H");
    assert_eq!(t.get_cursor_position(), (0, 0));
}

#[test]
fn cursor_position_is_one_based_and_clamped() {
    let mut t = term(10, 20, 10);
    t.process_data(b"\x1b[999;999H");
    assert_eq!(t.get_cursor_position(), (9, 19));
    t.process_data(b"\x1b[0;0H");
    assert_eq!(t.get_cursor_position(), (0, 0));
}

#[test]
fn malformed_sequences_return_the_parser_to_ground() {
    let mut t = term(4, 10, 10);
    // An escape followed by a byte that fits no sequence is consumed.
    t.process_data(b"\x1bZA");
    assert_eq!(cell_at(&t, 0, 0).character, 'A');
    // A CSI aborted by an unexpected byte produces no effect.
    let mut t2 = term(4, 10, 10);
    t2.process_data(b"\x1b[12\x01B");
    assert_eq!(cell_at(&t2, 0, 0).character, 'B');
    assert_eq!(t2.get_cursor_position(), (0, 1));
}

#[test]
fn private_sequences_are_consumed_without_effect() {
    // The cursor-hide sequence a shell emits must not leak into the grid.
    let mut t = term(4, 10, 10);
    t.process_data(b"\x1b[?25lA");
    assert_eq!(cell_at(&t, 0, 0).character, 'A');
    assert_eq!(t.get_cursor_position(), (0, 1));
}

#[test]
fn device_control_strings_are_consumed_without_effect() {
    let mut t = term(4, 10, 10);
    t.process_data(b"\x1bPsome payload\x1b\\A");
    assert_eq!(cell_at(&t, 0, 0).character, 'A');
    assert_eq!(t.get_cursor_position(), (0, 1));
}

#[test]
fn osc_strings_are_consumed_without_effect() {
    let mut t = term(4, 10, 10);
    t.process_data(b"\x1b]0;window title\x07A");
    assert_eq!(cell_at(&t, 0, 0).character, 'A');
    assert_eq!(t.get_cursor_position(), (0, 1));
}

#[test]
fn cursor_stays_in_bounds_on_arbitrary_bytes() {
    // Every byte value, several times over, in an awkward order: the cursor
    // never leaves the grid.
    let mut t = term(5, 7, 3);
    let mut bytes = Vec::new();
    for round in 0..4u16 {
        for b in 0..=255u8 {
            bytes.push(b.wrapping_add(round as u8 * 37));
        }
    }
    t.process_data(&bytes);
    let (row, col) = t.get_cursor_position();
    assert!(row < 5);
    assert!(col < 7);
    assert_eq!(t.get_buffer().get_visible_content().len(), 5);
    assert!(t.get_buffer().get_scrollback().len() <= 3);
}

#[test]
fn resize_preserves_overlap_and_clamps_cursor() {
    let mut t = term(4, 6, 10);
    t.process_data(b"abcdef\x1b[2;1Hxy");
    t.process_data(b"\x1b[4;6H");
    assert_eq!(t.get_cursor_position(), (3, 5));
    t.resize(2, 3);
    assert_eq!(t.get_cursor_position(), (1, 2));
    assert_eq!(cell_at(&t, 0, 0).character, 'a');
    assert_eq!(cell_at(&t, 0, 2).character, 'c');
    assert_eq!(cell_at(&t, 1, 0).character, 'x');
    assert!(t.get_buffer().get_cell(2, 0).is_none());
    assert!(t.get_buffer().get_cell(0, 3).is_none());
}

#[test]
fn resize_round_trip_restores_shape_but_not_truncated_content() {
    let mut t = term(2, 4, 10);
    t.process_data(b"abcd\x1b[2;1Hwxy");
    t.resize(1, 2);
    t.resize(2, 4);
    // The dimensions are back.
    assert_eq!(t.get_buffer().get_visible_content().len(), 2);
    assert_eq!(t.get_buffer().get_visible_content()[0].len(), 4);
    // Content inside the overlapping region survived.
    assert_eq!(cell_at(&t, 0, 0).character, 'a');
    assert_eq!(cell_at(&t, 0, 1).character, 'b');
    // Content outside it was lost, not preserved.
    assert_eq!(cell_at(&t, 0, 2).character, ' ');
    assert_eq!(cell_at(&t, 0, 3).character, ' ');
    assert_eq!(cell_at(&t, 1, 0).character, ' ');
}

#[test]
fn resize_does_not_flush_scrollback() {
    let mut t = term(2, 3, 10);
    t.process_data(b"abc\ndef\n");
    let kept = t.get_buffer().get_scrollback().len();
    assert!(kept > 0);
    t.resize(5, 10);
    assert_eq!(t.get_buffer().get_scrollback().len(), kept);
}

#[test]
fn scrollback_is_bounded_and_evicts_oldest_first() {
    // Scroll far past the limit: the scrollback holds the newest lines only.
    let mut t = term(2, 3, 3);
    // Lines 'a' to 'e' scroll out one by one; only the newest three stay.
    t.process_data(b"a\r\nb\r\nc\r\nd\r\ne\r\nf\r\ng");
    let sb = t.get_buffer().get_scrollback();
    assert_eq!(sb.len(), 3);
    let first_chars: Vec<char> = sb.iter().map(|row| row[0].character).collect();
    assert_eq!(first_chars, vec!['c', 'd', 'e']);
    assert_eq!(cell_at(&t, 0, 0).character, 'f');
    assert_eq!(cell_at(&t, 1, 0).character, 'g');
}

#[test]
fn zero_scrollback_limit_keeps_no_history() {
    let mut t = term(2, 3, 0);
    t.process_data(b"a\nb\nc\nd\n");
    assert_eq!(t.get_buffer().get_scrollback().len(), 0);
    assert_eq!(t.get_buffer().get_visible_content().len(), 2);
}

#[test]
fn get_and_set_cell_are_bounds_checked() {
    let mut b = TerminalBuffer::new(2, 3, 5);
    assert!(b.get_cell(0, 0).is_some());
    assert!(b.get_cell(2, 0).is_none());
    assert!(b.get_cell(0, 3).is_none());
    let mut marked = TerminalCell::default();
    marked.character = '#';
    b.set_cell(1, 2, marked);
    assert_eq!(b.get_cell(1, 2).unwrap().character, '#');
    // Out of bounds: silently ignored.
    b.set_cell(9, 9, marked);
    assert!(b.get_cell(9, 9).is_none());
}

#[test]
fn move_cursor_clamps_both_coordinates() {
    let mut b = TerminalBuffer::new(4, 5, 5);
    b.move_cursor(100, 100);
    assert_eq!(b.cursor_position(), (3, 4));
    b.move_cursor(2, 1);
    assert_eq!(b.cursor_position(), (2, 1));
}

#[test]
fn scroll_up_past_the_grid_leaves_default_rows() {
    let mut b = TerminalBuffer::new(2, 2, 10);
    let mut marked = TerminalCell::default();
    marked.character = 'm';
    b.set_cell(0, 0, marked);
    b.set_cell(1, 0, marked);
    b.scroll_up(5);
    assert_eq!(b.get_cell(0, 0).unwrap().character, ' ');
    assert_eq!(b.get_cell(1, 0).unwrap().character, ' ');
    // Two real rows went out, then three fresh default rows.
    assert_eq!(b.get_scrollback().len(), 5);
    assert_eq!(b.get_scrollback()[0][0].character, 'm');
    assert_eq!(b.get_scrollback()[2][0].character, ' ');
}
