use boot_console::cell::{
    Cell, CELLS, DEFAULT_ATTR, FRAME_BYTES, HEIGHT, LINE_FEED, PLACEHOLDER, SPACE, WIDTH,
};
use boot_console::sink::TextSink;

fn blank() -> Cell {
    Cell { code: SPACE, attr: DEFAULT_ATTR }
}

fn shown(code: u8) -> Cell {
    Cell { code, attr: DEFAULT_ATTR }
}

/// All cells of the sink, row after row.
fn cells_of(sink: &TextSink) -> Vec<Cell> {
    let mut cells = Vec::new();
    for row in 0..HEIGHT {
        for col in 0..WIDTH {
            cells.push(sink.cell_at(row, col).unwrap());
        }
    }
    cells
}

/// A sink whose cursor was moved to the given position by line feeds and
/// spaces alone.
fn sink_at(row: usize, col: usize) -> TextSink {
    let mut sink = TextSink::new();
    for _ in 0..row {
        sink.write_byte(LINE_FEED);
    }
    for _ in 0..col {
        sink.write_byte(SPACE);
    }
    assert_eq!((sink.row(), sink.col()), (row, col));
    sink
}

/// A sink in which every cell holds a letter that depends on its row, with
/// the cursor at column zero of the last row.
fn striped_sink() -> TextSink {
    let mut sink = TextSink::new();
    for row in 0..HEIGHT {
        for _ in 0..WIDTH - 1 {
            sink.write_byte(b'a' + row as u8);
        }
        if row + 1 < HEIGHT {
            sink.write_byte(LINE_FEED);
        }
    }
    sink.write_byte(b'a' + (HEIGHT - 1) as u8);
    // The last column of the last row was written: the grid has scrolled once.
    for _ in 0..WIDTH - 1 {
        sink.write_byte(b'z');
    }
    assert_eq!((sink.row(), sink.col()), (HEIGHT - 1, WIDTH - 1));
    sink
}

#[test]
fn geometry_is_eighty_by_twenty_five() {
    assert_eq!(WIDTH, 80);
    assert_eq!(HEIGHT, 25);
    assert_eq!(CELLS, WIDTH * HEIGHT);
    assert_eq!(FRAME_BYTES, 2 * CELLS);
}

#[test]
fn new_sink_is_blank_with_cursor_at_origin() {
    let sink = TextSink::new();
    assert_eq!(sink.row(), 0);
    assert_eq!(sink.col(), 0);
    assert_eq!(cells_of(&sink), vec![blank(); CELLS]);
}

#[test]
fn blank_cell_is_a_space_with_the_default_attribute() {
    assert_eq!(Cell::blank(), Cell { code: 0x20, attr: 0x07 });
}

#[test]
fn showing_keeps_printable_bytes_and_replaces_the_others() {
    assert_eq!(Cell::showing(b'A'), Cell { code: b'A', attr: 0x07 });
    assert_eq!(Cell::showing(0x20), Cell { code: 0x20, attr: 0x07 });
    assert_eq!(Cell::showing(0x7e), Cell { code: 0x7e, attr: 0x07 });
    assert_eq!(Cell::showing(0x1f), Cell { code: 0xfe, attr: 0x07 });
    assert_eq!(Cell::showing(0x7f), Cell { code: 0xfe, attr: 0x07 });
    assert_eq!(Cell::showing(0x00), Cell { code: 0xfe, attr: 0x07 });
    assert_eq!(Cell::showing(0x0a), Cell { code: 0xfe, attr: 0x07 });
    assert_eq!(Cell::showing(0xff), Cell { code: 0xfe, attr: 0x07 });
}

#[test]
fn hello_world_fills_the_first_twelve_cells_of_row_zero() {
    let mut sink = TextSink::new();
    sink.write(b"Hello World!");
    let text = b"Hello World!";
    let cells = cells_of(&sink);
    for (i, cell) in cells.iter().enumerate() {
        if i < 12 {
            assert_eq!(*cell, Cell { code: text[i], attr: DEFAULT_ATTR });
        } else {
            assert_eq!(*cell, blank());
        }
    }
    assert_eq!((sink.row(), sink.col()), (0, 12));
}

#[test]
fn short_text_is_placed_at_the_cursor_and_nothing_else_changes() {
    let mut sink = sink_at(3, 10);
    let before = cells_of(&sink);
    sink.write(b"kernel");
    let after = cells_of(&sink);
    let start = 3 * WIDTH + 10;
    for i in 0..CELLS {
        if start <= i && i < start + 6 {
            assert_eq!(after[i], shown(b"kernel"[i - start]));
        } else {
            assert_eq!(after[i], before[i]);
        }
    }
    assert_eq!((sink.row(), sink.col()), (3, 16));
}

#[test]
fn text_that_runs_over_the_end_of_a_row_continues_on_the_next() {
    let mut sink = sink_at(5, 77);
    sink.write(b"abcdef");
    assert_eq!(sink.cell_at(5, 77), Some(shown(b'a')));
    assert_eq!(sink.cell_at(5, 78), Some(shown(b'b')));
    assert_eq!(sink.cell_at(5, 79), Some(shown(b'c')));
    assert_eq!(sink.cell_at(6, 0), Some(shown(b'd')));
    assert_eq!(sink.cell_at(6, 1), Some(shown(b'e')));
    assert_eq!(sink.cell_at(6, 2), Some(shown(b'f')));
    assert_eq!(sink.cell_at(6, 3), Some(blank()));
    assert_eq!((sink.row(), sink.col()), (6, 3));
}

#[test]
fn empty_text_changes_nothing() {
    let mut sink = sink_at(2, 7);
    let before = cells_of(&sink);
    sink.write(b"");
    assert_eq!(cells_of(&sink), before);
    assert_eq!((sink.row(), sink.col()), (2, 7));
}

#[test]
fn writing_in_two_pieces_equals_writing_at_once() {
    let first: &[u8] = b"first line\nsecond \x01 line that is long enough to wrap";
    let second: &[u8] = b" around the end of the row, twice over, so that the grid scrolls again";
    let mut text = first.to_vec();
    text.extend_from_slice(second);
    assert!(text.len() > WIDTH);
    let mut whole = sink_at(24, 60);
    whole.write(&text);
    let mut pieces = sink_at(24, 60);
    pieces.write(first);
    pieces.write(second);
    assert_eq!(cells_of(&whole), cells_of(&pieces));
    assert_eq!((whole.row(), whole.col()), (pieces.row(), pieces.col()));
}

#[test]
fn text_that_fills_the_row_moves_the_cursor_to_the_next_row() {
    let mut sink = sink_at(4, 75);
    let before = cells_of(&sink);
    sink.write(b"12345");
    assert_eq!((sink.row(), sink.col()), (5, 0));
    let after = cells_of(&sink);
    let start = 4 * WIDTH + 75;
    for i in 0..CELLS {
        if start <= i && i < start + 5 {
            assert_eq!(after[i], shown(b"12345"[i - start]));
        } else {
            assert_eq!(after[i], before[i]);
        }
    }
}

#[test]
fn a_whole_row_of_text_moves_the_cursor_to_the_next_row() {
    let mut sink = TextSink::new();
    let row = [b'#'; WIDTH];
    sink.write(&row);
    assert_eq!((sink.row(), sink.col()), (1, 0));
    for col in 0..WIDTH {
        assert_eq!(sink.cell_at(0, col), Some(shown(b'#')));
        assert_eq!(sink.cell_at(1, col), Some(blank()));
    }
}

#[test]
fn text_that_fills_the_last_row_scrolls_once() {
    let mut sink = striped_sink();
    let before = cells_of(&sink);
    sink.write(b"!");
    assert_eq!((sink.row(), sink.col()), (HEIGHT - 1, 0));
    let after = cells_of(&sink);
    for i in 0..CELLS {
        if i == CELLS - WIDTH - 1 {
            assert_eq!(after[i], shown(b'!'));
        } else if i + WIDTH < CELLS {
            assert_eq!(after[i], before[i + WIDTH]);
        } else {
            assert_eq!(after[i], blank());
        }
    }
}

#[test]
fn line_feed_moves_to_column_zero_of_the_next_row_and_changes_no_cell() {
    let mut sink = sink_at(7, 33);
    let before = cells_of(&sink);
    sink.write_byte(LINE_FEED);
    assert_eq!((sink.row(), sink.col()), (8, 0));
    assert_eq!(cells_of(&sink), before);
}

#[test]
fn line_feed_on_the_last_row_scrolls_by_one_row() {
    let mut sink = striped_sink();
    let before = cells_of(&sink);
    sink.write_byte(LINE_FEED);
    assert_eq!((sink.row(), sink.col()), (HEIGHT - 1, 0));
    let after = cells_of(&sink);
    for i in 0..CELLS {
        if i + WIDTH < CELLS {
            assert_eq!(after[i], before[i + WIDTH]);
        } else {
            assert_eq!(after[i], blank());
        }
    }
    // The row that was second from the top is now the top row.
    assert_eq!(sink.cell_at(0, 0), Some(shown(b'c')));
}

#[test]
fn line_feed_above_the_last_row_never_scrolls() {
    let mut sink = TextSink::new();
    sink.write(b"top");
    for _ in 0..HEIGHT - 1 {
        sink.write_byte(LINE_FEED);
    }
    assert_eq!((sink.row(), sink.col()), (HEIGHT - 1, 0));
    assert_eq!(sink.cell_at(0, 0), Some(shown(b't')));
    sink.write_byte(LINE_FEED);
    assert_eq!((sink.row(), sink.col()), (HEIGHT - 1, 0));
    assert_eq!(sink.cell_at(0, 0), Some(blank()));
}

/// The grid that repeating `line` and a line feed `n` times must leave, from
/// a grid `before` whose cursor stood at `col` on the last row.
fn expected_after_repeats(before: &[Cell], col: usize, line: &[u8], n: usize) -> Vec<Cell> {
    let mut first = before.to_vec();
    for (i, b) in line.iter().enumerate() {
        first[CELLS - WIDTH + col + i] = shown(*b);
    }
    let mut expected = Vec::new();
    for i in 0..CELLS {
        if i + n * WIDTH < CELLS {
            expected.push(first[i + n * WIDTH]);
        } else if i + WIDTH < CELLS {
            if i % WIDTH < line.len() {
                expected.push(shown(line[i % WIDTH]));
            } else {
                expected.push(blank());
            }
        } else {
            expected.push(blank());
        }
    }
    expected
}

#[test]
fn repeated_overflow_lines_scroll_once_each() {
    for n in [1usize, 2, 3, 24, 25, 26, 60] {
        let mut sink = striped_sink();
        sink.write_byte(LINE_FEED);
        sink.write(b"zz");
        let before = cells_of(&sink);
        assert_eq!((sink.row(), sink.col()), (HEIGHT - 1, 2));
        for _ in 0..n {
            sink.write(b"overflow\n");
        }
        assert_eq!(cells_of(&sink), expected_after_repeats(&before, 2, b"overflow", n));
        assert_eq!((sink.row(), sink.col()), (HEIGHT - 1, 0));
    }
}

#[test]
fn three_overflow_lines_leave_three_rows_and_a_blank_last_row() {
    let mut sink = striped_sink();
    sink.write_byte(LINE_FEED);
    for _ in 0..3 {
        sink.write(b"tick\n");
    }
    // Rows c..y came first, then the row of z, now moved up by three more.
    assert_eq!(sink.cell_at(0, 0), Some(shown(b'f')));
    assert_eq!(sink.cell_at(HEIGHT - 5, 0), Some(shown(b'z')));
    for row in HEIGHT - 4..HEIGHT - 1 {
        assert_eq!(sink.cell_at(row, 0), Some(shown(b't')));
        assert_eq!(sink.cell_at(row, 3), Some(shown(b'k')));
        assert_eq!(sink.cell_at(row, 4), Some(blank()));
    }
    for col in 0..WIDTH {
        assert_eq!(sink.cell_at(HEIGHT - 1, col), Some(blank()));
    }
}

#[test]
fn bytes_without_a_glyph_are_shown_as_the_placeholder() {
    let mut sink = TextSink::new();
    sink.write(&[0x00, 0x09, 0x0d, 0x1f, 0x7f, 0x80, 0xc3, 0xff]);
    for col in 0..8 {
        assert_eq!(sink.cell_at(0, col), Some(shown(PLACEHOLDER)));
    }
    assert_eq!(PLACEHOLDER, 0xfe);
    assert_eq!((sink.row(), sink.col()), (0, 8));
}

#[test]
fn first_and_last_printable_bytes_are_shown_as_themselves() {
    let mut sink = TextSink::new();
    sink.write(&[0x20, 0x7e, 0x41]);
    assert_eq!(sink.cell_at(0, 0), Some(shown(0x20)));
    assert_eq!(sink.cell_at(0, 1), Some(shown(0x7e)));
    assert_eq!(sink.cell_at(0, 2), Some(shown(0x41)));
}

#[test]
fn write_byte_shows_the_byte_and_moves_one_column_on() {
    let mut sink = sink_at(1, 1);
    sink.write_byte(b'x');
    assert_eq!(sink.cell_at(1, 1), Some(shown(b'x')));
    assert_eq!((sink.row(), sink.col()), (1, 2));
}

#[test]
fn cursor_stays_inside_the_grid() {
    let mut sink = TextSink::new();
    for i in 0..3 * CELLS {
        let b = if i % 97 == 0 { LINE_FEED } else { (i % 251) as u8 };
        sink.write_byte(b);
        assert!(sink.row() < HEIGHT);
        assert!(sink.col() < WIDTH);
    }
}

#[test]
fn cell_at_is_none_outside_the_grid() {
    let sink = TextSink::new();
    assert_eq!(sink.cell_at(HEIGHT, 0), None);
    assert_eq!(sink.cell_at(0, WIDTH), None);
    assert_eq!(sink.cell_at(usize::MAX, usize::MAX), None);
    assert_eq!(sink.cell_at(HEIGHT - 1, WIDTH - 1), Some(blank()));
}

#[test]
fn device_bytes_are_code_then_attribute_in_row_order() {
    let mut sink = TextSink::new();
    sink.write(b"Hi\n!");
    assert_eq!(sink.device_byte(0), Some(b'H'));
    assert_eq!(sink.device_byte(1), Some(0x07));
    assert_eq!(sink.device_byte(2), Some(b'i'));
    assert_eq!(sink.device_byte(3), Some(0x07));
    assert_eq!(sink.device_byte(4), Some(0x20));
    assert_eq!(sink.device_byte(5), Some(0x07));
    assert_eq!(sink.device_byte(2 * WIDTH), Some(b'!'));
    assert_eq!(sink.device_byte(2 * WIDTH + 1), Some(0x07));
    let cells = cells_of(&sink);
    for offset in 0..FRAME_BYTES {
        let cell = cells[offset / 2];
        let expected = if offset % 2 == 0 { cell.code } else { cell.attr };
        assert_eq!(sink.device_byte(offset), Some(expected));
    }
}

#[test]
fn device_byte_is_none_outside_the_region() {
    let sink = TextSink::new();
    assert_eq!(sink.device_byte(FRAME_BYTES - 1), Some(0x07));
    assert_eq!(sink.device_byte(FRAME_BYTES), None);
    assert_eq!(sink.device_byte(usize::MAX), None);
}

fn row_text(sink: &TextSink, row: usize, len: usize) -> Vec<u8> {
    (0..len).map(|col| sink.cell_at(row, col).unwrap().code).collect()
}

#[test]
fn write_decimal_writes_the_digits_of_the_number() {
    let mut sink = TextSink::new();
    sink.write_decimal(0);
    sink.write_byte(LINE_FEED);
    sink.write_decimal(7);
    sink.write_byte(LINE_FEED);
    sink.write_decimal(10);
    sink.write_byte(LINE_FEED);
    sink.write_decimal(1905);
    sink.write_byte(LINE_FEED);
    sink.write_decimal(u32::MAX);
    assert_eq!(row_text(&sink, 0, 2), b"0 ".to_vec());
    assert_eq!(row_text(&sink, 1, 2), b"7 ".to_vec());
    assert_eq!(row_text(&sink, 2, 3), b"10 ".to_vec());
    assert_eq!(row_text(&sink, 3, 5), b"1905 ".to_vec());
    assert_eq!(row_text(&sink, 4, 11), b"4294967295 ".to_vec());
    assert_eq!((sink.row(), sink.col()), (4, 10));
}

/// What `text` leaves on a page that starts as `start` and never loses a row:
/// its cells, the row and column of its cursor, and the lines it advanced.
fn page_after(
    start: &[Cell],
    row: usize,
    col: usize,
    text: &[u8],
) -> (Vec<Cell>, usize, usize, usize) {
    let mut cells = start.to_vec();
    let (mut row, mut col, mut lines) = (row, col, 0);
    for b in text {
        if *b != LINE_FEED {
            let code = if (0x20..=0x7e).contains(b) { *b } else { PLACEHOLDER };
            cells[row * WIDTH + col] = shown(code);
            col += 1;
        }
        if *b == LINE_FEED || col == WIDTH {
            row += 1;
            col = 0;
            lines += 1;
            if cells.len() < (row + 1) * WIDTH {
                cells.extend(vec![blank(); WIDTH]);
            }
        }
    }
    (cells, row, col, lines)
}

/// A text of `len` bytes of every kind, with a line feed now and then.
fn mixed_text(len: usize, seed: usize) -> Vec<u8> {
    (0..len).map(|i| ((i * 37 + seed * 101 + i / 7) % 256) as u8).collect()
}

#[test]
fn sink_shows_the_last_rows_of_a_page_that_loses_no_row() {
    for (row, col, len, seed) in
        [(0, 0, 10, 1), (0, 0, 5000, 2), (20, 79, 900, 3), (24, 0, 1, 4), (24, 79, 4000, 5)]
    {
        let mut sink = sink_at(row, col);
        let start = cells_of(&sink);
        let text = mixed_text(len, seed);
        sink.write(&text);
        let (page, page_row, page_col, lines) = page_after(&start, row, col, &text);
        let overflow = if row + lines < HEIGHT { 0 } else { row + lines + 1 - HEIGHT };
        assert_eq!(page.len(), CELLS + overflow * WIDTH);
        assert_eq!(page_row, row + lines);
        assert_eq!(cells_of(&sink), page[overflow * WIDTH..].to_vec());
        assert_eq!((sink.row(), sink.col()), (page_row - overflow, page_col));
    }
}

#[test]
fn five_lines_from_row_twenty_two_scroll_three_times() {
    let mut sink = sink_at(22, 0);
    sink.write(b"a\nb\nc\nd\ne\n");
    assert_eq!((sink.row(), sink.col()), (HEIGHT - 1, 0));
    // Rows 22 to 26 of the page are now rows 19 to 23 of the grid.
    for (i, code) in b"abcde".iter().enumerate() {
        assert_eq!(sink.cell_at(19 + i, 0), Some(shown(*code)));
    }
    assert_eq!(sink.cell_at(HEIGHT - 1, 0), Some(blank()));
}
