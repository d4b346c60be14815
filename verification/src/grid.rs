//! The mathematical model of the display: what the grid holds and where the
//! cursor stands, and how writing text changes both.
//!
//! When a line is advanced past the last row, the grid scrolls: every row
//! moves up by one, the top row is lost, the last row becomes blank, and the
//! cursor stays on the last row. The cursor advances eagerly: after the last
//! column of a row is written, the cursor already stands at column zero of the
//! following row, so it never leaves the grid.

use vstd::prelude::*;
use crate::cell::{
    blank, cell_for, is_printable, Cell, CELLS, DEFAULT_ATTR, HEIGHT, LINE_FEED, WIDTH,
};

verus! {

/// Contents of the grid, row after row, and the position of the cursor.
pub struct Grid {
    pub cells: Seq<Cell>,
    pub row: nat,
    pub col: nat,
}

/// The cells after the grid has moved up by one row: each row holds what the
/// row below it held, and the last row is blank.
pub open spec fn scroll_up(cells: Seq<Cell>) -> Seq<Cell> {
    Seq::new(
        CELLS as nat,
        |i: int|
            if i + WIDTH < CELLS {
                cells[i + WIDTH]
            } else {
                blank()
            },
    )
}

/// The cells after `text` has been laid over them from index `start` on, one
/// byte per cell. The other cells are as they were.
pub open spec fn overlay(cells: Seq<Cell>, start: int, text: Seq<u8>) -> Seq<Cell> {
    Seq::new(
        cells.len(),
        |i: int|
            if start <= i < start + text.len() {
                cell_for(text[i - start])
            } else {
                cells[i]
            },
    )
}

/// A full row that shows `line` from column zero on and is blank after it,
/// read at column `col`.
pub open spec fn line_cell(line: Seq<u8>, col: int) -> Cell {
    if col < line.len() {
        cell_for(line[col])
    } else {
        blank()
    }
}

/// The cells after `first` has moved up by `n` rows, where every row that came
/// in from below shows `line`, except the last row, which is blank.
pub open spec fn stacked(first: Seq<Cell>, line: Seq<u8>, n: nat) -> Seq<Cell> {
    Seq::new(
        CELLS as nat,
        |i: int|
            if i + n * WIDTH < CELLS {
                first[i + n * WIDTH]
            } else if i + WIDTH < CELLS {
                line_cell(line, i % (WIDTH as int))
            } else {
                blank()
            },
    )
}

/// The bytes of the device region that show `cells`: two bytes per cell, the
/// character code first and the attribute byte second, cell after cell in row
/// order.
pub open spec fn frame(cells: Seq<Cell>) -> Seq<u8> {
    Seq::new(
        2 * cells.len(),
        |i: int|
            if i % 2 == 0 {
                cells[i / 2].code
            } else {
                cells[i / 2].attr
            },
    )
}

impl Grid {
    /// The grid has its full size and the cursor stands inside it.
    pub open spec fn wf(self) -> bool {
        &&& self.cells.len() == CELLS
        &&& self.row < HEIGHT
        &&& self.col < WIDTH
    }

    /// The grid before anything was written: every cell blank, the cursor in
    /// the top left corner.
    pub open spec fn initial() -> Grid {
        Grid { cells: Seq::new(CELLS as nat, |i: int| blank()), row: 0, col: 0 }
    }

    /// Index of the cell under the cursor, counting row after row.
    pub open spec fn cursor(self) -> int {
        self.row * WIDTH + self.col
    }

    /// The cell at the given row and column.
    pub open spec fn at(self, row: int, col: int) -> Cell {
        self.cells[row * WIDTH + col]
    }

    /// Moves the cursor to column zero of the next row, scrolling the grid by
    /// one row when the cursor is on the last row already.
    pub open spec fn line_feed(self) -> Grid {
        if self.row + 1 < HEIGHT {
            Grid { cells: self.cells, row: self.row + 1, col: 0 }
        } else {
            Grid { cells: scroll_up(self.cells), row: self.row, col: 0 }
        }
    }

    /// Writes one byte. A line feed advances the line and changes no cell; any
    /// other byte is shown in the cell under the cursor, and the cursor moves
    /// one column on, advancing the line after the last column.
    pub open spec fn put(self, b: u8) -> Grid {
        if b == LINE_FEED {
            self.line_feed()
        } else {
            let cells = self.cells.update(self.cursor(), cell_for(b));
            if self.col + 1 < WIDTH {
                Grid { cells, row: self.row, col: self.col + 1 }
            } else {
                Grid { cells, row: self.row, col: self.col }.line_feed()
            }
        }
    }

    /// Writes the bytes of `text` in order.
    pub open spec fn write(self, text: Seq<u8>) -> Grid
        decreases text.len(),
    {
        if text.len() == 0 {
            self
        } else {
            self.write(text.drop_last()).put(text.last())
        }
    }

    /// Writes `text` `n` times in a row.
    pub open spec fn write_times(self, text: Seq<u8>, n: nat) -> Grid
        decreases n,
    {
        if n == 0 {
            self
        } else {
            self.write_times(text, (n - 1) as nat).write(text)
        }
    }
}

/// Every byte of `text` is printable.
pub open spec fn all_printable(text: Seq<u8>) -> bool {
    forall|i: int| 0 <= i < text.len() ==> is_printable(#[trigger] text[i])
}

/// No byte of `text` is a line feed, so every byte of it is shown in a cell.
pub open spec fn no_line_feed(text: Seq<u8>) -> bool {
    forall|i: int| 0 <= i < text.len() ==> #[trigger] text[i] != LINE_FEED
}

/// Advancing the line keeps the cursor inside the grid.
pub proof fn lemma_line_feed_wf(s: Grid)
    requires
        s.wf(),
    ensures
        s.line_feed().wf(),
{
}

/// Writing one byte keeps the cursor inside the grid.
pub proof fn lemma_put_wf(s: Grid, b: u8)
    requires
        s.wf(),
    ensures
        s.put(b).wf(),
{
}

/// The cursor is inside the grid after every write, whatever the text.
pub proof fn lemma_write_wf(s: Grid, text: Seq<u8>)
    requires
        s.wf(),
    ensures
        s.write(text).wf(),
    decreases text.len(),
{
    if text.len() > 0 {
        lemma_write_wf(s, text.drop_last());
        lemma_put_wf(s.write(text.drop_last()), text.last());
    }
}

/// Writing a text in two pieces gives what writing it at once gives.
pub proof fn lemma_write_concat(s: Grid, first: Seq<u8>, second: Seq<u8>)
    ensures
        s.write(first + second) == s.write(first).write(second),
    decreases second.len(),
{
    if second.len() == 0 {
        assert(first + second =~= first);
    } else {
        lemma_write_concat(s, first, second.drop_last());
        assert((first + second).drop_last() =~= first + second.drop_last());
    }
}

/// Writing a text and one more byte is writing the text and then the byte.
pub proof fn lemma_write_push(s: Grid, text: Seq<u8>, b: u8)
    ensures
        s.write(text.push(b)) == s.write(text).put(b),
{
    assert(text.push(b).drop_last() =~= text);
}

/// Writing a single byte is `put`.
pub proof fn lemma_write_one(s: Grid, b: u8)
    ensures
        s.write(seq![b]) == s.put(b),
{
    let text = seq![b];
    assert(text.drop_last() =~= Seq::<u8>::empty());
    assert(s.write(text.drop_last()) == s);
}

/// A text without line feeds that ends before the last cell of the grid is
/// laid over the cells from the cursor on, in row order, and the cursor moves
/// on by the length of the text.
pub proof fn lemma_write_in_place(s: Grid, text: Seq<u8>)
    requires
        s.wf(),
        no_line_feed(text),
        s.cursor() + text.len() < CELLS,
    ensures
        s.write(text).wf(),
        s.write(text).cursor() == s.cursor() + text.len(),
        s.write(text).cells == overlay(s.cells, s.cursor(), text),
    decreases text.len(),
{
    if text.len() > 0 {
        lemma_write_in_place(s, text.drop_last());
    }
}

/// A printable text that ends before the last cell of the grid is placed
/// character by character from the cursor on, in row order; the cursor moves
/// on by the length of the text, and no other cell changes. This holds in
/// particular of every text shorter than one row, unless it would reach the
/// end of the last row.
pub proof fn lemma_write_printable(s: Grid, text: Seq<u8>)
    requires
        s.wf(),
        all_printable(text),
        s.cursor() + text.len() < CELLS,
    ensures
        s.write(text).wf(),
        s.write(text).cursor() == s.cursor() + text.len(),
        forall|j: int|
            s.cursor() <= j < s.cursor() + text.len() ==> #[trigger] s.write(text).cells[j] == (
            Cell { code: text[j - s.cursor()], attr: DEFAULT_ATTR }),
        forall|j: int|
            0 <= j < CELLS && !(s.cursor() <= j < s.cursor() + text.len()) ==> #[trigger] s.write(
                text,
            ).cells[j] == s.cells[j],
{
    assert forall|i: int| 0 <= i < text.len() implies #[trigger] text[i] != LINE_FEED by {
        assert(is_printable(text[i]));
    }
    lemma_write_in_place(s, text);
}

/// A text without line feeds that exactly fills the rest of the cursor's row
/// is placed there, and the cursor then stands at column zero of the next row.
/// On the last row there is no next row: the grid scrolls by one row, the text
/// is then on the row above, and the cursor stands at column zero of the last
/// row.
pub proof fn lemma_fill_row(s: Grid, text: Seq<u8>)
    requires
        s.wf(),
        no_line_feed(text),
        s.col + text.len() == WIDTH,
    ensures
        s.write(text).wf(),
        s.write(text).col == 0,
        s.row + 1 < HEIGHT ==> s.write(text).row == s.row + 1 && s.write(text).cells == overlay(
            s.cells,
            s.cursor(),
            text,
        ),
        s.row + 1 == HEIGHT ==> s.write(text).row == s.row && s.write(text).cells == scroll_up(
            overlay(s.cells, s.cursor(), text),
        ),
{
    lemma_write_in_place(s, text.drop_last());
    let mid = s.write(text.drop_last());
    assert(mid.row == s.row && mid.col == WIDTH - 1);
    lemma_write_wf(s, text);
}

/// A line that ends before the last column, followed by a line feed, is
/// placed at the cursor and scrolls the grid exactly once when the cursor is
/// on the last row, and not at all when it is on another row. Either way the
/// cursor then stands at column zero, on the row below the line or, after the
/// scroll, on the last row.
pub proof fn lemma_write_line(s: Grid, line: Seq<u8>)
    requires
        s.wf(),
        no_line_feed(line),
        s.col + line.len() < WIDTH,
    ensures
        s.row + 1 < HEIGHT ==> s.write(line.push(LINE_FEED)) == (Grid {
            cells: overlay(s.cells, s.cursor(), line),
            row: s.row + 1,
            col: 0,
        }),
        s.row + 1 == HEIGHT ==> s.write(line.push(LINE_FEED)) == (Grid {
            cells: scroll_up(overlay(s.cells, s.cursor(), line)),
            row: s.row,
            col: 0,
        }),
{
    lemma_write_push(s, line, LINE_FEED);
    lemma_write_in_place(s, line);
    let mid = s.write(line);
    assert(mid.row == s.row && mid.col == s.col + line.len());
}

/// Writing the same line with its line feed `n` times, from the last row on,
/// scrolls the grid once per line. The grid then holds what it held with the
/// first line on its last row, moved up by `n` rows; below that, one row per
/// later line; and a blank last row, on which the cursor stands at column
/// zero.
pub proof fn lemma_write_line_repeated(s: Grid, line: Seq<u8>, n: nat)
    requires
        s.wf(),
        s.row + 1 == HEIGHT,
        no_line_feed(line),
        s.col + line.len() < WIDTH,
        n >= 1,
    ensures
        s.write_times(line.push(LINE_FEED), n) == (Grid {
            cells: stacked(overlay(s.cells, s.cursor(), line), line, n),
            row: s.row,
            col: 0,
        }),
    decreases n,
{
    let text = line.push(LINE_FEED);
    let first = overlay(s.cells, s.cursor(), line);
    if n == 1 {
        assert(s.write_times(text, 0) == s);
        lemma_write_line(s, line);
        assert(scroll_up(first) =~= stacked(first, line, 1));
    } else {
        let m: nat = (n - 1) as nat;
        lemma_write_line_repeated(s, line, m);
        let prev = s.write_times(text, m);
        lemma_write_line(prev, line);
        let shown = overlay(prev.cells, prev.cursor(), line);
        assert(scroll_up(shown) =~= stacked(first, line, n));
    }
}

} // verus!
