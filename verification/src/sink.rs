//! The text output sink: the one owner of the grid and of the cursor.

use vstd::prelude::*;
use crate::cell::{blank, Cell, CELLS, FRAME_BYTES, HEIGHT, LINE_FEED, WIDTH};
use crate::decimal::{decimal, digit};
use crate::grid::{frame, lemma_write_one, lemma_write_push, scroll_up, Grid};

verus! {

/// A character grid with a cursor. Text is written at the cursor; nothing
/// else can move the cursor or change a cell.
pub struct TextSink {
    cells: [Cell; CELLS],
    row: usize,
    col: usize,
}

impl View for TextSink {
    type V = Grid;

    closed spec fn view(&self) -> Grid {
        Grid { cells: self.cells@, row: self.row as nat, col: self.col as nat }
    }
}

impl TextSink {
    /// The cursor stands inside the grid.
    pub open spec fn wf(&self) -> bool {
        self@.wf()
    }

    /// A blank grid with the cursor in the top left corner.
    pub fn new() -> (s: TextSink)
        ensures
            s.wf(),
            s@ == Grid::initial(),
    {
        let empty = Cell::blank();
        let s = TextSink { cells: [empty; CELLS], row: 0, col: 0 };
        assert(s@.cells =~= Grid::initial().cells);
        s
    }

    /// The row of the cursor.
    pub fn row(&self) -> (r: usize)
        ensures
            r == self@.row,
    {
        self.row
    }

    /// The column of the cursor.
    pub fn col(&self) -> (c: usize)
        ensures
            c == self@.col,
    {
        self.col
    }

    /// The cell at the given position, or `None` if the position is outside
    /// the grid.
    pub fn cell_at(&self, row: usize, col: usize) -> (c: Option<Cell>)
        ensures
            c == (if row < HEIGHT && col < WIDTH {
                Some(self@.at(row as int, col as int))
            } else {
                None
            }),
    {
        if row < HEIGHT && col < WIDTH {
            Some(self.cells[row * WIDTH + col])
        } else {
            None
        }
    }

    /// The byte that the device region holds at `offset` when it shows this
    /// grid, or `None` if the offset is outside the region.
    pub fn device_byte(&self, offset: usize) -> (b: Option<u8>)
        ensures
            b == (if offset < FRAME_BYTES {
                Some(frame(self@.cells)[offset as int])
            } else {
                None
            }),
    {
        if offset < FRAME_BYTES {
            let cell = self.cells[offset / 2];
            if offset % 2 == 0 {
                Some(cell.code)
            } else {
                Some(cell.attr)
            }
        } else {
            None
        }
    }

    /// Moves every row up by one and blanks the last row.
    fn scroll(&mut self)
        ensures
            final(self)@ == (Grid { cells: scroll_up(old(self)@.cells), ..old(self)@ }),
    {
        let empty = Cell::blank();
        let mut i: usize = 0;
        while i < CELLS
            invariant
                i <= CELLS,
                empty == blank(),
                self.row == old(self).row,
                self.col == old(self).col,
                forall|j: int| 0 <= j < i ==> self.cells@[j] == scroll_up(old(self).cells@)[j],
                forall|j: int| i <= j < CELLS ==> self.cells@[j] == old(self).cells@[j],
            decreases CELLS - i,
        {
            if i + WIDTH < CELLS {
                self.cells[i] = self.cells[i + WIDTH];
            } else {
                self.cells[i] = empty;
            }
            i += 1;
        }
        assert(self.cells@ =~= scroll_up(old(self).cells@));
    }

    /// Moves the cursor to the start of the next row, scrolling on the last.
    fn line_feed(&mut self)
        requires
            old(self).wf(),
        ensures
            final(self).wf(),
            final(self)@ == old(self)@.line_feed(),
    {
        self.col = 0;
        if self.row + 1 < HEIGHT {
            self.row += 1;
        } else {
            self.scroll();
        }
    }

    /// Writes one byte at the cursor. A line feed moves the cursor to column
    /// zero of the next row. Any other byte is shown in the cell under the
    /// cursor, as itself when it is printable and as the placeholder when it
    /// is not, and the cursor moves one column on.
    pub fn write_byte(&mut self, b: u8)
        requires
            old(self).wf(),
        ensures
            final(self).wf(),
            final(self)@ == old(self)@.put(b),
    {
        if b == LINE_FEED {
            self.line_feed();
        } else {
            self.cells[self.row * WIDTH + self.col] = Cell::showing(b);
            if self.col + 1 < WIDTH {
                self.col += 1;
            } else {
                self.line_feed();
            }
        }
    }

    /// Writes the bytes of `text` in order, each as `write_byte` does.
    pub fn write(&mut self, text: &[u8])
        requires
            old(self).wf(),
        ensures
            final(self).wf(),
            final(self)@ == old(self)@.write(text@),
    {
        let mut i: usize = 0;
        while i < text.len()
            invariant
                i <= text.len(),
                self.wf(),
                self@ == old(self)@.write(text@.take(i as int)),
            decreases text.len() - i,
        {
            assert(text@.take(i + 1).drop_last() =~= text@.take(i as int));
            self.write_byte(text[i]);
            i += 1;
        }
        assert(text@.take(i as int) =~= text@);
    }

    /// Writes `n` in decimal digits, most significant first, without leading
    /// zeros.
    pub fn write_decimal(&mut self, n: u32)
        requires
            old(self).wf(),
        ensures
            final(self).wf(),
            final(self)@ == old(self)@.write(decimal(n as nat)),
        decreases n,
    {
        if n >= 10 {
            self.write_decimal(n / 10);
        }
        let d: u8 = (n % 10) as u8;
        proof {
            if n >= 10 {
                lemma_write_push(old(self)@, decimal((n / 10) as nat), digit((n % 10) as nat));
            } else {
                lemma_write_one(old(self)@, digit(n as nat));
            }
        }
        self.write_byte(0x30 + d);
    }
}

} // verus!
