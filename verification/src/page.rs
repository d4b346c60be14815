//! The scroll policy, stated once for every text: the grid is a window onto
//! the end of a page that grows by one row for each line that is advanced
//! past its last row.

use vstd::prelude::*;
use crate::cell::{blank, cell_for, Cell, CELLS, HEIGHT, LINE_FEED, WIDTH};
use crate::grid::{scroll_up, Grid};

verus! {

/// A page of full rows that never loses a row: it starts out as tall as the
/// grid and gets a new blank row whenever the cursor is advanced past its last
/// row.
pub struct Page {
    pub cells: Seq<Cell>,
    pub row: nat,
    pub col: nat,
}

/// One blank row.
pub open spec fn blank_row() -> Seq<Cell> {
    Seq::new(WIDTH as nat, |i: int| blank())
}

/// The column at which the cursor stands after `text` was written from
/// column `col` on.
pub open spec fn end_col(col: nat, text: Seq<u8>) -> nat
    decreases text.len(),
{
    if text.len() == 0 {
        col
    } else if text.last() == LINE_FEED || end_col(col, text.drop_last()) + 1 == WIDTH {
        0
    } else {
        end_col(col, text.drop_last()) + 1
    }
}

/// The number of times the line is advanced while `text` is written from
/// column `col` on: once for each line feed and once for each byte shown in
/// the last column.
pub open spec fn line_advances(col: nat, text: Seq<u8>) -> nat
    decreases text.len(),
{
    if text.len() == 0 {
        0
    } else if text.last() == LINE_FEED || end_col(col, text.drop_last()) + 1 == WIDTH {
        line_advances(col, text.drop_last()) + 1
    } else {
        line_advances(col, text.drop_last())
    }
}

/// The number of lines that are advanced with the cursor on the last row of
/// the grid while `text` is written: the lines for which there is no row
/// left.
pub open spec fn overflow_lines(g: Grid, text: Seq<u8>) -> nat {
    if g.row + line_advances(g.col, text) < HEIGHT {
        0
    } else {
        (g.row + line_advances(g.col, text) + 1 - HEIGHT) as nat
    }
}

impl Page {
    /// The page holds whole rows, at least as many as the grid, the cursor
    /// stands on it, and once it has grown the cursor stands on its last row.
    pub open spec fn wf(self) -> bool {
        &&& self.cells.len() >= CELLS
        &&& self.cells.len() % (WIDTH as nat) == 0
        &&& self.col < WIDTH
        &&& (self.row + 1) * WIDTH <= self.cells.len()
        &&& (self.cells.len() == CELLS || self.cells.len() == (self.row + 1) * WIDTH)
    }

    /// The page that starts out with what the grid shows.
    pub open spec fn of(g: Grid) -> Page {
        Page { cells: g.cells, row: g.row, col: g.col }
    }

    /// Index of the cell under the cursor, counting row after row.
    pub open spec fn cursor(self) -> int {
        self.row * WIDTH + self.col
    }

    /// The number of rows by which the page is taller than the grid: the rows
    /// that have left the display.
    pub open spec fn scrolled(self) -> nat {
        ((self.cells.len() - CELLS) / (WIDTH as int)) as nat
    }

    /// What the display shows of the page: its last rows, as many as the grid
    /// has, with the cursor where it stands among them.
    pub open spec fn visible(self) -> Grid {
        Grid {
            cells: self.cells.subrange(self.cells.len() - CELLS, self.cells.len() as int),
            row: (self.row - self.scrolled()) as nat,
            col: self.col,
        }
    }

    /// Moves the cursor to column zero of the next row, which is a new blank
    /// row when the cursor was on the last row of the page.
    pub open spec fn line_feed(self) -> Page {
        if (self.row + 2) * WIDTH <= self.cells.len() {
            Page { cells: self.cells, row: self.row + 1, col: 0 }
        } else {
            Page { cells: self.cells + blank_row(), row: self.row + 1, col: 0 }
        }
    }

    /// Writes one byte, as the grid does, but without ever losing a row.
    pub open spec fn put(self, b: u8) -> Page {
        if b == LINE_FEED {
            self.line_feed()
        } else {
            let cells = self.cells.update(self.cursor(), cell_for(b));
            if self.col + 1 < WIDTH {
                Page { cells, row: self.row, col: self.col + 1 }
            } else {
                Page { cells, row: self.row, col: self.col }.line_feed()
            }
        }
    }

    /// Writes the bytes of `text` in order.
    pub open spec fn write(self, text: Seq<u8>) -> Page
        decreases text.len(),
    {
        if text.len() == 0 {
            self
        } else {
            self.write(text.drop_last()).put(text.last())
        }
    }
}

/// Advancing the line of the page is, on the display, advancing the line of
/// the grid.
proof fn lemma_line_feed_visible(p: Page)
    requires
        p.wf(),
    ensures
        p.line_feed().wf(),
        p.line_feed().visible() == p.visible().line_feed(),
{
    if (p.row + 2) * WIDTH > p.cells.len() {
        assert(p.line_feed().visible().cells =~= scroll_up(p.visible().cells));
    }
}

/// Writing one byte on the page is, on the display, writing it on the grid.
proof fn lemma_put_visible(p: Page, b: u8)
    requires
        p.wf(),
    ensures
        p.put(b).wf(),
        p.put(b).visible() == p.visible().put(b),
{
    if b == LINE_FEED {
        lemma_line_feed_visible(p);
    } else {
        let cells = p.cells.update(p.cursor(), cell_for(b));
        let shown = Page { cells, row: p.row, col: p.col };
        assert(shown.visible().cells =~= p.visible().cells.update(
            p.visible().cursor(),
            cell_for(b),
        ));
        if p.col + 1 == WIDTH {
            lemma_line_feed_visible(shown);
        }
    }
}

/// Whatever is written, and from whatever state, the grid shows the last rows
/// of the page that the same text gives when no row is ever lost. So the grid
/// has scrolled by exactly as many rows as the page has grown.
pub proof fn lemma_grid_shows_end_of_page(g: Grid, text: Seq<u8>)
    requires
        g.wf(),
    ensures
        Page::of(g).write(text).wf(),
        Page::of(g).write(text).visible() == g.write(text),
    decreases text.len(),
{
    let p = Page::of(g);
    if text.len() == 0 {
        assert(p.visible().cells =~= g.cells);
    } else {
        lemma_grid_shows_end_of_page(g, text.drop_last());
        lemma_put_visible(p.write(text.drop_last()), text.last());
    }
}

/// The page grows by exactly one row for each line that is advanced past the
/// last row of the grid, and by none before that: after `text` was written,
/// the cursor of the page stands as many rows below its start as lines were
/// advanced, and the page is taller than the grid by the overflow lines.
pub proof fn lemma_page_grows_with_lines(g: Grid, text: Seq<u8>)
    requires
        g.wf(),
    ensures
        Page::of(g).write(text).wf(),
        Page::of(g).write(text).col == end_col(g.col, text),
        Page::of(g).write(text).row == g.row + line_advances(g.col, text),
        Page::of(g).write(text).scrolled() == overflow_lines(g, text),
        Page::of(g).write(text).cells.len() == CELLS + overflow_lines(g, text) * WIDTH,
    decreases text.len(),
{
    let p = Page::of(g);
    if text.len() > 0 {
        lemma_page_grows_with_lines(g, text.drop_last());
        lemma_put_visible(p.write(text.drop_last()), text.last());
    }
}

/// A write scrolls the grid exactly once for each overflow line and not at
/// all before the cursor is on the last row: afterwards the grid shows the
/// page from as many rows down as there were overflow lines, and the cursor
/// stands as many rows below its start as lines were advanced, less the
/// overflow lines.
pub proof fn lemma_scrolls_once_per_overflow_line(g: Grid, text: Seq<u8>)
    requires
        g.wf(),
    ensures
        g.write(text).col == end_col(g.col, text),
        g.write(text).row == g.row + line_advances(g.col, text) - overflow_lines(g, text),
        g.write(text).cells == Page::of(g).write(text).cells.skip(
            overflow_lines(g, text) * WIDTH,
        ),
{
    lemma_grid_shows_end_of_page(g, text);
    lemma_page_grows_with_lines(g, text);
    let p = Page::of(g).write(text);
    assert(p.visible().cells =~= p.cells.skip(overflow_lines(g, text) * WIDTH));
}

} // verus!
