//! A grid of cells with its cursor and scrolling region.

use vstd::prelude::*;

use crate::terminal::cell::{Cell, RenderedCell};
use crate::terminal::modes::{ModeFlag, TermMode};

verus! {

/// A position on the screen, counted from the top left corner.
#[derive(Debug, Clone, Copy, PartialEq, Eq, Structural)]
pub struct Cursor {
    pub row: usize,
    pub col: usize,
}

pub open spec fn home() -> Cursor {
    Cursor { row: 0, col: 0 }
}

impl Default for Cursor {
    fn default() -> (cursor: Self)
        ensures
            cursor == home(),
    {
        Cursor { row: 0, col: 0 }
    }
}

/// A screen: `rows` rows of `cols` cells, the cursor and the one last saved, and the rows
/// `scroll_top..scroll_bottom` that scrolling moves.
#[derive(Debug)]
pub struct ScreenBuffer {
    pub cols: usize,
    pub rows: usize,
    pub cells: Vec<Vec<Cell>>,
    pub cursor: Cursor,
    pub saved_cursor: Cursor,
    pub scroll_top: usize,
    pub scroll_bottom: usize,
}

/// One line of the screen as it is drawn.
#[derive(Debug, Clone)]
pub struct RenderedRow {
    pub cells: Vec<RenderedCell>,
}

/// The mathematical content of a [`ScreenBuffer`].
#[verifier::ext_equal]
pub struct BufferView {
    pub cols: int,
    pub rows: int,
    pub cells: Seq<Seq<Cell>>,
    pub cursor: Cursor,
    pub saved_cursor: Cursor,
    pub scroll_top: int,
    pub scroll_bottom: int,
}

impl View for ScreenBuffer {
    type V = BufferView;

    open spec fn view(&self) -> BufferView {
        BufferView {
            cols: self.cols as int,
            rows: self.rows as int,
            cells: self.cells@.map_values(|row: Vec<Cell>| row@),
            cursor: self.cursor,
            saved_cursor: self.saved_cursor,
            scroll_top: self.scroll_top as int,
            scroll_bottom: self.scroll_bottom as int,
        }
    }
}

pub open spec fn min(a: int, b: int) -> int {
    if a <= b {
        a
    } else {
        b
    }
}

pub open spec fn max(a: int, b: int) -> int {
    if a <= b {
        b
    } else {
        a
    }
}

pub open spec fn at(row: int, col: int) -> Cursor {
    Cursor { row: row as usize, col: col as usize }
}

impl BufferView {
    /// The grid is full, both cursors lie on it, and the scrolling region is a non-empty range of
    /// its rows.
    pub open spec fn wf(self) -> bool {
        &&& 1 <= self.cols <= u16::MAX
        &&& 1 <= self.rows <= u16::MAX
        &&& self.cells.len() == self.rows
        &&& forall|r: int| 0 <= r < self.rows ==> (#[trigger] self.cells[r]).len() == self.cols
        &&& self.cursor.row < self.rows
        &&& self.cursor.col < self.cols
        &&& self.saved_cursor.row < self.rows
        &&& self.saved_cursor.col < self.cols
        &&& 0 <= self.scroll_top < self.scroll_bottom <= self.rows
    }

    /// An empty screen.
    pub open spec fn empty(cols: int, rows: int) -> BufferView {
        BufferView {
            cols,
            rows,
            cells: Seq::new(
                rows as nat,
                |r: int| Seq::new(cols as nat, |c: int| crate::terminal::cell::plain_cell()),
            ),
            cursor: home(),
            saved_cursor: home(),
            scroll_top: 0,
            scroll_bottom: rows,
        }
    }

    pub open spec fn clamp(self, cursor: Cursor) -> Cursor {
        at(min(cursor.row as int, self.rows - 1), min(cursor.col as int, self.cols - 1))
    }

    /// Both cursors moved onto the grid.
    pub open spec fn clamped(self) -> BufferView {
        BufferView {
            cursor: self.clamp(self.cursor),
            saved_cursor: self.clamp(self.saved_cursor),
            ..self
        }
    }

    /// The same contents on a screen of another size: what no longer fits is cut off, what is new
    /// is empty, and the whole screen scrolls.
    pub open spec fn resized(self, cols: int, rows: int) -> BufferView {
        BufferView {
            cols,
            rows,
            cells: Seq::new(
                rows as nat,
                |r: int|
                    Seq::new(
                        cols as nat,
                        |c: int|
                            if r < self.rows && c < self.cols {
                                self.cells[r][c]
                            } else {
                                crate::terminal::cell::plain_cell()
                            },
                    ),
            ),
            scroll_top: 0,
            scroll_bottom: rows,
            ..self
        }.clamped()
    }

    /// Every cell at which `inside` holds replaced by `blank`.
    pub open spec fn erased(self, blank: Cell, inside: spec_fn(int, int) -> bool) -> BufferView {
        BufferView {
            cells: Seq::new(
                self.rows as nat,
                |r: int|
                    Seq::new(
                        self.cols as nat,
                        |c: int|
                            if inside(r, c) {
                                blank
                            } else {
                                self.cells[r][c]
                            },
                    ),
            ),
            ..self
        }
    }

    /// All cells blank, the cursor at home, the whole screen scrolling. The saved cursor stays.
    pub open spec fn cleared(self, blank: Cell) -> BufferView {
        BufferView {
            cursor: home(),
            scroll_top: 0,
            scroll_bottom: self.rows,
            ..self.erased(blank, |r: int, c: int| true)
        }
    }

    pub open spec fn blank_row(self, blank: Cell) -> Seq<Cell> {
        Seq::new(self.cols as nat, |c: int| blank)
    }

    /// Rows `top..bottom` moved up by `count`: the first ones are lost, blank ones follow.
    pub open spec fn rows_up(self, top: int, bottom: int, count: int, blank: Cell) -> BufferView {
        BufferView {
            cells: Seq::new(
                self.rows as nat,
                |r: int|
                    if top <= r < bottom - count {
                        self.cells[r + count]
                    } else if bottom - count <= r < bottom {
                        self.blank_row(blank)
                    } else {
                        self.cells[r]
                    },
            ),
            ..self
        }
    }

    /// Rows `top..bottom` moved down by `count`: the last ones are lost, blank ones come first.
    pub open spec fn rows_down(self, top: int, bottom: int, count: int, blank: Cell) -> BufferView {
        BufferView {
            cells: Seq::new(
                self.rows as nat,
                |r: int|
                    if top <= r < top + count {
                        self.blank_row(blank)
                    } else if top + count <= r < bottom {
                        self.cells[r - count]
                    } else {
                        self.cells[r]
                    },
            ),
            ..self
        }
    }

    pub open spec fn scrolled_up(self, count: int, blank: Cell) -> BufferView {
        let n = min(count, self.scroll_bottom - self.scroll_top);
        self.rows_up(self.scroll_top, self.scroll_bottom, n, blank)
    }

    pub open spec fn scrolled_down(self, count: int, blank: Cell) -> BufferView {
        let n = min(count, self.scroll_bottom - self.scroll_top);
        self.rows_down(self.scroll_top, self.scroll_bottom, n, blank)
    }

    pub open spec fn cursor_in_region(self) -> bool {
        self.scroll_top <= self.cursor.row < self.scroll_bottom
    }

    /// Blank lines put in at the cursor, which pushes the rest of the scrolling region down.
    pub open spec fn lines_inserted(self, count: int, blank: Cell) -> BufferView {
        if self.cursor_in_region() {
            let n = min(count, self.scroll_bottom - self.cursor.row);
            self.rows_down(self.cursor.row as int, self.scroll_bottom, n, blank)
        } else {
            self
        }
    }

    /// Lines taken out at the cursor, which pulls the rest of the scrolling region up.
    pub open spec fn lines_deleted(self, count: int, blank: Cell) -> BufferView {
        if self.cursor_in_region() {
            let n = min(count, self.scroll_bottom - self.cursor.row);
            self.rows_up(self.cursor.row as int, self.scroll_bottom, n, blank)
        } else {
            self
        }
    }

    /// Blanks put in at the cursor, which pushes the rest of the line right.
    pub open spec fn chars_inserted(self, count: int, blank: Cell) -> BufferView {
        let row = self.cursor.row as int;
        let col = self.cursor.col as int;
        let n = min(count, self.cols - col);
        BufferView {
            cells: self.cells.update(
                row,
                Seq::new(
                    self.cols as nat,
                    |c: int|
                        if c < col {
                            self.cells[row][c]
                        } else if c < col + n {
                            blank
                        } else {
                            self.cells[row][c - n]
                        },
                ),
            ),
            ..self
        }
    }

    /// Characters taken out at the cursor, which pulls the rest of the line left.
    pub open spec fn chars_deleted(self, count: int, blank: Cell) -> BufferView {
        let row = self.cursor.row as int;
        let col = self.cursor.col as int;
        let n = min(count, self.cols - col);
        BufferView {
            cells: self.cells.update(
                row,
                Seq::new(
                    self.cols as nat,
                    |c: int|
                        if c < col {
                            self.cells[row][c]
                        } else if c < self.cols - n {
                            self.cells[row][c + n]
                        } else {
                            blank
                        },
                ),
            ),
            ..self
        }
    }

    /// The next `count` characters from the cursor on blanked.
    pub open spec fn chars_erased(self, count: int, blank: Cell) -> BufferView {
        self.erased(
            blank,
            |r: int, c: int| r == self.cursor.row && self.cursor.col <= c < self.cursor.col + count,
        )
    }

    /// From the cursor to the end (0), from the start to the cursor (1), or all (2 and 3, which
    /// also move the cursor home); other numbers mean nothing.
    pub open spec fn screen_cleared(self, mode: u16, blank: Cell) -> BufferView {
        let row = self.cursor.row;
        let col = self.cursor.col;
        if mode == 0 {
            self.erased(blank, |r: int, c: int| r > row || (r == row && c >= col))
        } else if mode == 1 {
            self.erased(blank, |r: int, c: int| r < row || (r == row && c <= col))
        } else if mode == 2 || mode == 3 {
            self.cleared(blank)
        } else {
            self
        }
    }

    /// From the cursor to the end of its line (0), from the start to the cursor (1), or the line
    /// (2); other numbers mean nothing.
    pub open spec fn line_cleared(self, mode: u16, blank: Cell) -> BufferView {
        let row = self.cursor.row;
        let col = self.cursor.col;
        if mode == 0 {
            self.erased(blank, |r: int, c: int| r == row && c >= col)
        } else if mode == 1 {
            self.erased(blank, |r: int, c: int| r == row && c <= col)
        } else if mode == 2 {
            self.erased(blank, |r: int, c: int| r == row)
        } else {
            self
        }
    }

    pub open spec fn with_cell(self, row: int, col: int, cell: Cell) -> BufferView {
        BufferView { cells: self.cells.update(row, self.cells[row].update(col, cell)), ..self }
    }

    pub open spec fn with_cursor(self, row: int, col: int) -> BufferView {
        BufferView { cursor: at(row, col), ..self }
    }

    /// The scrolling region set to the lines `top` to `bottom`, counted from 1 and cut to the
    /// screen; the cursor goes home.
    pub open spec fn region_set(self, top: int, bottom: Option<int>) -> BufferView {
        let first = min(max(top - 1, 0), self.rows - 1);
        let last = match bottom {
            Some(line) => min(max(line, first + 1), self.rows),
            None => self.rows,
        };
        BufferView { scroll_top: first, scroll_bottom: last, cursor: home(), ..self }
    }

    /// The drawing of the cell at `row` and `col`.
    pub open spec fn drawn_cell(self, modes: TermMode, row: int, col: int) -> RenderedCell {
        crate::terminal::cell::drawn(
            self.cells[row][col],
            modes.show_cursor && row == self.cursor.row && col == self.cursor.col,
        )
    }
}

fn smaller(a: usize, b: usize) -> (m: usize)
    ensures
        m == min(a as int, b as int),
{
    if a <= b {
        a
    } else {
        b
    }
}

fn row_of(cols: usize, blank: Cell) -> (row: Vec<Cell>)
    ensures
        row@ == Seq::new(cols as nat, |c: int| blank),
{
    let mut row: Vec<Cell> = Vec::new();
    let mut c: usize = 0;
    while c < cols
        invariant
            c <= cols,
            row@ == Seq::new(c as nat, |i: int| blank),
        decreases cols - c,
    {
        row.push(blank);
        c += 1;
        assert(row@ =~= Seq::new(c as nat, |i: int| blank));
    }
    row
}

impl ScreenBuffer {
    /// An empty screen of the given size.
    pub fn new(cols: usize, rows: usize) -> (buffer: Self)
        requires
            1 <= cols <= u16::MAX,
            1 <= rows <= u16::MAX,
        ensures
            buffer@ == BufferView::empty(cols as int, rows as int),
            buffer@.wf(),
    {
        let mut cells: Vec<Vec<Cell>> = Vec::new();
        let mut r: usize = 0;
        while r < rows
            invariant
                r <= rows,
                cells.len() == r,
                forall|i: int| 0 <= i < r ==> (#[trigger] cells@[i])@ == Seq::new(
                    cols as nat,
                    |c: int| crate::terminal::cell::plain_cell(),
                ),
            decreases rows - r,
        {
            cells.push(row_of(cols, Cell::default()));
            r += 1;
        }
        let buffer = ScreenBuffer {
            cols,
            rows,
            cells,
            cursor: Cursor::default(),
            saved_cursor: Cursor::default(),
            scroll_top: 0,
            scroll_bottom: rows,
        };
        assert(buffer@ =~~= BufferView::empty(cols as int, rows as int));
        buffer
    }

    /// Changes the size of the screen, keeping what still fits.
    pub fn resize(&mut self, cols: usize, rows: usize)
        requires
            old(self)@.wf(),
            1 <= cols <= u16::MAX,
            1 <= rows <= u16::MAX,
        ensures
            final(self)@ == old(self)@.resized(cols as int, rows as int),
            final(self)@.wf(),
    {
        let ghost before = self@;
        let mut cells: Vec<Vec<Cell>> = Vec::new();
        let mut r: usize = 0;
        while r < rows
            invariant
                before == self@,
                before.wf(),
                r <= rows,
                cells.len() == r,
                forall|i: int|
                    0 <= i < r ==> (#[trigger] cells@[i])@ == before.resized(
                        cols as int,
                        rows as int,
                    ).cells[i],
            decreases rows - r,
        {
            let mut row: Vec<Cell> = Vec::new();
            let mut c: usize = 0;
            while c < cols
                invariant
                    before == self@,
                    before.wf(),
                    r < rows,
                    c <= cols,
                    row.len() == c,
                    forall|j: int|
                        0 <= j < c ==> #[trigger] row@[j] == before.resized(
                            cols as int,
                            rows as int,
                        ).cells[r as int][j],
                decreases cols - c,
            {
                if r < self.rows && c < self.cols {
                    assert(before.cells[r as int] == self.cells@[r as int]@);
                    row.push(self.cells[r][c]);
                } else {
                    row.push(Cell::default());
                }
                c += 1;
            }
            assert(row@ =~= before.resized(cols as int, rows as int).cells[r as int]);
            cells.push(row);
            r += 1;
        }
        self.cols = cols;
        self.rows = rows;
        self.cells = cells;
        self.scroll_top = 0;
        self.scroll_bottom = rows;
        self.clamp_cursor();
        assert(self@ =~~= before.resized(cols as int, rows as int));
    }

    /// Moves both cursors onto the grid.
    pub fn clamp_cursor(&mut self)
        requires
            old(self).rows >= 1,
            old(self).cols >= 1,
        ensures
            final(self)@ == old(self)@.clamped(),
    {
        self.cursor.row = smaller(self.cursor.row, self.rows - 1);
        self.cursor.col = smaller(self.cursor.col, self.cols - 1);
        self.saved_cursor.row = smaller(self.saved_cursor.row, self.rows - 1);
        self.saved_cursor.col = smaller(self.saved_cursor.col, self.cols - 1);
    }

    pub fn set_cell(&mut self, row: usize, col: usize, cell: Cell)
        requires
            old(self)@.wf(),
            row < old(self).rows,
            col < old(self).cols,
        ensures
            final(self)@ == old(self)@.with_cell(row as int, col as int, cell),
            final(self)@.wf(),
    {
        let ghost before = self@;
        assert(before.cells[row as int] == self.cells@[row as int]@);
        self.cells[row][col] = cell;
        assert(self@ =~~= before.with_cell(row as int, col as int, cell));
    }

    /// Blanks the cells `from..to` of one row.
    fn erase_span(&mut self, row: usize, from: usize, to: usize, blank: Cell)
        requires
            old(self)@.wf(),
            row < old(self).rows,
            to <= old(self).cols,
        ensures
            final(self)@ == old(self)@.erased(blank, |r: int, c: int| r == row && from <= c < to),
            final(self)@.wf(),
    {
        let ghost before = self@;
        let mut col: usize = from;
        assert(self@ =~~= before.erased(blank, |r: int, c: int| r == row && from <= c < from));
        while col < to
            invariant
                before.wf(),
                from <= col,
                col <= to || col == from,
                row < before.rows,
                to <= before.cols,
                self@.wf(),
                self@ == before.erased(blank, |r: int, c: int| r == row && from <= c < col),
            decreases to - col,
        {
            self.set_cell(row, col, blank);
            col += 1;
            assert(self@ =~~= before.erased(blank, |r: int, c: int| r == row && from <= c < col));
        }
        assert(self@ =~~= before.erased(blank, |r: int, c: int| r == row && from <= c < to));
    }

    /// Blanks the rows `from..to`.
    fn erase_rows(&mut self, from: usize, to: usize, blank: Cell)
        requires
            old(self)@.wf(),
            to <= old(self).rows,
        ensures
            final(self)@ == old(self)@.erased(blank, |r: int, c: int| from <= r < to),
            final(self)@.wf(),
    {
        let ghost before = self@;
        let mut row: usize = from;
        assert(self@ =~~= before.erased(blank, |r: int, c: int| from <= r < from));
        while row < to
            invariant
                before.wf(),
                from <= row,
                row <= to || row == from,
                to <= before.rows,
                self@.wf(),
                self@ == before.erased(blank, |r: int, c: int| from <= r < row),
            decreases to - row,
        {
            self.erase_span(row, 0, self.cols, blank);
            row += 1;
            assert(self@ =~~= before.erased(blank, |r: int, c: int| from <= r < row));
        }
        assert(self@ =~~= before.erased(blank, |r: int, c: int| from <= r < to));
    }

    /// Blanks the screen and puts the cursor home.
    pub fn clear(&mut self, blank: Cell)
        requires
            old(self)@.wf(),
        ensures
            final(self)@ == old(self)@.cleared(blank),
            final(self)@.wf(),
    {
        let ghost before = self@;
        self.erase_rows(0, self.rows, blank);
        self.cursor = Cursor::default();
        self.scroll_top = 0;
        self.scroll_bottom = self.rows;
        assert(self@ =~~= before.cleared(blank));
    }

    pub fn clear_screen(&mut self, mode: u16, blank: Cell)
        requires
            old(self)@.wf(),
        ensures
            final(self)@ == old(self)@.screen_cleared(mode, blank),
            final(self)@.wf(),
    {
        let ghost before = self@;
        let row: usize = self.cursor.row;
        let col: usize = self.cursor.col;
        match mode {
            0 => {
                self.erase_span(row, col, self.cols, blank);
                self.erase_rows(row + 1, self.rows, blank);
            },
            1 => {
                self.erase_rows(0, row, blank);
                self.erase_span(row, 0, col + 1, blank);
            },
            2 | 3 => self.clear(blank),
            _ => {},
        }
        assert(self@ =~~= before.screen_cleared(mode, blank));
    }

    pub fn clear_line(&mut self, mode: u16, blank: Cell)
        requires
            old(self)@.wf(),
        ensures
            final(self)@ == old(self)@.line_cleared(mode, blank),
            final(self)@.wf(),
    {
        let ghost before = self@;
        let row: usize = self.cursor.row;
        let col: usize = self.cursor.col;
        match mode {
            0 => self.erase_span(row, col, self.cols, blank),
            1 => self.erase_span(row, 0, col + 1, blank),
            2 => self.erase_span(row, 0, self.cols, blank),
            _ => {},
        }
        assert(self@ =~~= before.line_cleared(mode, blank));
    }

    pub fn erase_chars(&mut self, count: usize, blank: Cell)
        requires
            old(self)@.wf(),
            count <= u16::MAX,
        ensures
            final(self)@ == old(self)@.chars_erased(count as int, blank),
            final(self)@.wf(),
    {
        let ghost before = self@;
        let start: usize = self.cursor.col;
        let end: usize = smaller(start + count, self.cols);
        self.erase_span(self.cursor.row, start, end, blank);
        assert(self@ =~~= before.chars_erased(count as int, blank));
    }

    /// Moves the rows `top..bottom` up by `count`.
    fn shift_up(&mut self, top: usize, bottom: usize, count: usize, blank: Cell)
        requires
            old(self)@.wf(),
            top < bottom <= old(self).rows,
            count <= bottom - top,
        ensures
            final(self)@ == old(self)@.rows_up(top as int, bottom as int, count as int, blank),
            final(self)@.wf(),
    {
        let ghost before = self@;
        let mut i: usize = 0;
        assert(self@ =~~= before.rows_up(top as int, bottom as int, 0, blank));
        while i < count
            invariant
                before.wf(),
                top < bottom <= before.rows,
                i <= count <= bottom - top,
                self@.wf(),
                self@ == before.rows_up(top as int, bottom as int, i as int, blank),
            decreases count - i,
        {
            let ghost mid = self@;
            assert(mid.cells.len() == self.cells@.len());
            let row = row_of(self.cols, blank);
            let _lost = self.cells.remove(top);
            self.cells.insert(bottom - 1, row);
            i += 1;
            assert(self@.cells =~= mid.cells.remove(top as int).insert(
                bottom - 1,
                before.blank_row(blank),
            ));
            assert(self@ =~~= before.rows_up(top as int, bottom as int, i as int, blank));
        }
    }

    /// Moves the rows `top..bottom` down by `count`.
    fn shift_down(&mut self, top: usize, bottom: usize, count: usize, blank: Cell)
        requires
            old(self)@.wf(),
            top < bottom <= old(self).rows,
            count <= bottom - top,
        ensures
            final(self)@ == old(self)@.rows_down(top as int, bottom as int, count as int, blank),
            final(self)@.wf(),
    {
        let ghost before = self@;
        let mut i: usize = 0;
        assert(self@ =~~= before.rows_down(top as int, bottom as int, 0, blank));
        while i < count
            invariant
                before.wf(),
                top < bottom <= before.rows,
                i <= count <= bottom - top,
                self@.wf(),
                self@ == before.rows_down(top as int, bottom as int, i as int, blank),
            decreases count - i,
        {
            let ghost mid = self@;
            assert(mid.cells.len() == self.cells@.len());
            let row = row_of(self.cols, blank);
            let _lost = self.cells.remove(bottom - 1);
            self.cells.insert(top, row);
            i += 1;
            assert(self@.cells =~= mid.cells.remove(bottom - 1).insert(
                top as int,
                before.blank_row(blank),
            ));
            assert(self@ =~~= before.rows_down(top as int, bottom as int, i as int, blank));
        }
    }

    pub fn scroll_up(&mut self, count: usize, blank: Cell)
        requires
            old(self)@.wf(),
        ensures
            final(self)@ == old(self)@.scrolled_up(count as int, blank),
            final(self)@.wf(),
    {
        let count: usize = smaller(count, self.scroll_bottom - self.scroll_top);
        self.shift_up(self.scroll_top, self.scroll_bottom, count, blank);
    }

    pub fn scroll_down(&mut self, count: usize, blank: Cell)
        requires
            old(self)@.wf(),
        ensures
            final(self)@ == old(self)@.scrolled_down(count as int, blank),
            final(self)@.wf(),
    {
        let count: usize = smaller(count, self.scroll_bottom - self.scroll_top);
        self.shift_down(self.scroll_top, self.scroll_bottom, count, blank);
    }

    pub fn insert_lines(&mut self, count: usize, blank: Cell)
        requires
            old(self)@.wf(),
        ensures
            final(self)@ == old(self)@.lines_inserted(count as int, blank),
            final(self)@.wf(),
    {
        if self.cursor.row < self.scroll_top || self.cursor.row >= self.scroll_bottom {
            return;
        }
        let count: usize = smaller(count, self.scroll_bottom - self.cursor.row);
        self.shift_down(self.cursor.row, self.scroll_bottom, count, blank);
    }

    pub fn delete_lines(&mut self, count: usize, blank: Cell)
        requires
            old(self)@.wf(),
        ensures
            final(self)@ == old(self)@.lines_deleted(count as int, blank),
            final(self)@.wf(),
    {
        if self.cursor.row < self.scroll_top || self.cursor.row >= self.scroll_bottom {
            return;
        }
        let count: usize = smaller(count, self.scroll_bottom - self.cursor.row);
        self.shift_up(self.cursor.row, self.scroll_bottom, count, blank);
    }

    pub fn insert_blank(&mut self, count: usize, blank: Cell)
        requires
            old(self)@.wf(),
        ensures
            final(self)@ == old(self)@.chars_inserted(count as int, blank),
            final(self)@.wf(),
    {
        let ghost before = self@;
        let row: usize = self.cursor.row;
        let col: usize = self.cursor.col;
        let n: usize = smaller(count, self.cols - col);
        let ghost line = before.chars_inserted(count as int, blank).cells[row as int];
        let mut target: usize = self.cols;
        assert(before.cells[row as int] == self.cells@[row as int]@);
        while target > col + n
            invariant
                before.wf(),
                self@.wf(),
                self@ == (BufferView { cells: self@.cells, ..before }),
                row == before.cursor.row,
                col == before.cursor.col,
                n == min(count as int, before.cols - col),
                col + n <= target <= before.cols,
                line == before.chars_inserted(count as int, blank).cells[row as int],
                forall|r: int| 0 <= r < before.rows && r != row ==> #[trigger] self@.cells[r] == before.cells[r],
                forall|c: int| 0 <= c < target ==> #[trigger] self@.cells[row as int][c] == before.cells[row as int][c],
                forall|c: int| target <= c < before.cols ==> #[trigger] self@.cells[row as int][c] == line[c],
            decreases target,
        {
            target -= 1;
            assert(self@.cells[row as int] == self.cells@[row as int]@);
            let moved = self.cells[row][target - n];
            assert(moved == self@.cells[row as int][target - n]);
            self.set_cell(row, target, moved);
        }
        let ghost mid = self@;
        self.erase_span(row, col, col + n, blank);
        assert forall|c: int| 0 <= c < before.cols implies self@.cells[row as int][c] == line[c] by {
            assert(self@.cells[row as int][c] == if col <= c < col + n {
                blank
            } else {
                mid.cells[row as int][c]
            });
        }
        assert(self@.cells[row as int] =~= line);
        assert forall|r: int| 0 <= r < before.rows && r != row implies self@.cells[r] == before.cells[r] by {
            assert(self@.cells[r] =~= mid.cells[r]);
        }
        assert(self@ =~~= before.chars_inserted(count as int, blank));
    }

    pub fn delete_chars(&mut self, count: usize, blank: Cell)
        requires
            old(self)@.wf(),
        ensures
            final(self)@ == old(self)@.chars_deleted(count as int, blank),
            final(self)@.wf(),
    {
        let ghost before = self@;
        let row: usize = self.cursor.row;
        let col: usize = self.cursor.col;
        let n: usize = smaller(count, self.cols - col);
        let ghost line = before.chars_deleted(count as int, blank).cells[row as int];
        let mut target: usize = col;
        assert(before.cells[row as int] == self.cells@[row as int]@);
        while target < self.cols - n
            invariant
                before.wf(),
                self@.wf(),
                self@ == (BufferView { cells: self@.cells, ..before }),
                row == before.cursor.row,
                col == before.cursor.col,
                n == min(count as int, before.cols - col),
                col <= target <= before.cols - n,
                line == before.chars_deleted(count as int, blank).cells[row as int],
                forall|r: int| 0 <= r < before.rows && r != row ==> #[trigger] self@.cells[r] == before.cells[r],
                forall|c: int| target <= c < before.cols ==> #[trigger] self@.cells[row as int][c] == before.cells[row as int][c],
                forall|c: int| 0 <= c < target ==> #[trigger] self@.cells[row as int][c] == line[c],
            decreases self.cols - n - target,
        {
            assert(self@.cells[row as int] == self.cells@[row as int]@);
            let moved = self.cells[row][target + n];
            assert(moved == self@.cells[row as int][target + n]);
            self.set_cell(row, target, moved);
            target += 1;
        }
        let ghost mid = self@;
        self.erase_span(row, self.cols - n, self.cols, blank);
        assert forall|c: int| 0 <= c < before.cols implies self@.cells[row as int][c] == line[c] by {
            assert(self@.cells[row as int][c] == if before.cols - n <= c {
                blank
            } else {
                mid.cells[row as int][c]
            });
        }
        assert(self@.cells[row as int] =~= line);
        assert forall|r: int| 0 <= r < before.rows && r != row implies self@.cells[r] == before.cells[r] by {
            assert(self@.cells[r] =~= mid.cells[r]);
        }
        assert(self@ =~~= before.chars_deleted(count as int, blank));
    }

    /// The screen as it is drawn: every row, with the cursor where it is shown.
    pub fn rendered_rows(&self, modes: TermMode) -> (rendered: Vec<RenderedRow>)
        requires
            self@.wf(),
        ensures
            rendered.len() == self.rows,
            forall|r: int|
                0 <= r < self.rows ==> (#[trigger] rendered@[r]).cells@ == Seq::new(
                    self.cols as nat,
                    |c: int| self@.drawn_cell(modes, r, c),
                ),
    {
        let show: bool = modes.contains(ModeFlag::ShowCursor);
        let mut rendered: Vec<RenderedRow> = Vec::new();
        let mut r: usize = 0;
        while r < self.rows
            invariant
                self@.wf(),
                show == modes.show_cursor,
                r <= self.rows,
                rendered.len() == r,
                forall|i: int|
                    0 <= i < r ==> (#[trigger] rendered@[i]).cells@ == Seq::new(
                        self.cols as nat,
                        |c: int| self@.drawn_cell(modes, i, c),
                    ),
            decreases self.rows - r,
        {
            let mut cells: Vec<RenderedCell> = Vec::new();
            let mut c: usize = 0;
            while c < self.cols
                invariant
                    self@.wf(),
                    show == modes.show_cursor,
                    r < self.rows,
                    c <= self.cols,
                    cells@ == Seq::new(
                        c as nat,
                        |j: int| self@.drawn_cell(modes, r as int, j),
                    ),
                decreases self.cols - c,
            {
                assert(self@.cells[r as int] == self.cells@[r as int]@);
                let is_cursor: bool = show && r == self.cursor.row && c == self.cursor.col;
                cells.push(self.cells[r][c].render(is_cursor));
                c += 1;
                assert(cells@ =~= Seq::new(
                    c as nat,
                    |j: int| self@.drawn_cell(modes, r as int, j),
                ));
            }
            rendered.push(RenderedRow { cells });
            r += 1;
        }
        rendered
    }
}

fn copy_row(row: &Vec<Cell>) -> (out: Vec<Cell>)
    ensures
        out@ == row@,
{
    let mut out: Vec<Cell> = Vec::new();
    let mut c: usize = 0;
    while c < row.len()
        invariant
            c <= row.len(),
            out@ == row@.take(c as int),
        decreases row.len() - c,
    {
        out.push(row[c]);
        c += 1;
        assert(out@ =~= row@.take(c as int));
    }
    assert(out@ =~= row@);
    out
}

impl Clone for ScreenBuffer {
    fn clone(&self) -> (copy: Self)
        ensures
            copy@ == self@,
    {
        let mut cells: Vec<Vec<Cell>> = Vec::new();
        let mut r: usize = 0;
        while r < self.cells.len()
            invariant
                r <= self.cells.len(),
                cells.len() == r,
                forall|i: int| 0 <= i < r ==> (#[trigger] cells@[i])@ == self.cells@[i]@,
            decreases self.cells.len() - r,
        {
            cells.push(copy_row(&self.cells[r]));
            r += 1;
        }
        let copy = ScreenBuffer {
            cols: self.cols,
            rows: self.rows,
            cells,
            cursor: self.cursor,
            saved_cursor: self.saved_cursor,
            scroll_top: self.scroll_top,
            scroll_bottom: self.scroll_bottom,
        };
        assert(copy@ =~~= self@);
        copy
    }
}

} // verus!
