//! What a program can rely on when it draws on the terminal.

use vstd::prelude::*;

use crate::terminal::buffer::{BufferView, Cursor};
use crate::terminal::cell::Cell;
use crate::terminal::control_laws::{
    csi, csi_of, cursor_went, least, lemma_plain, shown, showing, times,
};
use crate::terminal::events::EventView;
use crate::terminal::screen::{ScreenView, char_columns};

verus! {

/// An empty cell in the style that is set.
pub open spec fn empty_cell(s: ScreenView) -> Cell {
    Cell { ch: ' ', style: s.style }
}

/// A row of empty cells in the style that is set.
pub open spec fn empty_row(s: ScreenView) -> Seq<Cell> {
    Seq::new(shown(s).cols as nat, |c: int| empty_cell(s))
}

/// Whether all that happened between two screens is that the shown one has other cells, which are
/// as `cell` says for each row and column.
pub open spec fn was_drawn(
    before: ScreenView,
    after: ScreenView,
    cell: spec_fn(int, int) -> Cell,
) -> bool {
    &&& after == showing(before, BufferView { cells: shown(after).cells, ..shown(before) })
    &&& shown(after).cells.len() == shown(before).rows
    &&& forall|r: int|
        0 <= r < shown(before).rows ==> (#[trigger] shown(after).cells[r]).len()
            == shown(before).cols
    &&& forall|r: int, c: int|
        0 <= r < shown(before).rows && 0 <= c < shown(before).cols ==> #[trigger] shown(
            after,
        ).cells[r][c] == cell(r, c)
}

/// The cell of the shown screen at that place.
pub open spec fn cell_at(s: ScreenView, row: int, col: int) -> Cell {
    shown(s).cells[row][col]
}

/// A printed character stands where the cursor was, in the style that is set, and the cursor is
/// behind it. A hidden character leaves its place empty, and a wide one takes the next column too.
/// Nothing else on the screen changes.
pub proof fn law_characters_are_printed(s: ScreenView, c: char)
    requires
        s.wf(),
        char_columns(c) is Some,
    ensures
        char_columns(c) == Some(0usize) ==> s.after(EventView::Print(c)) == s,
        ({
            let cursor = shown(s).cursor;
            let wide = char_columns(c) == Some(2usize);
            let drawn = s.after(EventView::Print(c));
            1 <= char_columns(c)->0 && cursor.col + char_columns(c)->0 < shown(s).cols ==> {
                &&& shown(drawn).cursor.row == cursor.row
                &&& shown(drawn).cursor.col == cursor.col + char_columns(c)->0
                &&& drawn == showing(
                    s,
                    BufferView {
                        cells: shown(drawn).cells,
                        cursor: shown(drawn).cursor,
                        ..shown(s)
                    },
                )
                &&& cell_at(drawn, cursor.row as int, cursor.col as int) == (Cell {
                    ch: if s.style.hidden {
                        ' '
                    } else {
                        c
                    },
                    style: s.style,
                })
                &&& wide ==> cell_at(drawn, cursor.row as int, cursor.col + 1) == empty_cell(s)
                &&& forall|row: int, col: int|
                    0 <= row < shown(s).rows && 0 <= col < shown(s).cols && !(row == cursor.row
                        && (col == cursor.col || (wide && col == cursor.col + 1)))
                        ==> #[trigger] cell_at(drawn, row, col) == cell_at(s, row, col)
            }
        }),
{
    reveal(ScreenView::after);
    reveal(ScreenView::printed);
}

/// A character printed in the last column leaves the cursor at the start of the next line if lines
/// wrap, and in the last column if they do not.
pub proof fn law_lines_wrap(s: ScreenView, c: char)
    requires
        s.wf(),
        char_columns(c) == Some(1usize),
        shown(s).cursor.col + 1 == shown(s).cols,
    ensures
        ({
            let cursor = shown(s).cursor;
            let drawn = s.after(EventView::Print(c));
            let cell = Cell {
                ch: if s.style.hidden {
                    ' '
                } else {
                    c
                },
                style: s.style,
            };
            &&& !s.modes.line_wrap ==> {
                &&& shown(drawn).cursor == cursor
                &&& cell_at(drawn, cursor.row as int, cursor.col as int) == cell
            }
            &&& s.modes.line_wrap && cursor.row + 1 < shown(s).scroll_bottom ==> {
                &&& shown(drawn).cursor == (Cursor { row: (cursor.row + 1) as usize, col: 0 })
                &&& cell_at(drawn, cursor.row as int, cursor.col as int) == cell
            }
            &&& s.modes.line_wrap && cursor.row + 1 == shown(s).scroll_bottom && cursor.row
                > shown(s).scroll_top ==> {
                &&& shown(drawn).cursor == (Cursor { row: cursor.row, col: 0 })
                &&& cell_at(drawn, cursor.row - 1, cursor.col as int) == cell
                &&& shown(drawn).cells[cursor.row as int] == empty_row(s)
            }
        }),
{
    reveal(ScreenView::after);
    reveal(ScreenView::printed);
    let drawn = s.after(EventView::Print(c));
    let cursor = shown(s).cursor;
    if s.modes.line_wrap && cursor.row + 1 == shown(s).scroll_bottom {
        assert(shown(drawn).cells[cursor.row as int] =~= empty_row(s));
    }
}

/// The control characters move the cursor: back one column, on to the next multiple of eight, and
/// to the start of the line. The others, line feeds aside, do nothing.
pub proof fn law_control_characters(s: ScreenView, byte: u8)
    requires
        s.wf(),
    ensures
        ({
            let row = shown(s).cursor.row as int;
            let col = shown(s).cursor.col as int;
            &&& cursor_went(
                s,
                s.after(EventView::Execute(8)),
                row,
                if col > 0 {
                    col - 1
                } else {
                    0
                },
            )
            &&& cursor_went(
                s,
                s.after(EventView::Execute(9)),
                row,
                least(col + 8 - col % 8, shown(s).cols - 1),
            )
            &&& cursor_went(s, s.after(EventView::Execute(13)), row, 0)
            &&& byte < 8 || byte > 13 ==> s.after(EventView::Execute(byte)) == s
            &&& s.after(EventView::Execute(11)) == s.after(EventView::Execute(10))
            &&& s.after(EventView::Execute(12)) == s.after(EventView::Execute(10))
        }),
{
    reveal(ScreenView::after);
    reveal(ScreenView::executed);
}

/// A line feed goes down a row. On the last row of the scrolling region it moves the lines of the
/// region up instead: the first is gone, and an empty one comes in at the bottom. In new line mode
/// it goes to the start of the line too.
pub proof fn law_line_feeds(s: ScreenView)
    requires
        s.wf(),
    ensures
        ({
            let cursor = shown(s).cursor;
            let fed = s.after(EventView::Execute(10));
            let col = if s.modes.line_feed_new_line {
                0
            } else {
                cursor.col as int
            };
            let top = shown(s).scroll_top;
            let bottom = shown(s).scroll_bottom;
            &&& s.after(EventView::Esc { intermediates: seq![], byte: 0x44 }) == fed
            &&& cursor.row + 1 < bottom ==> cursor_went(s, fed, cursor.row + 1, col)
            &&& cursor.row + 1 >= bottom ==> {
                &&& shown(fed).cursor == (Cursor { row: cursor.row, col: col as usize })
                &&& fed == showing(
                    s,
                    BufferView { cells: shown(fed).cells, cursor: shown(fed).cursor, ..shown(s) },
                )
                &&& shown(fed).cells.len() == shown(s).rows
                &&& shown(fed).cells[bottom - 1] == empty_row(s)
                &&& forall|r: int|
                    top <= r < bottom - 1 ==> #[trigger] shown(fed).cells[r] == shown(s).cells[r
                        + 1]
                &&& forall|r: int|
                    0 <= r < top || bottom <= r < shown(s).rows ==> #[trigger] shown(fed).cells[r]
                        == shown(s).cells[r]
            }
        }),
{
    reveal(ScreenView::after);
    reveal(ScreenView::executed);
    reveal(ScreenView::escaped);
    let fed = s.after(EventView::Execute(10));
    if shown(s).cursor.row + 1 >= shown(s).scroll_bottom {
        assert(shown(fed).cells[shown(s).scroll_bottom - 1] =~= empty_row(s));
    }
}

/// Scrolling moves the lines of the scrolling region by as many rows as it says, up or down, and
/// empty lines come in where room was made. What stands outside the region stays.
pub proof fn law_scrolling(s: ScreenView, n: u16)
    requires
        s.wf(),
    ensures
        ({
            let top = shown(s).scroll_top;
            let bottom = shown(s).scroll_bottom;
            &&& was_drawn(
                s,
                s.after(csi_of(n, 'S')),
                |r: int, c: int|
                    if !(top <= r < bottom) {
                        cell_at(s, r, c)
                    } else if r + times(n) < bottom {
                        cell_at(s, r + times(n), c)
                    } else {
                        empty_cell(s)
                    },
            )
            &&& was_drawn(
                s,
                s.after(csi_of(n, 'T')),
                |r: int, c: int|
                    if !(top <= r < bottom) {
                        cell_at(s, r, c)
                    } else if r - times(n) >= top {
                        cell_at(s, r - times(n), c)
                    } else {
                        empty_cell(s)
                    },
            )
        }),
{
    let one = seq![seq![n]];
    assert(one[0] == seq![n]);
    lemma_plain(s, one, 'S');
    lemma_plain(s, one, 'T');
    assert(s.plain_csi(one, 'S') == s.with_active(
        s.active().scrolled_up(times(n), empty_cell(s)),
    )) by {
        reveal(ScreenView::plain_csi);
    }
    assert(s.plain_csi(one, 'T') == s.with_active(
        s.active().scrolled_down(times(n), empty_cell(s)),
    )) by {
        reveal(ScreenView::plain_csi);
    }
}

/// Lines are inserted and deleted at the cursor: the lines from there to the bottom of the
/// scrolling region move, and empty ones come in. Outside the region nothing happens.
pub proof fn law_lines_are_inserted_and_deleted(s: ScreenView, n: u16)
    requires
        s.wf(),
    ensures
        ({
            let top = shown(s).scroll_top;
            let bottom = shown(s).scroll_bottom;
            let row = shown(s).cursor.row as int;
            &&& !(top <= row < bottom) ==> s.after(csi_of(n, 'L')) == s && s.after(csi_of(n, 'M'))
                == s
            &&& top <= row < bottom ==> was_drawn(
                s,
                s.after(csi_of(n, 'L')),
                |r: int, c: int|
                    if !(row <= r < bottom) {
                        cell_at(s, r, c)
                    } else if r - times(n) >= row {
                        cell_at(s, r - times(n), c)
                    } else {
                        empty_cell(s)
                    },
            )
            &&& top <= row < bottom ==> was_drawn(
                s,
                s.after(csi_of(n, 'M')),
                |r: int, c: int|
                    if !(row <= r < bottom) {
                        cell_at(s, r, c)
                    } else if r + times(n) < bottom {
                        cell_at(s, r + times(n), c)
                    } else {
                        empty_cell(s)
                    },
            )
        }),
{
    let one = seq![seq![n]];
    assert(one[0] == seq![n]);
    lemma_plain(s, one, 'L');
    lemma_plain(s, one, 'M');
    assert(s.plain_csi(one, 'L') == s.with_active(
        s.active().lines_inserted(times(n), empty_cell(s)),
    )) by {
        reveal(ScreenView::plain_csi);
    }
    assert(s.plain_csi(one, 'M') == s.with_active(
        s.active().lines_deleted(times(n), empty_cell(s)),
    )) by {
        reveal(ScreenView::plain_csi);
    }
}

/// Characters are inserted, deleted and erased at the cursor. Only the line of the cursor changes,
/// and only from the cursor on.
pub proof fn law_characters_are_inserted_deleted_and_erased(s: ScreenView, n: u16)
    requires
        s.wf(),
    ensures
        ({
            let row = shown(s).cursor.row as int;
            let col = shown(s).cursor.col as int;
            &&& was_drawn(
                s,
                s.after(csi_of(n, '@')),
                |r: int, c: int|
                    if r != row || c < col {
                        cell_at(s, r, c)
                    } else if c - times(n) >= col {
                        cell_at(s, r, c - times(n))
                    } else {
                        empty_cell(s)
                    },
            )
            &&& was_drawn(
                s,
                s.after(csi_of(n, 'P')),
                |r: int, c: int|
                    if r != row || c < col {
                        cell_at(s, r, c)
                    } else if c + times(n) < shown(s).cols {
                        cell_at(s, r, c + times(n))
                    } else {
                        empty_cell(s)
                    },
            )
            &&& was_drawn(
                s,
                s.after(csi_of(n, 'X')),
                |r: int, c: int|
                    if r == row && col <= c < col + times(n) {
                        empty_cell(s)
                    } else {
                        cell_at(s, r, c)
                    },
            )
        }),
{
    let one = seq![seq![n]];
    assert(one[0] == seq![n]);
    lemma_plain(s, one, '@');
    lemma_plain(s, one, 'P');
    lemma_plain(s, one, 'X');
    assert(s.plain_csi(one, '@') == s.with_active(
        s.active().chars_inserted(times(n), empty_cell(s)),
    ) && s.plain_csi(one, 'P') == s.with_active(
        s.active().chars_deleted(times(n), empty_cell(s)),
    ) && s.plain_csi(one, 'X') == s.with_active(
        s.active().chars_erased(times(n), empty_cell(s)),
    )) by {
        reveal(ScreenView::plain_csi);
    }
}

/// The screen is erased from the cursor on, up to the cursor or as a whole, and so is the line of
/// the cursor. The cursor stays, but goes to the top left corner when the whole screen is erased.
pub proof fn law_erasing(s: ScreenView)
    requires
        s.wf(),
    ensures
        ({
            let row = shown(s).cursor.row as int;
            let col = shown(s).cursor.col as int;
            let whole = s.after(csi_of(2, 'J'));
            &&& was_drawn(
                s,
                s.after(csi_of(0, 'J')),
                |r: int, c: int|
                    if r > row || (r == row && c >= col) {
                        empty_cell(s)
                    } else {
                        cell_at(s, r, c)
                    },
            )
            &&& was_drawn(
                s,
                s.after(csi_of(1, 'J')),
                |r: int, c: int|
                    if r < row || (r == row && c <= col) {
                        empty_cell(s)
                    } else {
                        cell_at(s, r, c)
                    },
            )
            &&& s.after(csi_of(3, 'J')) == whole
            &&& shown(whole).cursor == (Cursor { row: 0, col: 0 })
            &&& forall|r: int, c: int|
                0 <= r < shown(s).rows && 0 <= c < shown(s).cols ==> #[trigger] cell_at(whole, r, c)
                    == empty_cell(s)
            &&& was_drawn(
                s,
                s.after(csi_of(0, 'K')),
                |r: int, c: int|
                    if r == row && c >= col {
                        empty_cell(s)
                    } else {
                        cell_at(s, r, c)
                    },
            )
            &&& was_drawn(
                s,
                s.after(csi_of(1, 'K')),
                |r: int, c: int|
                    if r == row && c <= col {
                        empty_cell(s)
                    } else {
                        cell_at(s, r, c)
                    },
            )
            &&& was_drawn(
                s,
                s.after(csi_of(2, 'K')),
                |r: int, c: int|
                    if r == row {
                        empty_cell(s)
                    } else {
                        cell_at(s, r, c)
                    },
            )
        }),
{
    lemma_erasing(s, 0);
    lemma_erasing(s, 1);
    lemma_erasing(s, 2);
    lemma_erasing(s, 3);
}

proof fn lemma_erasing(s: ScreenView, n: u16)
    ensures
        s.after(csi_of(n, 'J')) == s.with_active(s.active().screen_cleared(n, empty_cell(s))),
        s.after(csi_of(n, 'K')) == s.with_active(s.active().line_cleared(n, empty_cell(s))),
{
    let one = seq![seq![n]];
    assert(one[0] == seq![n]);
    lemma_plain(s, one, 'J');
    lemma_plain(s, one, 'K');
    reveal(ScreenView::plain_csi);
}

/// A program sets the scrolling region by its first and last line, counted from one. A last line
/// that is left out is the last of the screen. The cursor goes to the top left corner.
pub proof fn law_scrolling_regions(s: ScreenView, first: u16, last: u16)
    requires
        s.wf(),
        1 <= first <= shown(s).rows,
        first < last <= shown(s).rows,
    ensures
        s.after(csi(seq![seq![first], seq![last]], 'r')) == showing(
            s,
            BufferView {
                scroll_top: first - 1,
                scroll_bottom: last as int,
                cursor: Cursor { row: 0, col: 0 },
                ..shown(s)
            },
        ),
        s.after(csi_of(first, 'r')) == showing(
            s,
            BufferView {
                scroll_top: first - 1,
                scroll_bottom: shown(s).rows,
                cursor: Cursor { row: 0, col: 0 },
                ..shown(s)
            },
        ),
{
    let both = seq![seq![first], seq![last]];
    let one = seq![seq![first]];
    assert(both[0] == seq![first] && both[1] == seq![last]);
    assert(one[0] == seq![first]);
    lemma_plain(s, both, 'r');
    lemma_plain(s, one, 'r');
    assert(s.plain_csi(both, 'r') == s.with_active(
        s.active().region_set(first as int, Some(last as int)),
    ) && s.plain_csi(one, 'r') == s.with_active(s.active().region_set(first as int, None))) by {
        reveal(ScreenView::plain_csi);
    }
}

} // verus!
