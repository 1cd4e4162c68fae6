//! What a program can rely on when it controls the terminal.

use vstd::prelude::*;

use vstd::utf8::encode_utf8;

use crate::terminal::buffer::{BufferView, Cursor};
use crate::terminal::events::EventView;
use crate::terminal::screen::{ScreenView, attributes};
use crate::text::decimal;

verus! {

/// A control sequence without a marker, with these parameters.
pub open spec fn csi(params: Seq<Seq<u16>>, action: char) -> EventView {
    EventView::Csi { params, intermediates: seq![], ignore: false, action }
}

/// A control sequence with one parameter.
pub open spec fn csi_of(n: u16, action: char) -> EventView {
    csi(seq![seq![n]], action)
}

/// How often a control sequence with that parameter acts: once where the parameter is zero.
pub open spec fn times(n: u16) -> int {
    if n == 0 {
        1
    } else {
        n as int
    }
}

/// The screen that is shown.
pub open spec fn shown(s: ScreenView) -> BufferView {
    if s.active_buffer is Primary {
        s.primary
    } else {
        s.alternate
    }
}

/// What the screen becomes when the shown buffer is replaced and nothing else changes.
pub open spec fn showing(s: ScreenView, buffer: BufferView) -> ScreenView {
    if s.active_buffer is Primary {
        ScreenView { primary: buffer, ..s }
    } else {
        ScreenView { alternate: buffer, ..s }
    }
}

/// Whether all that happened between two screens is that the cursor went to that place.
pub open spec fn cursor_went(before: ScreenView, after: ScreenView, row: int, col: int) -> bool {
    after == showing(
        before,
        BufferView { cursor: Cursor { row: row as usize, col: col as usize }, ..shown(before) },
    )
}

/// The smaller of two numbers.
pub open spec fn least(a: int, b: int) -> int {
    if b < a {
        b
    } else {
        a
    }
}

/// Most control sequences without a marker are told apart by their last character alone.
pub proof fn lemma_plain(s: ScreenView, params: Seq<Seq<u16>>, action: char)
    requires
        action != 'c' && action != 'h' && action != 'l',
    ensures
        s.after(csi(params, action)) == s.plain_csi(params, action),
{
    reveal(ScreenView::after);
}

/// A relative move goes as many rows or columns as it says, in its own direction, and stops at the
/// edge. The other coordinate stays, or is the first column where the move goes to the start of a
/// line. Nothing is drawn.
pub proof fn law_relative_moves(s: ScreenView, n: u16)
    requires
        s.wf(),
    ensures
        ({
            let row = shown(s).cursor.row as int;
            let col = shown(s).cursor.col as int;
            let up = if row >= times(n) {
                row - times(n)
            } else {
                0
            };
            let left = if col >= times(n) {
                col - times(n)
            } else {
                0
            };
            let down = least(row + times(n), shown(s).rows - 1);
            let right = least(col + times(n), shown(s).cols - 1);
            &&& cursor_went(s, s.after(csi_of(n, 'A')), up, col)
            &&& cursor_went(s, s.after(csi_of(n, 'B')), down, col)
            &&& cursor_went(s, s.after(csi_of(n, 'e')), down, col)
            &&& cursor_went(s, s.after(csi_of(n, 'C')), row, right)
            &&& cursor_went(s, s.after(csi_of(n, 'a')), row, right)
            &&& cursor_went(s, s.after(csi_of(n, 'D')), row, left)
            &&& cursor_went(s, s.after(csi_of(n, 'E')), down, 0)
            &&& cursor_went(s, s.after(csi_of(n, 'F')), up, 0)
        }),
{
    let one = seq![seq![n]];
    assert(one[0] == seq![n]);
    assert(s.after(csi_of(n, 'A')) == s.moved_up(times(n))) by {
        lemma_plain(s, one, 'A');
        reveal(ScreenView::plain_csi);
    }
    assert(s.after(csi_of(n, 'B')) == s.moved_down(times(n))) by {
        lemma_plain(s, one, 'B');
        reveal(ScreenView::plain_csi);
    }
    assert(s.after(csi_of(n, 'e')) == s.moved_down(times(n))) by {
        lemma_plain(s, one, 'e');
        reveal(ScreenView::plain_csi);
    }
    assert(s.after(csi_of(n, 'C')) == s.moved_forward(times(n))) by {
        lemma_plain(s, one, 'C');
        reveal(ScreenView::plain_csi);
    }
    assert(s.after(csi_of(n, 'a')) == s.moved_forward(times(n))) by {
        lemma_plain(s, one, 'a');
        reveal(ScreenView::plain_csi);
    }
    assert(s.after(csi_of(n, 'D')) == s.moved_backward(times(n))) by {
        lemma_plain(s, one, 'D');
        reveal(ScreenView::plain_csi);
    }
    assert(s.after(csi_of(n, 'E')) == s.moved_down(times(n)).carriage_returned()) by {
        lemma_plain(s, one, 'E');
        reveal(ScreenView::plain_csi);
    }
    assert(s.after(csi_of(n, 'F')) == s.moved_up(times(n)).carriage_returned()) by {
        lemma_plain(s, one, 'F');
        reveal(ScreenView::plain_csi);
    }
}

/// Moves in opposite directions undo each other unless the first one stopped at the edge: a cursor
/// that goes up by a number of rows and down again is back in its row, and so for columns.
pub proof fn law_opposite_moves(s: ScreenView, n: u16)
    requires
        s.wf(),
    ensures
        shown(s).cursor.row >= times(n) ==> s.after(csi_of(n, 'A')).after(csi_of(n, 'B')) == s,
        shown(s).cursor.row + times(n) < shown(s).rows ==> s.after(csi_of(n, 'B')).after(
            csi_of(n, 'A'),
        ) == s,
        shown(s).cursor.col >= times(n) ==> s.after(csi_of(n, 'D')).after(csi_of(n, 'C')) == s,
        shown(s).cursor.col + times(n) < shown(s).cols ==> s.after(csi_of(n, 'C')).after(
            csi_of(n, 'D'),
        ) == s,
{
    law_relative_moves(s, n);
    if shown(s).cursor.row >= times(n) {
        law_relative_moves(s.after(csi_of(n, 'A')), n);
    }
    if shown(s).cursor.row + times(n) < shown(s).rows {
        law_relative_moves(s.after(csi_of(n, 'B')), n);
    }
    if shown(s).cursor.col >= times(n) {
        law_relative_moves(s.after(csi_of(n, 'D')), n);
    }
    if shown(s).cursor.col + times(n) < shown(s).cols {
        law_relative_moves(s.after(csi_of(n, 'C')), n);
    }
}

/// An absolute move goes to the named row and column, counted from one at the top left corner, and
/// stops at the edge. In origin mode rows are counted from the top of the scrolling region.
pub proof fn law_absolute_moves(s: ScreenView, n: u16, m: u16)
    requires
        s.wf(),
    ensures
        ({
            let first = if s.modes.origin {
                shown(s).scroll_top
            } else {
                0
            };
            let row = least(first + times(n) - 1, shown(s).rows - 1);
            let col = least(times(m) - 1, shown(s).cols - 1);
            &&& cursor_went(s, s.after(csi(seq![seq![n], seq![m]], 'H')), row, col)
            &&& cursor_went(s, s.after(csi(seq![seq![n], seq![m]], 'f')), row, col)
            &&& cursor_went(s, s.after(csi_of(n, 'H')), row, 0)
            &&& cursor_went(s, s.after(csi_of(n, 'f')), row, 0)
            &&& cursor_went(s, s.after(csi_of(n, 'd')), row, shown(s).cursor.col as int)
            &&& cursor_went(s, s.after(csi_of(m, 'G')), shown(s).cursor.row as int, col)
            &&& cursor_went(s, s.after(csi_of(m, '`')), shown(s).cursor.row as int, col)
        }),
{
    let both = seq![seq![n], seq![m]];
    assert(both[0] == seq![n] && both[1] == seq![m]);
    assert(seq![seq![n]][0] == seq![n]);
    assert(seq![seq![m]][0] == seq![m]);
    lemma_plain(s, both, 'H');
    lemma_plain(s, both, 'f');
    lemma_plain(s, seq![seq![n]], 'H');
    lemma_plain(s, seq![seq![n]], 'f');
    lemma_plain(s, seq![seq![n]], 'd');
    lemma_plain(s, seq![seq![m]], 'G');
    lemma_plain(s, seq![seq![m]], '`');
    assert(s.plain_csi(both, 'H') == s.gone_to(times(n) - 1, times(m) - 1)
        && s.plain_csi(both, 'f') == s.gone_to(times(n) - 1, times(m) - 1)
        && s.plain_csi(seq![seq![n]], 'H') == s.gone_to(times(n) - 1, 0)
        && s.plain_csi(seq![seq![n]], 'f') == s.gone_to(times(n) - 1, 0)) by {
        reveal(ScreenView::plain_csi);
    }
    assert(s.plain_csi(seq![seq![n]], 'd') == s.gone_to(times(n) - 1, shown(s).cursor.col as int)
        && s.plain_csi(seq![seq![m]], 'G') == s.gone_to_col(times(m) - 1)
        && s.plain_csi(seq![seq![m]], '`') == s.gone_to_col(times(m) - 1)) by {
        reveal(ScreenView::plain_csi);
    }
}

/// A program that asks where the cursor is learns it: the row and the column that it last moved
/// to, counted from one. Asking changes nothing else, and other questions have their own answers.
pub proof fn law_reports_tell_the_truth(s: ScreenView, params: Seq<Seq<u16>>)
    requires
        s.wf(),
        params.len() == 0 || params[0].len() == 0 || params[0][0] == 0,
    ensures
        s.after(csi_of(6, 'n')) == (ScreenView {
            writes: s.writes.push(
                encode_utf8(
                    "\x1b["@ + decimal((shown(s).cursor.row + 1) as nat) + ";"@ + decimal(
                        (shown(s).cursor.col + 1) as nat,
                    ) + "R"@,
                ),
            ),
            ..s
        }),
        s.after(csi_of(5, 'n')) == (ScreenView {
            writes: s.writes.push(encode_utf8("\x1b[0n"@)),
            ..s
        }),
        s.after(csi(params, 'c')) == (ScreenView {
            writes: s.writes.push(encode_utf8("\x1b[?1;2c"@)),
            ..s
        }),
        s.after(csi_of(18, 't')) == (ScreenView {
            writes: s.writes.push(
                encode_utf8(
                    "\x1b[8;"@ + decimal(shown(s).rows as nat) + ";"@ + decimal(
                        shown(s).cols as nat,
                    ) + "t"@,
                ),
            ),
            ..s
        }),
        s.after(csi_of(14, 't')) == (ScreenView {
            writes: s.writes.push(
                encode_utf8(
                    "\x1b[4;"@ + decimal((17 * shown(s).rows) as nat) + ";"@ + decimal(
                        (8 * shown(s).cols) as nat,
                    ) + "t"@,
                ),
            ),
            ..s
        }),
        s.after(
            EventView::Csi { params, intermediates: seq![0x3fu8], ignore: false, action: 'u' },
        ) == (ScreenView {
            writes: s.writes.push(
                encode_utf8("\x1b[?"@ + decimal(s.keyboard.bits as nat) + "u"@),
            ),
            ..s
        }),
{
    assert(seq![seq![5u16]][0] == seq![5u16]);
    assert(seq![seq![6u16]][0] == seq![6u16]);
    assert(seq![seq![14u16]][0] == seq![14u16]);
    assert(seq![seq![18u16]][0] == seq![18u16]);
    lemma_plain(s, seq![seq![5u16]], 'n');
    lemma_plain(s, seq![seq![6u16]], 'n');
    lemma_plain(s, seq![seq![14u16]], 't');
    lemma_plain(s, seq![seq![18u16]], 't');
    assert(s.plain_csi(seq![seq![5u16]], 'n') == s.status_reported(5) && s.plain_csi(
        seq![seq![6u16]],
        'n',
    ) == s.status_reported(6)) by {
        reveal(ScreenView::plain_csi);
    }
    assert(s.plain_csi(seq![seq![14u16]], 't') == s.size_reported(14) && s.plain_csi(
        seq![seq![18u16]],
        't',
    ) == s.size_reported(18)) by {
        reveal(ScreenView::plain_csi);
    }
    assert(seq![0x3fu8].len() == 1 && seq![0x3fu8][0] == 0x3fu8);
    assert(s.after(
        EventView::Csi { params, intermediates: seq![0x3fu8], ignore: false, action: 'u' },
    ) == s.replied("\x1b[?"@ + decimal(s.keyboard.bits as nat) + "u"@)) by {
        reveal(ScreenView::after);
        reveal(ScreenView::keyboard_csi);
    }
    assert(s.after(csi(params, 'c')) == s.replied("\x1b[?1;2c"@)) by {
        reveal(ScreenView::after);
    }
}

/// What follows a move reports it.
pub proof fn law_moves_are_reported(s: ScreenView, row: u16, col: u16)
    requires
        s.wf(),
        !s.modes.origin,
        1 <= row <= shown(s).rows,
        1 <= col <= shown(s).cols,
    ensures
        s.after(csi(seq![seq![row], seq![col]], 'H')).after(csi_of(6, 'n')).writes.last()
            == encode_utf8("\x1b["@ + decimal(row as nat) + ";"@ + decimal(col as nat) + "R"@),
{
    law_absolute_moves(s, row, col);
    law_reports_tell_the_truth(s.after(csi(seq![seq![row], seq![col]], 'H')), seq![]);
}

/// A left out parameter counts as zero, and a control sequence that a program got wrong does
/// nothing.
pub proof fn law_left_out_parameters(
    s: ScreenView,
    params: Seq<Seq<u16>>,
    intermediates: Seq<u8>,
    action: char,
)
    ensures
        s.after(csi(seq![], action)) == s.after(csi_of(0, action)),
        s.after(EventView::Csi { params, intermediates, ignore: true, action }) == s,
{
    reveal(ScreenView::after);
    reveal(ScreenView::plain_csi);
    reveal_with_fuel(ScreenView::modes_changed, 2);
    reveal_with_fuel(attributes, 2);
    let zero = seq![seq![0u16]];
    assert(zero.len() == 1 && zero[0].len() == 1 && zero[0][0] == 0);
    assert(zero.last() == zero[0]);
    assert(zero.drop_last() =~= seq![]);
    let values = zero.map_values(|param: Seq<u16>| if param.len() > 0 { param[0] } else { 0u16 });
    assert(values =~= seq![0u16]);
    assert(values.skip(1) =~= seq![]);
}

} // verus!
