//! What a program can rely on when it changes the settings of the terminal.

use vstd::prelude::*;

use crate::terminal::buffer::{BufferView, Cursor};
use crate::terminal::cell::{Cell, CellStyle, Color, TerminalColor, drawn, resolved_color};
use crate::terminal::control_laws::{csi, csi_of, cursor_went, lemma_plain, shown, showing};
use crate::terminal::drawing_laws::{empty_cell, empty_row};
use crate::terminal::events::EventView;
use crate::terminal::modes::{KeyboardModes, ModeFlag, TermMode};
use crate::terminal::screen::{ScreenView, attributes, mode_flag};
use crate::text::{joined, utf8_lossy};

verus! {

/// What the screen becomes when what is drawn next has another style and nothing else changes.
pub open spec fn styled(s: ScreenView, style: CellStyle) -> ScreenView {
    ScreenView { style, ..s }
}

proof fn lemma_style(s: ScreenView, n: u16)
    requires
        n != 38 && n != 48,
    ensures
        s.after(csi_of(n, 'm')) == styled(s, crate::terminal::screen::attribute(s.style, n)),
{
    let one = seq![seq![n]];
    assert(one[0] == seq![n]);
    lemma_plain(s, one, 'm');
    let values = one.map_values(|param: Seq<u16>| if param.len() > 0 { param[0] } else { 0u16 });
    assert(values =~= seq![n]);
    reveal_with_fuel(attributes, 2);
    assert(values.skip(1) =~= seq![]);
    assert(s.plain_csi(one, 'm') == styled(s, attributes(s.style, values))) by {
        reveal(ScreenView::plain_csi);
    }
}

/// Each attribute is switched on by its number and off by another, and touches no other attribute.
/// Bold and dim are switched off together, and zero switches all of them off.
pub proof fn law_attributes(s: ScreenView)
    ensures
        s.after(csi_of(1, 'm')) == styled(s, CellStyle { bold: true, ..s.style }),
        s.after(csi_of(2, 'm')) == styled(s, CellStyle { dim: true, ..s.style }),
        s.after(csi_of(3, 'm')) == styled(s, CellStyle { italic: true, ..s.style }),
        s.after(csi_of(4, 'm')) == styled(s, CellStyle { underline: true, ..s.style }),
        s.after(csi_of(7, 'm')) == styled(s, CellStyle { inverse: true, ..s.style }),
        s.after(csi_of(8, 'm')) == styled(s, CellStyle { hidden: true, ..s.style }),
        s.after(csi_of(22, 'm')) == styled(s, CellStyle { bold: false, dim: false, ..s.style }),
        s.after(csi_of(23, 'm')) == styled(s, CellStyle { italic: false, ..s.style }),
        s.after(csi_of(24, 'm')) == styled(s, CellStyle { underline: false, ..s.style }),
        s.after(csi_of(27, 'm')) == styled(s, CellStyle { inverse: false, ..s.style }),
        s.after(csi_of(28, 'm')) == styled(s, CellStyle { hidden: false, ..s.style }),
        s.after(csi_of(39, 'm')) == styled(
            s,
            CellStyle { fg: TerminalColor::DefaultForeground, ..s.style },
        ),
        s.after(csi_of(49, 'm')) == styled(
            s,
            CellStyle { bg: TerminalColor::DefaultBackground, ..s.style },
        ),
        s.after(csi_of(0, 'm')) == styled(
            s,
            CellStyle {
                fg: TerminalColor::DefaultForeground,
                bg: TerminalColor::DefaultBackground,
                bold: false,
                dim: false,
                italic: false,
                underline: false,
                inverse: false,
                hidden: false,
            },
        ),
{
    lemma_style(s, 0);
    lemma_style(s, 1);
    lemma_style(s, 2);
    lemma_style(s, 3);
    lemma_style(s, 4);
    lemma_style(s, 7);
    lemma_style(s, 8);
    lemma_style(s, 22);
    lemma_style(s, 23);
    lemma_style(s, 24);
    lemma_style(s, 27);
    lemma_style(s, 28);
    lemma_style(s, 39);
    lemma_style(s, 49);
}

/// The sixteen named colours: eight plain and eight bright ones, each for the text and for what is
/// behind it.
pub proof fn law_named_colors(s: ScreenView, index: u16)
    requires
        index < 8,
    ensures
        s.after(csi_of((30 + index) as u16, 'm')) == styled(
            s,
            CellStyle { fg: TerminalColor::Palette(index as u8), ..s.style },
        ),
        s.after(csi_of((40 + index) as u16, 'm')) == styled(
            s,
            CellStyle { bg: TerminalColor::Palette(index as u8), ..s.style },
        ),
        s.after(csi_of((90 + index) as u16, 'm')) == styled(
            s,
            CellStyle { fg: TerminalColor::Palette((8 + index) as u8), ..s.style },
        ),
        s.after(csi_of((100 + index) as u16, 'm')) == styled(
            s,
            CellStyle { bg: TerminalColor::Palette((8 + index) as u8), ..s.style },
        ),
{
    lemma_style(s, (30 + index) as u16);
    lemma_style(s, (40 + index) as u16);
    lemma_style(s, (90 + index) as u16);
    lemma_style(s, (100 + index) as u16);
}

/// A colour given by its number in the palette, or by its red, green and blue parts.
pub proof fn law_numbered_colors(s: ScreenView, which: u16, r: u8, g: u8, b: u8)
    requires
        which == 38 || which == 48,
    ensures
        s.after(csi(seq![seq![which], seq![5u16], seq![r as u16]], 'm')) == styled(
            s,
            if which == 38 {
                CellStyle { fg: TerminalColor::Palette(r), ..s.style }
            } else {
                CellStyle { bg: TerminalColor::Palette(r), ..s.style }
            },
        ),
        s.after(
            csi(seq![seq![which], seq![2u16], seq![r as u16], seq![g as u16], seq![b as u16]], 'm'),
        ) == styled(
            s,
            if which == 38 {
                CellStyle { fg: TerminalColor::Rgb(r, g, b), ..s.style }
            } else {
                CellStyle { bg: TerminalColor::Rgb(r, g, b), ..s.style }
            },
        ),
{
    reveal_with_fuel(attributes, 2);
    let three = seq![seq![which], seq![5u16], seq![r as u16]];
    let five = seq![seq![which], seq![2u16], seq![r as u16], seq![g as u16], seq![b as u16]];
    let first = three.map_values(|param: Seq<u16>| if param.len() > 0 { param[0] } else { 0u16 });
    let second = five.map_values(|param: Seq<u16>| if param.len() > 0 { param[0] } else { 0u16 });
    assert(first =~= seq![which, 5u16, r as u16]);
    assert(second =~= seq![which, 2u16, r as u16, g as u16, b as u16]);
    assert(first.skip(3) =~= seq![]);
    assert(second.skip(5) =~= seq![]);
    lemma_plain(s, three, 'm');
    lemma_plain(s, five, 'm');
    assert(s.plain_csi(three, 'm') == styled(s, attributes(s.style, first)) && s.plain_csi(
        five,
        'm',
    ) == styled(s, attributes(s.style, second))) by {
        reveal(ScreenView::plain_csi);
    }
}

/// Several attributes in one control sequence act as if each had come in one of its own, the first
/// one first. Only what begins a longer colour takes the numbers behind it.
pub proof fn law_attributes_come_in_turn(s: ScreenView, n: u16, rest: Seq<Seq<u16>>)
    requires
        n != 38 && n != 48,
        rest.len() > 0,
    ensures
        s.after(csi(seq![seq![n]] + rest, 'm')) == s.after(csi_of(n, 'm')).after(csi(rest, 'm')),
{
    let all = seq![seq![n]] + rest;
    let pick = |param: Seq<u16>| if param.len() > 0 { param[0] } else { 0u16 };
    lemma_style(s, n);
    lemma_plain(s, all, 'm');
    lemma_plain(s.after(csi_of(n, 'm')), rest, 'm');
    let values = all.map_values(pick);
    assert(values.len() > 0 && values[0] == n);
    assert(values.skip(1) =~= rest.map_values(pick));
    assert(values =~= crate::terminal::screen::leading(all));
    assert(rest.map_values(pick) =~= crate::terminal::screen::leading(rest));
    assert(s.plain_csi(all, 'm') == styled(s, attributes(s.style, values))) by {
        reveal(ScreenView::plain_csi);
    }
    let next = s.after(csi_of(n, 'm'));
    assert(next.plain_csi(rest, 'm') == styled(
        next,
        attributes(next.style, rest.map_values(pick)),
    )) by {
        reveal(ScreenView::plain_csi);
    }
}

/// A control sequence that sets or clears one mode.
pub open spec fn mode_set(private: bool, mode: u16, on: bool) -> EventView {
    EventView::Csi {
        params: seq![seq![mode]],
        intermediates: if private {
            seq![0x3fu8]
        } else {
            seq![]
        },
        ignore: false,
        action: if on {
            'h'
        } else {
            'l'
        },
    }
}

/// What the screen becomes when its modes are other ones and nothing else changes.
pub open spec fn in_modes(s: ScreenView, modes: TermMode) -> ScreenView {
    ScreenView { modes, ..s }
}

proof fn lemma_mode(s: ScreenView, private: bool, mode: u16, on: bool)
    requires
        mode != 0,
    ensures
        s.after(mode_set(private, mode, on)) == s.mode_changed(private, mode, on),
{
    reveal(ScreenView::after);
    reveal_with_fuel(ScreenView::modes_changed, 2);
    let one = seq![seq![mode]];
    assert(one.last() == seq![mode]);
    assert(one.drop_last() =~= seq![]);
    assert(seq![0x3fu8][0] == 0x3fu8);
}

proof fn lemma_flag(s: ScreenView, private: bool, mode: u16, flag: ModeFlag, on: bool)
    requires
        mode_flag(private, mode) == Some(flag),
    ensures
        s.after(mode_set(private, mode, on)) == in_modes(s, s.modes.with(flag, on)),
{
    lemma_mode(s, private, mode, on);
}

proof fn lemma_with(modes: TermMode, on: bool)
    ensures
        modes.with(ModeFlag::AppCursor, on) == (TermMode { app_cursor: on, ..modes }),
        modes.with(ModeFlag::LineWrap, on) == (TermMode { line_wrap: on, ..modes }),
        modes.with(ModeFlag::ShowCursor, on) == (TermMode { show_cursor: on, ..modes }),
        modes.with(ModeFlag::BracketedPaste, on) == (TermMode { bracketed_paste: on, ..modes }),
        modes.with(ModeFlag::MouseReportClick, on) == (TermMode { mouse_report_click: on, ..modes }),
        modes.with(ModeFlag::MouseDrag, on) == (TermMode { mouse_drag: on, ..modes }),
        modes.with(ModeFlag::MouseMotion, on) == (TermMode { mouse_motion: on, ..modes }),
        modes.with(ModeFlag::SgrMouse, on) == (TermMode { sgr_mouse: on, ..modes }),
        modes.with(ModeFlag::FocusInOut, on) == (TermMode { focus_in_out: on, ..modes }),
        modes.with(ModeFlag::AlternateScroll, on) == (TermMode { alternate_scroll: on, ..modes }),
        modes.with(ModeFlag::Insert, on) == (TermMode { insert: on, ..modes }),
        modes.with(ModeFlag::LineFeedNewLine, on) == (TermMode { line_feed_new_line: on, ..modes }),
{
    reveal(TermMode::with);
}

/// A mode is on once a program sets it and off once a program clears it, and touches no other mode:
/// how the cursor keys answer, whether lines wrap, whether the cursor is seen and whether pasted
/// text is bracketed.
pub proof fn law_modes(s: ScreenView, on: bool)
    ensures
        s.after(mode_set(true, 1, on)) == in_modes(s, TermMode { app_cursor: on, ..s.modes }),
        s.after(mode_set(true, 7, on)) == in_modes(s, TermMode { line_wrap: on, ..s.modes }),
        s.after(mode_set(true, 25, on)) == in_modes(s, TermMode { show_cursor: on, ..s.modes }),
        s.after(mode_set(true, 2004, on)) == in_modes(s, TermMode { bracketed_paste: on, ..s.modes }),
{
    lemma_with(s.modes, on);
    lemma_flag(s, true, 1, ModeFlag::AppCursor, on);
    lemma_flag(s, true, 7, ModeFlag::LineWrap, on);
    lemma_flag(s, true, 25, ModeFlag::ShowCursor, on);
    lemma_flag(s, true, 2004, ModeFlag::BracketedPaste, on);
}

/// The modes in which the mouse is reported, each by its number and apart from the others.
pub proof fn law_mouse_modes(s: ScreenView, on: bool)
    ensures
        s.after(mode_set(true, 1000, on)) == in_modes(s, TermMode { mouse_report_click: on, ..s.modes }),
        s.after(mode_set(true, 1002, on)) == in_modes(s, TermMode { mouse_drag: on, ..s.modes }),
        s.after(mode_set(true, 1003, on)) == in_modes(s, TermMode { mouse_motion: on, ..s.modes }),
        s.after(mode_set(true, 1006, on)) == in_modes(s, TermMode { sgr_mouse: on, ..s.modes }),
{
    lemma_with(s.modes, on);
    lemma_flag(s, true, 1000, ModeFlag::MouseReportClick, on);
    lemma_flag(s, true, 1002, ModeFlag::MouseDrag, on);
    lemma_flag(s, true, 1003, ModeFlag::MouseMotion, on);
    lemma_flag(s, true, 1006, ModeFlag::SgrMouse, on);
}

/// The modes for focus, for scrolling on the alternate screen, for inserting and for line feeds,
/// each by its number and apart from the others.
pub proof fn law_other_modes(s: ScreenView, on: bool)
    ensures
        s.after(mode_set(true, 1004, on)) == in_modes(s, TermMode { focus_in_out: on, ..s.modes }),
        s.after(mode_set(true, 1007, on)) == in_modes(s, TermMode { alternate_scroll: on, ..s.modes }),
        s.after(mode_set(false, 4, on)) == in_modes(s, TermMode { insert: on, ..s.modes }),
        s.after(mode_set(false, 20, on)) == in_modes(s, TermMode { line_feed_new_line: on, ..s.modes }),
{
    lemma_with(s.modes, on);
    lemma_flag(s, true, 1004, ModeFlag::FocusInOut, on);
    lemma_flag(s, true, 1007, ModeFlag::AlternateScroll, on);
    lemma_flag(s, false, 4, ModeFlag::Insert, on);
    lemma_flag(s, false, 20, ModeFlag::LineFeedNewLine, on);
}

/// Several modes in one control sequence are set or cleared one after the other.
pub proof fn law_modes_come_in_turn(
    s: ScreenView,
    private: bool,
    before: Seq<Seq<u16>>,
    mode: u16,
    on: bool,
)
    requires
        mode != 0,
    ensures
        ({
            let marker = if private {
                seq![0x3fu8]
            } else {
                seq![]
            };
            let action = if on {
                'h'
            } else {
                'l'
            };
            s.after(
                EventView::Csi {
                    params: before.push(seq![mode]),
                    intermediates: marker,
                    ignore: false,
                    action,
                },
            ) == s.after(
                EventView::Csi { params: before, intermediates: marker, ignore: false, action },
            ).after(mode_set(private, mode, on))
        }),
{
    let all = before.push(seq![mode]);
    assert(all.drop_last() =~= before);
    assert(all.last() == seq![mode]);
    assert(seq![0x3fu8][0] == 0x3fu8);
    reveal(ScreenView::after);
    lemma_mode(s.modes_changed(private, before, on), private, mode, on);
}

/// The alternate screen comes up empty, with its cursor at the top left corner, and leaving it
/// brings back the primary one with the cursor where it was.
pub proof fn law_the_alternate_screen(s: ScreenView, mode: u16)
    requires
        s.wf(),
        mode == 47 || mode == 1049,
    ensures
        ({
            let there = s.after(mode_set(true, mode, true));
            let back = there.after(mode_set(true, mode, false));
            &&& there.active_buffer is Alternate
            &&& there.alternate.cursor == (Cursor { row: 0, col: 0 })
            &&& forall|r: int, c: int|
                0 <= r < s.alternate.rows && 0 <= c < s.alternate.cols
                    ==> #[trigger] there.alternate.cells[r][c] == empty_cell(s)
            &&& there.style == s.style && there.modes == s.modes && there.title == s.title
            &&& there.writes == s.writes
            &&& s.active_buffer is Primary ==> {
                &&& there.primary == (BufferView { saved_cursor: s.primary.cursor, ..s.primary })
                &&& back.active_buffer is Primary
                &&& back.primary == there.primary
            }
        }),
{
    lemma_mode(s, true, mode, true);
    lemma_mode(s.after(mode_set(true, mode, true)), true, mode, false);
}

/// A program saves the place of the cursor and goes back to it, in either of the two ways.
pub proof fn law_saved_places(s: ScreenView, saving: EventView, back: EventView)
    requires
        s.wf(),
        saving == (EventView::Esc { intermediates: seq![], byte: 0x37 }) || saving == csi_of(
            0,
            's',
        ),
        back == (EventView::Esc { intermediates: seq![], byte: 0x38 }) || back == csi_of(0, 'u'),
    ensures
        s.after(saving) == showing(s, BufferView { saved_cursor: shown(s).cursor, ..shown(s) }),
        s.after(back) == showing(s, BufferView { cursor: shown(s).saved_cursor, ..shown(s) }),
{
    if saving == csi_of(0, 's') {
        lemma_plain(s, seq![seq![0u16]], 's');
        assert(s.plain_csi(seq![seq![0u16]], 's') == s.cursor_saved()) by {
            reveal(ScreenView::plain_csi);
        }
    } else {
        reveal(ScreenView::after);
        reveal(ScreenView::escaped);
    }
    if back == csi_of(0, 'u') {
        lemma_plain(s, seq![seq![0u16]], 'u');
        assert(s.plain_csi(seq![seq![0u16]], 'u') == s.cursor_restored()) by {
            reveal(ScreenView::plain_csi);
        }
    } else {
        assert(s.after(back) == s.cursor_restored()) by {
            reveal(ScreenView::after);
            reveal(ScreenView::escaped);
        }
    }
}

/// The escape sequences: a reverse line feed goes up a row, and at the top of the scrolling region
/// moves the lines down instead; a next line goes to the start of the line that a line feed goes
/// to; and the keypad has two modes.
pub proof fn law_escape_sequences(s: ScreenView)
    requires
        s.wf(),
    ensures
        ({
            let cursor = shown(s).cursor;
            let top = shown(s).scroll_top;
            let bottom = shown(s).scroll_bottom;
            let up = s.after(EventView::Esc { intermediates: seq![], byte: 0x4d });
            &&& cursor.row > top ==> cursor_went(s, up, cursor.row - 1, cursor.col as int)
            &&& cursor.row <= top ==> {
                &&& up == showing(s, BufferView { cells: shown(up).cells, ..shown(s) })
                &&& shown(up).cells.len() == shown(s).rows
                &&& shown(up).cells[top] == empty_row(s)
                &&& forall|r: int|
                    top < r < bottom ==> #[trigger] shown(up).cells[r] == shown(s).cells[r - 1]
                &&& forall|r: int|
                    0 <= r < top || bottom <= r < shown(s).rows ==> #[trigger] shown(up).cells[r]
                        == shown(s).cells[r]
            }
            &&& s.after(EventView::Esc { intermediates: seq![], byte: 0x45 }) == s.after(
                EventView::Execute(10),
            ).after(EventView::Execute(13))
            &&& s.after(EventView::Esc { intermediates: seq![], byte: 0x3d }) == in_modes(
                s,
                TermMode { app_keypad: true, ..s.modes },
            )
            &&& s.after(EventView::Esc { intermediates: seq![], byte: 0x3e }) == in_modes(
                s,
                TermMode { app_keypad: false, ..s.modes },
            )
        }),
{
    let up = s.after(EventView::Esc { intermediates: seq![], byte: 0x4d });
    assert(up == s.reverse_indexed()) by {
        reveal(ScreenView::after);
        reveal(ScreenView::escaped);
    }
    if shown(s).cursor.row <= shown(s).scroll_top {
        assert(shown(up).cells[shown(s).scroll_top] =~= empty_row(s));
    }
    assert(s.after(EventView::Esc { intermediates: seq![], byte: 0x45 }) == s.after(
        EventView::Execute(10),
    ).after(EventView::Execute(13))) by {
        reveal(ScreenView::after);
        reveal(ScreenView::executed);
        reveal(ScreenView::escaped);
    }
    assert(s.after(EventView::Esc { intermediates: seq![], byte: 0x3d }) == in_modes(
        s,
        TermMode { app_keypad: true, ..s.modes },
    )) by {
        reveal(ScreenView::after);
        reveal(ScreenView::escaped);
        reveal(TermMode::with);
    }
    assert(s.after(EventView::Esc { intermediates: seq![], byte: 0x3e }) == in_modes(
        s,
        TermMode { app_keypad: false, ..s.modes },
    )) by {
        reveal(ScreenView::after);
        reveal(ScreenView::escaped);
        reveal(TermMode::with);
    }
}

/// A reset empties both screens and takes back every setting. What was read, the title and the
/// replies that still wait stay.
pub proof fn law_resets(s: ScreenView)
    requires
        s.wf(),
    ensures
        ({
            let reset = s.after(EventView::Esc { intermediates: seq![], byte: 0x63 });
            &&& reset.active_buffer is Primary
            &&& reset.primary.cursor == (Cursor { row: 0, col: 0 })
            &&& reset.primary.scroll_top == 0
            &&& reset.primary.scroll_bottom == s.primary.rows
            &&& forall|r: int, c: int|
                0 <= r < s.primary.rows && 0 <= c < s.primary.cols
                    ==> (#[trigger] reset.primary.cells[r][c]).ch == ' '
            &&& forall|r: int, c: int|
                0 <= r < s.alternate.rows && 0 <= c < s.alternate.cols
                    ==> (#[trigger] reset.alternate.cells[r][c]).ch == ' '
            &&& reset.style.fg == TerminalColor::DefaultForeground
            &&& reset.style.bg == TerminalColor::DefaultBackground
            &&& !reset.style.bold && !reset.style.dim && !reset.style.italic
            &&& !reset.style.underline && !reset.style.inverse && !reset.style.hidden
            &&& reset.modes.line_wrap && reset.modes.show_cursor && reset.modes.alternate_scroll
            &&& !reset.modes.app_cursor && !reset.modes.app_keypad && !reset.modes.insert
            &&& !reset.modes.origin && !reset.modes.line_feed_new_line
            &&& !reset.modes.mouse_report_click && !reset.modes.mouse_drag
            &&& !reset.modes.mouse_motion && !reset.modes.focus_in_out && !reset.modes.sgr_mouse
            &&& !reset.modes.bracketed_paste
            &&& reset.keyboard.bits == 0 && reset.modes.keyboard.bits == 0
            &&& reset.title == s.title && reset.writes == s.writes && reset.fed == s.fed
        }),
{
    reveal(ScreenView::after);
    reveal(ScreenView::escaped);
}

/// A control sequence of the keyboard protocol.
pub open spec fn keyboard(params: Seq<Seq<u16>>, marker: u8) -> EventView {
    EventView::Csi { params, intermediates: seq![marker], ignore: false, action: 'u' }
}

/// What the screen becomes when the keyboard has other flags and nothing else changes.
pub open spec fn with_keyboard(s: ScreenView, bits: u32) -> ScreenView {
    ScreenView {
        keyboard: KeyboardModes { bits },
        modes: TermMode { keyboard: KeyboardModes { bits }, ..s.modes },
        ..s
    }
}

/// The flags of the keyboard are replaced, added to or taken from, as the program says. Pushing
/// adds flags and popping clears them.
pub proof fn law_keyboard_flags(s: ScreenView, flags: u16, params: Seq<Seq<u16>>)
    requires
        0 < flags < 32,
    ensures
        s.after(keyboard(seq![seq![flags], seq![1u16]], 0x3d)) == with_keyboard(s, flags as u32),
        s.after(keyboard(seq![seq![flags]], 0x3d)) == with_keyboard(s, flags as u32),
        s.after(keyboard(seq![seq![flags], seq![2u16]], 0x3d)) == with_keyboard(
            s,
            s.keyboard.bits | flags as u32,
        ),
        s.after(keyboard(seq![seq![flags], seq![3u16]], 0x3d)) == with_keyboard(
            s,
            s.keyboard.bits & !(flags as u32),
        ),
        s.after(keyboard(seq![seq![flags]], 0x3e)) == with_keyboard(
            s,
            s.keyboard.bits | flags as u32,
        ),
        s.after(keyboard(params, 0x3c)) == with_keyboard(s, 0),
{
    let wide = flags as u32;
    assert(wide & 31 == wide) by (bit_vector)
        requires
            wide < 32,
    ;
    assert(forall|marker: u8| #![auto] seq![marker].len() == 1 && seq![marker][0] == marker);
    let one = seq![seq![flags]];
    assert(one.len() == 1 && one[0] == seq![flags]);
    let a = seq![seq![flags], seq![1u16]];
    let b = seq![seq![flags], seq![2u16]];
    let c = seq![seq![flags], seq![3u16]];
    assert(a[0] == seq![flags] && a[1] == seq![1u16]);
    assert(b[0] == seq![flags] && b[1] == seq![2u16]);
    assert(c[0] == seq![flags] && c[1] == seq![3u16]);
    reveal(ScreenView::after);
    reveal(ScreenView::keyboard_csi);
}

/// A cell is drawn in its own colours: text in the one and what is behind it in the other, swapped
/// where the text is inverse or the cursor stands there, and the text at half its brightness where
/// it is dim.
pub proof fn law_cells_are_drawn_in_their_colors(cell: Cell, is_cursor: bool)
    ensures
        ({
            let seen = drawn(cell, is_cursor);
            let text = resolved_color(
                if cell.style.inverse || is_cursor {
                    cell.style.bg
                } else {
                    cell.style.fg
                },
            );
            let behind = resolved_color(
                if cell.style.inverse || is_cursor {
                    cell.style.fg
                } else {
                    cell.style.bg
                },
            );
            &&& seen.ch == cell.ch
            &&& seen.bg == behind
            &&& !cell.style.dim ==> seen.fg == text
            &&& cell.style.dim ==> seen.fg.r == text.r / 2 && seen.fg.g == text.g / 2 && seen.fg.b
                == text.b / 2 && seen.fg.a == text.a
            &&& seen.bold == cell.style.bold
            &&& seen.italic == cell.style.italic
            &&& seen.underline == cell.style.underline
        }),
{
}

/// Colours that a program gives by their parts are those colours. In the palette, sixteen named
/// colours are followed by a cube of six levels for each part and by a ramp of greys.
pub proof fn law_colors(r: u8, g: u8, b: u8, level: u8)
    requires
        r < 6 && g < 6 && b < 6,
        level < 24,
    ensures
        resolved_color(TerminalColor::Rgb(r, g, b)) == (Color { r, g, b, a: 255 }),
        ({
            let cube = resolved_color(TerminalColor::Palette((16 + 36 * r + 6 * g + b) as u8));
            &&& cube.r == if r == 0 {
                0
            } else {
                55 + 40 * r
            }
            &&& cube.g == if g == 0 {
                0
            } else {
                55 + 40 * g
            }
            &&& cube.b == if b == 0 {
                0
            } else {
                55 + 40 * b
            }
            &&& cube.a == 255
        }),
        ({
            let grey = resolved_color(TerminalColor::Palette((232 + level) as u8));
            &&& grey.r == 8 + 10 * level
            &&& grey.g == grey.r && grey.b == grey.r && grey.a == 255
        }),
{
    let index = 36 * r + 6 * g + b;
    assert(index / 36 == r && (index % 36) / 6 == g && index % 6 == b);
}

/// The cells that a screen keeps when it is given another size are those that fit, each in its
/// place; the others are empty. A cursor that would be outside is at the edge.
pub proof fn law_resizing(buffer: BufferView, cols: int, rows: int)
    requires
        buffer.wf(),
        1 <= cols <= u16::MAX,
        1 <= rows <= u16::MAX,
    ensures
        ({
            let after = buffer.resized(cols, rows);
            &&& after.cols == cols && after.rows == rows
            &&& after.scroll_top == 0 && after.scroll_bottom == rows
            &&& forall|r: int, c: int|
                0 <= r < rows && 0 <= c < cols && r < buffer.rows && c < buffer.cols
                    ==> #[trigger] after.cells[r][c] == buffer.cells[r][c]
            &&& forall|r: int, c: int|
                0 <= r < rows && 0 <= c < cols && (r >= buffer.rows || c >= buffer.cols)
                    ==> (#[trigger] after.cells[r][c]).ch == ' '
            &&& buffer.cursor.row < rows ==> after.cursor.row == buffer.cursor.row
            &&& buffer.cursor.row >= rows ==> after.cursor.row == rows - 1
            &&& buffer.cursor.col < cols ==> after.cursor.col == buffer.cursor.col
            &&& buffer.cursor.col >= cols ==> after.cursor.col == cols - 1
        }),
{
}

/// A program names its window: what it sends is the title, word for word, and nothing else changes.
/// Other commands of that form do nothing.
pub proof fn law_titles(s: ScreenView, command: u8, title: Seq<u8>)
    ensures
        48 <= command <= 50 ==> s.after(EventView::Osc(seq![seq![command], title])) == (ScreenView {
            title: Some(utf8_lossy(title)),
            ..s
        }),
        !(48 <= command <= 50) ==> s.after(EventView::Osc(seq![seq![command], title])) == s,
{
    let params = seq![seq![command], title];
    assert(params[0] == seq![command]);
    assert(seq![command][0] == command);
    assert(seq![48u8][0] == 48 && seq![49u8][0] == 49 && seq![50u8][0] == 50);
    let parts = params.skip(1).map_values(|param: Seq<u8>| utf8_lossy(param));
    assert(parts =~= seq![utf8_lossy(title)]);
    assert(joined(parts, ";"@) == utf8_lossy(title));
    reveal(ScreenView::after);
}

} // verus!
