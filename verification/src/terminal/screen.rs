//! The terminal's screen: what each event does to it.

use vstd::prelude::*;
use vstd::utf8::encode_utf8;

use crate::terminal::buffer::{BufferView, Cursor, RenderedRow, ScreenBuffer, max, min};
use crate::terminal::cell::{Cell, CellStyle, TerminalColor, plain_style};
use crate::terminal::events::{
    EventView, TermEvent, advance, byte_lists, event_views, new_parser, number_lists, vte_events,
    vte_histories,
};
use crate::terminal::modes::{
    KeyboardModes, KeyboardModesApplyBehavior, ModeFlag, TermMode, initial_term_mode,
};
use crate::text::{decimal, join, joined, lossy_text, opt_text, push_decimal, texts, utf8_bytes, utf8_lossy};

verus! {

/// The columns that `UnicodeWidthChar::width` gives a character, `None` for a control character.
pub uninterp spec fn char_columns(c: char) -> Option<usize>;

/// `UnicodeWidthChar::width`: control characters have no width, printable ASCII takes one column,
/// and nothing takes more than three. The width of other characters depends on the character
/// alone.
#[verifier::external_body]
fn columns_of(c: char) -> (columns: Option<usize>)
    ensures
        columns == char_columns(c),
        columns is None <==> c < ' ' || '\u{7f}' <= c < '\u{a0}',
        ' ' <= c < '\u{7f}' ==> columns == Some(1usize),
        columns is Some ==> columns->0 <= 3,
{
    unicode_width::UnicodeWidthChar::width(c)
}

/// The columns that printing `c` takes: a control character counts as one.
pub open spec fn print_width(c: char) -> int {
    match char_columns(c) {
        Some(width) => width as int,
        None => 1,
    }
}

#[derive(Debug, Clone, Copy, PartialEq, Eq, Structural)]
pub enum ActiveBuffer {
    Primary,
    Alternate,
}

/// A terminal: two screens of one size, of which one is shown, and what programs have set.
pub struct TerminalScreen {
    parser: vte::Parser<1024>,
    fed: Ghost<Seq<u8>>,
    primary: ScreenBuffer,
    alternate: ScreenBuffer,
    active_buffer: ActiveBuffer,
    style: CellStyle,
    term_mode: TermMode,
    keyboard_modes: KeyboardModes,
    title: Option<String>,
    pending_writes: Vec<Vec<u8>>,
}

/// The modes that the encoding of keyboard and mouse input depends on.
#[derive(Clone, Copy)]
pub struct TerminalInputMode {
    pub term_mode: TermMode,
}

/// The mathematical content of a [`TerminalScreen`]. `fed` is what its parser has read.
#[verifier::ext_equal]
pub struct ScreenView {
    pub fed: Seq<u8>,
    pub primary: BufferView,
    pub alternate: BufferView,
    pub active_buffer: ActiveBuffer,
    pub style: CellStyle,
    pub modes: TermMode,
    pub keyboard: KeyboardModes,
    pub title: Option<Seq<char>>,
    pub writes: Seq<Seq<u8>>,
}

impl View for TerminalScreen {
    type V = ScreenView;

    closed spec fn view(&self) -> ScreenView {
        ScreenView {
            fed: self.fed@,
            primary: self.primary@,
            alternate: self.alternate@,
            active_buffer: self.active_buffer,
            style: self.style,
            modes: self.term_mode,
            keyboard: self.keyboard_modes,
            title: opt_text(self.title),
            writes: byte_lists(self.pending_writes@),
        }
    }
}

/// The parameter at `index`, or `default` where it is missing or zero.
pub open spec fn param(params: Seq<Seq<u16>>, index: int, default: u16) -> u16 {
    if index < params.len() && params[index].len() > 0 && params[index][0] != 0 {
        params[index][0]
    } else {
        default
    }
}

/// The first number of every parameter, zero where there is none.
pub open spec fn leading(params: Seq<Seq<u16>>) -> Seq<u16> {
    params.map_values(|param: Seq<u16>| if param.len() > 0 { param[0] } else { 0u16 })
}

pub open spec fn channel(value: u16) -> u8 {
    min(value as int, 255) as u8
}

pub open spec fn or_zero(values: Seq<u16>, index: int) -> u16 {
    if index < values.len() {
        values[index]
    } else {
        0
    }
}

pub open spec fn colored(style: CellStyle, foreground: bool, color: TerminalColor) -> CellStyle {
    if foreground {
        CellStyle { fg: color, ..style }
    } else {
        CellStyle { bg: color, ..style }
    }
}

/// One attribute number other than the extended colours 38 and 48.
pub open spec fn attribute(style: CellStyle, n: u16) -> CellStyle {
    if n == 0 {
        plain_style()
    } else if n == 1 {
        CellStyle { bold: true, ..style }
    } else if n == 2 {
        CellStyle { dim: true, ..style }
    } else if n == 3 {
        CellStyle { italic: true, ..style }
    } else if n == 4 {
        CellStyle { underline: true, ..style }
    } else if n == 7 {
        CellStyle { inverse: true, ..style }
    } else if n == 8 {
        CellStyle { hidden: true, ..style }
    } else if n == 22 {
        CellStyle { bold: false, dim: false, ..style }
    } else if n == 23 {
        CellStyle { italic: false, ..style }
    } else if n == 24 {
        CellStyle { underline: false, ..style }
    } else if n == 27 {
        CellStyle { inverse: false, ..style }
    } else if n == 28 {
        CellStyle { hidden: false, ..style }
    } else if 30 <= n <= 37 {
        colored(style, true, TerminalColor::Palette((n - 30) as u8))
    } else if n == 39 {
        colored(style, true, TerminalColor::DefaultForeground)
    } else if 40 <= n <= 47 {
        colored(style, false, TerminalColor::Palette((n - 40) as u8))
    } else if n == 49 {
        colored(style, false, TerminalColor::DefaultBackground)
    } else if 90 <= n <= 97 {
        colored(style, true, TerminalColor::Palette((n - 90 + 8) as u8))
    } else if 100 <= n <= 107 {
        colored(style, false, TerminalColor::Palette((n - 100 + 8) as u8))
    } else {
        style
    }
}

/// How many values the attribute at the front takes: an extended colour is followed by its kind,
/// and by one palette index or three channels.
pub open spec fn attribute_len(values: Seq<u16>) -> int {
    if values[0] != 38 && values[0] != 48 {
        1
    } else if values.len() > 1 && values[1] == 5 {
        3
    } else if values.len() > 1 && values[1] == 2 {
        5
    } else {
        2
    }
}

/// The style after the attribute at the front. Channels that are missing count as zero, a
/// missing palette index leaves the style as it is.
pub open spec fn first_attribute(style: CellStyle, values: Seq<u16>) -> CellStyle {
    if values[0] != 38 && values[0] != 48 {
        attribute(style, values[0])
    } else if values.len() > 2 && values[1] == 5 {
        colored(style, values[0] == 38, TerminalColor::Palette(channel(values[2])))
    } else if values.len() > 1 && values[1] == 2 {
        colored(
            style,
            values[0] == 38,
            TerminalColor::Rgb(
                channel(or_zero(values, 2)),
                channel(or_zero(values, 3)),
                channel(or_zero(values, 4)),
            ),
        )
    } else {
        style
    }
}

/// The style after all attributes.
pub open spec fn attributes(style: CellStyle, values: Seq<u16>) -> CellStyle
    decreases values.len(),
{
    if values.len() == 0 {
        style
    } else {
        attributes(
            first_attribute(style, values),
            values.skip(min(attribute_len(values), values.len() as int)),
        )
    }
}

/// The mode that a number stands for in "set mode" and "reset mode" sequences.
pub open spec fn mode_flag(private: bool, mode: u16) -> Option<ModeFlag> {
    if private {
        if mode == 1 {
            Some(ModeFlag::AppCursor)
        } else if mode == 7 {
            Some(ModeFlag::LineWrap)
        } else if mode == 25 {
            Some(ModeFlag::ShowCursor)
        } else if mode == 1000 {
            Some(ModeFlag::MouseReportClick)
        } else if mode == 1002 {
            Some(ModeFlag::MouseDrag)
        } else if mode == 1003 {
            Some(ModeFlag::MouseMotion)
        } else if mode == 1004 {
            Some(ModeFlag::FocusInOut)
        } else if mode == 1006 {
            Some(ModeFlag::SgrMouse)
        } else if mode == 1007 {
            Some(ModeFlag::AlternateScroll)
        } else if mode == 2004 {
            Some(ModeFlag::BracketedPaste)
        } else {
            None
        }
    } else if mode == 4 {
        Some(ModeFlag::Insert)
    } else if mode == 20 {
        Some(ModeFlag::LineFeedNewLine)
    } else {
        None
    }
}

/// Whether a number stands for the alternate screen.
pub open spec fn is_screen_mode(private: bool, mode: u16) -> bool {
    private && (mode == 47 || mode == 1049)
}

impl ScreenView {
    /// Both screens are well formed and of one size, and input encoding goes by the keyboard flags.
    pub open spec fn wf(self) -> bool {
        &&& self.primary.wf()
        &&& self.alternate.wf()
        &&& self.primary.cols == self.alternate.cols
        &&& self.primary.rows == self.alternate.rows
        &&& self.keyboard.bits < 32
        &&& self.modes.keyboard == self.keyboard
    }

    /// A new terminal.
    pub open spec fn initial(cols: int, rows: int) -> ScreenView {
        ScreenView {
            fed: seq![],
            primary: BufferView::empty(cols, rows),
            alternate: BufferView::empty(cols, rows),
            active_buffer: ActiveBuffer::Primary,
            style: plain_style(),
            modes: initial_term_mode(),
            keyboard: KeyboardModes { bits: 0 },
            title: None,
            writes: seq![],
        }
    }

    /// The screen that is shown.
    pub open spec fn active(self) -> BufferView {
        match self.active_buffer {
            ActiveBuffer::Primary => self.primary,
            ActiveBuffer::Alternate => self.alternate,
        }
    }

    pub open spec fn with_active(self, buffer: BufferView) -> ScreenView {
        match self.active_buffer {
            ActiveBuffer::Primary => ScreenView { primary: buffer, ..self },
            ActiveBuffer::Alternate => ScreenView { alternate: buffer, ..self },
        }
    }

    /// What erased cells are filled with: a space in the current style.
    pub open spec fn blank(self) -> Cell {
        Cell { ch: ' ', style: self.style }
    }

    pub open spec fn with_cursor(self, row: int, col: int) -> ScreenView {
        self.with_active(self.active().with_cursor(row, col))
    }

    pub open spec fn carriage_returned(self) -> ScreenView {
        self.with_cursor(self.active().cursor.row as int, 0)
    }

    /// One line down; at the bottom of the scrolling region, and below it, the region scrolls
    /// instead.
    pub open spec fn line_fed(self) -> ScreenView {
        let buffer = self.active();
        let moved = if buffer.cursor.row + 1 >= buffer.scroll_bottom {
            buffer.scrolled_up(1, self.blank())
        } else {
            buffer.with_cursor(buffer.cursor.row + 1, buffer.cursor.col as int)
        };
        let fed = self.with_active(moved);
        if self.modes.line_feed_new_line {
            fed.carriage_returned()
        } else {
            fed
        }
    }

    /// One line up; at the top of the scrolling region, and above it, the region scrolls instead.
    pub open spec fn reverse_indexed(self) -> ScreenView {
        let buffer = self.active();
        if buffer.cursor.row <= buffer.scroll_top {
            self.with_active(buffer.scrolled_down(1, self.blank()))
        } else {
            self.with_cursor(buffer.cursor.row - 1, buffer.cursor.col as int)
        }
    }

    /// The cursor moved right to `col`: past the end of the line it goes to the next line, or
    /// stays in the last column where lines do not wrap.
    pub open spec fn advanced_to(self, col: int) -> ScreenView {
        let buffer = self.active();
        if col < buffer.cols {
            self.with_cursor(buffer.cursor.row as int, col)
        } else if self.modes.line_wrap {
            self.carriage_returned().line_fed()
        } else {
            self.with_cursor(buffer.cursor.row as int, buffer.cols - 1)
        }
    }

    /// A character drawn at the cursor. Hidden text is drawn as spaces. A character of two columns
    /// that does not fit at the end of a line goes to the next one, and its second column is a
    /// space. Characters without width leave no trace.
    #[verifier::opaque]
    pub open spec fn printed(self, c: char) -> ScreenView {
        let width = print_width(c);
        if width == 0 {
            self
        } else {
            let start = if width == 2 && self.active().cursor.col + 1 >= self.active().cols {
                self.carriage_returned().line_fed()
            } else {
                self
            };
            let buffer = start.active();
            let row = buffer.cursor.row as int;
            let col = buffer.cursor.col as int;
            let shown = Cell { ch: if self.style.hidden { ' ' } else { c }, style: self.style };
            let drawn = buffer.with_cell(row, col, shown);
            let whole = if width == 2 && col + 1 < buffer.cols {
                drawn.with_cell(row, col + 1, self.blank())
            } else {
                drawn
            };
            start.with_active(whole).advanced_to(col + width)
        }
    }

    /// A control character: tab, backspace, carriage return, and the three line feeds.
    #[verifier::opaque]
    pub open spec fn executed(self, byte: u8) -> ScreenView {
        let buffer = self.active();
        let row = buffer.cursor.row as int;
        let col = buffer.cursor.col as int;
        if byte == 9 {
            self.with_cursor(row, min((col / 8 + 1) * 8, buffer.cols - 1))
        } else if byte == 8 {
            self.with_cursor(row, max(col - 1, 0))
        } else if byte == 13 {
            self.carriage_returned()
        } else if byte == 10 || byte == 11 || byte == 12 {
            self.line_fed()
        } else {
            self
        }
    }

    pub open spec fn moved_up(self, count: int) -> ScreenView {
        let cursor = self.active().cursor;
        self.with_cursor(max(cursor.row - count, 0), cursor.col as int)
    }

    pub open spec fn moved_down(self, count: int) -> ScreenView {
        let cursor = self.active().cursor;
        self.with_cursor(min(cursor.row + count, self.active().rows - 1), cursor.col as int)
    }

    pub open spec fn moved_forward(self, count: int) -> ScreenView {
        let cursor = self.active().cursor;
        self.with_cursor(cursor.row as int, min(cursor.col + count, self.active().cols - 1))
    }

    pub open spec fn moved_backward(self, count: int) -> ScreenView {
        let cursor = self.active().cursor;
        self.with_cursor(cursor.row as int, max(cursor.col - count, 0))
    }

    /// The cursor put on a line and column, cut to the screen; lines count from the scrolling
    /// region where origin mode is set.
    pub open spec fn gone_to(self, row: int, col: int) -> ScreenView {
        let buffer = self.active();
        let origin = if self.modes.origin {
            buffer.scroll_top
        } else {
            0
        };
        self.with_cursor(min(origin + row, buffer.rows - 1), min(col, buffer.cols - 1))
    }

    pub open spec fn gone_to_col(self, col: int) -> ScreenView {
        let buffer = self.active();
        self.with_cursor(buffer.cursor.row as int, min(col, buffer.cols - 1))
    }

    pub open spec fn cursor_saved(self) -> ScreenView {
        self.with_active(BufferView { saved_cursor: self.active().cursor, ..self.active() })
    }

    pub open spec fn cursor_restored(self) -> ScreenView {
        self.with_active(
            BufferView { cursor: self.active().saved_cursor, ..self.active() }.clamped(),
        )
    }

    /// Everything as in a new terminal but for the title, the saved cursors and unsent replies.
    pub open spec fn reset(self) -> ScreenView {
        let blank = Cell { ch: ' ', style: plain_style() };
        ScreenView {
            primary: self.primary.cleared(blank),
            alternate: self.alternate.cleared(blank),
            active_buffer: ActiveBuffer::Primary,
            style: plain_style(),
            modes: initial_term_mode(),
            keyboard: KeyboardModes { bits: 0 },
            ..self
        }
    }

    /// A mode switched on or off. Entering the alternate screen saves the cursor and shows a blank
    /// screen, leaving it shows the primary one with the cursor saved there.
    pub open spec fn mode_changed(self, private: bool, mode: u16, on: bool) -> ScreenView {
        if is_screen_mode(private, mode) {
            if on {
                let saved = self.cursor_saved();
                ScreenView {
                    alternate: saved.alternate.cleared(self.blank()),
                    active_buffer: ActiveBuffer::Alternate,
                    ..saved
                }
            } else {
                ScreenView { active_buffer: ActiveBuffer::Primary, ..self }.cursor_restored()
            }
        } else {
            match mode_flag(private, mode) {
                Some(flag) => ScreenView { modes: self.modes.with(flag, on), ..self },
                None => self,
            }
        }
    }

    /// The modes of all parameters changed in turn. Empty and zero parameters are passed over.
    pub open spec fn modes_changed(self, private: bool, params: Seq<Seq<u16>>, on: bool) -> ScreenView
        decreases params.len(),
    {
        if params.len() == 0 {
            self
        } else {
            let rest = self.modes_changed(private, params.drop_last(), on);
            if params.last().len() > 0 && params.last()[0] != 0 {
                rest.mode_changed(private, params.last()[0], on)
            } else {
                rest
            }
        }
    }

    pub open spec fn keyboard_changed(
        self,
        modes: KeyboardModes,
        apply: KeyboardModesApplyBehavior,
    ) -> ScreenView {
        let keyboard = self.keyboard.applied(modes, apply);
        ScreenView { keyboard, modes: TermMode { keyboard, ..self.modes }, ..self }
    }

    /// A reply for the program queued.
    pub open spec fn replied(self, text: Seq<char>) -> ScreenView {
        ScreenView { writes: self.writes.push(encode_utf8(text)), ..self }
    }

    pub open spec fn titled(self, params: Seq<Seq<u8>>) -> ScreenView {
        if params.len() > 0 && (params[0] == seq![48u8] || params[0] == seq![49u8] || params[0] == seq![50u8]) {
            let parts = params.skip(1).map_values(|param: Seq<u8>| utf8_lossy(param));
            ScreenView { title: Some(joined(parts, ";"@)), ..self }
        } else {
            self
        }
    }

    /// An escape sequence.
    #[verifier::opaque]
    pub open spec fn escaped(self, intermediates: Seq<u8>, byte: u8) -> ScreenView {
        if intermediates.len() > 0 {
            self
        } else if byte == 'D' as u8 {
            self.line_fed()
        } else if byte == 'E' as u8 {
            self.line_fed().carriage_returned()
        } else if byte == 'M' as u8 {
            self.reverse_indexed()
        } else if byte == '7' as u8 {
            self.cursor_saved()
        } else if byte == '8' as u8 {
            self.cursor_restored()
        } else if byte == '=' as u8 {
            ScreenView { modes: self.modes.with(ModeFlag::AppKeypad, true), ..self }
        } else if byte == '>' as u8 {
            ScreenView { modes: self.modes.with(ModeFlag::AppKeypad, false), ..self }
        } else if byte == 'c' as u8 {
            self.reset()
        } else {
            self
        }
    }

    /// A control sequence without intermediate bytes.
    #[verifier::opaque]
    pub open spec fn plain_csi(self, params: Seq<Seq<u16>>, action: char) -> ScreenView {
        let buffer = self.active();
        let n = param(params, 0, 1) as int;
        if action == '@' {
            self.with_active(buffer.chars_inserted(n, self.blank()))
        } else if action == 'A' {
            self.moved_up(n)
        } else if action == 'B' || action == 'e' {
            self.moved_down(n)
        } else if action == 'C' || action == 'a' {
            self.moved_forward(n)
        } else if action == 'D' {
            self.moved_backward(n)
        } else if action == 'E' {
            self.moved_down(n).carriage_returned()
        } else if action == 'F' {
            self.moved_up(n).carriage_returned()
        } else if action == 'G' || action == '`' {
            self.gone_to_col(n - 1)
        } else if action == 'H' || action == 'f' {
            self.gone_to(n - 1, param(params, 1, 1) - 1)
        } else if action == 'J' {
            self.with_active(buffer.screen_cleared(param(params, 0, 0), self.blank()))
        } else if action == 'K' {
            self.with_active(buffer.line_cleared(param(params, 0, 0), self.blank()))
        } else if action == 'L' {
            self.with_active(buffer.lines_inserted(n, self.blank()))
        } else if action == 'M' {
            self.with_active(buffer.lines_deleted(n, self.blank()))
        } else if action == 'P' {
            self.with_active(buffer.chars_deleted(n, self.blank()))
        } else if action == 'S' {
            self.with_active(buffer.scrolled_up(n, self.blank()))
        } else if action == 'T' {
            self.with_active(buffer.scrolled_down(n, self.blank()))
        } else if action == 'X' {
            self.with_active(buffer.chars_erased(n, self.blank()))
        } else if action == 'd' {
            self.gone_to(n - 1, buffer.cursor.col as int)
        } else if action == 'm' {
            ScreenView {
                style: if params.len() == 0 {
                    plain_style()
                } else {
                    attributes(self.style, leading(params))
                },
                ..self
            }
        } else if action == 'n' {
            self.status_reported(param(params, 0, 0))
        } else if action == 'r' {
            let bottom = param(params, 1, 0) as int;
            self.with_active(
                buffer.region_set(
                    n,
                    if bottom == 0 {
                        None
                    } else {
                        Some(bottom)
                    },
                ),
            )
        } else if action == 's' {
            self.cursor_saved()
        } else if action == 't' {
            self.size_reported(n as u16)
        } else if action == 'u' {
            self.cursor_restored()
        } else {
            self
        }
    }

    /// The replies to status requests: ready (5), and the cursor's line and column (6).
    pub open spec fn status_reported(self, request: u16) -> ScreenView {
        if request == 5 {
            self.replied("\x1b[0n"@)
        } else if request == 6 {
            let cursor = self.active().cursor;
            self.replied(
                "\x1b["@ + decimal((cursor.row + 1) as nat) + ";"@ + decimal((cursor.col + 1) as nat)
                    + "R"@,
            )
        } else {
            self
        }
    }

    /// The replies to size requests: in pixels (14), at 8 by 17 a cell, and in cells (18).
    pub open spec fn size_reported(self, request: u16) -> ScreenView {
        let buffer = self.active();
        if request == 14 {
            self.replied(
                "\x1b[4;"@ + decimal((buffer.rows * 17) as nat) + ";"@ + decimal(
                    (buffer.cols * 8) as nat,
                ) + "t"@,
            )
        } else if request == 18 {
            self.replied(
                "\x1b[8;"@ + decimal(buffer.rows as nat) + ";"@ + decimal(buffer.cols as nat) + "t"@,
            )
        } else {
            self
        }
    }

    /// A keyboard protocol sequence, told apart by its one intermediate byte.
    #[verifier::opaque]
    pub open spec fn keyboard_csi(self, params: Seq<Seq<u16>>, marker: u8) -> ScreenView {
        let modes = KeyboardModes { bits: (param(params, 0, 0) as u32) & 31 };
        if marker == '=' as u8 {
            match KeyboardModesApplyBehavior::of_kitty_mode(param(params, 1, 1)) {
                Some(apply) => self.keyboard_changed(modes, apply),
                None => self,
            }
        } else if marker == '>' as u8 {
            self.keyboard_changed(modes, KeyboardModesApplyBehavior::Union)
        } else if marker == '<' as u8 {
            self.keyboard_changed(
                KeyboardModes { bits: 0 },
                KeyboardModesApplyBehavior::Replace,
            )
        } else if marker == '?' as u8 {
            self.replied("\x1b[?"@ + decimal(self.keyboard.bits as nat) + "u"@)
        } else {
            self
        }
    }

    /// A control sequence.
    pub open spec fn controlled(
        self,
        params: Seq<Seq<u16>>,
        intermediates: Seq<u8>,
        ignore: bool,
        action: char,
    ) -> ScreenView {
        let private = intermediates.len() > 0 && intermediates[0] == '?' as u8;
        if ignore {
            self
        } else if action == 'c' {
            if param(params, 0, 0) == 0 {
                self.replied("\x1b[?1;2c"@)
            } else {
                self
            }
        } else if action == 'h' {
            self.modes_changed(private, params, true)
        } else if action == 'l' {
            self.modes_changed(private, params, false)
        } else if intermediates.len() == 0 {
            self.plain_csi(params, action)
        } else if action == 'u' && intermediates.len() == 1 {
            self.keyboard_csi(params, intermediates[0])
        } else {
            self
        }
    }

    /// The screen after an event.
    #[verifier::opaque]
    pub open spec fn after(self, event: EventView) -> ScreenView {
        match event {
            EventView::Print(c) => self.printed(c),
            EventView::Execute(byte) => self.executed(byte),
            EventView::Osc(params) => self.titled(params),
            EventView::Csi { params, intermediates, ignore, action } => self.controlled(
                params,
                intermediates,
                ignore,
                action,
            ),
            EventView::Esc { intermediates, byte } => self.escaped(intermediates, byte),
        }
    }

    pub open spec fn after_all(self, events: Seq<EventView>) -> ScreenView
        decreases events.len(),
    {
        if events.len() == 0 {
            self
        } else {
            self.after_all(events.drop_last()).after(events.last())
        }
    }

    /// The screen after the bytes that a program wrote.
    pub open spec fn fed_with(self, bytes: Seq<u8>) -> ScreenView
        decreases bytes.len(),
    {
        if bytes.len() == 0 {
            self
        } else {
            let before = self.fed_with(bytes.drop_last());
            let byte = bytes.last();
            ScreenView { fed: before.fed.push(byte), ..before }.after_all(
                vte_events(before.fed, byte),
            )
        }
    }

    pub open spec fn drained(self) -> ScreenView {
        ScreenView { writes: seq![], ..self }
    }
}

fn param_or(params: &Vec<Vec<u16>>, index: usize, default: u16) -> (value: u16)
    ensures
        value == param(number_lists(params@), index as int, default),
{
    if index < params.len() && params[index].len() > 0 && params[index][0] != 0 {
        params[index][0]
    } else {
        default
    }
}

fn channel_of(value: u16) -> (level: u8)
    ensures
        level == channel(value),
{
    if value > 255 {
        255
    } else {
        value as u8
    }
}

fn flag_of(private: bool, mode: u16) -> (flag: Option<ModeFlag>)
    ensures
        flag == mode_flag(private, mode),
{
    match (private, mode) {
        (true, 1) => Some(ModeFlag::AppCursor),
        (true, 7) => Some(ModeFlag::LineWrap),
        (true, 25) => Some(ModeFlag::ShowCursor),
        (true, 1000) => Some(ModeFlag::MouseReportClick),
        (true, 1002) => Some(ModeFlag::MouseDrag),
        (true, 1003) => Some(ModeFlag::MouseMotion),
        (true, 1004) => Some(ModeFlag::FocusInOut),
        (true, 1006) => Some(ModeFlag::SgrMouse),
        (true, 1007) => Some(ModeFlag::AlternateScroll),
        (true, 2004) => Some(ModeFlag::BracketedPaste),
        (false, 4) => Some(ModeFlag::Insert),
        (false, 20) => Some(ModeFlag::LineFeedNewLine),
        _ => None,
    }
}

/// The style after one attribute that is no extended colour.
fn with_attribute(style: CellStyle, n: u16) -> (out: CellStyle)
    ensures
        out == attribute(style, n),
{
    match n {
        0 => CellStyle::default(),
        1 => CellStyle { bold: true, ..style },
        2 => CellStyle { dim: true, ..style },
        3 => CellStyle { italic: true, ..style },
        4 => CellStyle { underline: true, ..style },
        7 => CellStyle { inverse: true, ..style },
        8 => CellStyle { hidden: true, ..style },
        22 => CellStyle { bold: false, dim: false, ..style },
        23 => CellStyle { italic: false, ..style },
        24 => CellStyle { underline: false, ..style },
        27 => CellStyle { inverse: false, ..style },
        28 => CellStyle { hidden: false, ..style },
        30..=37 => CellStyle { fg: TerminalColor::Palette((n - 30) as u8), ..style },
        39 => CellStyle { fg: TerminalColor::DefaultForeground, ..style },
        40..=47 => CellStyle { bg: TerminalColor::Palette((n - 40) as u8), ..style },
        49 => CellStyle { bg: TerminalColor::DefaultBackground, ..style },
        90..=97 => CellStyle { fg: TerminalColor::Palette((n - 90 + 8) as u8), ..style },
        100..=107 => CellStyle { bg: TerminalColor::Palette((n - 100 + 8) as u8), ..style },
        _ => style,
    }
}

fn with_color(style: CellStyle, foreground: bool, color: TerminalColor) -> (out: CellStyle)
    ensures
        out == colored(style, foreground, color),
{
    if foreground {
        CellStyle { fg: color, ..style }
    } else {
        CellStyle { bg: color, ..style }
    }
}

impl TerminalScreen {
    pub closed spec fn inv(self) -> bool {
        &&& self@.wf()
        &&& vte_histories(self.parser).contains(self.fed@)
    }

    /// An empty terminal; a size of zero counts as one.
    pub fn new(cols: u16, rows: u16) -> (screen: Self)
        ensures
            screen.inv(),
            screen@ == ScreenView::initial(max(cols as int, 1), max(rows as int, 1)),
    {
        let cols: usize = if cols == 0 { 1 } else { cols as usize };
        let rows: usize = if rows == 0 { 1 } else { rows as usize };
        let screen = TerminalScreen {
            parser: new_parser(),
            fed: Ghost(Seq::empty()),
            primary: ScreenBuffer::new(cols, rows),
            alternate: ScreenBuffer::new(cols, rows),
            active_buffer: ActiveBuffer::Primary,
            style: CellStyle::default(),
            term_mode: TermMode::default(),
            keyboard_modes: KeyboardModes::default(),
            title: None,
            pending_writes: Vec::new(),
        };
        assert(screen@.writes =~= seq![]);
        screen
    }

    pub fn resize(&mut self, cols: u16, rows: u16)
        requires
            old(self).inv(),
        ensures
            final(self).inv(),
            final(self)@ == (ScreenView {
                primary: old(self)@.primary.resized(max(cols as int, 1), max(rows as int, 1)),
                alternate: old(self)@.alternate.resized(max(cols as int, 1), max(rows as int, 1)),
                ..old(self)@
            }),
    {
        let cols: usize = if cols == 0 { 1 } else { cols as usize };
        let rows: usize = if rows == 0 { 1 } else { rows as usize };
        self.primary.resize(cols, rows);
        self.alternate.resize(cols, rows);
    }

    fn active(&self) -> (buffer: &ScreenBuffer)
        ensures
            buffer@ == self@.active(),
    {
        match self.active_buffer {
            ActiveBuffer::Primary => &self.primary,
            ActiveBuffer::Alternate => &self.alternate,
        }
    }

    fn active_mut(&mut self) -> (buffer: &mut ScreenBuffer)
        ensures
            buffer@ == old(self)@.active(),
            final(self)@ == old(self)@.with_active(final(buffer)@),
            final(self).parser == old(self).parser,
    {
        match self.active_buffer {
            ActiveBuffer::Primary => &mut self.primary,
            ActiveBuffer::Alternate => &mut self.alternate,
        }
    }

    fn blank_cell(&self) -> (cell: Cell)
        ensures
            cell == self@.blank(),
    {
        Cell::new(' ', self.style)
    }

    fn set_cursor(&mut self, row: usize, col: usize)
        requires
            old(self).inv(),
            row < old(self)@.active().rows,
            col < old(self)@.active().cols,
        ensures
            final(self).inv(),
            final(self)@ == old(self)@.with_cursor(row as int, col as int),
    {
        let buffer = self.active_mut();
        buffer.cursor = Cursor { row, col };
    }

    fn carriage_return(&mut self)
        requires
            old(self).inv(),
        ensures
            final(self).inv(),
            final(self)@ == old(self)@.carriage_returned(),
    {
        let row: usize = self.active().cursor.row;
        self.set_cursor(row, 0);
    }

    fn linefeed(&mut self)
        requires
            old(self).inv(),
        ensures
            final(self).inv(),
            final(self)@ == old(self)@.line_fed(),
    {
        let blank = self.blank_cell();
        let carriage_return: bool = self.term_mode.contains(ModeFlag::LineFeedNewLine);
        let cursor = self.active().cursor;
        if cursor.row + 1 >= self.active().scroll_bottom {
            self.active_mut().scroll_up(1, blank);
        } else {
            self.set_cursor(cursor.row + 1, cursor.col);
        }
        if carriage_return {
            self.carriage_return();
        }
    }

    fn reverse_index(&mut self)
        requires
            old(self).inv(),
        ensures
            final(self).inv(),
            final(self)@ == old(self)@.reverse_indexed(),
    {
        let blank = self.blank_cell();
        let cursor = self.active().cursor;
        if cursor.row <= self.active().scroll_top {
            self.active_mut().scroll_down(1, blank);
        } else {
            self.set_cursor(cursor.row - 1, cursor.col);
        }
    }

    fn advance_to(&mut self, col: usize)
        requires
            old(self).inv(),
        ensures
            final(self).inv(),
            final(self)@ == old(self)@.advanced_to(col as int),
    {
        let row: usize = self.active().cursor.row;
        let cols: usize = self.active().cols;
        if col < cols {
            self.set_cursor(row, col);
        } else if self.term_mode.contains(ModeFlag::LineWrap) {
            self.carriage_return();
            self.linefeed();
        } else {
            self.set_cursor(row, cols - 1);
        }
    }

    fn put_char(&mut self, c: char)
        requires
            old(self).inv(),
        ensures
            final(self).inv(),
            final(self)@ == old(self)@.printed(c),
    {
        reveal(ScreenView::printed);
        let width: usize = match columns_of(c) {
            Some(width) => width,
            None => 1,
        };
        if width == 0 {
            return;
        }
        if width == 2 && self.active().cursor.col + 1 >= self.active().cols {
            self.carriage_return();
            self.linefeed();
        }
        let blank = self.blank_cell();
        let shown = Cell::new(if self.style.hidden { ' ' } else { c }, self.style);
        let row: usize = self.active().cursor.row;
        let col: usize = self.active().cursor.col;
        let cols: usize = self.active().cols;
        self.active_mut().set_cell(row, col, shown);
        if width == 2 && col + 1 < cols {
            self.active_mut().set_cell(row, col + 1, blank);
        }
        self.advance_to(col + width);
    }

    fn execute(&mut self, byte: u8)
        requires
            old(self).inv(),
        ensures
            final(self).inv(),
            final(self)@ == old(self)@.executed(byte),
    {
        reveal(ScreenView::executed);
        match byte {
            9 => {
                let next_tab: usize = ((self.active().cursor.col / 8) + 1) * 8;
                self.goto_col(next_tab);
            },
            8 => self.move_backward(1),
            13 => self.carriage_return(),
            10 | 11 | 12 => self.linefeed(),
            _ => {},
        }
    }

    fn move_up(&mut self, count: u16)
        requires
            old(self).inv(),
        ensures
            final(self).inv(),
            final(self)@ == old(self)@.moved_up(count as int),
    {
        let cursor = self.active().cursor;
        self.set_cursor(cursor.row.saturating_sub(count as usize), cursor.col);
    }

    fn move_down(&mut self, count: u16)
        requires
            old(self).inv(),
        ensures
            final(self).inv(),
            final(self)@ == old(self)@.moved_down(count as int),
    {
        let cursor = self.active().cursor;
        let last: usize = self.active().rows - 1;
        let row: usize = cursor.row + count as usize;
        self.set_cursor(if row < last { row } else { last }, cursor.col);
    }

    fn move_forward(&mut self, count: u16)
        requires
            old(self).inv(),
        ensures
            final(self).inv(),
            final(self)@ == old(self)@.moved_forward(count as int),
    {
        let cursor = self.active().cursor;
        let last: usize = self.active().cols - 1;
        let col: usize = cursor.col + count as usize;
        self.set_cursor(cursor.row, if col < last { col } else { last });
    }

    fn move_backward(&mut self, count: u16)
        requires
            old(self).inv(),
        ensures
            final(self).inv(),
            final(self)@ == old(self)@.moved_backward(count as int),
    {
        let cursor = self.active().cursor;
        self.set_cursor(cursor.row, cursor.col.saturating_sub(count as usize));
    }

    fn goto(&mut self, row: usize, col: usize)
        requires
            old(self).inv(),
            row <= u16::MAX,
        ensures
            final(self).inv(),
            final(self)@ == old(self)@.gone_to(row as int, col as int),
    {
        let origin: usize = if self.term_mode.contains(ModeFlag::Origin) {
            self.active().scroll_top
        } else {
            0
        };
        let last_row: usize = self.active().rows - 1;
        let last_col: usize = self.active().cols - 1;
        let row: usize = origin + row;
        self.set_cursor(
            if row < last_row { row } else { last_row },
            if col < last_col { col } else { last_col },
        );
    }

    fn goto_line(&mut self, row: usize)
        requires
            old(self).inv(),
            row <= u16::MAX,
        ensures
            final(self).inv(),
            final(self)@ == old(self)@.gone_to(row as int, old(self)@.active().cursor.col as int),
    {
        let col: usize = self.active().cursor.col;
        self.goto(row, col);
    }

    fn goto_col(&mut self, col: usize)
        requires
            old(self).inv(),
        ensures
            final(self).inv(),
            final(self)@ == old(self)@.gone_to_col(col as int),
    {
        let row: usize = self.active().cursor.row;
        let last: usize = self.active().cols - 1;
        self.set_cursor(row, if col < last { col } else { last });
    }

    fn clear_screen(&mut self, mode: u16)
        requires
            old(self).inv(),
        ensures
            final(self).inv(),
            final(self)@ == old(self)@.with_active(
                old(self)@.active().screen_cleared(mode, old(self)@.blank()),
            ),
    {
        let blank = self.blank_cell();
        self.active_mut().clear_screen(mode, blank);
    }

    fn clear_line(&mut self, mode: u16)
        requires
            old(self).inv(),
        ensures
            final(self).inv(),
            final(self)@ == old(self)@.with_active(
                old(self)@.active().line_cleared(mode, old(self)@.blank()),
            ),
    {
        let blank = self.blank_cell();
        self.active_mut().clear_line(mode, blank);
    }

    fn insert_blank(&mut self, count: u16)
        requires
            old(self).inv(),
        ensures
            final(self).inv(),
            final(self)@ == old(self)@.with_active(
                old(self)@.active().chars_inserted(count as int, old(self)@.blank()),
            ),
    {
        let blank = self.blank_cell();
        self.active_mut().insert_blank(count as usize, blank);
    }

    fn delete_chars(&mut self, count: u16)
        requires
            old(self).inv(),
        ensures
            final(self).inv(),
            final(self)@ == old(self)@.with_active(
                old(self)@.active().chars_deleted(count as int, old(self)@.blank()),
            ),
    {
        let blank = self.blank_cell();
        self.active_mut().delete_chars(count as usize, blank);
    }

    fn erase_chars(&mut self, count: u16)
        requires
            old(self).inv(),
        ensures
            final(self).inv(),
            final(self)@ == old(self)@.with_active(
                old(self)@.active().chars_erased(count as int, old(self)@.blank()),
            ),
    {
        let blank = self.blank_cell();
        self.active_mut().erase_chars(count as usize, blank);
    }

    fn insert_blank_lines(&mut self, count: u16)
        requires
            old(self).inv(),
        ensures
            final(self).inv(),
            final(self)@ == old(self)@.with_active(
                old(self)@.active().lines_inserted(count as int, old(self)@.blank()),
            ),
    {
        let blank = self.blank_cell();
        self.active_mut().insert_lines(count as usize, blank);
    }

    fn delete_lines(&mut self, count: u16)
        requires
            old(self).inv(),
        ensures
            final(self).inv(),
            final(self)@ == old(self)@.with_active(
                old(self)@.active().lines_deleted(count as int, old(self)@.blank()),
            ),
    {
        let blank = self.blank_cell();
        self.active_mut().delete_lines(count as usize, blank);
    }

    fn scroll_up(&mut self, count: u16)
        requires
            old(self).inv(),
        ensures
            final(self).inv(),
            final(self)@ == old(self)@.with_active(
                old(self)@.active().scrolled_up(count as int, old(self)@.blank()),
            ),
    {
        let blank = self.blank_cell();
        self.active_mut().scroll_up(count as usize, blank);
    }

    fn scroll_down(&mut self, count: u16)
        requires
            old(self).inv(),
        ensures
            final(self).inv(),
            final(self)@ == old(self)@.with_active(
                old(self)@.active().scrolled_down(count as int, old(self)@.blank()),
            ),
    {
        let blank = self.blank_cell();
        self.active_mut().scroll_down(count as usize, blank);
    }

    /// Sets the scrolling region; a `bottom` of zero stands for the last line.
    fn set_scrolling_region(&mut self, top: u16, bottom: u16)
        requires
            old(self).inv(),
        ensures
            final(self).inv(),
            final(self)@ == old(self)@.with_active(
                old(self)@.active().region_set(
                    top as int,
                    if bottom == 0 {
                        None
                    } else {
                        Some(bottom as int)
                    },
                ),
            ),
    {
        let rows: usize = self.active().rows;
        let first: usize = {
            let first: usize = (top as usize).saturating_sub(1);
            if first < rows - 1 { first } else { rows - 1 }
        };
        let last: usize = if bottom == 0 {
            rows
        } else if (bottom as usize) < first + 1 {
            first + 1
        } else if (bottom as usize) > rows {
            rows
        } else {
            bottom as usize
        };
        let buffer = self.active_mut();
        buffer.scroll_top = first;
        buffer.scroll_bottom = last;
        buffer.cursor = Cursor::default();
    }

    fn save_cursor(&mut self)
        requires
            old(self).inv(),
        ensures
            final(self).inv(),
            final(self)@ == old(self)@.cursor_saved(),
    {
        let buffer = self.active_mut();
        buffer.saved_cursor = buffer.cursor;
    }

    fn restore_cursor(&mut self)
        requires
            old(self).inv(),
        ensures
            final(self).inv(),
            final(self)@ == old(self)@.cursor_restored(),
    {
        let buffer = self.active_mut();
        buffer.cursor = buffer.saved_cursor;
        buffer.clamp_cursor();
    }

    fn reset(&mut self)
        requires
            old(self).inv(),
        ensures
            final(self).inv(),
            final(self)@ == old(self)@.reset(),
    {
        self.style = CellStyle::default();
        self.term_mode = TermMode::default();
        self.keyboard_modes = KeyboardModes::default();
        self.active_buffer = ActiveBuffer::Primary;
        let blank = self.blank_cell();
        self.primary.clear(blank);
        self.alternate.clear(blank);
    }

    fn change_mode(&mut self, private: bool, mode: u16, on: bool)
        requires
            old(self).inv(),
        ensures
            final(self).inv(),
            final(self)@ == old(self)@.mode_changed(private, mode, on),
    {
        if private && (mode == 47 || mode == 1049) {
            if on {
                self.save_cursor();
                self.active_buffer = ActiveBuffer::Alternate;
                let blank = self.blank_cell();
                self.alternate.clear(blank);
            } else {
                self.active_buffer = ActiveBuffer::Primary;
                self.restore_cursor();
            }
        } else if let Some(flag) = flag_of(private, mode) {
            reveal(TermMode::with);
            self.term_mode.set(flag, on);
        }
    }

    fn change_modes(&mut self, private: bool, params: &Vec<Vec<u16>>, on: bool)
        requires
            old(self).inv(),
        ensures
            final(self).inv(),
            final(self)@ == old(self)@.modes_changed(private, number_lists(params@), on),
    {
        let ghost before = self@;
        let ghost all = number_lists(params@);
        let mut i: usize = 0;
        assert(all.take(0) =~= Seq::empty());
        while i < params.len()
            invariant
                self.inv(),
                i <= params.len(),
                all == number_lists(params@),
                self@ == before.modes_changed(private, all.take(i as int), on),
            decreases params.len() - i,
        {
            assert(all.take(i + 1).drop_last() =~= all.take(i as int));
            assert(all.take(i + 1).last() == params@[i as int]@);
            if params[i].len() > 0 && params[i][0] != 0 {
                self.change_mode(private, params[i][0], on);
            }
            i += 1;
        }
        assert(all.take(params@.len() as int) =~= all);
    }

    fn set_keyboard_modes(&mut self, modes: KeyboardModes, apply: KeyboardModesApplyBehavior)
        requires
            old(self).inv(),
            modes.bits < 32,
        ensures
            final(self).inv(),
            final(self)@ == old(self)@.keyboard_changed(modes, apply),
    {
        self.keyboard_modes.apply(modes, apply);
        self.sync_keyboard_term_modes();
    }

    fn sync_keyboard_term_modes(&mut self)
        ensures
            *final(self) == (TerminalScreen {
                term_mode: TermMode { keyboard: old(self).keyboard_modes, ..old(self).term_mode },
                ..*old(self)
            }),
    {
        self.term_mode.keyboard = self.keyboard_modes;
    }

    fn apply_sgr(&mut self, params: &Vec<Vec<u16>>)
        requires
            old(self).inv(),
        ensures
            final(self).inv(),
            final(self)@ == (ScreenView {
                style: if params@.len() == 0 {
                    plain_style()
                } else {
                    attributes(old(self)@.style, leading(number_lists(params@)))
                },
                ..old(self)@
            }),
    {
        if params.len() == 0 {
            self.style = CellStyle::default();
            return;
        }
        let ghost values = leading(number_lists(params@));
        let mut firsts: Vec<u16> = Vec::new();
        let mut k: usize = 0;
        while k < params.len()
            invariant
                k <= params.len(),
                firsts@ == leading(number_lists(params@)).take(k as int),
            decreases params.len() - k,
        {
            let first: u16 = if params[k].len() > 0 { params[k][0] } else { 0 };
            firsts.push(first);
            k += 1;
            assert(firsts@ =~= leading(number_lists(params@)).take(k as int));
        }
        assert(firsts@ =~= values);
        let mut style = self.style;
        let mut i: usize = 0;
        assert(values.skip(0) =~= values);
        while i < firsts.len()
            invariant
                i <= firsts.len(),
                firsts@ == values,
                attributes(style, values.skip(i as int)) == attributes(self.style, values),
            decreases firsts.len() - i,
        {
            let ghost rest = values.skip(i as int);
            let ghost before = style;
            let n: u16 = firsts[i];
            let mut len: usize = 1;
            assert(rest[0] == n);
            if n == 38 || n == 48 {
                let kind: Option<u16> = if i + 1 < firsts.len() { Some(firsts[i + 1]) } else { None };
                match kind {
                    Some(5) => {
                        assert(rest[1] == 5);
                        if i + 2 < firsts.len() {
                            assert(rest[2] == values[i + 2]);
                            let color = TerminalColor::Palette(channel_of(firsts[i + 2]));
                            style = with_color(style, n == 38, color);
                            len = 3;
                        } else {
                            len = 2;
                        }
                    },
                    Some(2) => {
                        assert(rest[1] == 2);
                        let ghost tail = (or_zero(rest, 2), or_zero(rest, 3), or_zero(rest, 4));
                        let left: usize = firsts.len() - i;
                        let r: u16 = if left > 2 { firsts[i + 2] } else { 0 };
                        let g: u16 = if left > 3 { firsts[i + 3] } else { 0 };
                        let b: u16 = if left > 4 { firsts[i + 4] } else { 0 };
                        assert(tail == (r, g, b));
                        let color = TerminalColor::Rgb(channel_of(r), channel_of(g), channel_of(b));
                        style = with_color(style, n == 38, color);
                        len = if left > 5 { 5 } else { left };
                    },
                    Some(_) => {
                        assert(rest[1] == values[i + 1]);
                        len = 2;
                    },
                    None => {},
                }
            } else {
                style = with_attribute(style, n);
            }
            assert(style == first_attribute(before, rest));
            assert(len == min(attribute_len(rest), rest.len() as int));
            assert(rest.skip(len as int) =~= values.skip(i + len));
            i += len;
        }
        assert(values.skip(i as int).len() == 0);
        self.style = style;
    }

    fn reply(&mut self, text: &str)
        requires
            old(self).inv(),
        ensures
            final(self).inv(),
            final(self)@ == old(self)@.replied(text@),
    {
        self.pending_writes.push(utf8_bytes(text));
        assert(byte_lists(self.pending_writes@) =~= byte_lists(old(self).pending_writes@).push(
            encode_utf8(text@),
        ));
    }

    /// Sends the reply made of two numbers: `head`, the first, a semicolon, the second, `tail`.
    fn reply_pair(&mut self, head: &str, first: u64, second: u64, tail: &str)
        requires
            old(self).inv(),
        ensures
            final(self).inv(),
            final(self)@ == old(self)@.replied(
                head@ + decimal(first as nat) + ";"@ + decimal(second as nat) + tail@,
            ),
    {
        let mut text = String::new();
        text.append(head);
        push_decimal(&mut text, first);
        text.append(";");
        push_decimal(&mut text, second);
        text.append(tail);
        assert(text@ =~= head@ + decimal(first as nat) + ";"@ + decimal(second as nat) + tail@);
        self.reply(text.as_str());
    }

    fn osc_dispatch(&mut self, params: &Vec<Vec<u8>>)
        requires
            old(self).inv(),
        ensures
            final(self).inv(),
            final(self)@ == old(self)@.titled(byte_lists(params@)),
    {
        let ghost all = byte_lists(params@);
        if params.len() == 0 || params[0].len() != 1 {
            return;
        }
        let kind: u8 = params[0][0];
        assert(all[0] =~= seq![kind]);
        if kind != 48 && kind != 49 && kind != 50 {
            assert(seq![kind][0] == kind && seq![48u8][0] == 48 && seq![49u8][0] == 49 && seq![50u8][0] == 50);
            return;
        }
        let mut parts: Vec<String> = Vec::new();
        let mut i: usize = 1;
        while i < params.len()
            invariant
                1 <= i <= params.len(),
                parts.len() == i - 1,
                forall|j: int| 0 <= j < i - 1 ==> (#[trigger] parts@[j])@ == utf8_lossy(params@[j + 1]@),
            decreases params.len() - i,
        {
            parts.push(lossy_text(params[i].as_slice()));
            i += 1;
        }
        assert(texts(parts@) =~= all.skip(1).map_values(|param: Seq<u8>| utf8_lossy(param)));
        self.title = Some(join(&parts, ";"));
    }

    fn esc_dispatch(&mut self, intermediates: &Vec<u8>, byte: u8)
        requires
            old(self).inv(),
        ensures
            final(self).inv(),
            final(self)@ == old(self)@.escaped(intermediates@, byte),
    {
        reveal(TermMode::with);
        reveal(ScreenView::escaped);
        if intermediates.len() > 0 {
            return;
        }
        match byte as char {
            'D' => self.linefeed(),
            'E' => {
                self.linefeed();
                self.carriage_return();
            },
            'M' => self.reverse_index(),
            '7' => self.save_cursor(),
            '8' => self.restore_cursor(),
            '=' => self.term_mode.set(ModeFlag::AppKeypad, true),
            '>' => self.term_mode.set(ModeFlag::AppKeypad, false),
            'c' => self.reset(),
            _ => {},
        }
    }

    fn report_status(&mut self, request: u16)
        requires
            old(self).inv(),
        ensures
            final(self).inv(),
            final(self)@ == old(self)@.status_reported(request),
    {
        match request {
            5 => self.reply("\x1b[0n"),
            6 => {
                let cursor = self.active().cursor;
                self.reply_pair("\x1b[", cursor.row as u64 + 1, cursor.col as u64 + 1, "R");
            },
            _ => {},
        }
    }

    fn report_size(&mut self, request: u16)
        requires
            old(self).inv(),
        ensures
            final(self).inv(),
            final(self)@ == old(self)@.size_reported(request),
    {
        let rows: u64 = self.active().rows as u64;
        let cols: u64 = self.active().cols as u64;
        match request {
            14 => self.reply_pair("\x1b[4;", rows * 17, cols * 8, "t"),
            18 => self.reply_pair("\x1b[8;", rows, cols, "t"),
            _ => {},
        }
    }

    fn keyboard_dispatch(&mut self, params: &Vec<Vec<u16>>, marker: u8)
        requires
            old(self).inv(),
        ensures
            final(self).inv(),
            final(self)@ == old(self)@.keyboard_csi(number_lists(params@), marker),
    {
        reveal(ScreenView::keyboard_csi);
        let modes = KeyboardModes::from_bits_truncate(param_or(params, 0, 0) as u32);
        match marker as char {
            '=' => {
                if let Some(apply) = KeyboardModesApplyBehavior::from_kitty_apply_mode(
                    param_or(params, 1, 1),
                ) {
                    self.set_keyboard_modes(modes, apply);
                }
            },
            '>' => self.set_keyboard_modes(modes, KeyboardModesApplyBehavior::Union),
            '<' => self.set_keyboard_modes(
                KeyboardModes::default(),
                KeyboardModesApplyBehavior::Replace,
            ),
            '?' => {
                let mut text = String::new();
                text.append("\x1b[?");
                push_decimal(&mut text, self.keyboard_modes.bits as u64);
                text.append("u");
                assert(text@ =~= "\x1b[?"@ + decimal(self@.keyboard.bits as nat) + "u"@);
                self.reply(text.as_str());
            },
            _ => {},
        }
    }

    fn plain_dispatch(&mut self, params: &Vec<Vec<u16>>, action: char)
        requires
            old(self).inv(),
        ensures
            final(self).inv(),
            final(self)@ == old(self)@.plain_csi(number_lists(params@), action),
    {
        reveal(ScreenView::plain_csi);
        let first: u16 = param_or(params, 0, 1);
        let second: u16 = param_or(params, 1, 1);
        match action {
            '@' => self.insert_blank(first),
            'A' => self.move_up(first),
            'B' | 'e' => self.move_down(first),
            'C' | 'a' => self.move_forward(first),
            'D' => self.move_backward(first),
            'E' => {
                self.move_down(first);
                self.carriage_return();
            },
            'F' => {
                self.move_up(first);
                self.carriage_return();
            },
            'G' | '`' => self.goto_col((first - 1) as usize),
            'H' | 'f' => self.goto((first - 1) as usize, (second - 1) as usize),
            'J' => self.clear_screen(param_or(params, 0, 0)),
            'K' => self.clear_line(param_or(params, 0, 0)),
            'L' => self.insert_blank_lines(first),
            'M' => self.delete_lines(first),
            'P' => self.delete_chars(first),
            'S' => self.scroll_up(first),
            'T' => self.scroll_down(first),
            'X' => self.erase_chars(first),
            'd' => self.goto_line((first - 1) as usize),
            'm' => self.apply_sgr(params),
            'n' => self.report_status(param_or(params, 0, 0)),
            'r' => self.set_scrolling_region(first, param_or(params, 1, 0)),
            's' => self.save_cursor(),
            't' => self.report_size(first),
            'u' => self.restore_cursor(),
            _ => {},
        }
    }

    fn csi_dispatch(
        &mut self,
        params: &Vec<Vec<u16>>,
        intermediates: &Vec<u8>,
        ignore: bool,
        action: char,
    )
        requires
            old(self).inv(),
        ensures
            final(self).inv(),
            final(self)@ == old(self)@.controlled(
                number_lists(params@),
                intermediates@,
                ignore,
                action,
            ),
    {
        if ignore {
            return;
        }
        let private: bool = intermediates.len() > 0 && intermediates[0] as char == '?';
        match action {
            'c' => {
                if param_or(params, 0, 0) == 0 {
                    self.reply("\x1b[?1;2c");
                }
            },
            'h' => self.change_modes(private, params, true),
            'l' => self.change_modes(private, params, false),
            _ => {
                if intermediates.len() == 0 {
                    self.plain_dispatch(params, action);
                } else if action == 'u' && intermediates.len() == 1 {
                    self.keyboard_dispatch(params, intermediates[0]);
                }
            },
        }
    }

    /// Does what one event asks for.
    pub fn handle(&mut self, event: &TermEvent)
        requires
            old(self).inv(),
        ensures
            final(self).inv(),
            final(self)@ == old(self)@.after(event@),
    {
        reveal(ScreenView::after);
        match event {
            TermEvent::Print(c) => self.put_char(*c),
            TermEvent::Execute(byte) => self.execute(*byte),
            TermEvent::Osc(params) => self.osc_dispatch(params),
            TermEvent::Csi { params, intermediates, ignore, action } => self.csi_dispatch(
                params,
                intermediates,
                *ignore,
                *action,
            ),
            TermEvent::Esc { intermediates, byte } => self.esc_dispatch(intermediates, *byte),
        }
    }

    fn handle_all(&mut self, events: &Vec<TermEvent>)
        requires
            old(self).inv(),
        ensures
            final(self).inv(),
            final(self)@ == old(self)@.after_all(event_views(events@)),
    {
        let ghost before = self@;
        let ghost all = event_views(events@);
        let mut i: usize = 0;
        assert(all.take(0) =~= Seq::empty());
        while i < events.len()
            invariant
                self.inv(),
                i <= events.len(),
                all == event_views(events@),
                self@ == before.after_all(all.take(i as int)),
            decreases events.len() - i,
        {
            assert(all.take(i + 1).drop_last() =~= all.take(i as int));
            self.handle(&events[i]);
            i += 1;
        }
        assert(all.take(all.len() as int) =~= all);
    }

    fn read_byte(&mut self, byte: u8)
        requires
            old(self).inv(),
        ensures
            final(self).inv(),
            final(self)@ == (ScreenView {
                fed: old(self)@.fed.push(byte),
                ..old(self)@
            }).after_all(vte_events(old(self)@.fed, byte)),
    {
        let events = advance(&mut self.parser, byte);
        proof {
            self.fed@ = self.fed@.push(byte);
        }
        self.handle_all(&events);
    }

    /// Reads what a program wrote and returns the replies it is owed.
    pub fn process(&mut self, bytes: &[u8]) -> (replies: Vec<Vec<u8>>)
        requires
            old(self).inv(),
        ensures
            final(self).inv(),
            final(self)@ == old(self)@.fed_with(bytes@).drained(),
            byte_lists(replies@) == old(self)@.fed_with(bytes@).writes,
    {
        let ghost before = self@;
        let mut i: usize = 0;
        assert(bytes@.take(0) =~= Seq::empty());
        while i < bytes.len()
            invariant
                self.inv(),
                i <= bytes@.len(),
                self@ == before.fed_with(bytes@.take(i as int)),
            decreases bytes@.len() - i,
        {
            assert(bytes@.take(i + 1).drop_last() =~= bytes@.take(i as int));
            self.read_byte(bytes[i]);
            i += 1;
        }
        assert(bytes@.take(bytes@.len() as int) =~= bytes@);
        let mut replies: Vec<Vec<u8>> = Vec::new();
        std::mem::swap(&mut replies, &mut self.pending_writes);
        assert(byte_lists(self.pending_writes@) =~= seq![]);
        replies
    }

    /// The shown screen, row by row.
    pub fn rendered_rows(&self) -> (rendered: Vec<RenderedRow>)
        requires
            self.inv(),
        ensures
            rendered.len() == self@.active().rows,
            forall|r: int|
                0 <= r < rendered.len() ==> (#[trigger] rendered@[r]).cells@ == Seq::new(
                    self@.active().cols as nat,
                    |c: int| self@.active().drawn_cell(self@.modes, r, c),
                ),
    {
        self.active().rendered_rows(self.term_mode)
    }

    pub fn title(&self) -> (title: Option<&str>)
        ensures
            self@.title is None <==> title is None,
            title is Some ==> self@.title == Some(title->0@),
    {
        match &self.title {
            Some(title) => Some(title.as_str()),
            None => None,
        }
    }

    pub fn input_mode(&self) -> (mode: TerminalInputMode)
        ensures
            mode.term_mode == self@.modes,
    {
        TerminalInputMode { term_mode: self.term_mode }
    }

    pub fn is_term_mode_set(&self, mode: ModeFlag) -> (set: bool)
        ensures
            set == self@.modes.has(mode),
    {
        self.term_mode.contains(mode)
    }
}

impl TerminalInputMode {
    pub fn is_term_mode_set(&self, mode: ModeFlag) -> (set: bool)
        ensures
            set == self.term_mode.has(mode),
    {
        self.term_mode.contains(mode)
    }
}

impl Clone for TerminalScreen {
    /// A copy that starts reading afresh and owes no replies.
    fn clone(&self) -> (copy: Self)
        ensures
            copy@ == (ScreenView { fed: seq![], writes: seq![], ..self@ }),
            self.inv() ==> copy.inv(),
    {
        let copy = TerminalScreen {
            parser: new_parser(),
            fed: Ghost(Seq::empty()),
            primary: self.primary.clone(),
            alternate: self.alternate.clone(),
            active_buffer: self.active_buffer,
            style: self.style,
            term_mode: self.term_mode,
            keyboard_modes: self.keyboard_modes,
            title: match &self.title {
                Some(title) => Some(title.clone()),
                None => None,
            },
            pending_writes: Vec::new(),
        };
        assert(copy@.writes =~= seq![]);
        copy
    }
}

} // verus!
