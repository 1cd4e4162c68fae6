//! Terminal modes that programs switch on and off, and the keyboard protocol flags.

use vstd::prelude::*;

verus! {

/// A mode that a program can set on the terminal.
#[derive(Debug, Clone, Copy, PartialEq, Eq, Structural)]
pub enum ModeFlag {
    AppCursor,
    AppKeypad,
    LineWrap,
    ShowCursor,
    Origin,
    Insert,
    LineFeedNewLine,
    MouseReportClick,
    MouseDrag,
    MouseMotion,
    FocusInOut,
    SgrMouse,
    AlternateScroll,
    BracketedPaste,
}

/// The progressive enhancement flags of the keyboard protocol: five bits.
#[derive(Debug, Clone, Copy, PartialEq, Eq, Structural)]
pub struct KeyboardModes {
    pub bits: u32,
}

/// How a new set of keyboard flags combines with the current one.
#[derive(Debug, Clone, Copy, PartialEq, Eq, Structural)]
pub enum KeyboardModesApplyBehavior {
    Replace,
    Union,
    Difference,
}

/// The modes that are set, and the keyboard flags that input encoding goes by.
#[derive(Debug, Clone, Copy, PartialEq, Eq, Structural)]
pub struct TermMode {
    pub app_cursor: bool,
    pub app_keypad: bool,
    pub line_wrap: bool,
    pub show_cursor: bool,
    pub origin: bool,
    pub insert: bool,
    pub line_feed_new_line: bool,
    pub mouse_report_click: bool,
    pub mouse_drag: bool,
    pub mouse_motion: bool,
    pub focus_in_out: bool,
    pub sgr_mouse: bool,
    pub alternate_scroll: bool,
    pub bracketed_paste: bool,
    pub keyboard: KeyboardModes,
}

/// A new terminal shows its cursor, wraps lines and scrolls its alternate screen.
pub open spec fn initial_term_mode() -> TermMode {
    TermMode {
        app_cursor: false,
        app_keypad: false,
        line_wrap: true,
        show_cursor: true,
        origin: false,
        insert: false,
        line_feed_new_line: false,
        mouse_report_click: false,
        mouse_drag: false,
        mouse_motion: false,
        focus_in_out: false,
        sgr_mouse: false,
        alternate_scroll: true,
        bracketed_paste: false,
        keyboard: KeyboardModes { bits: 0 },
    }
}

impl TermMode {
    pub open spec fn has(self, flag: ModeFlag) -> bool {
        match flag {
            ModeFlag::AppCursor => self.app_cursor,
            ModeFlag::AppKeypad => self.app_keypad,
            ModeFlag::LineWrap => self.line_wrap,
            ModeFlag::ShowCursor => self.show_cursor,
            ModeFlag::Origin => self.origin,
            ModeFlag::Insert => self.insert,
            ModeFlag::LineFeedNewLine => self.line_feed_new_line,
            ModeFlag::MouseReportClick => self.mouse_report_click,
            ModeFlag::MouseDrag => self.mouse_drag,
            ModeFlag::MouseMotion => self.mouse_motion,
            ModeFlag::FocusInOut => self.focus_in_out,
            ModeFlag::SgrMouse => self.sgr_mouse,
            ModeFlag::AlternateScroll => self.alternate_scroll,
            ModeFlag::BracketedPaste => self.bracketed_paste,
        }
    }

    /// These modes with `flag` set to `on`, all others as they are.
    #[verifier::opaque]
    pub open spec fn with(self, flag: ModeFlag, on: bool) -> TermMode {
        TermMode {
            app_cursor: if flag is AppCursor { on } else { self.app_cursor },
            app_keypad: if flag is AppKeypad { on } else { self.app_keypad },
            line_wrap: if flag is LineWrap { on } else { self.line_wrap },
            show_cursor: if flag is ShowCursor { on } else { self.show_cursor },
            origin: if flag is Origin { on } else { self.origin },
            insert: if flag is Insert { on } else { self.insert },
            line_feed_new_line: if flag is LineFeedNewLine { on } else { self.line_feed_new_line },
            mouse_report_click: if flag is MouseReportClick { on } else { self.mouse_report_click },
            mouse_drag: if flag is MouseDrag { on } else { self.mouse_drag },
            mouse_motion: if flag is MouseMotion { on } else { self.mouse_motion },
            focus_in_out: if flag is FocusInOut { on } else { self.focus_in_out },
            sgr_mouse: if flag is SgrMouse { on } else { self.sgr_mouse },
            alternate_scroll: if flag is AlternateScroll { on } else { self.alternate_scroll },
            bracketed_paste: if flag is BracketedPaste { on } else { self.bracketed_paste },
            keyboard: self.keyboard,
        }
    }

    pub fn contains(&self, flag: ModeFlag) -> (set: bool)
        ensures
            set == self.has(flag),
    {
        match flag {
            ModeFlag::AppCursor => self.app_cursor,
            ModeFlag::AppKeypad => self.app_keypad,
            ModeFlag::LineWrap => self.line_wrap,
            ModeFlag::ShowCursor => self.show_cursor,
            ModeFlag::Origin => self.origin,
            ModeFlag::Insert => self.insert,
            ModeFlag::LineFeedNewLine => self.line_feed_new_line,
            ModeFlag::MouseReportClick => self.mouse_report_click,
            ModeFlag::MouseDrag => self.mouse_drag,
            ModeFlag::MouseMotion => self.mouse_motion,
            ModeFlag::FocusInOut => self.focus_in_out,
            ModeFlag::SgrMouse => self.sgr_mouse,
            ModeFlag::AlternateScroll => self.alternate_scroll,
            ModeFlag::BracketedPaste => self.bracketed_paste,
        }
    }

    pub fn set(&mut self, flag: ModeFlag, on: bool)
        ensures
            *final(self) == old(self).with(flag, on),
    {
        reveal(TermMode::with);
        let modes = *self;
        *self = TermMode {
            app_cursor: if matches!(flag, ModeFlag::AppCursor) { on } else { modes.app_cursor },
            app_keypad: if matches!(flag, ModeFlag::AppKeypad) { on } else { modes.app_keypad },
            line_wrap: if matches!(flag, ModeFlag::LineWrap) { on } else { modes.line_wrap },
            show_cursor: if matches!(flag, ModeFlag::ShowCursor) { on } else { modes.show_cursor },
            origin: if matches!(flag, ModeFlag::Origin) { on } else { modes.origin },
            insert: if matches!(flag, ModeFlag::Insert) { on } else { modes.insert },
            line_feed_new_line: if matches!(flag, ModeFlag::LineFeedNewLine) { on } else { modes.line_feed_new_line },
            mouse_report_click: if matches!(flag, ModeFlag::MouseReportClick) { on } else { modes.mouse_report_click },
            mouse_drag: if matches!(flag, ModeFlag::MouseDrag) { on } else { modes.mouse_drag },
            mouse_motion: if matches!(flag, ModeFlag::MouseMotion) { on } else { modes.mouse_motion },
            focus_in_out: if matches!(flag, ModeFlag::FocusInOut) { on } else { modes.focus_in_out },
            sgr_mouse: if matches!(flag, ModeFlag::SgrMouse) { on } else { modes.sgr_mouse },
            alternate_scroll: if matches!(flag, ModeFlag::AlternateScroll) { on } else { modes.alternate_scroll },
            bracketed_paste: if matches!(flag, ModeFlag::BracketedPaste) { on } else { modes.bracketed_paste },
            keyboard: modes.keyboard,
        };
    }
}

impl Default for TermMode {
    fn default() -> (modes: Self)
        ensures
            modes == initial_term_mode(),
    {
        TermMode {
            app_cursor: false,
            app_keypad: false,
            line_wrap: true,
            show_cursor: true,
            origin: false,
            insert: false,
            line_feed_new_line: false,
            mouse_report_click: false,
            mouse_drag: false,
            mouse_motion: false,
            focus_in_out: false,
            sgr_mouse: false,
            alternate_scroll: true,
            bracketed_paste: false,
            keyboard: KeyboardModes::default(),
        }
    }
}

impl Default for KeyboardModes {
    fn default() -> (modes: Self)
        ensures
            modes.bits == 0,
    {
        KeyboardModes { bits: 0 }
    }
}

impl KeyboardModes {
    /// The flags among the five known ones that are set in `bits`.
    pub fn from_bits_truncate(bits: u32) -> (modes: Self)
        ensures
            modes.bits == bits & 31,
            modes.bits < 32,
    {
        assert(bits & 31 < 32) by (bit_vector);
        KeyboardModes { bits: bits & 31 }
    }

    pub open spec fn applied(self, modes: KeyboardModes, apply: KeyboardModesApplyBehavior) -> KeyboardModes {
        match apply {
            KeyboardModesApplyBehavior::Replace => modes,
            KeyboardModesApplyBehavior::Union => KeyboardModes { bits: self.bits | modes.bits },
            KeyboardModesApplyBehavior::Difference => KeyboardModes { bits: self.bits & !modes.bits },
        }
    }

    pub fn apply(&mut self, modes: KeyboardModes, apply: KeyboardModesApplyBehavior)
        ensures
            *final(self) == old(self).applied(modes, apply),
            old(self).bits < 32 && modes.bits < 32 ==> final(self).bits < 32,
    {
        let current: u32 = self.bits;
        let other: u32 = modes.bits;
        assert(current < 32 && other < 32 ==> current | other < 32 && current & !other < 32)
            by (bit_vector);
        match apply {
            KeyboardModesApplyBehavior::Replace => self.bits = other,
            KeyboardModesApplyBehavior::Union => self.bits = current | other,
            KeyboardModesApplyBehavior::Difference => self.bits = current & !other,
        }
    }
}

impl KeyboardModesApplyBehavior {
    pub open spec fn of_kitty_mode(mode: u16) -> Option<KeyboardModesApplyBehavior> {
        if mode == 1 {
            Some(KeyboardModesApplyBehavior::Replace)
        } else if mode == 2 {
            Some(KeyboardModesApplyBehavior::Union)
        } else if mode == 3 {
            Some(KeyboardModesApplyBehavior::Difference)
        } else {
            None
        }
    }

    /// The behaviour with the given number in the keyboard protocol.
    pub fn from_kitty_apply_mode(mode: u16) -> (apply: Option<Self>)
        ensures
            apply == Self::of_kitty_mode(mode),
    {
        match mode {
            1 => Some(KeyboardModesApplyBehavior::Replace),
            2 => Some(KeyboardModesApplyBehavior::Union),
            3 => Some(KeyboardModesApplyBehavior::Difference),
            _ => None,
        }
    }
}

/// Setting one mode sets that mode and no other.
pub proof fn law_modes_are_independent(modes: TermMode, flag: ModeFlag, on: bool, other: ModeFlag)
    ensures
        modes.with(flag, on).has(flag) == on,
        other != flag ==> modes.with(flag, on).has(other) == modes.has(other),
        modes.with(flag, on).keyboard == modes.keyboard,
{
    reveal(TermMode::with);
}

} // verus!
