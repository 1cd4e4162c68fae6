use warpsolo::pane_group::{
    pane_body, pane_heading, tab_colors, tab_label, Pane, PaneGroupLite, PaneGroupLiteAction, PaneKind,
    PaneNode, MAX_TERMINAL_TEXT_BYTES,
};
use warpsolo::pty::{initial_working_directory, sanitize_terminal_bytes};
use warpsolo::terminal::cell::{dim_color, xterm_palette, Color};
use warpsolo::terminal::modes::{KeyboardModes, KeyboardModesApplyBehavior, ModeFlag};
use warpsolo::terminal::screen::TerminalScreen;

fn rows(screen: &TerminalScreen) -> Vec<String> {
    screen
        .rendered_rows()
        .iter()
        .map(|row| {
            let text: String = row.cells.iter().map(|cell| cell.ch).collect();
            text.trim_end().to_string()
        })
        .collect()
}

fn shown(columns: u16, lines: u16, bytes: &[u8]) -> Vec<String> {
    let mut screen = TerminalScreen::new(columns, lines);
    screen.process(bytes);
    rows(&screen)
}

fn panes(node: &PaneNode) -> Vec<&Pane> {
    match node {
        PaneNode::Leaf(pane) => vec![pane],
        PaneNode::Split { first, second, .. } => {
            let mut all = panes(first);
            all.extend(panes(second));
            all
        }
    }
}

#[test]
fn text_is_printed() {
    assert_eq!(shown(10, 3, b"hi\r\nthere"), vec!["hi", "there", ""]);
}

#[test]
fn long_lines_wrap() {
    assert_eq!(shown(4, 3, b"abcdef"), vec!["abcd", "ef", ""]);
    assert_eq!(shown(4, 3, b"\x1b[?7labcdef"), vec!["abcf", "", ""]);
}

#[test]
fn full_screens_scroll() {
    assert_eq!(shown(4, 2, b"a\r\nb\r\nc"), vec!["b", "c"]);
}

#[test]
fn wide_characters_take_two_columns() {
    let mut screen = TerminalScreen::new(10, 1);
    let replies = screen.process("\u{4e2d}\x1b[6n".as_bytes());
    assert_eq!(replies, vec![b"\x1b[1;3R".to_vec()]);
}

#[test]
fn reports_are_answered() {
    let mut screen = TerminalScreen::new(10, 3);
    let replies = screen.process(b"hi\x1b[6n\x1b[5n");
    assert_eq!(replies, vec![b"\x1b[1;3R".to_vec(), b"\x1b[0n".to_vec()]);
}

#[test]
fn output_in_pieces_is_the_same() {
    let bytes = b"ab\x1b[2;3Hcd\x1b[1;1H\x1b[31mx";
    let whole = shown(6, 3, bytes);
    for at in 0..bytes.len() {
        let mut screen = TerminalScreen::new(6, 3);
        screen.process(&bytes[..at]);
        screen.process(&bytes[at..]);
        assert_eq!(rows(&screen), whole);
    }
}

#[test]
fn lines_and_screens_are_cleared() {
    assert_eq!(shown(6, 2, b"abc\x1b[2D\x1b[K"), vec!["a", ""]);
    assert_eq!(shown(6, 2, b"abc\r\ndef\x1b[2J"), vec!["", ""]);
    assert_eq!(shown(6, 2, b"abc\r\x1b[P"), vec!["bc", ""]);
    assert_eq!(shown(6, 2, b"abc\r\x1b[2@"), vec!["  abc", ""]);
    assert_eq!(shown(6, 3, b"a\r\nb\x1b[1;1H\x1b[L"), vec!["", "a", "b"]);
    assert_eq!(shown(6, 3, b"a\r\nb\x1b[1;1H\x1b[M"), vec!["b", "", ""]);
}

#[test]
fn the_alternate_screen_is_apart() {
    let mut screen = TerminalScreen::new(6, 2);
    screen.process(b"main\x1b[?1049hother");
    assert_eq!(rows(&screen), vec!["other", ""]);
    screen.process(b"\x1b[?1049l");
    assert_eq!(rows(&screen), vec!["main", ""]);
}

#[test]
fn the_saved_cursor_comes_back() {
    let mut screen = TerminalScreen::new(6, 3);
    let replies = screen.process(b"\x1b[2;3H\x1b7\x1b[1;1H\x1b8\x1b[6n");
    assert_eq!(replies, vec![b"\x1b[2;3R".to_vec()]);
}

#[test]
fn modes_and_titles_are_kept() {
    let mut screen = TerminalScreen::new(6, 2);
    assert!(screen.is_term_mode_set(ModeFlag::LineWrap));
    assert!(!screen.is_term_mode_set(ModeFlag::BracketedPaste));
    screen.process(b"\x1b[?2004h\x1b]0;a title\x07");
    assert!(screen.is_term_mode_set(ModeFlag::BracketedPaste));
    assert!(screen.input_mode().is_term_mode_set(ModeFlag::BracketedPaste));
    assert_eq!(screen.title(), Some("a title"));
}

#[test]
fn screens_are_resized() {
    let mut screen = TerminalScreen::new(6, 2);
    screen.process(b"abcdef\x1b[999;999H\x1b[999C\x1b[999B");
    assert_eq!(screen.rendered_rows().len(), 2);
    assert!(screen.rendered_rows().iter().all(|row| row.cells.len() == 6));
    screen.resize(3, 4);
    assert_eq!(rows(&screen), vec!["abc", "", "", ""]);
}

#[test]
fn colours_are_resolved() {
    assert_eq!(xterm_palette(1), Color { r: 205, g: 49, b: 49, a: 255 });
    assert_eq!(xterm_palette(16), Color { r: 0, g: 0, b: 0, a: 255 });
    assert_eq!(xterm_palette(231), Color { r: 255, g: 255, b: 255, a: 255 });
    assert_eq!(xterm_palette(255), Color { r: 238, g: 238, b: 238, a: 255 });
    assert_eq!(dim_color(xterm_palette(15)).a, 255);
    let mut screen = TerminalScreen::new(2, 1);
    screen.process(b"\x1b[38;2;1;2;3mx");
    let cell = screen.rendered_rows()[0].cells[0];
    assert_eq!(cell.fg, Color { r: 1, g: 2, b: 3, a: 255 });
}

#[test]
fn keyboard_flags_combine() {
    let mut modes = KeyboardModes::from_bits_truncate(0xff);
    assert_eq!(modes.bits, 0x1f);
    modes.apply(KeyboardModes { bits: 1 }, KeyboardModesApplyBehavior::Difference);
    assert_eq!(modes.bits, 0x1e);
    modes.apply(KeyboardModes { bits: 1 }, KeyboardModesApplyBehavior::Replace);
    assert_eq!(modes.bits, 1);
    assert!(KeyboardModesApplyBehavior::from_kitty_apply_mode(9).is_none());
}

#[test]
fn shell_output_is_plain() {
    assert_eq!(sanitize_terminal_bytes(b"a\x1b[31mb\x08c"), "ac");
    assert_eq!(sanitize_terminal_bytes(b"\x1b]0;title\x07x\r\ny"), "x\ny");
    assert_eq!(sanitize_terminal_bytes(b"plain\ttext\n"), "plain\ttext\n");
    assert_eq!(sanitize_terminal_bytes(b"a\xffb"), "ab");
}

#[test]
fn shells_start_where_the_user_is() {
    assert_eq!(initial_working_directory(Some("/work"), Some("/home/me")), "/work");
    assert_eq!(initial_working_directory(Some("/"), Some("/home/me")), "/home/me");
    assert_eq!(initial_working_directory(None, None), "/");
}

#[test]
fn tabs_open_and_close() {
    let mut group = PaneGroupLite::new(None);
    assert_eq!(group.tabs.len(), 1);
    group.handle_action(PaneGroupLiteAction::NewTab, None);
    assert_eq!((group.tabs.len(), group.active_tab), (2, 1));
    group.handle_action(PaneGroupLiteAction::NextTab, None);
    assert_eq!(group.active_tab, 0);
    group.handle_action(PaneGroupLiteAction::PreviousTab, None);
    assert_eq!(group.active_tab, 1);
    group.handle_action(PaneGroupLiteAction::CloseActiveTab, None);
    assert_eq!((group.tabs.len(), group.active_tab), (1, 0));
    group.handle_action(PaneGroupLiteAction::CloseActiveTab, None);
    assert_eq!(group.tabs.len(), 1);
    assert_eq!(tab_label(&group.tabs[0]), "shell 1");
    assert_eq!(tab_colors(true).0, Color { r: 38, g: 38, b: 38, a: 255 });
    assert_eq!(tab_colors(false).1, Color { r: 150, g: 150, b: 150, a: 255 });
}

#[test]
fn splits_keep_their_panes() {
    let mut group = PaneGroupLite::new(Some("zsh".to_string()));
    group.handle_action(PaneGroupLiteAction::SplitRight, None);
    group.handle_action(PaneGroupLiteAction::SplitDown, None);
    group.handle_action(PaneGroupLiteAction::NewAgentPane, None);
    let all = panes(&group.tabs[0].root);
    assert_eq!(all.len(), 4);
    let mut ids: Vec<usize> = all.iter().map(|pane| pane.id).collect();
    ids.sort();
    ids.dedup();
    assert_eq!(ids.len(), 4);
    assert!(all.iter().any(|pane| pane.kind == PaneKind::Agent));
    assert_eq!(pane_body(all[0]), "starting zsh");
    assert!(pane_heading(all[0]).contains(" \u{b7} "));
}

#[test]
fn panes_keep_the_end_of_their_output() {
    let mut group = PaneGroupLite::new(None);
    let id = panes(&group.tabs[0].root)[0].id;
    assert!(group.drain_pty_output(id, &vec![b"he".to_vec(), b"llo".to_vec()]));
    assert_eq!(pane_body(panes(&group.tabs[0].root)[0]), "hello");
    assert!(!group.drain_pty_output(id, &Vec::new()));
    let long = vec![b'x'; MAX_TERMINAL_TEXT_BYTES + 10];
    assert!(group.drain_pty_output(id, &vec![long]));
    let output = &panes(&group.tabs[0].root)[0].output;
    assert!(output.len() <= MAX_TERMINAL_TEXT_BYTES);
    assert!(output.ends_with("xxx"));
}

#[test]
fn some_actions_make_a_pane() {
    assert!(PaneGroupLiteAction::NewTab.makes_pane());
    assert!(PaneGroupLiteAction::NewAgentPane.makes_pane());
    assert!(!PaneGroupLiteAction::NextTab.makes_pane());
}
