//! Plain text from what a shell writes to its terminal.

use vstd::prelude::*;
use vstd::utf8::{encode_utf8, valid_utf8};

pub mod laws;

use crate::text::{lossy_text, same, string_of, utf8_lossy};

verus! {

/// What a byte is part of.
#[derive(Debug, Clone, Copy, PartialEq, Eq, Structural)]
pub enum State {
    Ground,
    Escape,
    Csi,
    Osc,
    OscEscape,
}

/// Whether a byte stands for itself in plain text.
pub open spec fn is_plain(byte: u8) -> bool {
    byte == 10 || byte == 9 || 0x20 <= byte <= 0x7e
}

/// What follows a byte: escape sequences run to their final byte, operating system commands to a
/// bell or a string terminator.
pub open spec fn next_state(state: State, byte: u8) -> State {
    match state {
        State::Ground => if byte == 0x1b { State::Escape } else { State::Ground },
        State::Escape => if byte == '[' as u8 {
            State::Csi
        } else if byte == ']' as u8 {
            State::Osc
        } else {
            State::Ground
        },
        State::Csi => if 0x40 <= byte <= 0x7e { State::Ground } else { State::Csi },
        State::Osc => if byte == 7 {
            State::Ground
        } else if byte == 0x1b {
            State::OscEscape
        } else {
            State::Osc
        },
        State::OscEscape => if byte == '\\' as u8 { State::Ground } else { State::Osc },
    }
}

/// The text after a byte: outside of escape sequences plain bytes are added, and a backspace
/// takes the last character back.
pub open spec fn next_text(state: State, text: Seq<char>, byte: u8) -> Seq<char> {
    if state is Ground && is_plain(byte) {
        text.push(byte as char)
    } else if state is Ground && byte == 8 && text.len() > 0 {
        text.drop_last()
    } else {
        text
    }
}

/// The state after all bytes.
pub open spec fn state_after(bytes: Seq<u8>) -> State
    decreases bytes.len(),
{
    if bytes.len() == 0 {
        State::Ground
    } else {
        next_state(state_after(bytes.drop_last()), bytes.last())
    }
}

/// The plain text of all bytes.
pub open spec fn plain_text(bytes: Seq<u8>) -> Seq<char>
    decreases bytes.len(),
{
    if bytes.len() == 0 {
        seq![]
    } else {
        next_text(state_after(bytes.drop_last()), plain_text(bytes.drop_last()), bytes.last())
    }
}

/// The plain text of terminal output.
pub open spec fn sanitized(bytes: Seq<u8>) -> Seq<char> {
    plain_text(encode_utf8(utf8_lossy(bytes)))
}

/// Whether a text holds nothing but printable ASCII, newlines and tabs.
pub open spec fn is_plain_text(text: Seq<char>) -> bool {
    forall|i: int|
        0 <= i < text.len() ==> text[i] == '\n' || text[i] == '\t' || ' ' <= #[trigger] text[i] <= '~'
}

/// Sanitizing leaves nothing but printable ASCII, newlines and tabs.
pub proof fn law_sanitized_is_plain(bytes: Seq<u8>)
    ensures
        is_plain_text(plain_text(bytes)),
    decreases bytes.len(),
{
    if bytes.len() > 0 {
        law_sanitized_is_plain(bytes.drop_last());
    }
}

/// Plain text comes through unchanged.
pub proof fn law_plain_text_is_kept(bytes: Seq<u8>)
    requires
        forall|i: int| 0 <= i < bytes.len() ==> is_plain(#[trigger] bytes[i]),
    ensures
        plain_text(bytes) == bytes.map_values(|byte: u8| byte as char),
        state_after(bytes) is Ground,
    decreases bytes.len(),
{
    if bytes.len() > 0 {
        law_plain_text_is_kept(bytes.drop_last());
    }
    assert(plain_text(bytes) =~= bytes.map_values(|byte: u8| byte as char));
}

/// The plain text of text with escape sequences in it.
pub fn sanitize_text(text: &str) -> (out: String)
    ensures
        out@ == plain_text(encode_utf8(text@)),
        is_plain_text(out@),
{
    let bytes = text.as_bytes();
    let mut state = State::Ground;
    let mut output: Vec<char> = Vec::new();
    let mut i: usize = 0;
    assert(bytes@.take(0) =~= Seq::empty());
    while i < bytes.len()
        invariant
            i <= bytes@.len(),
            state == state_after(bytes@.take(i as int)),
            output@ == plain_text(bytes@.take(i as int)),
        decreases bytes@.len() - i,
    {
        let byte: u8 = bytes[i];
        assert(bytes@.take(i + 1).drop_last() =~= bytes@.take(i as int));
        match state {
            State::Ground => {
                if byte == 0x1b {
                    state = State::Escape;
                } else if byte == 10 || byte == 9 || (0x20 <= byte && byte <= 0x7e) {
                    output.push(byte as char);
                } else if byte == 8 {
                    let _removed = output.pop();
                }
            },
            State::Escape => {
                state = match byte as char {
                    '[' => State::Csi,
                    ']' => State::Osc,
                    _ => State::Ground,
                };
            },
            State::Csi => {
                if 0x40 <= byte && byte <= 0x7e {
                    state = State::Ground;
                }
            },
            State::Osc => {
                if byte == 7 {
                    state = State::Ground;
                } else if byte == 0x1b {
                    state = State::OscEscape;
                }
            },
            State::OscEscape => {
                state = if byte as char == '\\' { State::Ground } else { State::Osc };
            },
        }
        i += 1;
    }
    assert(bytes@.take(bytes@.len() as int) =~= bytes@);
    proof {
        law_sanitized_is_plain(bytes@);
    }
    string_of(&output)
}

/// The plain text of what a shell wrote: escape sequences, carriage returns and other control
/// characters are gone.
pub fn sanitize_terminal_bytes(bytes: &[u8]) -> (out: String)
    ensures
        out@ == sanitized(bytes@),
        valid_utf8(bytes@) ==> out@ == plain_text(bytes@),
        is_plain_text(out@),
{
    proof {
        if valid_utf8(bytes@) {
            vstd::utf8::decode_utf8_encode_utf8(bytes@);
        }
    }
    sanitize_text(lossy_text(bytes).as_str())
}

/// Where a shell starts: in the current directory unless that is unknown or the root, else in the
/// home directory, else in the root.
pub open spec fn start_directory(cwd: Option<Seq<char>>, home: Option<Seq<char>>) -> Seq<char> {
    match (cwd, home) {
        (Some(cwd), None) => cwd,
        (Some(cwd), Some(home)) => if cwd == "/"@ { home } else { cwd },
        (None, Some(home)) => home,
        (None, None) => "/"@,
    }
}

/// The directory that a shell starts in.
pub fn initial_working_directory(cwd: Option<&str>, home: Option<&str>) -> (dir: String)
    ensures
        dir@ == start_directory(
            match cwd {
                Some(cwd) => Some(cwd@),
                None => None,
            },
            match home {
                Some(home) => Some(home@),
                None => None,
            },
        ),
{
    if let Some(cwd) = cwd {
        if !same(cwd, "/") {
            return cwd.to_string();
        }
    }
    match home {
        Some(home) => home.to_string(),
        None => "/".to_string(),
    }
}

} // verus!
