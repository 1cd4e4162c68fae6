//! What the tools give.

use vstd::prelude::*;
use vstd::utf8::{decode_utf8, valid_utf8};

use crate::agent_state::{LocalCommandOutput, LocalToolCall, LocalToolResult, ToolCallView, ToolResultView};
use crate::text::{
    byte_len, bytes_in, chars_of, decimal, ends_with, find_at, first_from, lemma_encode_concat,
    lossy_text, pieces, push_decimal, push_signed, signed_decimal, split_pieces, texts, utf8_lossy,
};
use crate::tools::plan::MAX_WRITE_BYTES;

verus! {

pub const MAX_READ_BYTES: usize = 64_000;

pub const MAX_COMMAND_OUTPUT_BYTES: usize = 64_000;

/// The result of a call, with the given text.
pub open spec fn result_of(call: ToolCallView, content: Seq<char>) -> ToolResultView {
    ToolResultView { tool_call_id: call.id, name: call.name, content }
}

/// The result of a call.
pub fn tool_result(call: &LocalToolCall, content: String) -> (result: LocalToolResult)
    ensures
        result@ == result_of(call@, content@),
{
    LocalToolResult { tool_call_id: call.id.clone(), name: call.name.clone(), content }
}

/// The result of a call that failed.
pub fn failed_result(call: &LocalToolCall, why: &str) -> (result: LocalToolResult)
    ensures
        result@ == result_of(call@, "Tool failed: "@ + why@),
{
    let mut content = "Tool failed: ".to_owned();
    content.append(why);
    tool_result(call, content)
}

/// How far reading a file has come.
#[verifier::ext_equal]
pub struct Selection {
    pub text: Seq<char>,
    pub lines: nat,
    pub truncated: bool,
    pub done: bool,
}

pub open spec fn nothing_selected() -> Selection {
    Selection { text: seq![], lines: 0, truncated: false, done: false }
}

/// The selection after the line with the number `index`. It ends with the last line that is wanted,
/// or before a line that no longer fits.
pub open spec fn selected_line(
    before: Selection,
    index: nat,
    line: Seq<char>,
    offset: u64,
    limit: Option<u64>,
) -> Selection {
    if before.done || index < offset {
        before
    } else if limit matches Some(limit) && before.lines >= limit {
        Selection { done: true, ..before }
    } else if bytes_in(before.text) + bytes_in(line) > MAX_READ_BYTES {
        Selection { truncated: true, done: true, ..before }
    } else {
        Selection { text: before.text + line, lines: before.lines + 1, ..before }
    }
}

pub open spec fn selected_lines(lines: Seq<Seq<char>>, offset: u64, limit: Option<u64>) -> Selection
    decreases lines.len(),
{
    if lines.len() == 0 {
        nothing_selected()
    } else {
        selected_line(
            selected_lines(lines.drop_last(), offset, limit),
            (lines.len() - 1) as nat,
            lines.last(),
            offset,
            limit,
        )
    }
}

/// What is read of a file.
pub open spec fn selection(content: Seq<char>, offset: u64, limit: Option<u64>) -> Selection {
    selected_lines(pieces(content), offset, limit)
}

/// What is read of a file is bounded in bytes, and by the number of lines that is wanted.
pub proof fn law_reading_is_bounded(lines: Seq<Seq<char>>, offset: u64, limit: Option<u64>)
    ensures
        bytes_in(selected_lines(lines, offset, limit).text) <= MAX_READ_BYTES,
        limit matches Some(limit) ==> selected_lines(lines, offset, Some(limit)).lines <= limit,
        selected_lines(lines, offset, limit).lines <= lines.len(),
    decreases lines.len(),
{
    if lines.len() > 0 {
        law_reading_is_bounded(lines.drop_last(), offset, limit);
        lemma_encode_concat(
            selected_lines(lines.drop_last(), offset, limit).text,
            lines.last(),
        );
    }
}

/// A text that is no longer than what may be read is read whole.
pub proof fn law_short_files_are_read_whole(lines: Seq<Seq<char>>)
    requires
        bytes_in(all_of(lines)) <= MAX_READ_BYTES,
    ensures
        selected_lines(lines, 0, None) == (Selection {
            text: all_of(lines),
            lines: lines.len(),
            truncated: false,
            done: false,
        }),
    decreases lines.len(),
{
    if lines.len() > 0 {
        lemma_encode_concat(all_of(lines.drop_last()), lines.last());
        law_short_files_are_read_whole(lines.drop_last());
    }
}

/// All lines one after the other.
pub open spec fn all_of(lines: Seq<Seq<char>>) -> Seq<char>
    decreases lines.len(),
{
    if lines.len() == 0 {
        seq![]
    } else {
        all_of(lines.drop_last()) + lines.last()
    }
}

proof fn lemma_done_stays(lines: Seq<Seq<char>>, n: int, offset: u64, limit: Option<u64>)
    requires
        0 <= n <= lines.len(),
        selected_lines(lines.take(n), offset, limit).done,
    ensures
        selected_lines(lines, offset, limit) == selected_lines(lines.take(n), offset, limit),
    decreases lines.len() - n,
{
    if n == lines.len() {
        assert(lines.take(n) =~= lines);
    } else {
        assert(lines.take(n + 1).drop_last() =~= lines.take(n));
        lemma_done_stays(lines, n + 1, offset, limit);
    }
}

/// The lines of a file from `offset` on, at most `limit` of them; the flag tells that a line did
/// not fit any more.
pub fn select_file_lines(content: &str, offset: u64, limit: Option<u64>) -> (out: (String, bool))
    ensures
        out.0@ == selection(content@, offset, limit).text,
        out.1 == selection(content@, offset, limit).truncated,
{
    let lines = split_pieces(content);
    let ghost all = texts(lines@);
    let mut selected = String::new();
    let mut lines_read: u64 = 0;
    let mut index: usize = 0;
    assert(all.take(0) =~= Seq::empty());
    while index < lines.len()
        invariant
            index <= lines.len(),
            all == texts(lines@),
            selected_lines(all.take(index as int), offset, limit) == (Selection {
                text: selected@,
                lines: lines_read as nat,
                truncated: false,
                done: false,
            }),
            all == pieces(content@),
        decreases lines.len() - index,
    {
        proof {
            law_reading_is_bounded(all.take(index as int), offset, limit);
        }
        assert(all.take(index + 1).drop_last() =~= all.take(index as int));
        if index as u64 >= offset {
            if let Some(limit) = limit {
                if lines_read >= limit {
                    proof {
                        lemma_done_stays(all, index + 1, offset, Some(limit));
                    }
                    return (selected, false);
                }
            }
            if byte_len(lines[index].as_str()) > MAX_READ_BYTES - byte_len(selected.as_str()) {
                proof {
                    lemma_done_stays(all, index + 1, offset, limit);
                }
                return (selected, true);
            }
            selected.append(lines[index].as_str());
            lines_read += 1;
        }
        index += 1;
    }
    assert(all.take(all.len() as int) =~= all);
    (selected, false)
}

/// The text of what was read.
pub open spec fn read_text(content: Seq<char>, offset: u64, limit: Option<u64>) -> Seq<char> {
    let read = selection(content, offset, limit);
    if read.truncated {
        read.text + "\n[read_file output truncated]\n"@
    } else {
        read.text
    }
}

/// What the reading tool gives for a file with this content.
pub fn read_file_text(content: &str, offset: u64, limit: Option<u64>) -> (text: String)
    ensures
        text@ == read_text(content@, offset, limit),
{
    let (text, was_truncated) = select_file_lines(content, offset, limit);
    let mut text = text;
    if was_truncated {
        text.append("\n[read_file output truncated]\n");
    }
    text
}

/// Whether a file may be written: one that exists only where it is to be overwritten.
pub fn check_write(path: &str, file_exists: bool, overwrite: bool) -> (out: Result<(), String>)
    ensures
        out is Ok <==> !file_exists || overwrite,
        out matches Err(why) ==> why@ == "file exists at "@ + path@
            + "; set overwrite=true to replace it"@,
{
    if file_exists && !overwrite {
        let mut why = "file exists at ".to_owned();
        why.append(path);
        why.append("; set overwrite=true to replace it");
        Err(why)
    } else {
        Ok(())
    }
}

/// What the writing tool gives.
pub fn write_file_text(path: &str, content: &str, existed: bool) -> (text: String)
    ensures
        text@ == (if existed {
            "Overwrote "@
        } else {
            "Wrote "@
        }) + decimal(bytes_in(content@)) + " bytes to "@ + path@ + "."@,
{
    let mut text = if existed {
        "Overwrote ".to_owned()
    } else {
        "Wrote ".to_owned()
    };
    push_decimal(&mut text, byte_len(content) as u64);
    text.append(" bytes to ");
    text.append(path);
    text.append(".");
    text
}

/// How often a text occurs, counted up to two, without overlaps.
pub open spec fn occurrences(content: Seq<char>, search: Seq<char>) -> int {
    match first_from(content, search, 0) {
        None => 0,
        Some(at) => if first_from(content, search, at + search.len()) is None {
            1
        } else {
            2
        },
    }
}

/// The content with the one occurrence of `search` replaced.
pub open spec fn replaced(content: Seq<char>, search: Seq<char>, replace: Seq<char>) -> Result<
    Seq<char>,
    Seq<char>,
> {
    if occurrences(content, search) != 1 {
        Err(
            "search_replace requires exactly one match, found "@ + decimal(
                occurrences(content, search) as nat,
            ),
        )
    } else {
        let at = first_from(content, search, 0)->0;
        let updated = content.take(at) + replace + content.skip(at + search.len());
        if bytes_in(updated) > MAX_WRITE_BYTES {
            Err("search_replace result exceeds 64000 bytes"@)
        } else {
            Ok(updated)
        }
    }
}

/// A refused edit changes nothing, an accepted one nothing but the text that was searched for.
pub proof fn law_edits_are_local(content: Seq<char>, search: Seq<char>, replace: Seq<char>)
    requires
        replaced(content, search, replace) is Ok,
    ensures
        exists|before: Seq<char>, after: Seq<char>|
            content == #[trigger] (before + search + after) && replaced(content, search, replace)
                == Ok::<_, Seq<char>>(before + replace + after),
{
    crate::text::lemma_first_from(content, search, 0);
    let at = first_from(content, search, 0)->0;
    let before = content.take(at);
    let after = content.skip(at + search.len());
    assert(content =~= before + search + after);
}

/// The content with the one occurrence of `search` replaced.
pub fn replace_once(content: &str, search: &str, replace: &str) -> (out: Result<String, String>)
    ensures
        match out {
            Ok(updated) => replaced(content@, search@, replace@) == Ok::<_, Seq<char>>(updated@),
            Err(why) => replaced(content@, search@, replace@) == Err::<Seq<char>, _>(why@),
        },
{
    let chars = chars_of(content);
    let part = chars_of(search);
    proof {
        crate::text::lemma_first_from(content@, search@, 0);
    }
    let first = find_at(&chars, &part, 0);
    let mut found: u64 = 0;
    if let Some(at) = first {
        assert(chars.len() <= usize::MAX);
        found = match find_at(&chars, &part, at + part.len()) {
            Some(_) => 2,
            None => 1,
        };
    }
    if let Some(at) = first {
        if found == 1 {
            let mut updated = content.substring_char(0, at).to_owned();
            updated.append(replace);
            updated.append(content.substring_char(at + part.len(), chars.len()));
            assert(updated@ =~= content@.take(at as int) + replace@ + content@.skip(
                at + search@.len(),
            ));
            return if byte_len(updated.as_str()) > MAX_WRITE_BYTES {
                Err("search_replace result exceeds 64000 bytes".to_owned())
            } else {
                Ok(updated)
            };
        }
    }
    let mut why = "search_replace requires exactly one match, found ".to_owned();
    push_decimal(&mut why, found);
    Err(why)
}

/// What the editing tool gives.
pub fn search_replace_text(path: &str) -> (text: String)
    ensures
        text@ == "Replaced 1 occurrence in "@ + path@ + "."@,
{
    let mut text = "Replaced 1 occurrence in ".to_owned();
    text.append(path);
    text.append(".");
    text
}

/// What is kept of the output of a command.
pub open spec fn capped(bytes: Seq<u8>) -> Seq<u8> {
    if bytes.len() > MAX_COMMAND_OUTPUT_BYTES {
        bytes.take(MAX_COMMAND_OUTPUT_BYTES as int)
    } else {
        bytes
    }
}

/// The text of the output of a command; `text` is what is kept of it, decoded.
pub fn mark_capped(text: String, total: usize) -> (out: String)
    ensures
        out@ == if total > MAX_COMMAND_OUTPUT_BYTES {
            text@ + "\n[command output truncated]\n"@
        } else {
            text@
        },
{
    let mut out = text;
    if total > MAX_COMMAND_OUTPUT_BYTES {
        out.append("\n[command output truncated]\n");
    }
    out
}

/// The text of the output of a command.
pub fn command_output_text(bytes: &[u8]) -> (text: String)
    ensures
        text@ == if bytes@.len() > MAX_COMMAND_OUTPUT_BYTES {
            utf8_lossy(capped(bytes@)) + "\n[command output truncated]\n"@
        } else {
            utf8_lossy(capped(bytes@))
        },
        valid_utf8(capped(bytes@)) ==> text@ == if bytes@.len() > MAX_COMMAND_OUTPUT_BYTES {
            decode_utf8(capped(bytes@)) + "\n[command output truncated]\n"@
        } else {
            decode_utf8(capped(bytes@))
        },
{
    let total: usize = bytes.len();
    if total > MAX_COMMAND_OUTPUT_BYTES {
        let kept = vstd::slice::slice_subrange(bytes, 0, MAX_COMMAND_OUTPUT_BYTES);
        assert(kept@ =~= capped(bytes@));
        mark_capped(lossy_text(kept), total)
    } else {
        mark_capped(lossy_text(bytes), total)
    }
}

/// A part of the output of a command, under its heading.
pub open spec fn section(heading: Seq<char>, text: Seq<char>) -> Seq<char> {
    if text.len() == 0 {
        seq![]
    } else if text.last() == '\n' {
        heading + text
    } else {
        heading + text + "\n"@
    }
}

/// The outcome of a command as the model sees it.
pub open spec fn command_report(
    command: Seq<char>,
    exit_code: Option<i32>,
    stdout: Seq<char>,
    stderr: Seq<char>,
    timed_out: bool,
) -> Seq<char> {
    "Command: "@ + command + "\nExit code: "@ + (match exit_code {
        Some(code) => signed_decimal(code as int),
        None => "terminated by signal"@,
    }) + "\n"@ + (if timed_out {
        "Timed out: true\n"@
    } else {
        seq![]
    }) + section("\nStdout:\n"@, stdout) + section("\nStderr:\n"@, stderr)
}

fn append_section(out: &mut String, heading: &str, text: &str)
    ensures
        final(out)@ == old(out)@ + section(heading@, text@),
{
    if !text.is_empty() {
        out.append(heading);
        out.append(text);
        let ends: bool = ends_with(text, "\n");
        proof {
            reveal_strlit("\n");
            assert(ends ==> "\n"@[0] == text@.subrange(text@.len() - 1, text@.len() as int)[0]);
            assert(text@.last() == '\n' ==> "\n"@ =~= text@.subrange(
                text@.len() - 1,
                text@.len() as int,
            ));
        }
        if !ends {
            out.append("\n");
        }
    }
    assert(out@ =~= old(out)@ + section(heading@, text@));
}

/// The outcome of a command as the model sees it.
pub fn format_command_output(command: &str, output: &LocalCommandOutput) -> (report: String)
    ensures
        report@ == command_report(
            command@,
            output.exit_code,
            output.stdout@,
            output.stderr@,
            output.timed_out,
        ),
{
    let mut report = "Command: ".to_owned();
    report.append(command);
    report.append("\nExit code: ");
    match output.exit_code {
        Some(code) => push_signed(&mut report, code),
        None => report.append("terminated by signal"),
    }
    report.append("\n");
    if output.timed_out {
        report.append("Timed out: true\n");
    }
    append_section(&mut report, "\nStdout:\n", output.stdout.as_str());
    append_section(&mut report, "\nStderr:\n", output.stderr.as_str());
    assert(report@ =~= command_report(
        command@,
        output.exit_code,
        output.stdout@,
        output.stderr@,
        output.timed_out,
    ));
    report
}

} // verus!
