//! Tool results as text for the model, and as clients know them.

use vstd::prelude::*;

use crate::agent_api::tools::{
    line_range, local_file_line_range, word_or, word_or_else, word_or_empty,
};
use crate::agent_api::{
    AnyFileContent, ApiToolCallResult, ApiToolResult, ApplyFileDiffsResult, FileContent,
    GrepFileMatch, GrepResult, ReadFilesResult, RunShellCommandResult, ShellOutcome,
};
use crate::agent_state::{LocalToolEvent, ToolEventView};
use crate::json::{Json, jobject, json_text, jtext, settled};
use crate::text::{
    bare_line, chars_of, decimal, digits_value, first_char, is_before, is_digit, join, joined,
    lemma_line_ends_at, lemma_order_strict, lemma_order_total, lemma_order_transitive,
    lemma_signed_decimal_value, line_texts, parse_i32, parse_u32, pieces, pieces_from, push_decimal,
    push_signed, same, signed_decimal, signed_value, split_lines, split_once, starts_with,
    strip_prefix, text_before, texts, trim, trimmed, unsigned_value, without_prefix,
};
use crate::tools::results::{command_report, section};

verus! {

/// A text without newlines at its end.
pub open spec fn without_newlines(s: Seq<char>) -> Seq<char>
    decreases s.len(),
{
    if s.len() > 0 && s.last() == '\n' {
        without_newlines(s.drop_last())
    } else {
        s
    }
}

fn trim_newlines(s: &str) -> (out: &str)
    ensures
        out@ == without_newlines(s@),
{
    let chars = chars_of(s);
    let mut end: usize = chars.len();
    assert(s@.take(end as int) =~= s@);
    while end > 0 && chars[end - 1] == '\n'
        invariant
            end <= chars.len(),
            chars@ == s@,
            without_newlines(s@) == without_newlines(s@.take(end as int)),
        decreases end,
    {
        assert(s@.take(end as int).drop_last() =~= s@.take(end - 1));
        end -= 1;
    }
    let out = s.substring_char(0, end);
    assert(out@ =~= s@.take(end as int));
    out
}

/// The output of a command without the two lines that repeat the command and its exit code.
pub open spec fn without_header(output: Seq<char>) -> Seq<char> {
    let lines = line_texts(output);
    if lines.len() >= 2 && "Command: "@.is_prefix_of(lines[0]) && "Exit code: "@.is_prefix_of(
        lines[1],
    ) {
        let rest = joined(lines.skip(2), "\n"@);
        without_newlines(
            match without_prefix(rest, "\n"@) {
                Some(stripped) => stripped,
                None => rest,
            },
        )
    } else {
        output
    }
}

pub fn strip_local_command_header(output: &str) -> (out: String)
    ensures
        out@ == without_header(output@),
{
    let lines = split_lines(output);
    let ghost all = texts(lines@);
    if lines.len() >= 2 {
        assert(all[0] == lines@[0]@ && all[1] == lines@[1]@);
        if starts_with(lines[0].as_str(), "Command: ") && starts_with(
            lines[1].as_str(),
            "Exit code: ",
        ) {
            let mut rest: Vec<String> = Vec::new();
            let mut i: usize = 2;
            while i < lines.len()
                invariant
                    2 <= i <= lines.len(),
                    rest.len() == i - 2,
                    forall|j: int| 0 <= j < i - 2 ==> (#[trigger] rest@[j])@ == lines@[j + 2]@,
                decreases lines.len() - i,
            {
                rest.push(lines[i].clone());
                i += 1;
            }
            assert(texts(rest@) =~= all.skip(2));
            let joined_rest = join(&rest, "\n");
            let stripped = match strip_prefix(joined_rest.as_str(), "\n") {
                Some(stripped) => stripped,
                None => joined_rest.as_str(),
            };
            return trim_newlines(stripped).to_owned();
        }
    }
    output.to_owned()
}

pub open spec fn shell_text(result: RunShellCommandResult) -> Seq<char> {
    match result.result {
        Some(ShellOutcome::CommandFinished { output, exit_code, .. }) => "Command: "@
            + result.command@ + "\nExit code: "@ + signed_decimal(exit_code as int) + "\n\n"@
            + without_header(output@),
        Some(ShellOutcome::PermissionDenied) => "Command was not approved: "@ + result.command@,
        _ => "Command result for "@ + result.command@ + " is unavailable."@,
    }
}

pub fn run_shell_command_result_text(result: &RunShellCommandResult) -> (out: String)
    ensures
        out@ == shell_text(*result),
{
    match &result.result {
        Some(ShellOutcome::CommandFinished { output, exit_code, .. }) => {
            let mut out = "Command: ".to_owned();
            out.append(result.command.as_str());
            out.append("\nExit code: ");
            push_signed(&mut out, *exit_code);
            out.append("\n\n");
            out.append(strip_local_command_header(output.as_str()).as_str());
            out
        },
        Some(ShellOutcome::PermissionDenied) => {
            let mut out = "Command was not approved: ".to_owned();
            out.append(result.command.as_str());
            out
        },
        _ => {
            let mut out = "Command result for ".to_owned();
            out.append(result.command.as_str());
            out.append(" is unavailable.");
            out
        },
    }
}

pub open spec fn file_text(path: Seq<char>, content: Seq<char>) -> Seq<char> {
    path + ":\n"@ + content
}

fn named_text(path: &str, content: &str) -> (out: String)
    ensures
        out@ == file_text(path@, content@),
{
    let mut out = path.to_owned();
    out.append(":\n");
    out.append(content);
    out
}

pub open spec fn any_file_text(file: AnyFileContent) -> Seq<char> {
    match file {
        AnyFileContent::Text(file) => file_text(file.file_path@, file.content@),
        AnyFileContent::Binary { file_path } => file_text(file_path@, "<binary file>"@),
        AnyFileContent::Unknown => "Unknown file content."@,
    }
}

fn any_file_content_text(file: &AnyFileContent) -> (out: String)
    ensures
        out@ == any_file_text(*file),
{
    match file {
        AnyFileContent::Text(file) => named_text(file.file_path.as_str(), file.content.as_str()),
        AnyFileContent::Binary { file_path } => named_text(file_path.as_str(), "<binary file>"),
        AnyFileContent::Unknown => "Unknown file content.".to_owned(),
    }
}

pub open spec fn read_result_text(result: ReadFilesResult) -> Seq<char> {
    match result {
        ReadFilesResult::TextFilesSuccess(files) => joined(
            files@.map_values(|file: FileContent| file_text(file.file_path@, file.content@)),
            "\n\n"@,
        ),
        ReadFilesResult::AnyFilesSuccess(files) => {
            let text = joined(
                files@.map_values(|file: AnyFileContent| any_file_text(file)),
                "\n\n"@,
            );
            if text.len() == 0 {
                "Read "@ + decimal(files@.len()) + " file(s)."@
            } else {
                text
            }
        },
        ReadFilesResult::Error(message) => message@,
        ReadFilesResult::Missing => "Read file result is unavailable."@,
    }
}

pub fn read_files_result_text(result: &ReadFilesResult) -> (out: String)
    ensures
        out@ == read_result_text(*result),
{
    match result {
        ReadFilesResult::TextFilesSuccess(files) => {
            let mut parts: Vec<String> = Vec::new();
            let mut i: usize = 0;
            while i < files.len()
                invariant
                    i <= files.len(),
                    parts.len() == i,
                    forall|j: int|
                        0 <= j < i ==> (#[trigger] parts@[j])@ == file_text(
                            files@[j].file_path@,
                            files@[j].content@,
                        ),
                decreases files.len() - i,
            {
                parts.push(named_text(files[i].file_path.as_str(), files[i].content.as_str()));
                i += 1;
            }
            assert(texts(parts@) =~= files@.map_values(
                |file: FileContent| file_text(file.file_path@, file.content@),
            ));
            join(&parts, "\n\n")
        },
        ReadFilesResult::AnyFilesSuccess(files) => {
            let mut parts: Vec<String> = Vec::new();
            let mut i: usize = 0;
            while i < files.len()
                invariant
                    i <= files.len(),
                    parts.len() == i,
                    forall|j: int|
                        0 <= j < i ==> (#[trigger] parts@[j])@ == any_file_text(files@[j]),
                decreases files.len() - i,
            {
                parts.push(any_file_content_text(&files[i]));
                i += 1;
            }
            assert(texts(parts@) =~= files@.map_values(|file: AnyFileContent| any_file_text(file)));
            let text = join(&parts, "\n\n");
            if text.as_str().is_empty() {
                let mut out = "Read ".to_owned();
                push_decimal(&mut out, files.len() as u64);
                out.append(" file(s).");
                out
            } else {
                text
            }
        },
        ReadFilesResult::Error(message) => message.clone(),
        ReadFilesResult::Missing => "Read file result is unavailable.".to_owned(),
    }
}

pub open spec fn match_text(found: GrepFileMatch) -> Seq<char> {
    found.file_path@ + ": "@ + joined(
        found.matched_lines@.map_values(|line: u32| decimal(line as nat)),
        ", "@,
    )
}

fn grep_match_text(found: &GrepFileMatch) -> (out: String)
    ensures
        out@ == match_text(*found),
{
    let mut numbers: Vec<String> = Vec::new();
    let mut i: usize = 0;
    while i < found.matched_lines.len()
        invariant
            i <= found.matched_lines.len(),
            numbers.len() == i,
            forall|j: int|
                0 <= j < i ==> (#[trigger] numbers@[j])@ == decimal(found.matched_lines@[j] as nat),
        decreases found.matched_lines.len() - i,
    {
        numbers.push(crate::text::decimal_string(found.matched_lines[i] as u64));
        i += 1;
    }
    assert(texts(numbers@) =~= found.matched_lines@.map_values(|line: u32| decimal(line as nat)));
    let mut out = found.file_path.clone();
    out.append(": ");
    out.append(join(&numbers, ", ").as_str());
    out
}

pub open spec fn grep_text(result: GrepResult) -> Seq<char> {
    match result {
        GrepResult::Success(files) => joined(
            files@.map_values(|found: GrepFileMatch| match_text(found)),
            "\n"@,
        ),
        GrepResult::Error(message) => message@,
        GrepResult::Missing => "Grep result is unavailable."@,
    }
}

pub fn grep_result_text(result: &GrepResult) -> (out: String)
    ensures
        out@ == grep_text(*result),
{
    match result {
        GrepResult::Success(files) => {
            let mut parts: Vec<String> = Vec::new();
            let mut i: usize = 0;
            while i < files.len()
                invariant
                    i <= files.len(),
                    parts.len() == i,
                    forall|j: int| 0 <= j < i ==> (#[trigger] parts@[j])@ == match_text(files@[j]),
                decreases files.len() - i,
            {
                parts.push(grep_match_text(&files[i]));
                i += 1;
            }
            assert(texts(parts@) =~= files@.map_values(|found: GrepFileMatch| match_text(found)));
            join(&parts, "\n")
        },
        GrepResult::Error(message) => message.clone(),
        GrepResult::Missing => "Grep result is unavailable.".to_owned(),
    }
}

/// The texts of the files that were updated; those without content are left out.
pub open spec fn updated_texts(files: Seq<Option<FileContent>>) -> Seq<Seq<char>>
    decreases files.len(),
{
    if files.len() == 0 {
        seq![]
    } else {
        match files.last() {
            Some(file) => updated_texts(files.drop_last()).push(
                file_text(file.file_path@, file.content@),
            ),
            None => updated_texts(files.drop_last()),
        }
    }
}

pub open spec fn edits_text(updated: Seq<Option<FileContent>>, deleted: Seq<Seq<char>>) -> Seq<char> {
    let parts = if deleted.len() == 0 {
        updated_texts(updated)
    } else {
        updated_texts(updated).push("Deleted files: "@ + joined(deleted, ", "@))
    };
    if parts.len() == 0 {
        "Applied file edits to "@ + decimal((updated.len() + deleted.len()) as nat) + " file(s)."@
    } else {
        joined(parts, "\n\n"@)
    }
}

pub fn apply_file_diffs_result_text(updated: &Vec<Option<FileContent>>, deleted: &Vec<String>) -> (out:
    String)
    ensures
        out@ == edits_text(updated@, texts(deleted@)),
{
    let mut parts: Vec<String> = Vec::new();
    let mut i: usize = 0;
    assert(updated@.take(0) =~= Seq::empty());
    assert(texts(parts@) =~= Seq::empty());
    while i < updated.len()
        invariant
            i <= updated.len(),
            texts(parts@) == updated_texts(updated@.take(i as int)),
        decreases updated.len() - i,
    {
        let ghost before = texts(parts@);
        assert(updated@.take(i + 1).drop_last() =~= updated@.take(i as int));
        if let Some(file) = &updated[i] {
            parts.push(named_text(file.file_path.as_str(), file.content.as_str()));
            assert(texts(parts@) =~= before.push(file_text(file.file_path@, file.content@)));
        }
        i += 1;
    }
    assert(updated@.take(updated@.len() as int) =~= updated@);
    if deleted.len() > 0 {
        let ghost before = texts(parts@);
        let mut line = "Deleted files: ".to_owned();
        line.append(join(deleted, ", ").as_str());
        parts.push(line);
        assert(texts(parts@) =~= before.push(line@));
    }
    if parts.len() == 0 {
        assert(texts(parts@).len() == 0);
        let mut out = "Applied file edits to ".to_owned();
        push_decimal(&mut out, updated.len() as u64);
        out.append(" file(s).");
        out
    } else {
        join(&parts, "\n\n")
    }
}

pub open spec fn diffs_text(result: ApplyFileDiffsResult) -> Seq<char> {
    match result {
        ApplyFileDiffsResult::Success { updated_files, deleted_files } => edits_text(
            updated_files@,
            texts(deleted_files@),
        ),
        ApplyFileDiffsResult::Error(message) => message@,
        ApplyFileDiffsResult::Missing => "File edit result is unavailable."@,
    }
}

pub fn apply_file_diffs_tool_result_text(result: &ApplyFileDiffsResult) -> (out: String)
    ensures
        out@ == diffs_text(*result),
{
    match result {
        ApplyFileDiffsResult::Success { updated_files, deleted_files } =>
            apply_file_diffs_result_text(updated_files, deleted_files),
        ApplyFileDiffsResult::Error(message) => message.clone(),
        ApplyFileDiffsResult::Missing => "File edit result is unavailable.".to_owned(),
    }
}

/// A tool result as the model reads it.
pub open spec fn result_text(result: ApiToolCallResult) -> Seq<char> {
    match result.result {
        Some(ApiToolResult::RunShellCommand(result)) => shell_text(result),
        Some(ApiToolResult::ReadFiles(result)) => read_result_text(result),
        Some(ApiToolResult::Grep(result)) => grep_text(result),
        Some(ApiToolResult::ApplyFileDiffs(result)) => diffs_text(result),
        _ => "Tool result is unavailable."@,
    }
}

/// A tool result as the model reads it.
pub fn api_tool_result_text(result: &ApiToolCallResult) -> (out: String)
    ensures
        out@ == result_text(*result),
{
    match &result.result {
        Some(ApiToolResult::RunShellCommand(result)) => run_shell_command_result_text(result),
        Some(ApiToolResult::ReadFiles(result)) => read_files_result_text(result),
        Some(ApiToolResult::Grep(result)) => grep_result_text(result),
        Some(ApiToolResult::ApplyFileDiffs(result)) => apply_file_diffs_tool_result_text(result),
        _ => "Tool result is unavailable.".to_owned(),
    }
}

/// The path and line number of a line of a search report.
pub open spec fn hit(line: Seq<char>) -> Option<(Seq<char>, u32)> {
    if line == "No matches."@ || line == "Search results truncated."@ {
        None
    } else {
        match first_char(line, ':') {
            None => None,
            Some(at) => {
                let rest = line.skip(at + 1);
                match first_char(rest, ':') {
                    None => None,
                    Some(end) => match unsigned_value(rest.take(end), 0xffff_ffff) {
                        None => None,
                        Some(n) => Some((line.take(at), n as u32)),
                    },
                }
            },
        }
    }
}

pub open spec fn hits(lines: Seq<Seq<char>>) -> Seq<(Seq<char>, u32)>
    decreases lines.len(),
{
    if lines.len() == 0 {
        seq![]
    } else {
        match hit(lines.last()) {
            Some(found) => hits(lines.drop_last()).push(found),
            None => hits(lines.drop_last()),
        }
    }
}

/// The line numbers of the hits in one file, in the order of the hits.
pub open spec fn lines_in(all: Seq<(Seq<char>, u32)>, path: Seq<char>) -> Seq<u32>
    decreases all.len(),
{
    if all.len() == 0 {
        seq![]
    } else if all.last().0 == path {
        lines_in(all.drop_last(), path).push(all.last().1)
    } else {
        lines_in(all.drop_last(), path)
    }
}

/// Whether `files` holds each file of the hits once, in the order of their paths.
pub open spec fn grouped(files: Seq<GrepFileMatch>, all: Seq<(Seq<char>, u32)>) -> bool {
    &&& forall|i: int, j: int|
        0 <= i < j < files.len() ==> text_before(
            (#[trigger] files[i]).file_path@,
            (#[trigger] files[j]).file_path@,
        )
    &&& forall|i: int|
        0 <= i < files.len() ==> (#[trigger] files[i]).matched_lines@ == lines_in(
            all,
            files[i].file_path@,
        ) && files[i].matched_lines@.len() > 0
    &&& forall|k: int|
        0 <= k < all.len() ==> exists|i: int|
            0 <= i < files.len() && (#[trigger] files[i]).file_path@ == (#[trigger] all[k]).0
}

proof fn lemma_lines_in(all: Seq<(Seq<char>, u32)>, path: Seq<char>)
    requires
        lines_in(all, path).len() > 0,
    ensures
        exists|k: int| 0 <= k < all.len() && (#[trigger] all[k]).0 == path,
    decreases all.len(),
{
    if all.last().0 == path {
        assert(all[all.len() - 1].0 == path);
    } else {
        lemma_lines_in(all.drop_last(), path);
        let k = choose|k: int|
            0 <= k < all.drop_last().len() && (#[trigger] all.drop_last()[k]).0 == path;
        assert(all[k].0 == path);
    }
}

fn add_hit(files: &mut Vec<GrepFileMatch>, path: String, line: u32, Ghost(all): Ghost<
    Seq<(Seq<char>, u32)>,
>)
    requires
        grouped(old(files)@, all),
    ensures
        grouped(final(files)@, all.push((path@, line))),
{
    let ghost before = files@;
    let ghost next = all.push((path@, line));
    let mut i: usize = 0;
    while i < files.len() && is_before(files[i].file_path.as_str(), path.as_str())
        invariant
            i <= files.len(),
            files@ == before,
            forall|j: int| 0 <= j < i ==> text_before((#[trigger] before[j]).file_path@, path@),
        decreases files.len() - i,
    {
        i += 1;
    }
    assert(next.drop_last() =~= all);
    assert(next.last() == (path@, line));
    assert forall|j: int| 0 <= j < i implies (#[trigger] before[j]).file_path@ != path@ by {
        lemma_order_strict(path@);
    }
    if i < files.len() && same(files[i].file_path.as_str(), path.as_str()) {
        files[i].matched_lines.push(line);
        assert forall|j: int| 0 <= j < files@.len() implies (
        #[trigger] files@[j]).matched_lines@ == lines_in(next, files@[j].file_path@)
            && files@[j].matched_lines@.len() > 0 by {
            if j != i {
                assert(files@[j] == before[j]);
                if j > i {
                    assert(text_before(before[i as int].file_path@, before[j].file_path@));
                    lemma_order_strict(path@);
                }
            }
        }
        assert forall|k: int| 0 <= k < next.len() implies exists|m: int|
            0 <= m < files@.len() && (#[trigger] files@[m]).file_path@ == (#[trigger] next[k]).0 by {
            if k < all.len() {
                assert(next[k] == all[k]);
                let m = choose|m: int|
                    0 <= m < before.len() && (#[trigger] before[m]).file_path@ == all[k].0;
                assert(files@[m].file_path@ == next[k].0);
            } else {
                assert(files@[i as int].file_path@ == next[k].0);
            }
        }
    } else {
        let mut lines: Vec<u32> = Vec::new();
        lines.push(line);
        proof {
            if i < before.len() {
                lemma_order_total(before[i as int].file_path@, path@);
            }
            if lines_in(all, path@).len() > 0 {
                lemma_lines_in(all, path@);
                let k = choose|k: int| 0 <= k < all.len() && (#[trigger] all[k]).0 == path@;
                let m = choose|m: int|
                    0 <= m < before.len() && (#[trigger] before[m]).file_path@ == all[k].0;
                if m > i {
                    assert(text_before(before[i as int].file_path@, before[m].file_path@));
                    lemma_order_transitive(path@, before[i as int].file_path@, before[m].file_path@);
                    lemma_order_strict(path@);
                }
            }
        }
        let ghost added_path = path@;
        let added = GrepFileMatch { file_path: path, matched_lines: lines };
        assert(added.matched_lines@ =~= lines_in(next, added_path));
        files.insert(i, added);
        assert forall|a: int, b: int| 0 <= a < b < files@.len() implies text_before(
            (#[trigger] files@[a]).file_path@,
            (#[trigger] files@[b]).file_path@,
        ) by {
            let old_a = if a < i { a } else { a - 1 };
            let old_b = if b < i { b } else { b - 1 };
            if a == i {
                if old_b > i {
                    assert(text_before(before[i as int].file_path@, before[old_b].file_path@));
                    lemma_order_transitive(
                        added_path,
                        before[i as int].file_path@,
                        before[old_b].file_path@,
                    );
                }
            } else if b != i {
                assert(text_before(before[old_a].file_path@, before[old_b].file_path@));
            }
        }
        assert forall|j: int| 0 <= j < files@.len() implies (
        #[trigger] files@[j]).matched_lines@ == lines_in(next, files@[j].file_path@)
            && files@[j].matched_lines@.len() > 0 by {
            if j < i {
                assert(files@[j] == before[j]);
            } else if j > i {
                assert(files@[j] == before[j - 1]);
                assert(text_before(files@[i as int].file_path@, files@[j].file_path@));
                lemma_order_strict(added_path);
            }
        }
        assert forall|k: int| 0 <= k < next.len() implies exists|m: int|
            0 <= m < files@.len() && (#[trigger] files@[m]).file_path@ == (#[trigger] next[k]).0 by {
            if k < all.len() {
                assert(next[k] == all[k]);
                let m = choose|m: int|
                    0 <= m < before.len() && (#[trigger] before[m]).file_path@ == all[k].0;
                if m < i {
                    assert(files@[m].file_path@ == next[k].0);
                } else {
                    assert(files@[m + 1].file_path@ == next[k].0);
                }
            } else {
                assert(files@[i as int].file_path@ == next[k].0);
            }
        }
    }
}

/// The path and line number of a line of a search report.
fn hit_of(line: &str) -> (found: Option<(String, u32)>)
    ensures
        match found {
            Some((path, n)) => hit(line@) == Some((path@, n)),
            None => hit(line@) is None,
        },
{
    if same(line, "No matches.") || same(line, "Search results truncated.") {
        return None;
    }
    match split_once(line, ':') {
        None => None,
        Some((path, rest)) => match split_once(rest.as_str(), ':') {
            None => None,
            Some((number, _)) => match parse_u32(number.as_str()) {
                None => None,
                Some(n) => Some((path, n)),
            },
        },
    }
}

/// The files of a search report with the lines that match.
pub fn grep_matches_from_content(content: &str) -> (files: Vec<GrepFileMatch>)
    ensures
        grouped(files@, hits(line_texts(content@))),
{
    let lines = split_lines(content);
    let ghost all = texts(lines@);
    let mut files: Vec<GrepFileMatch> = Vec::new();
    let mut i: usize = 0;
    assert(all.take(0) =~= Seq::empty());
    while i < lines.len()
        invariant
            i <= lines.len(),
            all == texts(lines@),
            grouped(files@, hits(all.take(i as int))),
        decreases lines.len() - i,
    {
        assert(all.take(i + 1).drop_last() =~= all.take(i as int));
        assert(all.take(i + 1).last() == lines@[i as int]@);
        match hit_of(lines[i].as_str()) {
            Some((path, n)) => {
                add_hit(&mut files, path, n, Ghost(hits(all.take(i as int))));
            },
            None => {},
        }
        i += 1;
    }
    assert(all.take(all.len() as int) =~= all);
    files
}

pub open spec fn is_failure(content: Seq<char>) -> bool {
    "Tool failed:"@.is_prefix_of(content)
}

pub fn local_result_is_error(content: &str) -> (yes: bool)
    ensures
        yes == is_failure(content@),
{
    starts_with(content, "Tool failed:")
}

/// What stands behind the label on the first line that shows an exit code.
pub open spec fn exit_code_text(lines: Seq<Seq<char>>) -> Option<Seq<char>>
    decreases lines.len(),
{
    if lines.len() == 0 {
        None
    } else {
        match without_prefix(lines[0], "Exit code: "@) {
            Some(rest) => Some(rest),
            None => exit_code_text(lines.skip(1)),
        }
    }
}

/// The exit code that the output of a command shows.
pub open spec fn exit_code(content: Seq<char>) -> int {
    let shown = match exit_code_text(line_texts(content)) {
        Some(text) => signed_value(trimmed(text)),
        None => None,
    };
    match shown {
        Some(code) => code,
        None => if is_failure(content) {
            1
        } else {
            0
        },
    }
}

/// The exit code that the output of a command shows.
pub fn shell_exit_code_from_content(content: &str) -> (code: i32)
    ensures
        code == exit_code(content@),
{
    let lines = split_lines(content);
    let ghost all = texts(lines@);
    let mut shown: Option<i32> = None;
    let mut i: usize = 0;
    let mut found = false;
    assert(all.skip(0) =~= all);
    while i < lines.len() && !found
        invariant
            i <= lines.len(),
            all == texts(lines@),
            !found ==> shown is None && exit_code_text(all) == exit_code_text(all.skip(i as int)),
            found ==> exit_code_text(all) is Some && match shown {
                Some(code) => signed_value(trimmed(exit_code_text(all)->0)) == Some(code as int),
                None => signed_value(trimmed(exit_code_text(all)->0)) is None,
            },
        decreases lines.len() - i,
    {
        assert(all.skip(i as int)[0] == lines@[i as int]@);
        assert(all.skip(i as int).skip(1) =~= all.skip(i + 1));
        if let Some(rest) = strip_prefix(lines[i].as_str(), "Exit code: ") {
            shown = parse_i32(trim(rest));
            found = true;
        }
        i += 1;
    }
    match shown {
        Some(code) => code,
        None => if local_result_is_error(content) {
            1
        } else {
            0
        },
    }
}

/// Whether `result` is what clients are told of a tool event.
pub open spec fn is_api_result(result: ApiToolResult, event: ToolEventView) -> bool {
    let name = event.tool_call.name;
    let arguments = event.tool_call.arguments;
    let content = event.result.content;
    let path = word_or(arguments, "path"@, seq![]);
    if name == "read_file"@ {
        &&& result matches ApiToolResult::ReadFiles(result)
        &&& if is_failure(content) {
            result matches ReadFilesResult::Error(message) && message@ == content
        } else {
            &&& result matches ReadFilesResult::TextFilesSuccess(files)
            &&& files@.len() == 1
            &&& files@[0].file_path@ == path
            &&& files@[0].content@ == content
            &&& files@[0].line_range == line_range(arguments)
        }
    } else if name == "write_file"@ || name == "search_replace"@ {
        &&& result matches ApiToolResult::ApplyFileDiffs(result)
        &&& if is_failure(content) {
            result matches ApplyFileDiffsResult::Error(message) && message@ == content
        } else {
            &&& result matches ApplyFileDiffsResult::Success { updated_files, deleted_files }
            &&& deleted_files@.len() == 0
            &&& if path.len() == 0 {
                updated_files@.len() == 0
            } else {
                &&& updated_files@.len() == 1
                &&& updated_files@[0] matches Some(file)
                &&& file.file_path@ == path
                &&& file.content@ == word_or(arguments, "content"@, content)
                &&& file.line_range is None
            }
        }
    } else if name == "grep"@ {
        &&& result matches ApiToolResult::Grep(result)
        &&& if is_failure(content) {
            result matches GrepResult::Error(message) && message@ == content
        } else {
            result matches GrepResult::Success(files) && grouped(
                files@,
                hits(line_texts(content)),
            )
        }
    } else if name == "bash"@ {
        &&& result matches ApiToolResult::RunShellCommand(result)
        &&& result.command@ == word_or(arguments, "command"@, seq![])
        &&& result.output@ == content
        &&& result.exit_code == exit_code(content)
        &&& result.result matches Some(ShellOutcome::CommandFinished {
            command_id,
            output,
            exit_code: code,
        })
        &&& command_id@ == event.result.tool_call_id
        &&& output@ == content
        &&& code == exit_code(content)
    } else {
        &&& result matches ApiToolResult::Server { serialized_result }
        &&& serialized_result@ == json_text(
            settled(
                jobject().with("name"@, jtext(event.result.name)).with("content"@, jtext(content)),
            ),
        )
    }
}

fn api_read_file_result(event: &LocalToolEvent) -> (result: ReadFilesResult)
    requires
        event.tool_call.name@ == "read_file"@,
    ensures
        is_api_result(ApiToolResult::ReadFiles(result), event@),
{
    let content = event.result.content.clone();
    if local_result_is_error(content.as_str()) {
        return ReadFilesResult::Error(content);
    }
    let mut files: Vec<FileContent> = Vec::new();
    files.push(
        FileContent {
            file_path: word_or_empty(&event.tool_call.arguments, "path"),
            content,
            line_range: local_file_line_range(&event.tool_call.arguments),
        },
    );
    ReadFilesResult::TextFilesSuccess(files)
}

fn api_apply_file_diffs_result(event: &LocalToolEvent) -> (result: ApplyFileDiffsResult)
    requires
        event.tool_call.name@ == "write_file"@ || event.tool_call.name@ == "search_replace"@,
        event.tool_call.name@ != "read_file"@,
    ensures
        is_api_result(ApiToolResult::ApplyFileDiffs(result), event@),
{
    if local_result_is_error(event.result.content.as_str()) {
        return ApplyFileDiffsResult::Error(event.result.content.clone());
    }
    let file_path = word_or_empty(&event.tool_call.arguments, "path");
    let content = word_or_else(
        &event.tool_call.arguments,
        "content",
        event.result.content.as_str(),
    );
    let mut updated_files: Vec<Option<FileContent>> = Vec::new();
    if !file_path.as_str().is_empty() {
        updated_files.push(Some(FileContent { file_path, content, line_range: None }));
    }
    ApplyFileDiffsResult::Success { updated_files, deleted_files: Vec::new() }
}

fn api_grep_result(event: &LocalToolEvent) -> (result: GrepResult)
    ensures
        if is_failure(event.result.content@) {
            result matches GrepResult::Error(message) && message@ == event.result.content@
        } else {
            result matches GrepResult::Success(files) && grouped(
                files@,
                hits(line_texts(event.result.content@)),
            )
        },
{
    let content = event.result.content.as_str();
    if local_result_is_error(content) {
        GrepResult::Error(content.to_owned())
    } else {
        GrepResult::Success(grep_matches_from_content(content))
    }
}

fn api_run_shell_result(event: &LocalToolEvent) -> (result: RunShellCommandResult)
    ensures
        result.command@ == word_or(event.tool_call.arguments@, "command"@, seq![]),
        result.output@ == event.result.content@,
        result.exit_code == exit_code(event.result.content@),
        result.result matches Some(ShellOutcome::CommandFinished { command_id, output, exit_code: code })
            && command_id@ == event.result.tool_call_id@ && output@ == event.result.content@ && code
            == exit_code(event.result.content@),
{
    let code: i32 = shell_exit_code_from_content(event.result.content.as_str());
    RunShellCommandResult {
        command: word_or_empty(&event.tool_call.arguments, "command"),
        output: event.result.content.clone(),
        exit_code: code,
        result: Some(
            ShellOutcome::CommandFinished {
                command_id: event.result.tool_call_id.clone(),
                output: event.result.content.clone(),
                exit_code: code,
            },
        ),
    }
}

/// What clients are told of a tool event.
pub fn api_tool_result_from_local(event: &LocalToolEvent) -> (result: ApiToolResult)
    ensures
        is_api_result(result, event@),
{
    let name = event.tool_call.name.as_str();
    if same(name, "read_file") {
        ApiToolResult::ReadFiles(api_read_file_result(event))
    } else if same(name, "write_file") || same(name, "search_replace") {
        ApiToolResult::ApplyFileDiffs(api_apply_file_diffs_result(event))
    } else if same(name, "grep") {
        ApiToolResult::Grep(api_grep_result(event))
    } else if same(name, "bash") {
        ApiToolResult::RunShellCommand(api_run_shell_result(event))
    } else {
        let told = Json::object().with("name", Json::text(event.result.name.as_str())).with(
            "content",
            Json::text(event.result.content.as_str()),
        );
        ApiToolResult::Server { serialized_result: told.print() }
    }
}

/// What a client was told of a failed tool reads back as the tool's own words, and of a file that
/// was read as its path and its content.
pub proof fn law_results_read_back(event: ToolEventView, id: String, result: ApiToolResult)
    requires
        is_api_result(result, event),
    ensures
        ({
            let told = result_text(ApiToolCallResult { tool_call_id: id, result: Some(result) });
            let name = event.tool_call.name;
            let edits = name == "write_file"@ || name == "search_replace"@;
            &&& is_failure(event.result.content) && (name == "read_file"@ || edits || name
                == "grep"@) ==> told == event.result.content
            &&& name == "read_file"@ && !is_failure(event.result.content) ==> told == file_text(
                word_or(event.tool_call.arguments, "path"@, seq![]),
                event.result.content,
            )
        }),
{
    if event.tool_call.name == "read_file"@ && !is_failure(event.result.content) {
        let files = result->ReadFiles_0->TextFilesSuccess_0;
        let all = files@.map_values(
            |file: FileContent| file_text(file.file_path@, file.content@),
        );
        assert(all.drop_last() =~= seq![]);
        assert(joined(all, "\n\n"@) == all[0]) by {
            reveal_with_fuel(joined, 2);
        }
    }
}

/// What stands behind the label on the second line is what is shown, where the first line is
/// another.
proof fn lemma_code_line(head: Seq<char>, shown: Seq<char>, tail: Seq<char>)
    requires
        head.len() > 1,
        head[0] == 'C',
        !head.contains('\n'),
        shown.len() > 0,
        !shown.contains('\n'),
        shown.last() != '\r',
        tail.len() > 0,
        tail[0] == '\n',
    ensures
        exit_code_text(line_texts(head + "\nExit code: "@ + shown + tail)) == Some(shown),
{
    reveal_strlit("\nExit code: ");
    reveal_strlit("Exit code: ");
    let label = "Exit code: "@;
    let line = label + shown;
    let report = head + "\nExit code: "@ + shown + tail;
    assert("\nExit code: "@ =~= seq!['\n'] + label);
    assert(report =~= head + seq!['\n'] + line + tail);
    let a = head.len() as int;
    let b = a + 1 + line.len();
    assert forall|i: int| 0 <= i < a implies report[i] != '\n' by {
        assert(report[i] == head[i]);
    }
    assert forall|i: int| a < i < b implies report[i] != '\n' by {
        let at = i - a - 1;
        assert(report[i] == line[at]);
        if at >= 11 {
            assert(line[at] == shown[at - 11]);
        } else {
            assert(line[at] == label[at]);
        }
    }
    lemma_line_ends_at(report, 0, a);
    lemma_line_ends_at(report, a + 1, b);
    let first = report.subrange(0, a + 1);
    let second = report.subrange(a + 1, b + 1);
    let rest = pieces_from(report, b + 1);
    assert(pieces(report) =~= seq![first, second] + rest) by {
        assert(pieces_from(report, 0) == seq![first] + pieces_from(report, a + 1));
        assert(pieces_from(report, a + 1) == seq![second] + rest);
    }
    let lines = line_texts(report);
    assert(first.drop_last() =~= head);
    assert(lines[0] == bare_line(first));
    assert(lines[0][0] == 'C');
    assert(without_prefix(lines[0], label) is None) by {
        if label.is_prefix_of(lines[0]) {
            assert(lines[0].subrange(0, 11)[0] == label[0]);
        }
    }
    assert(second.drop_last() =~= line);
    assert(lines[1] == bare_line(second));
    assert(lines[1] == line);
    assert(label =~= line.subrange(0, 11));
    assert(line.skip(11) =~= shown);
    assert(without_prefix(line, label) == Some(shown));
    assert(lines.skip(1)[0] == line);
    assert(exit_code_text(lines.skip(1)) == Some(shown));
}

/// The exit code that is read from the report of a command on one line is the command's own, and 0
/// where it gave none, whatever the command printed and whether or not its time was up.
pub proof fn law_exit_codes_read_back(
    command: Seq<char>,
    code: Option<i32>,
    stdout: Seq<char>,
    stderr: Seq<char>,
    timed_out: bool,
)
    requires
        !command.contains('\n'),
    ensures
        exit_code(command_report(command, code, stdout, stderr, timed_out)) == match code {
            Some(code) => code as int,
            None => 0,
        },
{
    reveal_strlit("Command: ");
    reveal_strlit("terminated by signal");
    reveal_strlit("\n");
    let report = command_report(command, code, stdout, stderr, timed_out);
    let shown = match code {
        Some(code) => signed_decimal(code as int),
        None => "terminated by signal"@,
    };
    match code {
        Some(code) => lemma_signed_decimal_value(code),
        None => {
            lemma_no_number(shown);
        },
    }
    assert(!shown.contains('\n'));
    let head = "Command: "@ + command;
    assert forall|i: int| 0 <= i < head.len() implies head[i] != '\n' by {
        if i >= 9 {
            assert(head[i] == command[i - 9]);
        } else {
            assert(head[i] == "Command: "@[i]);
        }
    }
    let tail = "\n"@ + (if timed_out {
        "Timed out: true\n"@
    } else {
        seq![]
    }) + section("\nStdout:\n"@, stdout) + section("\nStderr:\n"@, stderr);
    assert(tail[0] == '\n');
    assert(report =~= head + "\nExit code: "@ + shown + tail);
    lemma_code_line(head, shown, tail);
    assert(trimmed(shown) == shown);
    assert(!is_failure(report)) by {
        reveal_strlit("Tool failed:");
        assert(report[0] == 'C');
        if is_failure(report) {
            assert(report.subrange(0, "Tool failed:"@.len() as int)[0] == "Tool failed:"@[0]);
        }
    }
}

/// A text that begins with something other than a digit or a sign is no number.
proof fn lemma_no_number(text: Seq<char>)
    requires
        text.len() > 0,
        !is_digit(text[0]),
        text[0] != '+',
        text[0] != '-',
    ensures
        digits_value(text) is None,
        signed_value(text) is None,
    decreases text.len(),
{
    if text.len() > 1 {
        lemma_no_number(text.drop_last());
    }
}

} // verus!
