//! What the agent can rely on when it uses a tool.

use vstd::prelude::*;

use crate::agent_state::ToolCallView;
use crate::json::{JsonView, number_as_u64};
use crate::llm_config::ModelView;
use crate::text::{
    bytes_in, decimal, first_from, is_blank, lemma_encode_concat, lemma_first_from, line_end,
    occurs, occurs_at, pieces, pieces_from, signed_decimal, trimmed,
};
use crate::tools::grep::{GrepView, is_searched, regex_fault, regex_matches};
use crate::tools::plan::{PlanView, parent_at, plan_of, workspace_path};
use crate::tools::registry::{LocalTool, is_enabled, system_prompt, tool_name};
use crate::tools::results::{
    all_of, capped, command_report, read_text, replaced, result_of, selected_lines,
};

verus! {

/// The newline that a text lacks at its end.
pub open spec fn missing_newline(text: Seq<char>) -> Seq<char> {
    if text.last() == '\n' {
        seq![]
    } else {
        seq!['\n']
    }
}

/// A report names the command and its exit code, says whether its time was up, and holds all that
/// the command printed: the output behind one heading and the error output behind another, each
/// where there is any, whatever the exit code.
pub proof fn law_reports_hold_what_was_printed(
    command: Seq<char>,
    code: Option<i32>,
    stdout: Seq<char>,
    stderr: Seq<char>,
    timed_out: bool,
)
    ensures
        code matches Some(n) ==> command_report(command, code, seq![], seq![], false)
            == "Command: "@ + command + "\nExit code: "@ + signed_decimal(n as int) + "\n"@,
        code is None ==> command_report(command, code, seq![], seq![], false) == "Command: "@
            + command + "\nExit code: terminated by signal\n"@,
        command_report(command, code, seq![], seq![], true) == command_report(
            command,
            code,
            seq![],
            seq![],
            false,
        ) + "Timed out: true\n"@,
        stdout.len() > 0 ==> command_report(command, code, stdout, seq![], timed_out)
            == command_report(command, code, seq![], seq![], timed_out) + "\nStdout:\n"@ + stdout
            + missing_newline(stdout),
        stderr.len() > 0 ==> command_report(command, code, stdout, stderr, timed_out)
            == command_report(command, code, stdout, seq![], timed_out) + "\nStderr:\n"@ + stderr
            + missing_newline(stderr),
        stdout.len() > 0 ==> exists|at: int|
            occurs_at(
                command_report(command, code, stdout, stderr, timed_out),
                "\nStdout:\n"@ + stdout,
                at,
            ),
        stderr.len() > 0 ==> exists|at: int|
            occurs_at(
                command_report(command, code, stdout, stderr, timed_out),
                "\nStderr:\n"@ + stderr,
                at,
            ),
{
    reveal_strlit("\n");
    reveal_strlit("\nExit code: ");
    reveal_strlit("terminated by signal");
    reveal_strlit("\nExit code: terminated by signal\n");
    let bare = command_report(command, code, seq![], seq![], false);
    if code is None {
        assert("\nExit code: "@ + "terminated by signal"@ + "\n"@
            =~= "\nExit code: terminated by signal\n"@);
        assert(bare =~= "Command: "@ + command + "\nExit code: terminated by signal\n"@);
    } else {
        assert(bare =~= "Command: "@ + command + "\nExit code: "@ + signed_decimal(code->0 as int)
            + "\n"@);
    }
    assert(command_report(command, code, seq![], seq![], true) =~= bare + "Timed out: true\n"@);
    let quiet = command_report(command, code, seq![], seq![], timed_out);
    let out = command_report(command, code, stdout, seq![], timed_out);
    let whole = command_report(command, code, stdout, stderr, timed_out);
    if stdout.len() > 0 {
        assert(out =~= quiet + "\nStdout:\n"@ + stdout + missing_newline(stdout));
    }
    if stderr.len() > 0 {
        assert(whole =~= out + "\nStderr:\n"@ + stderr + missing_newline(stderr));
        let part = "\nStderr:\n"@ + stderr;
        let at = out.len() as int;
        assert(whole.subrange(at, at + part.len()) =~= part);
        assert(occurs_at(whole, part, at));
    } else {
        assert(whole =~= out);
    }
    if stdout.len() > 0 {
        let part = "\nStdout:\n"@ + stdout;
        let at = quiet.len() as int;
        assert(whole.subrange(at, at + part.len()) =~= part) by {
            assert(out.subrange(at, at + part.len()) =~= part);
            assert(whole.subrange(0, out.len() as int) =~= out);
        }
        assert(occurs_at(whole, part, at));
    }
}

/// The lines of a text one after the other are the text, and a newline stands nowhere but at the end
/// of a line, where all lines but the last have one.
pub proof fn law_lines_make_the_text(text: Seq<char>)
    ensures
        all_of(pieces(text)) == text,
        forall|i: int|
            0 <= i < pieces(text).len() ==> {
                let line = #[trigger] pieces(text)[i];
                &&& line.len() > 0
                &&& forall|j: int| 0 <= j < line.len() - 1 ==> line[j] != '\n'
                &&& i < pieces(text).len() - 1 ==> line.last() == '\n'
            },
{
    lemma_lines_from(text, 0);
    assert(text.skip(0) =~= text);
}

proof fn lemma_line(text: Seq<char>, from: int)
    requires
        0 <= from < text.len(),
    ensures
        from < line_end(text, from) <= text.len(),
        forall|j: int| from <= j < line_end(text, from) - 1 ==> text[j] != '\n',
        line_end(text, from) < text.len() ==> text[line_end(text, from) - 1] == '\n',
    decreases text.len() - from,
{
    if text[from] != '\n' {
        if from + 1 < text.len() {
            lemma_line(text, from + 1);
        } else {
            assert(line_end(text, from + 1) == text.len());
        }
    }
}

proof fn lemma_all_of_first(first: Seq<char>, rest: Seq<Seq<char>>)
    ensures
        all_of(seq![first] + rest) == first + all_of(rest),
    decreases rest.len(),
{
    let all = seq![first] + rest;
    if rest.len() == 0 {
        assert(all.drop_last() =~= seq![]);
        assert(all_of(all.drop_last()) =~= seq![]);
        assert(all_of(rest) =~= seq![]);
        assert(all_of(all) =~= first + all_of(rest));
    } else {
        lemma_all_of_first(first, rest.drop_last());
        assert(all.drop_last() =~= seq![first] + rest.drop_last());
        assert(all.last() == rest.last());
        assert(all_of(all) =~= first + all_of(rest));
    }
}

proof fn lemma_lines_from(text: Seq<char>, from: int)
    requires
        0 <= from <= text.len(),
    ensures
        all_of(pieces_from(text, from)) == text.skip(from),
        forall|i: int|
            0 <= i < pieces_from(text, from).len() ==> {
                let line = #[trigger] pieces_from(text, from)[i];
                &&& line.len() > 0
                &&& forall|j: int| 0 <= j < line.len() - 1 ==> line[j] != '\n'
                &&& i < pieces_from(text, from).len() - 1 ==> line.last() == '\n'
            },
    decreases text.len() - from,
{
    if from < text.len() {
        lemma_line(text, from);
        let end = line_end(text, from);
        lemma_lines_from(text, end);
        let first = text.subrange(from, end);
        let rest = pieces_from(text, end);
        lemma_all_of_first(first, rest);
        assert(text.skip(from) =~= first + text.skip(end));
        assert forall|i: int| 0 <= i < pieces_from(text, from).len() implies {
            let line = #[trigger] pieces_from(text, from)[i];
            &&& line.len() > 0
            &&& forall|j: int| 0 <= j < line.len() - 1 ==> line[j] != '\n'
            &&& i < pieces_from(text, from).len() - 1 ==> line.last() == '\n'
        } by {
            let line = pieces_from(text, from)[i];
            if i == 0 {
                assert(line == first);
                assert forall|j: int| 0 <= j < line.len() - 1 implies line[j] != '\n' by {
                    assert(line[j] == text[from + j]);
                }
                if rest.len() > 0 {
                    assert(end < text.len());
                    assert(line.last() == text[end - 1]);
                }
            } else {
                assert(line == rest[i - 1]);
            }
        }
    } else {
        assert(text.skip(from) =~= seq![]);
    }
}

/// What is read of a file is the lines from the offset on, as many as were asked for or there are,
/// and no line is cut. Only where these are too much for one reading does it end earlier, before the
/// first line that would be too much, and then it says so.
pub proof fn law_the_lines_asked_for_are_read(
    content: Seq<char>,
    offset: u64,
    limit: Option<u64>,
)
    ensures
        ({
            let lines = pieces(content);
            let wanted = wanted_lines(lines, offset, limit);
            &&& bytes_in(all_of(wanted)) <= 64000 ==> read_text(content, offset, limit) == all_of(
                wanted,
            )
            &&& bytes_in(all_of(wanted)) > 64000 ==> exists|n: int|
                0 <= n < wanted.len() && read_text(content, offset, limit) == #[trigger] all_of(
                    wanted.take(n),
                ) + "\n[read_file output truncated]\n"@ && bytes_in(all_of(wanted.take(n)))
                    <= 64000 && bytes_in(all_of(wanted.take(n + 1))) > 64000
        }),
{
    let lines = pieces(content);
    let wanted = wanted_lines(lines, offset, limit);
    let n = lemma_selected(lines, offset, limit);
    if n == wanted.len() {
        assert(wanted.take(n) =~= wanted);
    }
    if bytes_in(all_of(wanted)) <= 64000 && n < wanted.len() {
        lemma_more_is_longer(wanted, n + 1);
    }
}

/// The lines from `offset` on, `limit` of them where there is a limit and so many lines.
pub open spec fn wanted_lines(lines: Seq<Seq<char>>, offset: u64, limit: Option<u64>) -> Seq<Seq<char>> {
    if offset >= lines.len() {
        seq![]
    } else {
        match limit {
            Some(limit) => if offset + limit < lines.len() {
                lines.subrange(offset as int, offset + limit)
            } else {
                lines.skip(offset as int)
            },
            None => lines.skip(offset as int),
        }
    }
}

proof fn lemma_more_is_longer(lines: Seq<Seq<char>>, n: int)
    requires
        0 <= n <= lines.len(),
    ensures
        bytes_in(all_of(lines.take(n))) <= bytes_in(all_of(lines)),
    decreases lines.len() - n,
{
    if n < lines.len() {
        lemma_more_is_longer(lines, n + 1);
        assert(lines.take(n + 1).drop_last() =~= lines.take(n));
        lemma_encode_concat(all_of(lines.take(n)), lines.take(n + 1).last());
    } else {
        assert(lines.take(n) =~= lines);
    }
}

proof fn lemma_selected(lines: Seq<Seq<char>>, offset: u64, limit: Option<u64>) -> (n: int)
    ensures
        ({
            let wanted = wanted_lines(lines, offset, limit);
            let read = selected_lines(lines, offset, limit);
            &&& 0 <= n <= wanted.len()
            &&& read.text == all_of(wanted.take(n))
            &&& read.lines == n
            &&& bytes_in(read.text) <= 64000
            &&& read.truncated <==> n < wanted.len()
            &&& read.truncated ==> read.done
            &&& n < wanted.len() ==> bytes_in(all_of(wanted.take(n + 1))) > 64000
            &&& read.done && !read.truncated ==> limit is Some && n == limit->0
        }),
    decreases lines.len(),
{
    let wanted = wanted_lines(lines, offset, limit);
    if lines.len() == 0 {
        assert(wanted.take(0) =~= seq![]);
        assert(vstd::utf8::encode_utf8(Seq::<char>::empty()) =~= seq![]);
        0
    } else {
        let rest = lines.drop_last();
        let m = lemma_selected(rest, offset, limit);
        let before = selected_lines(rest, offset, limit);
        let was = wanted_lines(rest, offset, limit);
        let index = lines.len() - 1;
        let line = lines.last();
        if index < offset {
            assert(wanted =~= was) by {
                if offset < lines.len() {
                    assert(false);
                }
            }
            m
        } else if limit matches Some(limit) && index >= offset + limit {
            assert(wanted =~= was);
            m
        } else {
            assert(wanted =~= was.push(line));
            assert(was =~= wanted.take(was.len() as int));
            if before.truncated {
                assert(wanted.take(m) =~= was.take(m));
                assert(wanted.take(m + 1) =~= was.take(m + 1));
                m
            } else {
                assert(was.take(m) =~= was);
                assert(!before.done);
                assert(wanted.take(m + 1) =~= wanted);
                assert(wanted.drop_last() =~= was);
                assert(all_of(wanted) == all_of(was) + line);
                lemma_encode_concat(all_of(was), line);
                if bytes_in(before.text) + bytes_in(line) > 64000 {
                    assert(wanted.take(m) =~= was);
                    m
                } else {
                    m + 1
                }
            }
        }
    }
}

/// A text that stands in a file once is replaced there, and the rest stays as it is; one that does
/// not stand in it is not.
pub proof fn law_the_one_occurrence_is_replaced(
    before: Seq<char>,
    search: Seq<char>,
    after: Seq<char>,
    replace: Seq<char>,
)
    requires
        search.len() > 0,
    ensures
        ({
            let content = before + search + after;
            (forall|at: int| #[trigger]
                occurs_at(content, search, at) ==> at == before.len()) && bytes_in(
                before + replace + after,
            ) <= 64000 ==> replaced(content, search, replace) == Ok::<Seq<char>, Seq<char>>(
                before + replace + after,
            )
        }),
        !occurs(before, search) ==> replaced(before, search, replace) == Err::<
            Seq<char>,
            Seq<char>,
        >("search_replace requires exactly one match, found 0"@),
{
    let content = before + search + after;
    let n = before.len() as int;
    assert(content.subrange(n, n + search.len()) =~= search);
    assert(occurs_at(content, search, n));
    if forall|at: int| #[trigger] occurs_at(content, search, at) ==> at == n {
        lemma_first_from(content, search, 0);
        lemma_first_from(content, search, n + search.len());
        assert(first_from(content, search, 0) == Some(n));
        assert(content.take(n) =~= before);
        assert(content.skip(n + search.len()) =~= after);
    }
    if !occurs(before, search) {
        lemma_first_from(before, search, 0);
        reveal_strlit("search_replace requires exactly one match, found ");
        reveal_strlit("search_replace requires exactly one match, found 0");
        assert(decimal(0) =~= seq!['0']);
        assert("search_replace requires exactly one match, found "@ + decimal(0)
            =~= "search_replace requires exactly one match, found 0"@);
    }
}

/// A relative path without a step to a parent stands for what it names in the workspace; every other
/// path is refused.
pub proof fn law_paths_are_looked_up_in_the_workspace(workspace: Seq<char>, path: Seq<char>)
    requires
        workspace.len() > 0,
        workspace.last() != '/',
    ensures
        path.len() > 0 && path[0] != '/' && (forall|at: int| !parent_at(path, at))
            ==> workspace_path(workspace, path) == Ok::<Seq<char>, Seq<char>>(
            workspace + "/"@ + path,
        ),
        path.len() > 0 && path[0] == '/' ==> workspace_path(workspace, path) is Err,
        path == ".."@ ==> workspace_path(workspace, path) is Err,
        (exists|start: Seq<char>| path == #[trigger] (start + "/.."@)) ==> workspace_path(
            workspace,
            path,
        ) is Err,
        (exists|rest: Seq<char>| path == #[trigger] ("../"@ + rest)) ==> workspace_path(
            workspace,
            path,
        ) is Err,
{
    reveal_strlit("/");
    reveal_strlit("..");
    reveal_strlit("/..");
    reveal_strlit("../");
    assert(workspace.push('/') + path =~= workspace + "/"@ + path);
    if path == ".."@ {
        assert(parent_at(path, 0));
    }
    if exists|start: Seq<char>| path == #[trigger] (start + "/.."@) {
        let start = choose|start: Seq<char>| path == #[trigger] (start + "/.."@);
        assert(parent_at(path, start.len() as int + 1));
    }
    if exists|rest: Seq<char>| path == #[trigger] ("../"@ + rest) {
        assert(parent_at(path, 0));
    }
}

/// The text of an argument.
pub open spec fn says(arguments: JsonView, key: Seq<char>, text: Seq<char>) -> bool {
    arguments.get(key) == Some(JsonView::Text(text))
}

/// Whether an argument is a number, or is not there.
pub open spec fn counts(arguments: JsonView, key: Seq<char>, n: Option<u64>) -> bool {
    match n {
        Some(n) => arguments.get(key) matches Some(JsonView::Number(number)) && number_as_u64(
            number,
        ) == Some(n),
        None => arguments.get(key) is None,
    }
}

/// A file is read, written or edited where and as the call says.
pub proof fn law_file_calls_are_followed(
    call: ToolCallView,
    workspace: Seq<char>,
    path: Seq<char>,
    resolved: Seq<char>,
    offset: Option<u64>,
    limit: Option<u64>,
    text: Seq<char>,
    replace: Seq<char>,
)
    requires
        says(call.arguments, "path"@, path),
        !is_blank(path),
        workspace_path(workspace, trimmed(path)) == Ok::<Seq<char>, Seq<char>>(resolved),
    ensures
        call.name == "read_file"@ && counts(call.arguments, "offset"@, offset) && counts(
            call.arguments,
            "limit"@,
            limit,
        ) && limit != Some(0u64) ==> plan_of(call, workspace) == Ok::<PlanView, Seq<char>>(
            PlanView::ReadFile {
                resolved,
                offset: match offset {
                    Some(offset) => offset,
                    None => 0,
                },
                limit,
            },
        ),
        call.name == "write_file"@ && says(call.arguments, "content"@, text) && bytes_in(text)
            <= 64000 ==> plan_of(call, workspace) == Ok::<PlanView, Seq<char>>(
            PlanView::WriteFile {
                path: trimmed(path),
                resolved,
                content: text,
                overwrite: call.arguments.get("overwrite"@) == Some(JsonView::Bool(true)),
            },
        ),
        call.name == "search_replace"@ && says(call.arguments, "search"@, text) && text.len() > 0
            && says(call.arguments, "replace"@, replace) ==> plan_of(call, workspace) == Ok::<
            PlanView,
            Seq<char>,
        >(PlanView::SearchReplace { path: trimmed(path), resolved, search: text, replace }),
{
    reveal_strlit("read_file");
    reveal_strlit("write_file");
    reveal_strlit("search_replace");
    assert("read_file"@.len() == 9 && "write_file"@.len() == 10 && "search_replace"@.len() == 14);
}

/// A search looks for the pattern where the call says, or in the whole workspace, for at most as many
/// matches as it says, 100 where it does not say, and never more than 1000. A command runs as it is
/// written, for as long as the call says, 30 seconds where it does not say, and never more than 120.
pub proof fn law_searches_and_commands_are_followed(
    call: ToolCallView,
    workspace: Seq<char>,
    text: Seq<char>,
    path: Option<Seq<char>>,
    n: Option<u64>,
)
    requires
        !is_blank(text),
        match path {
            Some(path) => says(call.arguments, "path"@, path) && !is_blank(path),
            None => call.arguments.get("path"@) is None,
        },
    ensures
        ({
            let place = match path {
                Some(path) => trimmed(path),
                None => "."@,
            };
            call.name == "grep"@ && says(call.arguments, "pattern"@, text) && counts(
                call.arguments,
                "max_matches"@,
                n,
            ) && regex_fault(trimmed(text)) is None && workspace_path(workspace, place) is Ok
                ==> plan_of(call, workspace) == Ok::<PlanView, Seq<char>>(
                PlanView::Grep {
                    path: place,
                    resolved: workspace_path(workspace, place)->Ok_0,
                    pattern: trimmed(text),
                    max_matches: match n {
                        None => 100,
                        Some(n) => if n == 0 {
                            1
                        } else if n <= 1000 {
                            n
                        } else {
                            1000
                        },
                    },
                },
            )
        }),
        call.name == "bash"@ && says(call.arguments, "command"@, text) && counts(
            call.arguments,
            "timeout_secs"@,
            n,
        ) ==> plan_of(call, workspace) == Ok::<PlanView, Seq<char>>(
            PlanView::Bash {
                command: trimmed(text),
                timeout_secs: match n {
                    None => 30,
                    Some(n) => if n == 0 {
                        1
                    } else if n <= 120 {
                        n
                    } else {
                        120
                    },
                },
            },
        ),
{
    reveal_strlit("read_file");
    reveal_strlit("write_file");
    reveal_strlit("search_replace");
    reveal_strlit("grep");
    reveal_strlit("bash");
    assert("read_file"@.len() == 9 && "write_file"@.len() == 10 && "search_replace"@.len() == 14
        && "grep"@.len() == 4 && "bash"@.len() == 4);
    assert("grep"@[0] == 'g' && "bash"@[0] == 'b');
}

/// A call that leaves out what its tool needs, or that names no tool, is refused.
pub proof fn law_incomplete_calls_are_refused(call: ToolCallView, workspace: Seq<char>)
    ensures
        (call.name == "read_file"@ || call.name == "write_file"@ || call.name == "search_replace"@)
            && call.arguments.get("path"@) is None ==> plan_of(call, workspace) is Err,
        call.name == "write_file"@ && call.arguments.get("content"@) is None ==> plan_of(
            call,
            workspace,
        ) is Err,
        call.name == "search_replace"@ && (call.arguments.get("search"@) is None
            || call.arguments.get("replace"@) is None || says(
            call.arguments,
            "search"@,
            seq![],
        )) ==> plan_of(call, workspace) is Err,
        call.name == "grep"@ && call.arguments.get("pattern"@) is None ==> plan_of(
            call,
            workspace,
        ) is Err,
        call.name == "bash"@ && call.arguments.get("command"@) is None ==> plan_of(
            call,
            workspace,
        ) is Err,
        call.name == "read_file"@ && counts(call.arguments, "limit"@, Some(0)) ==> plan_of(
            call,
            workspace,
        ) is Err,
        (forall|tool: LocalTool| call.name != #[trigger] tool_name(tool)) ==> plan_of(
            call,
            workspace,
        ) is Err,
        forall|path: Seq<char>|
            (call.name == "read_file"@ || call.name == "write_file"@ || call.name
                == "search_replace"@) && #[trigger] says(call.arguments, "path"@, path)
                && workspace_path(workspace, trimmed(path)) is Err ==> plan_of(call, workspace) is Err,
{
    reveal_strlit("read_file");
    reveal_strlit("write_file");
    reveal_strlit("search_replace");
    reveal_strlit("grep");
    reveal_strlit("bash");
    assert("read_file"@.len() == 9 && "write_file"@.len() == 10 && "search_replace"@.len() == 14
        && "grep"@.len() == 4 && "bash"@.len() == 4);
    assert("grep"@[0] == 'g' && "bash"@[0] == 'b');
    assert(tool_name(LocalTool::ReadFile) == "read_file"@);
    assert(tool_name(LocalTool::WriteFile) == "write_file"@);
    assert(tool_name(LocalTool::SearchReplace) == "search_replace"@);
    assert(tool_name(LocalTool::Grep) == "grep"@);
    assert(tool_name(LocalTool::Bash) == "bash"@);
}

/// A line that the pattern matches is found, with its file and its number; one that it does not match
/// is not; and a search that is full finds no more.
pub proof fn law_matching_lines_are_found(
    search: GrepView,
    pattern: Seq<char>,
    path: Seq<char>,
    lines: Seq<Seq<char>>,
    line: Seq<char>,
    max_matches: u64,
)
    requires
        line.len() > 0 ==> line.last() != '\r',
    ensures
        ({
            let before = search.after_lines(pattern, path, lines, max_matches);
            let after = search.after_lines(pattern, path, lines.push(line), max_matches);
            let shown = path + ":"@ + decimal(lines.len() + 1) + ":"@ + line + "\n"@;
            let fits = bytes_in(before.content) + bytes_in(shown) <= 64000;
            &&& !regex_matches(pattern, line) || before.was_truncated ==> after == before
            &&& regex_matches(pattern, line) && !before.was_truncated && fits
                && before.match_count < u64::MAX ==> {
                &&& after.content == before.content + shown
                &&& after.match_count == before.match_count + 1
                &&& after.was_truncated <==> after.match_count >= max_matches
            }
            &&& regex_matches(pattern, line) && !before.was_truncated && !fits ==> {
                &&& after.content == before.content
                &&& after.match_count == before.match_count
                &&& after.was_truncated
            }
        }),
        search.after_lines(pattern, path, seq![], max_matches) == search,
{
    assert(lines.push(line).drop_last() =~= lines);
}

/// The outcome of a search is what was found, and says where nothing was found or not all is shown.
pub proof fn law_searches_say_what_came_of_them(search: GrepView)
    ensures
        search.content.is_prefix_of(search.report()),
        search.match_count == 0 ==> search.report() == search.content + "No matches.\n"@,
        search.match_count > 0 && search.was_truncated ==> search.report() == search.content
            + "Search results truncated.\n"@,
        search.match_count > 0 && !search.was_truncated ==> search.report() == search.content,
        GrepView::start().content.len() == 0,
        GrepView::start().match_count == 0 && !GrepView::start().was_truncated,
        !is_searched(".git"@) && !is_searched("node_modules"@) && !is_searched("target"@),
        !is_searched(".venv"@) && !is_searched("venv"@),
{
    assert(search.report().subrange(0, search.content.len() as int) =~= search.content);
}

/// Every other directory is searched.
pub proof fn law_other_directories_are_searched(name: Seq<char>)
    requires
        name != ".git"@ && name != "node_modules"@ && name != "target"@,
        name != ".venv"@ && name != "venv"@,
    ensures
        is_searched(name),
{
}

/// A result names its call. The output of a command is kept up to 64000 bytes.
pub proof fn law_results_belong_to_their_calls(call: ToolCallView, content: Seq<char>, bytes: Seq<u8>)
    ensures
        result_of(call, content).tool_call_id == call.id,
        result_of(call, content).name == call.name,
        result_of(call, content).content == content,
        bytes.len() <= 64000 ==> capped(bytes) == bytes,
        bytes.len() > 64000 ==> capped(bytes) == bytes.take(64000),
{
}

/// A model may use the tools that its configuration names, and all where it names none; a configured
/// prompt is what it is told.
pub proof fn law_tools_go_by_their_names(model: ModelView)
    ensures
        tool_name(LocalTool::ReadFile) == "read_file"@,
        tool_name(LocalTool::WriteFile) == "write_file"@,
        tool_name(LocalTool::SearchReplace) == "search_replace"@,
        tool_name(LocalTool::Grep) == "grep"@,
        tool_name(LocalTool::Bash) == "bash"@,
        model.enabled_tools is None ==> forall|tool: LocalTool| #[trigger] is_enabled(model, tool),
        model.enabled_tools matches Some(names) ==> forall|tool: LocalTool| #[trigger]
            is_enabled(model, tool) <==> names.contains(tool_name(tool)),
        model.system_prompt matches Some(prompt) ==> (!is_blank(prompt) && !occurs(
            prompt,
            "{tools}"@,
        ) ==> prompt.is_prefix_of(system_prompt(model))),
{
    if let Some(prompt) = model.system_prompt {
        if !is_blank(prompt) && !occurs(prompt, "{tools}"@) {
            assert(prompt =~= system_prompt(model).subrange(0, prompt.len() as int));
        }
    }
}

} // verus!
