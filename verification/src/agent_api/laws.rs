//! What a client of the agent can rely on.

use vstd::prelude::*;

use crate::agent_api::events::{
    Said, Step, Told, closing_steps, cloud_steps, event_script, followup_steps, opening_steps,
    response_steps, run_script,
};
use crate::agent_api::requests::{
    RemoteWorkerRequest, StreamIds, TaskInfo, config_of, is_remote_request, named_conversation,
    new_description, prompt_of, prompt_or_continue, workspace_of,
};
use crate::agent_api::results::{hit, hits, is_api_result, result_text};
use crate::agent_api::tools::{is_api_tool, local_call};
use crate::agent_api::{
    ApiTool, ApiToolCallResult, ApiToolResult, ApplyFileDiffsResult, ExecutionMode, FileContent,
    FileDiff, GrepFileMatch, GrepResult, Input, InputContext, InputKind, NewFile,
    OrchestrationChoice, ReadFile, ReadFilesResult, Request, RunShellCommandResult, ShellOutcome,
    UserInput,
};
use crate::agent_state::{RunView, ToolCallView, ToolEventView};
use crate::json::{JsonView, number_as_u64, number_of};
use crate::text::laws::{law_joined_texts_are_held, law_joined_texts_stand_in_order};
use crate::text::{
    decimal, first_char, is_blank, is_digit, joined, lemma_decimal_value, line_texts, opt_text,
    signed_decimal, texts, trimmed,
};

verus! {

/// A call of the shell is sent to the client as a command that is waited for.
pub proof fn law_commands_are_sent(tool: ApiTool, call: ToolCallView, command: Seq<char>)
    requires
        is_api_tool(tool, call),
        call.name == "bash"@,
        call.arguments.get_text("command"@) == Some(command),
        !is_blank(command),
    ensures
        tool matches ApiTool::RunShellCommand { command: sent, wait_until_complete } && sent@
            == trimmed(command) && wait_until_complete,
{
    lemma_tool_names();
}

proof fn lemma_tool_names()
    ensures
        "bash"@ != "read_file"@ && "bash"@ != "write_file"@ && "bash"@ != "search_replace"@
            && "bash"@ != "grep"@,
        "read_file"@ != "write_file"@ && "read_file"@ != "search_replace"@ && "read_file"@
            != "grep"@,
        "write_file"@ != "search_replace"@ && "write_file"@ != "grep"@ && "search_replace"@
            != "grep"@,
{
    reveal_strlit("bash");
    reveal_strlit("read_file");
    reveal_strlit("write_file");
    reveal_strlit("search_replace");
    reveal_strlit("grep");
    assert("bash"@[0] == 'b' && "grep"@[0] == 'g');
    assert("bash"@.len() == 4 && "grep"@.len() == 4 && "read_file"@.len() == 9 && "write_file"@.len()
        == 10 && "search_replace"@.len() == 14);
}

/// A call that reads a file is sent with the file's path. A limit becomes a range of lines, counted
/// from one, that begins behind the lines that are skipped and is as long as the limit.
pub proof fn law_reads_are_sent(
    tool: ApiTool,
    call: ToolCallView,
    path: Seq<char>,
    skipped: u64,
    limit: u64,
)
    requires
        is_api_tool(tool, call),
        call.name == "read_file"@,
        call.arguments.get_text("path"@) == Some(path),
        !is_blank(path),
        call.arguments.get("offset"@) matches Some(JsonView::Number(n)) && number_as_u64(n) == Some(
            skipped,
        ),
        call.arguments.get("limit"@) matches Some(JsonView::Number(n)) && number_as_u64(n) == Some(
            limit,
        ),
        0 < limit,
        skipped + limit <= u32::MAX,
    ensures
        tool matches ApiTool::ReadFiles { files } && {
            &&& files@.len() == 1
            &&& files@[0].name@ == trimmed(path)
            &&& files@[0].line_ranges@.len() == 1
            &&& files@[0].line_ranges@[0].start == skipped + 1
            &&& files@[0].line_ranges@[0].end - files@[0].line_ranges@[0].start + 1 == limit
        },
{
    lemma_tool_names();
}

/// Without a limit the whole file is read.
pub proof fn law_whole_files_are_read(tool: ApiTool, call: ToolCallView)
    requires
        is_api_tool(tool, call),
        call.name == "read_file"@,
        call.arguments.get("limit"@) is None,
    ensures
        tool matches ApiTool::ReadFiles { files } && files@.len() == 1
            && files@[0].line_ranges@.len() == 0,
{
    lemma_tool_names();
}

/// A call that writes a file is sent as one new file, and one that replaces text as one edit, each
/// with its path and its texts.
pub proof fn law_edits_are_sent(
    tool: ApiTool,
    call: ToolCallView,
    path: Seq<char>,
    first: Seq<char>,
    second: Seq<char>,
)
    requires
        is_api_tool(tool, call),
        call.arguments.get_text("path"@) == Some(path),
        !is_blank(path),
    ensures
        call.name == "write_file"@ && call.arguments.get_text("content"@) == Some(first)
            && !is_blank(first) ==> {
            &&& tool matches ApiTool::ApplyFileDiffs { summary, diffs, new_files }
            &&& diffs@.len() == 0
            &&& new_files@.len() == 1
            &&& new_files@[0].file_path@ == trimmed(path)
            &&& new_files@[0].content@ == trimmed(first)
            &&& summary@ == "Write "@ + trimmed(path)
        },
        call.name == "search_replace"@ && call.arguments.get_text("search"@) == Some(first)
            && call.arguments.get_text("replace"@) == Some(second) ==> {
            &&& tool matches ApiTool::ApplyFileDiffs { summary, diffs, new_files }
            &&& new_files@.len() == 0
            &&& diffs@.len() == 1
            &&& diffs@[0].file_path@ == trimmed(path)
            &&& diffs@[0].search@ == first
            &&& diffs@[0].replace@ == second
            &&& summary@ == "Replace text in "@ + trimmed(path)
        },
        call.name == "grep"@ && call.arguments.get_text("pattern"@) == Some(first) && !is_blank(
            first,
        ) ==> {
            &&& tool matches ApiTool::Grep { queries, path: place }
            &&& queries@.len() == 1
            &&& queries@[0]@ == trimmed(first)
            &&& place@ == trimmed(path)
        },
{
    lemma_tool_names();
}

/// A call that a client sends back has the id that it was sent with, and the arguments that the
/// tool takes.
pub proof fn law_calls_are_read(
    id: Seq<char>,
    command: String,
    wait: bool,
    queries: Vec<String>,
    path: String,
    summary: String,
    diffs: Vec<FileDiff>,
    new_files: Vec<NewFile>,
)
    ensures
        local_call(id, ApiTool::RunShellCommand { command, wait_until_complete: wait }) matches Some(
            call,
        ) && call.id == id && call.name == "bash"@ && call.arguments.get_text("command"@) == Some(
            command@,
        ),
        queries@.len() > 0 ==> {
            &&& local_call(id, ApiTool::Grep { queries, path }) matches Some(call)
            &&& call.id == id
            &&& call.name == "grep"@
            &&& call.arguments.get_text("pattern"@) == Some(queries@[0]@)
            &&& path@.len() > 0 ==> call.arguments.get_text("path"@) == Some(path@)
            &&& path@.len() == 0 ==> call.arguments.get_text("path"@) == Some("."@)
        },
        diffs@.len() > 0 ==> {
            &&& local_call(id, ApiTool::ApplyFileDiffs { summary, diffs, new_files }) matches Some(
                call,
            )
            &&& call.id == id
            &&& call.name == "search_replace"@
            &&& call.arguments.get_text("path"@) == Some(diffs@[0].file_path@)
            &&& call.arguments.get_text("search"@) == Some(diffs@[0].search@)
            &&& call.arguments.get_text("replace"@) == Some(diffs@[0].replace@)
        },
        diffs@.len() == 0 && new_files@.len() > 0 ==> {
            &&& local_call(id, ApiTool::ApplyFileDiffs { summary, diffs, new_files }) matches Some(
                call,
            )
            &&& call.id == id
            &&& call.name == "write_file"@
            &&& call.arguments.get_text("path"@) == Some(new_files@[0].file_path@)
            &&& call.arguments.get_text("content"@) == Some(new_files@[0].content@)
            &&& call.arguments.get("overwrite"@) == Some(JsonView::Bool(true))
        },
{
    broadcast use crate::json::lemma_with_get;

    reveal_strlit("path");
    reveal_strlit("search");
    reveal_strlit("replace");
    reveal_strlit("pattern");
    reveal_strlit("content");
    reveal_strlit("overwrite");
    assert("path"@.len() == 4 && "search"@.len() == 6 && "replace"@.len() == 7 && "pattern"@.len()
        == 7 && "content"@.len() == 7 && "overwrite"@.len() == 9);
}

/// A range of lines that a client names is read as the lines to skip and the number of lines.
pub proof fn law_ranges_are_read(id: Seq<char>, files: Vec<ReadFile>)
    requires
        files@.len() > 0,
        files@[0].line_ranges@.len() > 0,
        1 <= files@[0].line_ranges@[0].start <= files@[0].line_ranges@[0].end,
    ensures
        ({
            let range = files@[0].line_ranges@[0];
            &&& local_call(id, ApiTool::ReadFiles { files }) matches Some(call)
            &&& call.id == id
            &&& call.name == "read_file"@
            &&& call.arguments.get_text("path"@) == Some(files@[0].name@)
            &&& call.arguments.get("offset"@) == Some(
                JsonView::Number(number_of((range.start - 1) as u64)),
            )
            &&& call.arguments.get("limit"@) == Some(
                JsonView::Number(number_of((range.end - range.start + 1) as u64)),
            )
        }),
{
    broadcast use crate::json::lemma_with_get;

    reveal_strlit("path");
    reveal_strlit("offset");
    reveal_strlit("limit");
    assert("path"@.len() == 4 && "offset"@.len() == 6 && "limit"@.len() == 5);
}

/// What the agent says in a run is told in this order: what it thought, the calls that wait for the
/// client, each call that was run with its result behind it, and its answer. Blank texts are left
/// out.
pub proof fn law_runs_are_told_in_order(run: RunView)
    ensures
        ({
            let script = run_script(run);
            let thought: int = if is_blank(run.reasoning) {
                0
            } else {
                1
            };
            let events = thought + run.tool_calls.len();
            let answer = events + 2 * run.tool_events.len();
            &&& script.len() == answer + if is_blank(run.output) {
                0int
            } else {
                1
            }
            &&& !is_blank(run.reasoning) ==> script[0] == Said::Reasoning(run.reasoning)
            &&& forall|i: int|
                0 <= i < run.tool_calls.len() ==> script[thought + i] == Said::Call(
                    #[trigger] run.tool_calls[i],
                )
            &&& forall|i: int|
                0 <= i < run.tool_events.len() ==> script[events + 2 * i] == Said::Call(
                    (#[trigger] run.tool_events[i]).tool_call,
                ) && script[events + 2 * i + 1] == Said::Result(run.tool_events[i])
            &&& !is_blank(run.output) ==> script[answer] == Said::Output(run.output)
        }),
{
    lemma_event_script(run.tool_events);
}

proof fn lemma_event_script(events: Seq<ToolEventView>)
    ensures
        event_script(events).len() == 2 * events.len(),
        forall|i: int|
            0 <= i < events.len() ==> event_script(events)[2 * i] == Said::Call(
                (#[trigger] events[i]).tool_call,
            ) && event_script(events)[2 * i + 1] == Said::Result(events[i]),
    decreases events.len(),
{
    if events.len() > 0 {
        lemma_event_script(events.drop_last());
        assert forall|i: int| 0 <= i < events.len() implies event_script(events)[2 * i] == Said::Call(
            (#[trigger] events[i]).tool_call,
        ) && event_script(events)[2 * i + 1] == Said::Result(events[i]) by {
            if i < events.len() - 1 {
                assert(events.drop_last()[i] == events[i]);
            }
        }
    }
}

/// A stream of events names its conversation first, creates the task if there is none yet, and
/// ends with the word that it has ended. All that was said stands between.
pub proof fn law_streams_begin_and_end(ids: StreamIds, info: TaskInfo, run: RunView)
    ensures
        ({
            let steps = response_steps(ids, info, run);
            let first = Step::Init {
                conversation_id: ids.conversation_id@,
                request_id: ids.request_id@,
                run_id: ids.run_id@,
            };
            let create = Told::Create { id: info.id@, description: info.description@ };
            let messages = Told::Add { task_id: info.id@, script: run_script(run) };
            let opening = opening_steps(ids, info);
            let closing = closing_steps(run, info.id@);
            &&& steps.len() == 3
            &&& steps[0] == first
            &&& info.needs_create ==> steps[1] == Step::Actions(seq![create, messages])
            &&& !info.needs_create ==> steps[1] == Step::Actions(seq![messages])
            &&& steps[2] is Finished
            &&& opening[0] == first
            &&& info.needs_create ==> opening.len() == 2 && opening[1] == Step::Actions(
                seq![create],
            )
            &&& !info.needs_create ==> opening.len() == 1
            &&& closing.last() is Finished
            &&& !is_blank(run.output) && is_blank(run.reasoning) ==> closing.len() == 2
                && closing[0] == Step::Actions(
                seq![Told::Add { task_id: info.id@, script: seq![Said::Output(run.output)] }],
            )
            &&& !is_blank(run.output) && !is_blank(run.reasoning) ==> closing.len() == 2
                && closing[0] == Step::Actions(
                seq![
                    Told::Add {
                        task_id: info.id@,
                        script: seq![Said::Reasoning(run.reasoning), Said::Output(run.output)],
                    },
                ],
            )
            &&& is_blank(run.output) && is_blank(run.reasoning) ==> closing.len() == 1
        }),
{
    let create = Told::Create { id: info.id@, description: info.description@ };
    let messages = Told::Add { task_id: info.id@, script: run_script(run) };
    assert(seq![create].push(messages) =~= seq![create, messages]);
    let empty = Seq::<Said>::empty();
    assert(empty.push(Said::Output(run.output)) =~= seq![Said::Output(run.output)]);
    assert(empty.push(Said::Reasoning(run.reasoning)).push(Said::Output(run.output))
        =~= seq![Said::Reasoning(run.reasoning), Said::Output(run.output)]);
}

/// The stream of a run on another machine opens with the user's own words.
pub proof fn law_cloud_runs_open_with_the_prompt(
    run_id: Seq<char>,
    title: Seq<char>,
    prompt: Seq<char>,
)
    ensures
        ({
            let steps = cloud_steps(run_id, title, prompt);
            let again = followup_steps(run_id, prompt);
            let first = Step::Init {
                conversation_id: "warpsolo-cloud-conversation-"@ + run_id,
                request_id: "warpsolo-cloud-request-"@ + run_id,
                run_id,
            };
            let query = Told::Add { task_id: run_id, script: seq![Said::Query(prompt)] };
            &&& steps.len() == 2
            &&& steps[0] == first
            &&& steps[1] matches Step::Actions(actions)
            &&& actions[0] matches Told::Create { id, .. }
            &&& id == run_id
            &&& !is_blank(prompt) ==> actions.len() == 2 && actions[1] == query
            &&& is_blank(prompt) ==> actions.len() == 1
            &&& again[0] == first
            &&& !is_blank(prompt) ==> again.len() == 2 && again[1] == Step::Actions(seq![query])
            &&& is_blank(prompt) ==> again.len() == 1
        }),
{
}

/// What a client tells of a finished command is told to the model with the command, its exit code
/// and what it printed. A command that the user refused is told as refused.
pub proof fn law_finished_commands_are_told(
    id: String,
    command: String,
    output: String,
    code: i32,
    told: RunShellCommandResult,
)
    requires
        told.command == command,
    ensures
        ({
            let text = result_text(
                ApiToolCallResult {
                    tool_call_id: id,
                    result: Some(ApiToolResult::RunShellCommand(told)),
                },
            );
            &&& told.result matches Some(ShellOutcome::CommandFinished {
                output: printed,
                exit_code,
                ..
            }) ==> (printed@ == output@ && exit_code == code && line_texts(output@).len() < 2
                ==> text == "Command: "@ + command@ + "\nExit code: "@ + signed_decimal(code as int)
                + "\n\n"@ + output@)
            &&& told.result matches Some(ShellOutcome::PermissionDenied) ==> text
                == "Command was not approved: "@ + command@
            &&& told.result is None ==> text == "Command result for "@ + command@
                + " is unavailable."@
        }),
{
}

/// What a client tells of the files that were read is told to the model: each file by its path, a
/// colon and its content on the next line, with a blank line between the files.
pub proof fn law_read_files_are_told(id: String, files: Vec<FileContent>, at: int) -> (around: (
    Seq<char>,
    Seq<char>,
))
    requires
        0 <= at < files@.len(),
    ensures
        result_text(
            ApiToolCallResult {
                tool_call_id: id,
                result: Some(ApiToolResult::ReadFiles(ReadFilesResult::TextFilesSuccess(files))),
            },
        ) == around.0 + (files@[at].file_path@ + ":\n"@ + files@[at].content@) + around.1,
{
    let parts = files@.map_values(
        |file: FileContent| crate::agent_api::results::file_text(file.file_path@, file.content@),
    );
    law_joined_texts_are_held(parts, at, "\n\n"@)
}

/// What a client tells of the lines that were found is told to the model, file by file: the path
/// and the numbers of the lines.
pub proof fn law_found_lines_are_told(id: String, files: Vec<GrepFileMatch>, at: int, line: int) -> (
    around: (Seq<char>, Seq<char>))
    requires
        0 <= at < files@.len(),
        0 <= line < files@[at].matched_lines@.len(),
    ensures
        result_text(
            ApiToolCallResult {
                tool_call_id: id,
                result: Some(ApiToolResult::Grep(GrepResult::Success(files))),
            },
        ) == around.0 + decimal(files@[at].matched_lines@[line] as nat) + around.1,
        files@[at].file_path@.len() > 0 && files@.len() == 1 ==> files@[at].file_path@.is_prefix_of(
            around.0,
        ),
{
    let parts = files@.map_values(
        |found: GrepFileMatch| crate::agent_api::results::match_text(found),
    );
    let numbers = files@[at].matched_lines@.map_values(|line: u32| decimal(line as nat));
    let (a, b) = law_joined_texts_are_held(parts, at, "\n"@);
    let (c, d) = law_joined_texts_are_held(numbers, line, ", "@);
    let path = files@[at].file_path@;
    let number = decimal(files@[at].matched_lines@[line] as nat);
    assert(parts[at] == path + ": "@ + (c + number + d));
    let before = a + path + ": "@ + c;
    let after = d + b;
    assert(a + (path + ": "@ + (c + number + d)) + b =~= before + number + after);
    if files@.len() == 1 {
        assert(joined(parts, "\n"@) == parts[0]);
        assert(a.len() + parts[at].len() + b.len() == parts[0].len());
        assert(a.len() == 0);
        assert(path =~= before.take(path.len() as int));
    }
    (before, after)
}

/// What failed at the client is told to the model in the client's words.
pub proof fn law_failures_are_told(id: String, message: String)
    ensures
        result_text(
            ApiToolCallResult {
                tool_call_id: id,
                result: Some(ApiToolResult::ReadFiles(ReadFilesResult::Error(message))),
            },
        ) == message@,
        result_text(
            ApiToolCallResult {
                tool_call_id: id,
                result: Some(ApiToolResult::Grep(GrepResult::Error(message))),
            },
        ) == message@,
        result_text(
            ApiToolCallResult {
                tool_call_id: id,
                result: Some(ApiToolResult::ApplyFileDiffs(ApplyFileDiffsResult::Error(message))),
            },
        ) == message@,
{
}

/// The files that were edited are told to the model with what they hold now, and those that were
/// deleted by name.
pub proof fn law_edited_files_are_told(
    id: String,
    file: FileContent,
    updated: Vec<Option<FileContent>>,
    deleted: Vec<String>,
)
    requires
        updated@ == seq![Some(file)],
    ensures
        ({
            let text = result_text(
                ApiToolCallResult {
                    tool_call_id: id,
                    result: Some(
                        ApiToolResult::ApplyFileDiffs(
                            ApplyFileDiffsResult::Success {
                                updated_files: updated,
                                deleted_files: deleted,
                            },
                        ),
                    ),
                },
            );
            let told = file.file_path@ + ":\n"@ + file.content@;
            &&& deleted@.len() == 0 ==> text == told
            &&& deleted@.len() > 0 ==> text == told + "\n\n"@ + ("Deleted files: "@ + joined(
                texts(deleted@),
                ", "@,
            ))
        }),
{
    reveal_with_fuel(crate::agent_api::results::updated_texts, 2);
    assert(updated@.drop_last() =~= seq![]);
    assert(updated@.last() == Some(file));
    let told = crate::agent_api::results::file_text(file.file_path@, file.content@);
    let parts = crate::agent_api::results::updated_texts(updated@);
    assert(parts =~= seq![told]);
    let names = "Deleted files: "@ + joined(texts(deleted@), ", "@);
    law_joined_texts_stand_in_order(seq![told], seq![names], "\n\n"@);
    assert(parts.push(names) =~= seq![told] + seq![names]);
    law_joined_texts_stand_in_order(seq![names], seq![], "\n\n"@);
}

/// What a tool gave on this machine is told to the client under the same call: what failed as
/// failed, what was read with its path, and what a command printed with its exit code.
pub proof fn law_results_are_sent(result: ApiToolResult, event: ToolEventView, path: Seq<char>)
    requires
        is_api_result(result, event),
        event.tool_call.arguments.get_text("path"@) == Some(path),
        !is_blank(path),
    ensures
        ({
            let name = event.tool_call.name;
            let content = event.result.content;
            let failed = "Tool failed:"@.is_prefix_of(content);
            &&& name == "read_file"@ && failed ==> (result matches ApiToolResult::ReadFiles(
                ReadFilesResult::Error(message),
            ) && message@ == content)
            &&& name == "read_file"@ && !failed ==> (result matches ApiToolResult::ReadFiles(
                ReadFilesResult::TextFilesSuccess(files),
            ) && files@.len() == 1 && files@[0].file_path@ == trimmed(path) && files@[0].content@
                == content)
            &&& (name == "write_file"@ || name == "search_replace"@) && failed ==> (
            result matches ApiToolResult::ApplyFileDiffs(ApplyFileDiffsResult::Error(message))
                && message@ == content)
            &&& (name == "write_file"@ || name == "search_replace"@) && !failed ==> (
            result matches ApiToolResult::ApplyFileDiffs(
                ApplyFileDiffsResult::Success { updated_files, deleted_files },
            ) && deleted_files@.len() == 0 && updated_files@.len() == 1
                && (updated_files@[0] matches Some(file) && file.file_path@ == trimmed(path)))
            &&& name == "grep"@ && failed ==> (result matches ApiToolResult::Grep(
                GrepResult::Error(message),
            ) && message@ == content)
            &&& name == "grep"@ && !failed ==> (result matches ApiToolResult::Grep(
                GrepResult::Success(files),
            ))
            &&& name == "bash"@ ==> (result matches ApiToolResult::RunShellCommand(told)
                && told.output@ == content)
        }),
{
    lemma_tool_names();
}

/// What the user asks for is taken from the request as it stands there, whatever kind of request
/// it is.
pub proof fn law_prompts_are_read(request: Request, text: String, input: Input)
    requires
        request.input == Some(input),
    ensures
        input.kind == Some(InputKind::UserQuery { query: text }) || input.kind == Some(
            InputKind::QueryWithCannedResponse { query: text },
        ) || input.kind == Some(InputKind::AutoCodeDiffQuery { query: text }) || input.kind == Some(
            InputKind::CreateNewProject { query: text },
        ) || input.kind == Some(InputKind::SummarizeConversation { prompt: text }) || input.kind
            == Some(InputKind::StartFromAmbientRunPrompt { runtime_base_prompt: text }) || input.kind
            == Some(InputKind::InvokeSkill { user_query: Some(text) }) ==> prompt_of(request)
            == Some(text@),
        input.kind == Some(InputKind::CloneRepository { url: text }) ==> prompt_of(request) == Some(
            "Clone repository "@ + text@,
        ),
        input.kind is None ==> prompt_of(request) is None,
        prompt_of(request) matches Some(prompt) ==> (!is_blank(prompt) ==> prompt_or_continue(
            request,
        ) == prompt),
        prompt_of(request) is None ==> prompt_or_continue(request)
            == "Continue the current Warp agent conversation."@,
{
}

/// Of several inputs the first that asks for something is the prompt, and each result of a tool is
/// kept, in order.
pub proof fn law_inputs_are_read(
    request: Request,
    input: Input,
    inputs: Vec<UserInput>,
    at: int,
    query: String,
)
    requires
        request.input == Some(input),
        input.kind == Some(InputKind::UserInputs(inputs)),
        0 <= at < inputs@.len(),
        inputs@[at] == (UserInput::UserQuery { query }) || inputs@[at]
            == (UserInput::CliAgentUserQuery { user_query: Some(query) }),
        forall|i: int|
            0 <= i < at ==> !(#[trigger] inputs@[i] is UserQuery) && !(inputs@[i]
                matches UserInput::CliAgentUserQuery { user_query } && user_query is Some),
    ensures
        prompt_of(request) == Some(query@),
{
    lemma_first_query(inputs@, at, query);
}

proof fn lemma_first_query(inputs: Seq<UserInput>, at: int, query: String)
    requires
        0 <= at < inputs.len(),
        inputs[at] == (UserInput::UserQuery { query }) || inputs[at]
            == (UserInput::CliAgentUserQuery { user_query: Some(query) }),
        forall|i: int|
            0 <= i < at ==> !(#[trigger] inputs[i] is UserQuery) && !(inputs[i]
                matches UserInput::CliAgentUserQuery { user_query } && user_query is Some),
    ensures
        crate::agent_api::requests::first_query(inputs) == Some(query@),
    decreases at,
{
    if at > 0 {
        assert(!(inputs[0] is UserQuery));
        assert forall|i: int| 0 <= i < at - 1 implies !(#[trigger] inputs.skip(1)[i] is UserQuery)
            && !(inputs.skip(1)[i] matches UserInput::CliAgentUserQuery { user_query }
            && user_query is Some) by {
            assert(inputs.skip(1)[i] == inputs[i + 1]);
        }
        lemma_first_query(inputs.skip(1), at - 1, query);
    }
}

/// Each result of a tool that comes with a request is read, under its call and in its order.
pub proof fn law_results_are_read(
    inputs: Seq<UserInput>,
    result: ApiToolCallResult,
    other: UserInput,
)
    requires
        !(other is ToolCallResult),
    ensures
        ({
            let before = crate::agent_api::requests::input_results(inputs);
            let after = crate::agent_api::requests::input_results(
                inputs.push(UserInput::ToolCallResult(result)),
            );
            &&& after.len() == before.len() + 1
            &&& after.drop_last() == before
            &&& after.last().tool_call_id == result.tool_call_id@
            &&& after.last().content == result_text(result)
            &&& crate::agent_api::requests::input_results(inputs.push(other)) == before
        }),
{
    assert(inputs.push(UserInput::ToolCallResult(result)).drop_last() =~= inputs);
    assert(inputs.push(other).drop_last() =~= inputs);
    let before = crate::agent_api::requests::input_results(inputs);
    let after = crate::agent_api::requests::input_results(
        inputs.push(UserInput::ToolCallResult(result)),
    );
    assert(after.drop_last() =~= before);
}

/// The directory that a request names is the one it works in. Where it names none, the newest one
/// of the first task that has any is taken, and the given one where there is none at all.
pub proof fn law_workspaces_are_found(
    request: Request,
    input: Input,
    pwd: String,
    default: Seq<char>,
)
    ensures
        request.input == Some(input) && input.context == Some(InputContext { pwd: Some(pwd) })
            && !is_blank(pwd@) ==> workspace_of(request, default) == trimmed(pwd@),
        request.input is None && request.tasks is None ==> workspace_of(request, default)
            == default,
{
}

/// What goes to another machine is what the user asked, in the directory of the request, for the
/// machine and the model that the user approved.
pub proof fn law_remote_requests(
    remote: RemoteWorkerRequest,
    request: Request,
    default: Seq<char>,
    prompt: Seq<char>,
)
    requires
        is_remote_request(remote, request, default),
        prompt_of(request) == Some(prompt),
        !is_blank(prompt),
    ensures
        remote.prompt@ == prompt,
        remote.workspace@ == workspace_of(request, default),
        config_of(request) matches Some(config) && {
            &&& config.execution_mode matches Some(ExecutionMode::Remote { worker_host })
            &&& remote.worker_host@ == trimmed(worker_host@)
            &&& !is_blank(config.model_id@) ==> opt_text(remote.model_id) == Some(
                trimmed(config.model_id@),
            )
            &&& is_blank(config.model_id@) ==> remote.model_id is None
        },
        opt_text(remote.harness) == Some("local-openai"@),
{
}

/// Only what the user approved decides, and what comes with the request goes before what was
/// approved earlier.
pub proof fn law_choices_decide(
    request: Request,
    input: Input,
    inputs: Vec<UserInput>,
    choice: OrchestrationChoice,
)
    requires
        request.input == Some(input),
        input.kind == Some(InputKind::UserInputs(inputs)),
        inputs@.len() > 0,
        inputs@.last() == UserInput::OrchestrationConfigUpdate(choice),
    ensures
        choice.approved ==> config_of(request) == choice.config,
        !choice.approved ==> config_of(request) is None,
{
}

/// A conversation keeps the name that its client gave it.
pub proof fn law_conversations_keep_their_name(request: Request, id: String)
    requires
        request.conversation_id == Some(id),
    ensures
        !is_blank(id@) ==> named_conversation(request) == Some(trimmed(id@)),
        is_blank(id@) ==> named_conversation(request) is None,
{
}

/// A new task is described by the first line of what the user asked.
pub proof fn law_tasks_are_described(request: Request, prompt: Seq<char>)
    requires
        prompt_of(request) == Some(prompt),
    ensures
        line_texts(prompt).len() > 0 && !is_blank(line_texts(prompt)[0]) ==> new_description(request)
            == line_texts(prompt)[0],
        line_texts(prompt).len() == 0 ==> new_description(request) == "Local sidecar task"@,
{
}

/// A line that a search printed is read as the file and the number of the line that it names, and
/// the lines that are found stay in order.
pub proof fn law_found_lines_are_read(path: Seq<char>, n: u32, text: Seq<char>, lines: Seq<Seq<char>>)
    requires
        !path.contains(':'),
        path.len() > 0,
    ensures
        ({
            let line = path + seq![':'] + decimal(n as nat) + seq![':'] + text;
            &&& hit(line) == Some((path, n))
            &&& hits(lines.push(line)) == hits(lines).push((path, n))
        }),
        hit("No matches."@) is None,
        hit("Search results truncated."@) is None,
{
    let number = decimal(n as nat);
    let line = path + seq![':'] + number + seq![':'] + text;
    let rest = number + seq![':'] + text;
    lemma_decimal_value(n as nat);
    assert(!number.contains(':')) by {
        if number.contains(':') {
            let i = number.index_of(':');
            assert(is_digit(number[i]));
        }
    }
    assert(line =~= path + seq![':'] + rest);
    assert(rest =~= number + seq![':'] + text);
    lemma_colon(path, rest);
    lemma_colon(number, text);
    assert(line.skip(path.len() as int + 1) =~= rest);
    assert(line.take(path.len() as int) =~= path);
    assert(rest.take(number.len() as int) =~= number);
    assert(is_digit(number[0]));
    assert(line[path.len() as int] == ':');
    reveal_strlit("No matches.");
    reveal_strlit("Search results truncated.");
    lemma_has_no_colon("No matches."@, line, path.len() as int);
    lemma_has_no_colon("Search results truncated."@, line, path.len() as int);
    assert(lines.push(line).drop_last() =~= lines);
}

proof fn lemma_has_no_colon(s: Seq<char>, line: Seq<char>, at: int)
    requires
        0 <= at < line.len(),
        line[at] == ':',
        forall|i: int| 0 <= i < s.len() ==> s[i] != ':',
    ensures
        line != s,
{
    if line == s {
        assert(s[at] == ':');
    }
}

proof fn lemma_colon(front: Seq<char>, back: Seq<char>)
    requires
        !front.contains(':'),
    ensures
        first_char(front + seq![':'] + back, ':') == Some(front.len() as int),
    decreases back.len(),
{
    let whole = front + seq![':'] + back;
    if back.len() == 0 {
        lemma_no_colon(front);
        assert(whole.drop_last() =~= front);
        assert(whole.last() == ':');
    } else {
        lemma_colon(front, back.drop_last());
        assert(whole.drop_last() =~= front + seq![':'] + back.drop_last());
    }
}

proof fn lemma_no_colon(s: Seq<char>)
    requires
        !s.contains(':'),
    ensures
        first_char(s, ':') is None,
    decreases s.len(),
{
    if s.len() > 0 {
        assert(s.contains(s.last()));
        assert(!s.drop_last().contains(':')) by {
            if s.drop_last().contains(':') {
                let i = s.drop_last().index_of(':');
                assert(s[i] == ':');
            }
        }
        lemma_no_colon(s.drop_last());
    }
}

} // verus!
