//! Tool calls as the agent makes them and as clients know them.

use vstd::prelude::*;

use crate::agent_api::{ApiTool, ApiToolCall, FileDiff, LineRange, NewFile, ReadFile};
use crate::agent_state::{LocalToolCall, ToolCallView};
use crate::json::{Json, JsonView, jobject, json_text, jtext, number_of, settled};
use crate::text::same;
use crate::tools::plan::{word, word_arg};

verus! {

pub open spec fn word_or(arguments: JsonView, key: Seq<char>, default: Seq<char>) -> Seq<char> {
    match word(arguments, key) {
        Some(text) => text,
        None => default,
    }
}

/// The text of an argument as it stands, or else `default`.
pub open spec fn text_or(arguments: JsonView, key: Seq<char>, default: Seq<char>) -> Seq<char> {
    match arguments.get_text(key) {
        Some(text) => text,
        None => default,
    }
}

pub open spec fn at_most(n: int, max: int) -> int {
    if n <= max {
        n
    } else {
        max
    }
}

/// The lines that a reading call asks for, where it limits them.
pub open spec fn line_range(arguments: JsonView) -> Option<LineRange> {
    match arguments.get("limit"@) {
        None => None,
        Some(limit) => match limit.unsigned() {
            None => None,
            Some(limit) => if limit == 0 {
                None
            } else {
                let offset = match arguments.get("offset"@) {
                    Some(offset) => match offset.unsigned() {
                        Some(offset) => offset,
                        None => 0,
                    },
                    None => 0,
                };
                Some(
                    LineRange {
                        start: at_most(offset + 1, u32::MAX as int) as u32,
                        end: at_most(offset + limit, u32::MAX as int) as u32,
                    },
                )
            },
        },
    }
}

/// Whether `tool` is a call's tool as clients know it.
pub open spec fn is_api_tool(tool: ApiTool, call: ToolCallView) -> bool {
    let arguments = call.arguments;
    let path = word_or(arguments, "path"@, seq![]);
    if call.name == "read_file"@ {
        &&& tool matches ApiTool::ReadFiles { files }
        &&& files@.len() == 1
        &&& files@[0].name@ == path
        &&& files@[0].line_ranges@ == match line_range(arguments) {
            Some(range) => seq![range],
            None => seq![],
        }
    } else if call.name == "write_file"@ {
        &&& tool matches ApiTool::ApplyFileDiffs { summary, diffs, new_files }
        &&& summary@ == "Write "@ + word_or(arguments, "path"@, "file"@)
        &&& diffs@.len() == 0
        &&& new_files@.len() == 1
        &&& new_files@[0].file_path@ == path
        &&& new_files@[0].content@ == word_or(arguments, "content"@, seq![])
    } else if call.name == "search_replace"@ {
        &&& tool matches ApiTool::ApplyFileDiffs { summary, diffs, new_files }
        &&& summary@ == "Replace text in "@ + word_or(arguments, "path"@, "file"@)
        &&& new_files@.len() == 0
        &&& diffs@.len() == 1
        &&& diffs@[0].file_path@ == path
        &&& diffs@[0].search@ == text_or(arguments, "search"@, seq![])
        &&& diffs@[0].replace@ == text_or(arguments, "replace"@, seq![])
    } else if call.name == "grep"@ {
        &&& tool matches ApiTool::Grep { queries, path }
        &&& queries@.len() == 1
        &&& queries@[0]@ == word_or(arguments, "pattern"@, seq![])
        &&& path@ == word_or(arguments, "path"@, "."@)
    } else if call.name == "bash"@ {
        &&& tool matches ApiTool::RunShellCommand { command, wait_until_complete }
        &&& command@ == word_or(arguments, "command"@, seq![])
        &&& wait_until_complete
    } else {
        &&& tool matches ApiTool::Server { payload }
        &&& payload@ == json_text(
            settled(jobject().with("name"@, jtext(call.name)).with("arguments"@, arguments)),
        )
    }
}

/// The arguments of a call to read the given file.
pub open spec fn read_arguments(file: ReadFile) -> JsonView {
    let path = jobject().with("path"@, jtext(file.name@));
    if file.line_ranges@.len() == 0 {
        path
    } else {
        let range = file.line_ranges@[0];
        let from = path.with(
            "offset"@,
            JsonView::Number(number_of((if range.start > 0 { range.start - 1 } else { 0 }) as u64)),
        );
        if range.end >= range.start {
            from.with(
                "limit"@,
                JsonView::Number(number_of((range.end - range.start + 1) as u64)),
            )
        } else {
            from
        }
    }
}

/// The agent's call behind a tool that clients know, if it is one of the agent's.
pub open spec fn local_call(id: Seq<char>, tool: ApiTool) -> Option<ToolCallView> {
    match tool {
        ApiTool::RunShellCommand { command, .. } => Some(
            ToolCallView {
                id,
                name: "bash"@,
                arguments: jobject().with("command"@, jtext(command@)),
            },
        ),
        ApiTool::ReadFiles { files } => if files@.len() == 0 {
            None
        } else {
            Some(ToolCallView { id, name: "read_file"@, arguments: read_arguments(files@[0]) })
        },
        ApiTool::Grep { queries, path } => if queries@.len() == 0 {
            None
        } else {
            Some(
                ToolCallView {
                    id,
                    name: "grep"@,
                    arguments: jobject().with("pattern"@, jtext(queries@[0]@)).with(
                        "path"@,
                        jtext(
                            if path@.len() == 0 {
                                "."@
                            } else {
                                path@
                            },
                        ),
                    ),
                },
            )
        },
        ApiTool::ApplyFileDiffs { diffs, new_files, .. } => if diffs@.len() > 0 {
            Some(
                ToolCallView {
                    id,
                    name: "search_replace"@,
                    arguments: jobject().with("path"@, jtext(diffs@[0].file_path@)).with(
                        "search"@,
                        jtext(diffs@[0].search@),
                    ).with("replace"@, jtext(diffs@[0].replace@)),
                },
            )
        } else if new_files@.len() > 0 {
            Some(
                ToolCallView {
                    id,
                    name: "write_file"@,
                    arguments: jobject().with("path"@, jtext(new_files@[0].file_path@)).with(
                        "content"@,
                        jtext(new_files@[0].content@),
                    ).with("overwrite"@, JsonView::Bool(true)),
                },
            )
        } else {
            None
        },
        _ => None,
    }
}

/// The agent's call behind a call that clients know.
pub open spec fn local_call_of(call: ApiToolCall) -> Option<ToolCallView> {
    match call.tool {
        Some(tool) => local_call(call.tool_call_id@, tool),
        None => None,
    }
}

/// A call of one of the agent's tools that went to a client is known again when it comes back, with
/// the texts that it searches for and puts in as they were.
pub proof fn law_calls_are_known_again(call: ToolCallView, tool: ApiTool)
    requires
        is_api_tool(tool, call),
        call.name == "read_file"@ || call.name == "write_file"@ || call.name == "search_replace"@
            || call.name == "grep"@ || call.name == "bash"@,
    ensures
        local_call(call.id, tool) matches Some(known) && {
            &&& known.id == call.id
            &&& known.name == call.name
            &&& call.name == "search_replace"@ ==> {
                &&& text_or(known.arguments, "search"@, seq![]) == text_or(
                    call.arguments,
                    "search"@,
                    seq![],
                )
                &&& text_or(known.arguments, "replace"@, seq![]) == text_or(
                    call.arguments,
                    "replace"@,
                    seq![],
                )
            }
        },
{
    broadcast use crate::json::lemma_with_get;

    reveal_strlit("search");
    reveal_strlit("replace");
    assert("search"@.len() == 6 && "replace"@.len() == 7);
    reveal_strlit("read_file");
    reveal_strlit("write_file");
    reveal_strlit("search_replace");
    reveal_strlit("grep");
    reveal_strlit("bash");
}

pub(crate) fn word_or_else(arguments: &Json, key: &str, default: &str) -> (out: String)
    ensures
        out@ == word_or(arguments@, key@, default@),
{
    match word_arg(arguments, key) {
        Some(text) => text,
        None => default.to_owned(),
    }
}

pub(crate) fn word_or_empty(arguments: &Json, key: &str) -> (out: String)
    ensures
        out@ == word_or(arguments@, key@, seq![]),
{
    match word_arg(arguments, key) {
        Some(text) => text,
        None => String::new(),
    }
}

fn text_or_else(arguments: &Json, key: &str, default: &str) -> (out: String)
    ensures
        out@ == text_or(arguments@, key@, default@),
{
    match arguments.get_text(key) {
        Some(text) => text.to_owned(),
        None => default.to_owned(),
    }
}

fn add_capped(a: u64, b: u64) -> (out: u32)
    ensures
        out == at_most(a + b, u32::MAX as int) as u32,
{
    let sum: u64 = a.saturating_add(b);
    if sum > 0xffff_ffff {
        0xffff_ffff
    } else {
        sum as u32
    }
}

/// The lines that a reading call asks for, where it limits them.
pub fn local_file_line_range(arguments: &Json) -> (range: Option<LineRange>)
    ensures
        range == line_range(arguments@),
{
    let limit: u64 = match arguments.get("limit") {
        Some(limit) => match limit.as_u64() {
            Some(limit) => limit,
            None => {
                return None;
            },
        },
        None => {
            return None;
        },
    };
    if limit == 0 {
        return None;
    }
    let offset: u64 = match arguments.get("offset") {
        Some(offset) => match offset.as_u64() {
            Some(offset) => offset,
            None => 0,
        },
        None => 0,
    };
    Some(LineRange { start: add_capped(offset, 1), end: add_capped(offset, limit) })
}

/// The tool of a call as clients know it.
pub fn api_tool_from_local(call: &LocalToolCall) -> (tool: ApiTool)
    ensures
        is_api_tool(tool, call@),
{
    proof {
        reveal_strlit("");
        assert(""@ =~= seq![]);
    }
    let arguments = &call.arguments;
    let name = call.name.as_str();
    if same(name, "read_file") {
        let mut line_ranges: Vec<LineRange> = Vec::new();
        if let Some(range) = local_file_line_range(arguments) {
            line_ranges.push(range);
        }
        let mut files: Vec<ReadFile> = Vec::new();
        files.push(ReadFile { name: word_or_empty(arguments, "path"), line_ranges });
        ApiTool::ReadFiles { files }
    } else if same(name, "write_file") {
        let mut summary = "Write ".to_owned();
        summary.append(word_or_else(arguments, "path", "file").as_str());
        let mut new_files: Vec<NewFile> = Vec::new();
        new_files.push(
            NewFile {
                file_path: word_or_empty(arguments, "path"),
                content: word_or_empty(arguments, "content"),
            },
        );
        ApiTool::ApplyFileDiffs { summary, diffs: Vec::new(), new_files }
    } else if same(name, "search_replace") {
        let mut summary = "Replace text in ".to_owned();
        summary.append(word_or_else(arguments, "path", "file").as_str());
        let mut diffs: Vec<FileDiff> = Vec::new();
        diffs.push(
            FileDiff {
                file_path: word_or_empty(arguments, "path"),
                search: text_or_else(arguments, "search", ""),
                replace: text_or_else(arguments, "replace", ""),
            },
        );
        ApiTool::ApplyFileDiffs { summary, diffs, new_files: Vec::new() }
    } else if same(name, "grep") {
        let mut queries: Vec<String> = Vec::new();
        queries.push(word_or_empty(arguments, "pattern"));
        ApiTool::Grep { queries, path: word_or_else(arguments, "path", ".") }
    } else if same(name, "bash") {
        ApiTool::RunShellCommand {
            command: word_or_empty(arguments, "command"),
            wait_until_complete: true,
        }
    } else {
        let payload = Json::object().with("name", Json::text(name)).with(
            "arguments",
            arguments.clone(),
        );
        ApiTool::Server { payload: payload.print() }
    }
}

fn read_file_arguments(file: &ReadFile) -> (arguments: Json)
    ensures
        arguments@ == read_arguments(*file),
{
    let arguments = Json::object().with("path", Json::text(file.name.as_str()));
    if file.line_ranges.len() == 0 {
        return arguments;
    }
    let range = file.line_ranges[0];
    let start: u64 = range.start as u64;
    let end: u64 = range.end as u64;
    let offset: u64 = if start > 0 { start - 1 } else { 0 };
    let arguments = arguments.with("offset", Json::unsigned(offset));
    if end >= start {
        arguments.with("limit", Json::unsigned(end - start + 1))
    } else {
        arguments
    }
}

/// The agent's call behind a call that clients know.
pub fn local_tool_call_from_api(call: &ApiToolCall) -> (out: Option<LocalToolCall>)
    ensures
        match out {
            Some(local) => local_call_of(*call) == Some(local@),
            None => local_call_of(*call) is None,
        },
{
    let (name, arguments) = match &call.tool {
        None => {
            return None;
        },
        Some(ApiTool::RunShellCommand { command, .. }) => (
            "bash",
            Json::object().with("command", Json::text(command.as_str())),
        ),
        Some(ApiTool::ReadFiles { files }) => {
            if files.len() == 0 {
                return None;
            }
            ("read_file", read_file_arguments(&files[0]))
        },
        Some(ApiTool::Grep { queries, path }) => {
            if queries.len() == 0 {
                return None;
            }
            let shown = if path.as_str().is_empty() {
                "."
            } else {
                path.as_str()
            };
            (
                "grep",
                Json::object().with("pattern", Json::text(queries[0].as_str())).with(
                    "path",
                    Json::text(shown),
                ),
            )
        },
        Some(ApiTool::ApplyFileDiffs { diffs, new_files, .. }) => {
            if diffs.len() > 0 {
                (
                    "search_replace",
                    Json::object().with("path", Json::text(diffs[0].file_path.as_str())).with(
                        "search",
                        Json::text(diffs[0].search.as_str()),
                    ).with("replace", Json::text(diffs[0].replace.as_str())),
                )
            } else if new_files.len() > 0 {
                (
                    "write_file",
                    Json::object().with("path", Json::text(new_files[0].file_path.as_str())).with(
                        "content",
                        Json::text(new_files[0].content.as_str()),
                    ).with("overwrite", Json::Bool(true)),
                )
            } else {
                return None;
            }
        },
        Some(ApiTool::Server { .. }) | Some(ApiTool::Other) => {
            return None;
        },
    };
    Some(LocalToolCall { id: call.tool_call_id.clone(), name: name.to_owned(), arguments })
}

} // verus!
