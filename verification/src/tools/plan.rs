//! What a tool call asks for.

use vstd::prelude::*;

use crate::agent_state::{LocalToolCall, ToolCallView};
use crate::json::{Json, JsonView, number_as_u64};
use crate::paths::{join_path, joined_path};
use crate::text::{byte_len, bytes_in, chars_of, is_blank, same, trim, trimmed};

verus! {

pub const DEFAULT_COMMAND_TIMEOUT_SECS: u64 = 30;

pub const MAX_COMMAND_TIMEOUT_SECS: u64 = 120;

pub const DEFAULT_GREP_MATCHES: u64 = 100;

pub const MAX_GREP_MATCHES: u64 = 1_000;

pub const MAX_WRITE_BYTES: usize = 64_000;

/// What is to be done. `path` is the path as requested, `resolved` where it is.
#[derive(Debug)]
pub enum ToolPlan {
    ReadFile { resolved: String, offset: u64, limit: Option<u64> },
    WriteFile { path: String, resolved: String, content: String, overwrite: bool },
    SearchReplace { path: String, resolved: String, search: String, replace: String },
    Grep { path: String, resolved: String, pattern: String, max_matches: u64 },
    Bash { command: String, timeout_secs: u64 },
}

/// The mathematical content of a [`ToolPlan`].
#[verifier::ext_equal]
pub enum PlanView {
    ReadFile { resolved: Seq<char>, offset: u64, limit: Option<u64> },
    WriteFile { path: Seq<char>, resolved: Seq<char>, content: Seq<char>, overwrite: bool },
    SearchReplace {
        path: Seq<char>,
        resolved: Seq<char>,
        search: Seq<char>,
        replace: Seq<char>,
    },
    Grep { path: Seq<char>, resolved: Seq<char>, pattern: Seq<char>, max_matches: u64 },
    Bash { command: Seq<char>, timeout_secs: u64 },
}

impl View for ToolPlan {
    type V = PlanView;

    open spec fn view(&self) -> PlanView {
        match *self {
            ToolPlan::ReadFile { resolved, offset, limit } => PlanView::ReadFile {
                resolved: resolved@,
                offset,
                limit,
            },
            ToolPlan::WriteFile { path, resolved, content, overwrite } => PlanView::WriteFile {
                path: path@,
                resolved: resolved@,
                content: content@,
                overwrite,
            },
            ToolPlan::SearchReplace { path, resolved, search, replace } => PlanView::SearchReplace {
                path: path@,
                resolved: resolved@,
                search: search@,
                replace: replace@,
            },
            ToolPlan::Grep { path, resolved, pattern, max_matches } => PlanView::Grep {
                path: path@,
                resolved: resolved@,
                pattern: pattern@,
                max_matches,
            },
            ToolPlan::Bash { command, timeout_secs } => PlanView::Bash {
                command: command@,
                timeout_secs,
            },
        }
    }
}

/// Whether a path has the component `..` at `at`.
pub open spec fn parent_at(path: Seq<char>, at: int) -> bool {
    &&& 0 <= at && at + 2 <= path.len()
    &&& path[at] == '.' && path[at + 1] == '.'
    &&& at == 0 || path[at - 1] == '/'
    &&& at + 2 == path.len() || path[at + 2] == '/'
}

/// Whether a path could lead out of the directory that it is seen from: it is absolute, or has a
/// component `..`.
pub open spec fn escapes(path: Seq<char>) -> bool {
    (path.len() > 0 && path[0] == '/') || exists|at: int| parent_at(path, at)
}

/// The path of a file in the workspace.
pub open spec fn workspace_path(workspace: Seq<char>, path: Seq<char>) -> Result<
    Seq<char>,
    Seq<char>,
> {
    if escapes(path) {
        Err("path must stay inside the workspace"@)
    } else {
        Ok(joined_path(workspace, path))
    }
}

/// What a tool may touch lies below the workspace, and is reached without going up.
pub proof fn law_paths_stay_inside(workspace: Seq<char>, path: Seq<char>)
    requires
        workspace_path(workspace, path) is Ok,
    ensures
        workspace.is_prefix_of(workspace_path(workspace, path)->Ok_0),
        forall|at: int| !parent_at(path, at),
{
    let resolved = workspace_path(workspace, path)->Ok_0;
    assert(resolved.subrange(0, workspace.len() as int) =~= workspace);
}

/// An argument that is a word: a text that is not blank, without white space around it.
pub open spec fn word(arguments: JsonView, key: Seq<char>) -> Option<Seq<char>> {
    match arguments.get_text(key) {
        Some(text) => if is_blank(text) {
            None
        } else {
            Some(trimmed(text))
        },
        None => None,
    }
}

/// An argument that is a count, if it is there.
pub open spec fn count(arguments: JsonView, key: Seq<char>) -> Result<Option<u64>, Seq<char>> {
    match arguments.get(key) {
        None => Ok(None),
        Some(JsonView::Number(number)) => match number_as_u64(number) {
            Some(n) => Ok(Some(n)),
            None => Err(key + " must be a positive integer"@),
        },
        Some(_) => Err(key + " must be a positive integer"@),
    }
}

pub open spec fn clamped(n: Option<u64>, default: u64, max: u64) -> u64 {
    match n {
        None => default,
        Some(n) => if n < 1 {
            1
        } else if n > max {
            max
        } else {
            n
        },
    }
}

pub open spec fn read_plan(arguments: JsonView, workspace: Seq<char>) -> Result<PlanView, Seq<char>> {
    match word(arguments, "path"@) {
        None => Err("read_file requires a non-empty path"@),
        Some(path) => match count(arguments, "offset"@) {
            Err(why) => Err(why),
            Ok(offset) => match count(arguments, "limit"@) {
                Err(why) => Err(why),
                Ok(limit) => if limit == Some(0u64) {
                    Err("limit must be a positive integer"@)
                } else {
                    match workspace_path(workspace, path) {
                        Err(why) => Err(why),
                        Ok(resolved) => Ok(
                            PlanView::ReadFile {
                                resolved,
                                offset: match offset {
                                    Some(offset) => offset,
                                    None => 0,
                                },
                                limit,
                            },
                        ),
                    }
                },
            },
        },
    }
}

pub open spec fn flag(arguments: JsonView, key: Seq<char>) -> bool {
    arguments.get(key) == Some(JsonView::Bool(true))
}

pub open spec fn write_plan(arguments: JsonView, workspace: Seq<char>) -> Result<
    PlanView,
    Seq<char>,
> {
    match word(arguments, "path"@) {
        None => Err("write_file requires a non-empty path"@),
        Some(path) => match arguments.get_text("content"@) {
            None => Err("write_file requires content"@),
            Some(content) => if bytes_in(content) > MAX_WRITE_BYTES {
                Err("write_file content exceeds 64000 bytes"@)
            } else {
                match workspace_path(workspace, path) {
                    Err(why) => Err(why),
                    Ok(resolved) => Ok(
                        PlanView::WriteFile {
                            path,
                            resolved,
                            content,
                            overwrite: flag(arguments, "overwrite"@),
                        },
                    ),
                }
            },
        },
    }
}

pub open spec fn replace_plan(arguments: JsonView, workspace: Seq<char>) -> Result<
    PlanView,
    Seq<char>,
> {
    match word(arguments, "path"@) {
        None => Err("search_replace requires a non-empty path"@),
        Some(path) => match arguments.get_text("search"@) {
            None => Err("search_replace requires non-empty search text"@),
            Some(search) => if search.len() == 0 {
                Err("search_replace requires non-empty search text"@)
            } else {
                match arguments.get_text("replace"@) {
                    None => Err("search_replace requires replacement text"@),
                    Some(replace) => match workspace_path(workspace, path) {
                        Err(why) => Err(why),
                        Ok(resolved) => Ok(
                            PlanView::SearchReplace { path, resolved, search, replace },
                        ),
                    },
                }
            },
        },
    }
}

pub open spec fn bad_pattern(pattern: Seq<char>, fault: Seq<char>) -> Seq<char> {
    "invalid grep pattern: "@ + pattern + ": "@ + fault
}

pub open spec fn grep_plan(arguments: JsonView, workspace: Seq<char>) -> Result<PlanView, Seq<char>> {
    match word(arguments, "pattern"@) {
        None => Err("grep requires a non-empty pattern"@),
        Some(pattern) => {
            let path = match word(arguments, "path"@) {
                Some(path) => path,
                None => "."@,
            };
            match count(arguments, "max_matches"@) {
                Err(why) => Err(why),
                Ok(max_matches) => match crate::tools::grep::regex_fault(pattern) {
                    Some(fault) => Err(bad_pattern(pattern, fault)),
                    None => match workspace_path(workspace, path) {
                        Err(why) => Err(why),
                        Ok(resolved) => Ok(
                            PlanView::Grep {
                                path,
                                resolved,
                                pattern,
                                max_matches: clamped(
                                    max_matches,
                                    DEFAULT_GREP_MATCHES,
                                    MAX_GREP_MATCHES,
                                ),
                            },
                        ),
                    },
                },
            }
        },
    }
}

pub open spec fn bash_plan(arguments: JsonView) -> Result<PlanView, Seq<char>> {
    match word(arguments, "command"@) {
        None => Err("bash requires a non-empty command"@),
        Some(command) => match count(arguments, "timeout_secs"@) {
            Err(why) => Err(why),
            Ok(timeout_secs) => Ok(
                PlanView::Bash {
                    command,
                    timeout_secs: clamped(
                        timeout_secs,
                        DEFAULT_COMMAND_TIMEOUT_SECS,
                        MAX_COMMAND_TIMEOUT_SECS,
                    ),
                },
            ),
        },
    }
}

/// What a tool call asks for, or why it cannot be done.
pub open spec fn plan_of(call: ToolCallView, workspace: Seq<char>) -> Result<PlanView, Seq<char>> {
    if call.name == "read_file"@ {
        read_plan(call.arguments, workspace)
    } else if call.name == "write_file"@ {
        write_plan(call.arguments, workspace)
    } else if call.name == "search_replace"@ {
        replace_plan(call.arguments, workspace)
    } else if call.name == "grep"@ {
        grep_plan(call.arguments, workspace)
    } else if call.name == "bash"@ {
        bash_plan(call.arguments)
    } else {
        Err("unsupported local tool"@)
    }
}

/// What a [`ToolPlan`] or its refusal stands for.
pub open spec fn outcome(out: Result<ToolPlan, String>) -> Result<PlanView, Seq<char>> {
    match out {
        Ok(plan) => Ok(plan@),
        Err(why) => Err(why@),
    }
}

fn leads_out(path: &str) -> (yes: bool)
    ensures
        yes == escapes(path@),
{
    let chars = chars_of(path);
    if chars.len() > 0 && chars[0] == '/' {
        return true;
    }
    let mut at: usize = 0;
    while at < chars.len()
        invariant
            chars@ == path@,
            at <= chars.len(),
            forall|before: int| 0 <= before < at ==> !#[trigger] parent_at(path@, before),
        decreases chars.len() - at,
    {
        let left: usize = chars.len() - at;
        if left >= 2 && chars[at] == '.' && chars[at + 1] == '.' && (at == 0 || chars[at - 1]
            == '/') && (left == 2 || chars[at + 2] == '/') {
            assert(parent_at(path@, at as int));
            return true;
        }
        at += 1;
    }
    false
}

/// The path of a file in the workspace.
pub fn resolve_workspace_path(workspace: &str, path: &str) -> (out: Result<String, String>)
    ensures
        match out {
            Ok(resolved) => workspace_path(workspace@, path@) == Ok::<_, Seq<char>>(resolved@),
            Err(why) => workspace_path(workspace@, path@) == Err::<Seq<char>, _>(why@),
        },
{
    if leads_out(path) {
        Err("path must stay inside the workspace".to_owned())
    } else {
        Ok(join_path(workspace, path))
    }
}

pub(crate) fn word_arg(arguments: &Json, key: &str) -> (out: Option<String>)
    ensures
        crate::text::opt_text(out) == word(arguments@, key@),
{
    match arguments.get_text(key) {
        Some(text) => {
            let text = trim(text);
            if text.is_empty() {
                None
            } else {
                Some(text.to_owned())
            }
        },
        None => None,
    }
}

/// An argument that is a count, if it is there.
pub fn optional_count_arg(arguments: &Json, key: &str) -> (out: Result<Option<u64>, String>)
    ensures
        match out {
            Ok(n) => count(arguments@, key@) == Ok::<_, Seq<char>>(n),
            Err(why) => count(arguments@, key@) == Err::<Option<u64>, _>(why@),
        },
{
    let bad = match arguments.get(key) {
        None => {
            return Ok(None);
        },
        Some(value) => match value.as_u64() {
            Some(n) => {
                return Ok(Some(n));
            },
            None => {
                let mut why = key.to_owned();
                why.append(" must be a positive integer");
                why
            },
        },
    };
    Err(bad)
}

fn clamp_count(n: Option<u64>, default: u64, max: u64) -> (out: u64)
    ensures
        out == clamped(n, default, max),
{
    match n {
        None => default,
        Some(n) => if n < 1 {
            1
        } else if n > max {
            max
        } else {
            n
        },
    }
}

fn plan_read_file(arguments: &Json, workspace: &str) -> (out: Result<ToolPlan, String>)
    ensures
        outcome(out) == read_plan(arguments@, workspace@),
{
    let path = match word_arg(arguments, "path") {
        Some(path) => path,
        None => {
            return Err("read_file requires a non-empty path".to_owned());
        },
    };
    let offset = match optional_count_arg(arguments, "offset") {
        Ok(offset) => offset,
        Err(why) => {
            return Err(why);
        },
    };
    let limit = match optional_count_arg(arguments, "limit") {
        Ok(limit) => limit,
        Err(why) => {
            return Err(why);
        },
    };
    if let Some(0) = limit {
        return Err("limit must be a positive integer".to_owned());
    }
    match resolve_workspace_path(workspace, path.as_str()) {
        Ok(resolved) => Ok(
            ToolPlan::ReadFile {
                resolved,
                offset: match offset {
                    Some(offset) => offset,
                    None => 0,
                },
                limit,
            },
        ),
        Err(why) => Err(why),
    }
}

fn plan_write_file(arguments: &Json, workspace: &str) -> (out: Result<ToolPlan, String>)
    ensures
        outcome(out) == write_plan(arguments@, workspace@),
{
    let path = match word_arg(arguments, "path") {
        Some(path) => path,
        None => {
            return Err("write_file requires a non-empty path".to_owned());
        },
    };
    let content = match arguments.get_text("content") {
        Some(content) => content,
        None => {
            return Err("write_file requires content".to_owned());
        },
    };
    let overwrite: bool = match arguments.get("overwrite") {
        Some(Json::Bool(overwrite)) => *overwrite,
        _ => false,
    };
    if byte_len(content) > MAX_WRITE_BYTES {
        return Err("write_file content exceeds 64000 bytes".to_owned());
    }
    match resolve_workspace_path(workspace, path.as_str()) {
        Ok(resolved) => Ok(
            ToolPlan::WriteFile { path, resolved, content: content.to_owned(), overwrite },
        ),
        Err(why) => Err(why),
    }
}

fn plan_search_replace(arguments: &Json, workspace: &str) -> (out: Result<ToolPlan, String>)
    ensures
        outcome(out) == replace_plan(arguments@, workspace@),
{
    let path = match word_arg(arguments, "path") {
        Some(path) => path,
        None => {
            return Err("search_replace requires a non-empty path".to_owned());
        },
    };
    let search = match arguments.get_text("search") {
        Some(search) => search,
        None => "",
    };
    proof {
        reveal_strlit("");
    }
    if search.is_empty() {
        return Err("search_replace requires non-empty search text".to_owned());
    }
    let replace = match arguments.get_text("replace") {
        Some(replace) => replace,
        None => {
            return Err("search_replace requires replacement text".to_owned());
        },
    };
    match resolve_workspace_path(workspace, path.as_str()) {
        Ok(resolved) => Ok(
            ToolPlan::SearchReplace {
                path,
                resolved,
                search: search.to_owned(),
                replace: replace.to_owned(),
            },
        ),
        Err(why) => Err(why),
    }
}

fn plan_grep(arguments: &Json, workspace: &str) -> (out: Result<ToolPlan, String>)
    ensures
        outcome(out) == grep_plan(arguments@, workspace@),
{
    let pattern = match word_arg(arguments, "pattern") {
        Some(pattern) => pattern,
        None => {
            return Err("grep requires a non-empty pattern".to_owned());
        },
    };
    let path = match word_arg(arguments, "path") {
        Some(path) => path,
        None => ".".to_owned(),
    };
    let max_matches = match optional_count_arg(arguments, "max_matches") {
        Ok(max_matches) => max_matches,
        Err(why) => {
            return Err(why);
        },
    };
    if let Err(fault) = crate::tools::grep::compile(pattern.as_str()) {
        let mut why = "invalid grep pattern: ".to_owned();
        why.append(pattern.as_str());
        why.append(": ");
        why.append(fault.as_str());
        return Err(why);
    }
    match resolve_workspace_path(workspace, path.as_str()) {
        Ok(resolved) => Ok(
            ToolPlan::Grep {
                path,
                resolved,
                pattern,
                max_matches: clamp_count(max_matches, DEFAULT_GREP_MATCHES, MAX_GREP_MATCHES),
            },
        ),
        Err(why) => Err(why),
    }
}

fn plan_bash(arguments: &Json) -> (out: Result<ToolPlan, String>)
    ensures
        outcome(out) == bash_plan(arguments@),
{
    let command = match word_arg(arguments, "command") {
        Some(command) => command,
        None => {
            return Err("bash requires a non-empty command".to_owned());
        },
    };
    match optional_count_arg(arguments, "timeout_secs") {
        Ok(timeout_secs) => Ok(
            ToolPlan::Bash {
                command,
                timeout_secs: clamp_count(
                    timeout_secs,
                    DEFAULT_COMMAND_TIMEOUT_SECS,
                    MAX_COMMAND_TIMEOUT_SECS,
                ),
            },
        ),
        Err(why) => Err(why),
    }
}

/// What a tool call asks for, or why it cannot be done.
pub fn plan_tool(call: &LocalToolCall, workspace: &str) -> (out: Result<ToolPlan, String>)
    ensures
        outcome(out) == plan_of(call@, workspace@),
{
    let name = call.name.as_str();
    if same(name, "read_file") {
        plan_read_file(&call.arguments, workspace)
    } else if same(name, "write_file") {
        plan_write_file(&call.arguments, workspace)
    } else if same(name, "search_replace") {
        plan_search_replace(&call.arguments, workspace)
    } else if same(name, "grep") {
        plan_grep(&call.arguments, workspace)
    } else if same(name, "bash") {
        plan_bash(&call.arguments)
    } else {
        Err("unsupported local tool".to_owned())
    }
}

} // verus!
