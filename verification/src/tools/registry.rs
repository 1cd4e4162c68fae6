//! The tools that the model is offered, and how it is told of them.

use vstd::prelude::*;

use crate::json::{Json, JsonView, jlist, jobject, jtext};
use crate::llm_config::{ModelView, ResolvedLocalLlm};
use crate::text::{contains, is_blank, join, joined, occurs, replace_all, replaced_from, same, texts};

verus! {

/// A tool.
#[derive(Debug, Clone, Copy, PartialEq, Eq, Structural)]
pub enum LocalTool {
    ReadFile,
    WriteFile,
    SearchReplace,
    Grep,
    Bash,
}

/// All tools, in the order in which they are offered.
pub open spec fn all_tools() -> Seq<LocalTool> {
    seq![
        LocalTool::ReadFile,
        LocalTool::WriteFile,
        LocalTool::SearchReplace,
        LocalTool::Grep,
        LocalTool::Bash,
    ]
}

pub open spec fn tool_name(tool: LocalTool) -> Seq<char> {
    match tool {
        LocalTool::ReadFile => "read_file"@,
        LocalTool::WriteFile => "write_file"@,
        LocalTool::SearchReplace => "search_replace"@,
        LocalTool::Grep => "grep"@,
        LocalTool::Bash => "bash"@,
    }
}

pub open spec fn tool_description(tool: LocalTool) -> Seq<char> {
    match tool {
        LocalTool::ReadFile => "Read a UTF-8 text file from the current workspace. The path must be relative to the workspace."@,
        LocalTool::WriteFile => "Create or overwrite a UTF-8 text file in the current workspace. The path must be relative to the workspace. Existing files require overwrite=true."@,
        LocalTool::SearchReplace => "Make a targeted edit in an existing UTF-8 file by replacing an exact text block. The search text must match exactly once."@,
        LocalTool::Grep => "Search workspace files for a Rust-regex pattern. The path must be relative to the workspace."@,
        LocalTool::Bash => "Run a non-interactive shell command in the current workspace. Prefer read_file, grep, and write_file for file operations."@,
    }
}

/// The schema of one argument.
pub open spec fn argument(kind: Seq<char>, description: Seq<char>) -> JsonView {
    jobject().with("type"@, jtext(kind)).with("description"@, jtext(description))
}

/// The schema of the arguments of a tool.
pub open spec fn schema(arguments: JsonView, required: JsonView) -> JsonView {
    jobject().with("type"@, jtext("object"@)).with("properties"@, arguments).with(
        "required"@,
        required,
    ).with("additionalProperties"@, JsonView::Bool(false))
}

/// The schema of the arguments of each tool.
pub open spec fn tool_parameters(tool: LocalTool) -> JsonView {
    match tool {
        LocalTool::ReadFile => schema(
            jobject().with(
                "path"@,
                argument("string"@, "Workspace-relative file path to read"@),
            ).with(
                "offset"@,
                argument("integer"@, "Zero-based line offset to start reading from"@),
            ).with("limit"@, argument("integer"@, "Maximum number of lines to read"@)),
            jlist().and(jtext("path"@)),
        ),
        LocalTool::WriteFile => schema(
            jobject().with(
                "path"@,
                argument("string"@, "Workspace-relative file path to write"@),
            ).with("content"@, argument("string"@, "Complete UTF-8 file contents"@)).with(
                "overwrite"@,
                argument("boolean"@, "Set to true to replace an existing file"@),
            ),
            jlist().and(jtext("path"@)).and(jtext("content"@)),
        ),
        LocalTool::SearchReplace => schema(
            jobject().with(
                "path"@,
                argument("string"@, "Workspace-relative file path to edit"@),
            ).with(
                "search"@,
                argument(
                    "string"@,
                    "Exact text to replace. It must appear exactly once in the file."@,
                ),
            ).with("replace"@, argument("string"@, "Replacement text"@)),
            jlist().and(jtext("path"@)).and(jtext("search"@)).and(jtext("replace"@)),
        ),
        LocalTool::Grep => schema(
            jobject().with(
                "pattern"@,
                argument("string"@, "Regular expression to search for"@),
            ).with(
                "path"@,
                argument(
                    "string"@,
                    "Workspace-relative file or directory to search. Defaults to the workspace root."@,
                ),
            ).with(
                "max_matches"@,
                argument("integer"@, "Maximum number of matching lines to return"@),
            ),
            jlist().and(jtext("pattern"@)),
        ),
        LocalTool::Bash => schema(
            jobject().with("command"@, argument("string"@, "Shell command to run"@)).with(
                "timeout_secs"@,
                argument("integer"@, "Timeout in seconds. Defaults to 30 and is capped at 120."@),
            ),
            jlist().and(jtext("command"@)),
        ),
    }
}

/// A tool as the model is offered it.
pub open spec fn offered_tool(tool: LocalTool) -> JsonView {
    jobject().with("type"@, jtext("function"@)).with(
        "function"@,
        jobject().with("name"@, jtext(tool_name(tool))).with(
            "description"@,
            jtext(tool_description(tool)),
        ).with("parameters"@, tool_parameters(tool)),
    )
}

pub open spec fn is_enabled(model: ModelView, tool: LocalTool) -> bool {
    match model.enabled_tools {
        Some(enabled) => enabled.contains(tool_name(tool)),
        None => true,
    }
}

/// The enabled ones among `tools`, in their order.
pub open spec fn enabled_among(model: ModelView, tools: Seq<LocalTool>) -> Seq<LocalTool>
    decreases tools.len(),
{
    if tools.len() == 0 {
        seq![]
    } else if is_enabled(model, tools.last()) {
        enabled_among(model, tools.drop_last()).push(tools.last())
    } else {
        enabled_among(model, tools.drop_last())
    }
}

/// The tools that a model is offered.
pub open spec fn enabled_tools(model: ModelView) -> Seq<LocalTool> {
    enabled_among(model, all_tools())
}

pub open spec fn default_system_prompt() -> Seq<char> {
    "You are a local coding agent running inside a Warp OSS loopback sidecar. Use tools to inspect and modify the user's current workspace. Available tools: {tools}. Before editing an existing file, inspect it with read_file or grep. Prefer read_file, grep, search_replace, and write_file over bash for file operations. After making code changes, run a relevant verification command with bash when one is reasonably available. Keep final answers concise and report what changed plus any verification result."@
}

/// The names of the tools in a prompt.
pub open spec fn tools_text(model: ModelView) -> Seq<char> {
    if enabled_tools(model).len() == 0 {
        "no tools"@
    } else {
        joined(enabled_tools(model).map_values(|tool: LocalTool| tool_name(tool)), ", "@)
    }
}

/// The system prompt with the names of the tools filled in; a prompt without a place for them has
/// them added.
pub open spec fn system_prompt(model: ModelView) -> Seq<char> {
    let configured = match model.system_prompt {
        Some(prompt) => if is_blank(prompt) {
            default_system_prompt()
        } else {
            prompt
        },
        None => default_system_prompt(),
    };
    if occurs(configured, "{tools}"@) {
        replaced_from(configured, "{tools}"@, tools_text(model), 0)
    } else {
        configured + "\nAvailable tools: "@ + tools_text(model) + "."@
    }
}

fn json_argument(kind: &str, description: &str) -> (out: Json)
    ensures
        out@ == argument(kind@, description@),
{
    Json::object().with("type", Json::text(kind)).with("description", Json::text(description))
}

fn json_schema(arguments: Json, required: Json) -> (out: Json)
    ensures
        out@ == schema(arguments@, required@),
{
    Json::object().with("type", Json::text("object")).with("properties", arguments).with(
        "required",
        required,
    ).with("additionalProperties", Json::Bool(false))
}

impl LocalTool {
    pub fn name(self) -> (name: &'static str)
        ensures
            name@ == tool_name(self),
    {
        match self {
            LocalTool::ReadFile => "read_file",
            LocalTool::WriteFile => "write_file",
            LocalTool::SearchReplace => "search_replace",
            LocalTool::Grep => "grep",
            LocalTool::Bash => "bash",
        }
    }

    pub fn description(self) -> (description: &'static str)
        ensures
            description@ == tool_description(self),
    {
        match self {
            LocalTool::ReadFile => "Read a UTF-8 text file from the current workspace. The path must be relative to the workspace.",
            LocalTool::WriteFile => "Create or overwrite a UTF-8 text file in the current workspace. The path must be relative to the workspace. Existing files require overwrite=true.",
            LocalTool::SearchReplace => "Make a targeted edit in an existing UTF-8 file by replacing an exact text block. The search text must match exactly once.",
            LocalTool::Grep => "Search workspace files for a Rust-regex pattern. The path must be relative to the workspace.",
            LocalTool::Bash => "Run a non-interactive shell command in the current workspace. Prefer read_file, grep, and write_file for file operations.",
        }
    }

    /// The schema of this tool's arguments.
    pub fn parameters(self) -> (out: Json)
        ensures
            out@ == tool_parameters(self),
    {
        match self {
            LocalTool::ReadFile => json_schema(
                Json::object().with(
                    "path",
                    json_argument("string", "Workspace-relative file path to read"),
                ).with(
                    "offset",
                    json_argument("integer", "Zero-based line offset to start reading from"),
                ).with("limit", json_argument("integer", "Maximum number of lines to read")),
                Json::list().and(Json::text("path")),
            ),
            LocalTool::WriteFile => json_schema(
                Json::object().with(
                    "path",
                    json_argument("string", "Workspace-relative file path to write"),
                ).with("content", json_argument("string", "Complete UTF-8 file contents")).with(
                    "overwrite",
                    json_argument("boolean", "Set to true to replace an existing file"),
                ),
                Json::list().and(Json::text("path")).and(Json::text("content")),
            ),
            LocalTool::SearchReplace => json_schema(
                Json::object().with(
                    "path",
                    json_argument("string", "Workspace-relative file path to edit"),
                ).with(
                    "search",
                    json_argument(
                        "string",
                        "Exact text to replace. It must appear exactly once in the file.",
                    ),
                ).with("replace", json_argument("string", "Replacement text")),
                Json::list().and(Json::text("path")).and(Json::text("search")).and(
                    Json::text("replace"),
                ),
            ),
            LocalTool::Grep => json_schema(
                Json::object().with(
                    "pattern",
                    json_argument("string", "Regular expression to search for"),
                ).with(
                    "path",
                    json_argument(
                        "string",
                        "Workspace-relative file or directory to search. Defaults to the workspace root.",
                    ),
                ).with(
                    "max_matches",
                    json_argument("integer", "Maximum number of matching lines to return"),
                ),
                Json::list().and(Json::text("pattern")),
            ),
            LocalTool::Bash => json_schema(
                Json::object().with("command", json_argument("string", "Shell command to run")).with(
                    "timeout_secs",
                    json_argument(
                        "integer",
                        "Timeout in seconds. Defaults to 30 and is capped at 120.",
                    ),
                ),
                Json::list().and(Json::text("command")),
            ),
        }
    }

    /// This tool as the model is offered it.
    pub fn offer(self) -> (out: Json)
        ensures
            out@ == offered_tool(self),
    {
        Json::object().with("type", Json::text("function")).with(
            "function",
            Json::object().with("name", Json::text(self.name())).with(
                "description",
                Json::text(self.description()),
            ).with("parameters", self.parameters()),
        )
    }
}

fn enables(model: &ResolvedLocalLlm, tool: LocalTool) -> (yes: bool)
    ensures
        yes == is_enabled(model@, tool),
{
    match &model.enabled_tools {
        None => true,
        Some(enabled) => {
            let ghost names = texts(enabled@);
            let mut i: usize = 0;
            while i < enabled.len()
                invariant
                    model.enabled_tools == Some(*enabled),
                    i <= enabled.len(),
                    names == texts(enabled@),
                    forall|j: int| 0 <= j < i ==> #[trigger] names[j] != tool_name(tool),
                decreases enabled.len() - i,
            {
                if same(enabled[i].as_str(), tool.name()) {
                    assert(names[i as int] == tool_name(tool));
                    assert(names.contains(tool_name(tool)));
                    return true;
                }
                assert(names[i as int] != tool_name(tool));
                i += 1;
            }
            assert(!names.contains(tool_name(tool)));
            false
        },
    }
}

/// The tools that a model is offered.
pub fn tools_for(model: &ResolvedLocalLlm) -> (tools: Vec<LocalTool>)
    ensures
        tools@ == enabled_tools(model@),
{
    let registry: [LocalTool; 5] = [
        LocalTool::ReadFile,
        LocalTool::WriteFile,
        LocalTool::SearchReplace,
        LocalTool::Grep,
        LocalTool::Bash,
    ];
    assert(registry@ =~= all_tools());
    let mut tools: Vec<LocalTool> = Vec::new();
    let mut i: usize = 0;
    assert(all_tools().take(0) =~= Seq::empty());
    while i < 5
        invariant
            i <= 5,
            registry@ == all_tools(),
            tools@ == enabled_among(model@, all_tools().take(i as int)),
        decreases 5 - i,
    {
        assert(all_tools().take(i + 1).drop_last() =~= all_tools().take(i as int));
        if enables(model, registry[i]) {
            tools.push(registry[i]);
        }
        i += 1;
    }
    assert(all_tools().take(5) =~= all_tools());
    tools
}

/// The tools that a model is offered, in the form in which it is offered them.
pub fn local_openai_tools(model: &ResolvedLocalLlm) -> (out: Vec<Json>)
    ensures
        crate::json::list_view(out@) == enabled_tools(model@).map_values(
            |tool: LocalTool| offered_tool(tool),
        ),
{
    let tools = tools_for(model);
    let mut out: Vec<Json> = Vec::new();
    let mut i: usize = 0;
    while i < tools.len()
        invariant
            i <= tools.len(),
            out.len() == i,
            forall|j: int| 0 <= j < i ==> (#[trigger] out@[j])@ == offered_tool(tools@[j]),
        decreases tools.len() - i,
    {
        out.push(tools[i].offer());
        i += 1;
    }
    proof {
        crate::json::lemma_list_view(out@);
    }
    assert(crate::json::list_view(out@) =~= enabled_tools(model@).map_values(
        |tool: LocalTool| offered_tool(tool),
    ));
    out
}

fn tool_names_text(model: &ResolvedLocalLlm) -> (text: String)
    ensures
        text@ == tools_text(model@),
{
    let tools = tools_for(model);
    if tools.len() == 0 {
        return "no tools".to_owned();
    }
    let mut names: Vec<String> = Vec::new();
    let mut i: usize = 0;
    while i < tools.len()
        invariant
            i <= tools.len(),
            names.len() == i,
            forall|j: int| 0 <= j < i ==> (#[trigger] names@[j])@ == tool_name(tools@[j]),
        decreases tools.len() - i,
    {
        names.push(tools[i].name().to_owned());
        i += 1;
    }
    assert(texts(names@) =~= tools@.map_values(|tool: LocalTool| tool_name(tool)));
    join(&names, ", ")
}

/// The system prompt for a model.
pub fn local_agent_system_prompt(model: &ResolvedLocalLlm) -> (prompt: String)
    ensures
        prompt@ == system_prompt(model@),
{
    let tools = tool_names_text(model);
    let configured = match model.configured_system_prompt() {
        Some(prompt) => prompt,
        None => "You are a local coding agent running inside a Warp OSS loopback sidecar. Use tools to inspect and modify the user's current workspace. Available tools: {tools}. Before editing an existing file, inspect it with read_file or grep. Prefer read_file, grep, search_replace, and write_file over bash for file operations. After making code changes, run a relevant verification command with bash when one is reasonably available. Keep final answers concise and report what changed plus any verification result.",
    };
    if contains(configured, "{tools}") {
        proof {
            reveal_strlit("{tools}");
        }
        replace_all(configured, "{tools}", tools.as_str())
    } else {
        let mut prompt = configured.to_owned();
        prompt.append("\nAvailable tools: ");
        prompt.append(tools.as_str());
        prompt.append(".");
        prompt
    }
}

/// A tool is offered exactly when the configuration does not leave it out.
pub proof fn law_offered_tools_are_enabled(model: ModelView, tool: LocalTool)
    ensures
        enabled_tools(model).contains(tool) <==> is_enabled(model, tool),
{
    lemma_enabled_among(model, all_tools(), tool);
    assert(all_tools()[0] == LocalTool::ReadFile);
    assert(all_tools()[1] == LocalTool::WriteFile);
    assert(all_tools()[2] == LocalTool::SearchReplace);
    assert(all_tools()[3] == LocalTool::Grep);
    assert(all_tools()[4] == LocalTool::Bash);
    assert(all_tools().contains(tool));
}

proof fn lemma_enabled_among(model: ModelView, tools: Seq<LocalTool>, tool: LocalTool)
    ensures
        enabled_among(model, tools).contains(tool) <==> tools.contains(tool) && is_enabled(
            model,
            tool,
        ),
    decreases tools.len(),
{
    if tools.len() > 0 {
        let rest = tools.drop_last();
        lemma_enabled_among(model, rest, tool);
        let inner = enabled_among(model, rest);
        let outer = enabled_among(model, tools);
        if tools.contains(tool) {
            let k = choose|k: int| 0 <= k < tools.len() && tools[k] == tool;
            if k < rest.len() {
                assert(rest[k] == tool);
            }
        }
        if rest.contains(tool) {
            let k = choose|k: int| 0 <= k < rest.len() && rest[k] == tool;
            assert(tools[k] == tool);
        }
        if inner.contains(tool) {
            let k = choose|k: int| 0 <= k < inner.len() && inner[k] == tool;
            assert(outer[k] == tool);
        }
        if outer.contains(tool) {
            let k = choose|k: int| 0 <= k < outer.len() && outer[k] == tool;
            if k < inner.len() {
                assert(inner[k] == tool);
            } else {
                assert(tools[tools.len() - 1] == tool);
            }
        }
        if tools.last() == tool && is_enabled(model, tool) {
            assert(outer[outer.len() - 1] == tool);
        }
    }
}

} // verus!
