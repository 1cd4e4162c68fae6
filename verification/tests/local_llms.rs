use warpsolo::agent_state::{LocalAssistantTurn, LocalCommandOutput, LocalToolCall, LocalToolResult};
use warpsolo::chat::provider::{
    adapter_kind, normalized_endpoint_url, reasoning_effort_for_model,
    thinking_explicitly_configured, AdapterKind, ReasoningEffort,
};
use warpsolo::json::Json;
use warpsolo::llm_config::{
    resolve_agent_path, ConfigError, LocalLlmAgentConfig, LocalLlmConfig, LocalLlmConfigModel,
    LocalLlmProviderConfig, PathError, ResolvedLocalLlm,
};
use warpsolo::tools::grep::{should_visit_grep_entry, GrepState};
use warpsolo::tools::plan::{plan_tool, resolve_workspace_path, ToolPlan};
use warpsolo::tools::registry::{local_agent_system_prompt, local_openai_tools};
use warpsolo::tools::results::{
    check_write, command_output_text, failed_result, format_command_output, read_file_text,
    replace_once, search_replace_text, tool_result, write_file_text,
};

fn text(s: &str) -> String {
    s.to_string()
}

fn test_openai_model(name: &str) -> ResolvedLocalLlm {
    ResolvedLocalLlm {
        id: text(name),
        display_name: text(name),
        base_model_name: text(name),
        base_url: text("https://example.test/v1"),
        api_style: text("openai"),
        token: text("test-token"),
        token_configured: true,
        headers: Vec::new(),
        reasoning_field_name: text("reasoning_content"),
        thinking: text("off"),
        thinking_budget: None,
        description: None,
        system_prompt: None,
        enabled_tools: None,
    }
}

fn no_agent() -> LocalLlmAgentConfig {
    LocalLlmAgentConfig { system_prompt: None, system_prompt_file: None, enabled_tools: Vec::new() }
}

fn dashscope() -> LocalLlmProviderConfig {
    LocalLlmProviderConfig {
        name: text("dashscope"),
        api_base: text("https://example.test/v1"),
        api_key_env_var: None,
        api_key: Some(text("test-token")),
        token: None,
        api_style: Some(text("openai")),
        reasoning_field_name: None,
        description: None,
        headers: Vec::new(),
    }
}

fn qwen() -> LocalLlmConfigModel {
    LocalLlmConfigModel {
        name: text("qwen"),
        provider: text("dashscope"),
        alias: None,
        id: None,
        display_name: None,
        description: None,
        thinking: None,
        thinking_budget: None,
    }
}

fn config(agent: LocalLlmAgentConfig) -> LocalLlmConfig {
    LocalLlmConfig {
        active_model: text("qwen"),
        agent,
        providers: vec![dashscope()],
        models: vec![qwen()],
    }
}

fn no_file() -> Result<String, String> {
    Err(text("no such file"))
}

fn call(id: &str, name: &str, arguments: Json) -> LocalToolCall {
    LocalToolCall { id: text(id), name: text(name), arguments }
}

/// Files by their full paths, and the tools at work on them.
struct Files(Vec<(String, String)>);

impl Files {
    fn read(&self, path: &str) -> Option<String> {
        self.0.iter().find(|file| file.0 == path).map(|file| file.1.clone())
    }

    fn write(&mut self, path: &str, content: &str) {
        self.0.retain(|file| file.0 != path);
        self.0.push((text(path), text(content)));
    }

    /// Does what a command line of `printf WORD > FILE` and `pwd` says, and gives what it prints.
    fn shell(&mut self, command: &str, directory: &str) -> String {
        let mut printed = String::new();
        for part in command.split(" && ") {
            match part.strip_prefix("printf ").and_then(|rest| rest.split_once(" > ")) {
                Some((word, file)) => self.write(&format!("{directory}/{file}"), word),
                None => {
                    assert_eq!(part, "pwd");
                    printed.push_str(directory);
                    printed.push('\n');
                }
            }
        }
        printed
    }

    fn run(&mut self, call: &LocalToolCall, workspace: &str) -> Result<LocalToolResult, String> {
        let content = match plan_tool(call, workspace)? {
            ToolPlan::ReadFile { resolved, offset, limit } => {
                read_file_text(&self.read(&resolved).unwrap(), offset, limit)
            }
            ToolPlan::WriteFile { path, resolved, content, overwrite } => {
                let existed = self.read(&resolved).is_some();
                check_write(&path, existed, overwrite)?;
                self.write(&resolved, &content);
                write_file_text(&path, &content, existed)
            }
            ToolPlan::SearchReplace { path, resolved, search, replace } => {
                let content = replace_once(&self.read(&resolved).unwrap(), &search, &replace)?;
                self.write(&resolved, &content);
                search_replace_text(&path)
            }
            ToolPlan::Grep { resolved, pattern, max_matches, .. } => {
                let mut state = GrepState::new();
                for (path, content) in &self.0 {
                    if path.starts_with(&resolved) {
                        let shown = path.strip_prefix(&format!("{workspace}/")).unwrap();
                        state.scan_file(&pattern, shown, content, max_matches);
                    }
                }
                state.finish()
            }
            ToolPlan::Bash { command, timeout_secs } => {
                assert_eq!(timeout_secs, 5);
                let printed = self.shell(&command, workspace);
                let output = LocalCommandOutput {
                    exit_code: Some(0),
                    stdout: command_output_text(printed.as_bytes()),
                    stderr: String::new(),
                    timed_out: false,
                };
                format_command_output(&command, &output)
            }
        };
        Ok(tool_result(call, content))
    }
}

#[test]
fn local_llm_config_resolves_configured_headers() {
    let config = LocalLlmConfig {
        active_model: text("qwen"),
        agent: no_agent(),
        providers: vec![LocalLlmProviderConfig {
            description: Some(text("DashScope local")),
            headers: vec![
                (text("X-Test-Header"), text(" enabled ")),
                (text("User-Agent"), text("OpenAI/Go 3.22.0")),
            ],
            ..dashscope()
        }],
        models: vec![LocalLlmConfigModel {
            display_name: Some(text("Qwen")),
            description: Some(text("Qwen coding")),
            thinking: Some(text("high")),
            thinking_budget: Some(2048),
            ..qwen()
        }],
    };

    let model = config.active_model(&Vec::new(), &no_file()).unwrap();

    assert_eq!(model.display_name, "Qwen");
    assert_eq!(model.description(), "Qwen coding");
    assert_eq!(model.thinking, "high");
    assert_eq!(model.thinking_budget, Some(2048));
    assert!(model.headers.contains(&(text("X-Test-Header"), text("enabled"))));
    assert!(model.headers.contains(&(text("User-Agent"), text("OpenAI/Go 3.22.0"))));
}

#[test]
fn local_agent_system_prompt_describes_available_tools() {
    let model = test_openai_model("qwen");
    let prompt = local_agent_system_prompt(&model);

    assert!(prompt.contains("read_file"));
    assert!(prompt.contains("write_file"));
    assert!(prompt.contains("grep"));
    assert!(prompt.contains("bash"));
}

#[test]
fn resolves_tilde_agent_prompt_path_relative_to_home() {
    let path = resolve_agent_path("~/local_prompt.txt", Some("/home/me"), "/etc/warp").unwrap();
    assert_eq!(path, "/home/me/local_prompt.txt");

    let agent = LocalLlmAgentConfig {
        system_prompt_file: Some(text("~/local_prompt.txt")),
        ..no_agent()
    };
    assert_eq!(agent.prompt_file().unwrap(), "~/local_prompt.txt");
    assert_eq!(
        agent.resolve_system_prompt(&Ok(text("custom prompt"))).unwrap().unwrap(),
        "custom prompt"
    );
}

#[test]
fn resolves_agent_prompt_path_relative_to_config_dir() {
    let path = resolve_agent_path("prompts/agent_prompt.txt", Some("/home/me"), "/home/me/.warp-oss")
        .unwrap();
    assert_eq!(path, "/home/me/.warp-oss/prompts/agent_prompt.txt");

    let agent = LocalLlmAgentConfig {
        system_prompt_file: Some(text("prompts/agent_prompt.txt")),
        ..no_agent()
    };
    assert_eq!(
        agent.resolve_system_prompt(&Ok(text("dir prompt"))).unwrap().unwrap(),
        "dir prompt"
    );
}

#[test]
fn local_llm_config_resolves_agent_system_prompt_and_enabled_tools() {
    let config = config(LocalLlmAgentConfig {
        system_prompt: Some(text("Use only requested tools: {tools}")),
        system_prompt_file: None,
        enabled_tools: vec![text("read_file"), text("grep")],
    });

    let model = config.active_model(&Vec::new(), &no_file()).unwrap();
    let prompt = local_agent_system_prompt(&model);
    let offered = local_openai_tools(&model);
    let tools: Vec<&str> = offered
        .iter()
        .map(|tool| tool.get("function").unwrap().get_text("name").unwrap())
        .collect();

    assert_eq!(tools, vec!["read_file", "grep"]);
    assert_eq!(model.configured_system_prompt(), Some("Use only requested tools: {tools}"));
    assert_eq!(prompt, "Use only requested tools: read_file, grep");
}

#[test]
fn executes_read_file_tool_relative_to_workspace() {
    let mut files = Files(vec![(text("/work/notes.md"), text("local notes"))]);
    let tool_call =
        call("call_read", "read_file", Json::object().with("path", Json::text("notes.md")));

    let result = files.run(&tool_call, "/work").unwrap();

    assert_eq!(result.tool_call_id, "call_read");
    assert_eq!(result.name, "read_file");
    assert_eq!(result.content, "local notes");
}

#[test]
fn read_file_supports_offset_and_limit() {
    let mut files =
        Files(vec![(text("/work/notes.md"), text("line 1\nline 2\nline 3\nline 4\n"))]);
    let tool_call = call(
        "call_read",
        "read_file",
        Json::object()
            .with("path", Json::text("notes.md"))
            .with("offset", Json::unsigned(1))
            .with("limit", Json::unsigned(2)),
    );

    let result = files.run(&tool_call, "/work").unwrap();

    assert_eq!(result.content, "line 2\nline 3\n");
}

#[test]
fn executes_write_file_tool_relative_to_workspace() {
    let mut files = Files(Vec::new());
    let tool_call = call(
        "call_write",
        "write_file",
        Json::object()
            .with("path", Json::text("notes.md"))
            .with("content", Json::text("local notes")),
    );

    let result = files.run(&tool_call, "/work").unwrap();

    assert_eq!(result.tool_call_id, "call_write");
    assert_eq!(result.name, "write_file");
    assert_eq!(files.read("/work/notes.md").unwrap(), "local notes");
    assert!(result.content.contains("Wrote 11 bytes"));
}

#[test]
fn write_file_refuses_to_overwrite_without_flag() {
    let mut files = Files(vec![(text("/work/notes.md"), text("existing"))]);
    let tool_call = call(
        "call_write",
        "write_file",
        Json::object()
            .with("path", Json::text("notes.md"))
            .with("content", Json::text("new content")),
    );

    let err = files.run(&tool_call, "/work").unwrap_err();

    assert!(err.contains("overwrite=true"));
    assert_eq!(files.read("/work/notes.md").unwrap(), "existing");
}

#[test]
fn executes_search_replace_tool_relative_to_workspace() {
    let mut files = Files(vec![(text("/work/notes.md"), text("alpha\nbeta\n"))]);
    let tool_call = call(
        "call_replace",
        "search_replace",
        Json::object()
            .with("path", Json::text("notes.md"))
            .with("search", Json::text("beta"))
            .with("replace", Json::text("gamma")),
    );

    let result = files.run(&tool_call, "/work").unwrap();

    assert_eq!(result.tool_call_id, "call_replace");
    assert_eq!(result.name, "search_replace");
    assert_eq!(files.read("/work/notes.md").unwrap(), "alpha\ngamma\n");
    assert!(result.content.contains("Replaced 1 occurrence"));
}

#[test]
fn search_replace_requires_unique_match() {
    let mut files = Files(vec![(text("/work/notes.md"), text("same\nsame\n"))]);
    let tool_call = call(
        "call_replace",
        "search_replace",
        Json::object()
            .with("path", Json::text("notes.md"))
            .with("search", Json::text("same"))
            .with("replace", Json::text("changed")),
    );

    let err = files.run(&tool_call, "/work").unwrap_err();

    assert!(err.contains("exactly one match"));
    assert_eq!(files.read("/work/notes.md").unwrap(), "same\nsame\n");
}

#[test]
fn executes_grep_tool_relative_to_workspace() {
    let mut files = Files(vec![
        (text("/work/src/lib.rs"), text("alpha beta\nsecond line\n")),
        (text("/work/README.md"), text("alpha docs\n")),
    ]);
    let tool_call = call(
        "call_grep",
        "grep",
        Json::object()
            .with("pattern", Json::text("alpha"))
            .with("path", Json::text("src"))
            .with("max_matches", Json::unsigned(5)),
    );

    let result = files.run(&tool_call, "/work").unwrap();

    assert_eq!(result.tool_call_id, "call_grep");
    assert_eq!(result.name, "grep");
    assert!(result.content.contains("src/lib.rs:1:alpha beta"));
    assert!(!result.content.contains("README.md"));
}

#[test]
fn executes_bash_tool_in_workspace() {
    let mut files = Files(Vec::new());
    let tool_call = call(
        "call_bash",
        "bash",
        Json::object()
            .with("command", Json::text("printf local > out.txt && pwd"))
            .with("timeout_secs", Json::unsigned(5)),
    );

    let result = files.run(&tool_call, "/work").unwrap();

    assert_eq!(result.tool_call_id, "call_bash");
    assert_eq!(result.name, "bash");
    assert_eq!(files.read("/work/out.txt").unwrap(), "local");
    assert!(result.content.contains("Exit code: 0"));
    assert!(result.content.contains("/work"));
    match plan_tool(&tool_call, "/work").unwrap() {
        ToolPlan::Bash { command, timeout_secs } => {
            assert_eq!(command, "printf local > out.txt && pwd");
            assert_eq!(timeout_secs, 5);
        }
        other => panic!("{other:?}"),
    }
}

#[test]
fn paths_of_tools_stay_in_the_workspace() {
    assert_eq!(resolve_workspace_path("/work", "a/b.txt").unwrap(), "/work/a/b.txt");
    assert!(resolve_workspace_path("/work", "../secret").is_err());
    assert!(resolve_workspace_path("/work", "/etc/passwd").is_err());
}

#[test]
fn tools_refuse_bad_arguments() {
    assert!(plan_tool(&call("1", "read_file", Json::object()), "/work").is_err());
    assert!(plan_tool(&call("1", "dance", Json::object()), "/work").is_err());
    let bad = call(
        "1",
        "grep",
        Json::object().with("pattern", Json::text("(")).with("path", Json::text(".")),
    );
    let why = plan_tool(&bad, "/work").unwrap_err();
    assert!(why.starts_with("invalid grep pattern: (: "));
    assert!(why.contains("unclosed group"));
    assert!(failed_result(&bad, &why).content.contains(&why));
}

#[test]
fn patterns_are_regular_expressions() {
    let mut state = GrepState::new();
    state.scan_file("a.c", "x", "abc\nnothing\nadc", 10);
    assert_eq!(state.finish(), "x:1:abc\nx:3:adc\n");
}

#[test]
fn searches_stop_at_the_limit() {
    let mut state = GrepState::new();
    state.scan_file("a", "x", "a\na\na\n", 2);
    let report = state.finish();
    assert_eq!(report.matches("x:").count(), 2);
    assert!(!report.contains("x:3"));
    assert_eq!(GrepState::new().finish(), "No matches.\n");
    assert!(!should_visit_grep_entry(true, Some(".git")));
    assert!(should_visit_grep_entry(true, Some("src")));
    assert!(should_visit_grep_entry(false, Some(".git")));
}

#[test]
fn commands_are_reported() {
    let output = LocalCommandOutput {
        exit_code: None,
        stdout: command_output_text(b"a\xffb"),
        stderr: text("oh"),
        timed_out: true,
    };
    let report = format_command_output("sleep 9", &output);
    assert!(report.contains("Command: sleep 9"));
    assert!(report.contains("a\u{fffd}b"));
    assert!(report.contains("oh"));
}

#[test]
fn config_errors_are_told_apart() {
    let mut missing = config(no_agent());
    missing.active_model = text("gpt");
    assert!(matches!(
        missing.active_model(&Vec::new(), &no_file()),
        Err(ConfigError::ActiveModelNotFound(_))
    ));

    let mut stranger = config(no_agent());
    stranger.models[0].provider = text("nobody");
    assert!(matches!(
        stranger.active_model(&Vec::new(), &no_file()),
        Err(ConfigError::ProviderNotFound { .. })
    ));

    let unread = config(LocalLlmAgentConfig {
        system_prompt_file: Some(text("p.txt")),
        ..no_agent()
    });
    let why = unread.active_model(&Vec::new(), &no_file()).unwrap_err().message();
    assert!(why.contains("no such file"));

    assert!(matches!(resolve_agent_path(" ", None, "/c"), Err(PathError::Empty)));
    assert!(resolve_agent_path("~/p", None, "/c").is_err());
}

#[test]
fn keys_come_from_the_environment() {
    let provider = LocalLlmProviderConfig {
        api_key: None,
        api_key_env_var: Some(text("KEY")),
        ..dashscope()
    };
    assert_eq!(provider.resolve_api_key(&vec![(text("KEY"), text("secret"))]).unwrap(), "secret");
    assert!(provider.resolve_api_key(&Vec::new()).is_none());
}

#[test]
fn providers_are_told_apart() {
    let mut model = test_openai_model("qwen");
    assert!(matches!(adapter_kind(&model), AdapterKind::OpenAI));
    assert_eq!(normalized_endpoint_url(&model), "https://example.test/v1/");
    model.base_url = text("https://example.test/v1///");
    assert_eq!(normalized_endpoint_url(&model), "https://example.test/v1/");
    model.api_style = text("anthropic");
    assert!(matches!(adapter_kind(&model), AdapterKind::Anthropic));
    assert!(reasoning_effort_for_model(&model).is_none());
    model.thinking = text("high");
    assert!(matches!(reasoning_effort_for_model(&model), Some(ReasoningEffort::High)));
    assert!(thinking_explicitly_configured("high"));
    assert!(!thinking_explicitly_configured(" Auto "));
    model.thinking = text("on");
    model.thinking_budget = Some(512);
    assert!(matches!(reasoning_effort_for_model(&model), Some(ReasoningEffort::Budget(512))));
}

#[test]
fn turns_are_silent_at_first() {
    let turn = LocalAssistantTurn::silent();
    assert_eq!(turn.content, "");
    assert_eq!(turn.reasoning, "");
    assert!(turn.tool_calls.is_empty());
}

#[test]
fn reading_is_bounded() {
    let line = "x".repeat(999) + "\n";
    let shown = read_file_text(&line.repeat(100), 0, None);
    assert!(shown.starts_with(&line.repeat(64)));
    assert!(shown.ends_with("[read_file output truncated]\n"));
    assert!(shown.len() < 64_100);
    assert_eq!(read_file_text("short", 0, None), "short");
}

#[test]
fn searches_are_bounded() {
    let line = "x".repeat(999) + "\n";
    let mut state = GrepState::new();
    state.scan_file("x", "f", &line.repeat(100), 1000);
    let report = state.finish();
    assert!(report.len() < 64_100);
    assert!(report.ends_with("Search results truncated.\n"));
}

#[test]
fn long_output_is_cut() {
    let output = command_output_text(&vec![b'y'; 70_000]);
    assert!(output.starts_with(&"y".repeat(64_000)));
    assert!(output.ends_with("\n[command output truncated]\n"));
}

#[test]
fn offered_tools_are_enabled() {
    let mut model = test_openai_model("qwen");
    assert_eq!(local_openai_tools(&model).len(), 5);
    model.enabled_tools = Some(vec![text("bash")]);
    let offered = local_openai_tools(&model);
    assert_eq!(offered.len(), 1);
    assert_eq!(offered[0].get("function").unwrap().get_text("name"), Some("bash"));
}
