use warpsolo::agent_api::events::{
    agent_response_events, cloud_agent_followup_initial_events, cloud_agent_initial_events,
    timestamp,
};
use warpsolo::agent_api::requests::{remote_worker_request_from_maa, workspace_for_request};
use warpsolo::agent_api::results::api_tool_result_text;
use warpsolo::agent_api::tools::local_tool_call_from_api;
use warpsolo::agent_api::{
    AnyFileContent, ApiTool, ApiToolCall, ApiToolCallResult, ApiToolResult, ApplyFileDiffsResult,
    ClientAction, ExecutionMode, FileContent, Input, InputContext, InputKind, Message, MessageBody,
    NewFile, OrchestrationChoice, OrchestrationConfig, ReadFile, ReadFilesResult, Request,
    ResponseEvent, RunShellCommandResult, ShellOutcome, Task, UserInput,
};
use warpsolo::agent_state::{LocalAgentRun, LocalToolCall, LocalToolEvent, LocalToolResult};
use warpsolo::chat::history::openai_messages_for_request;
use warpsolo::discovery::workers::{DiscoveredWorker, WorkerStore};
use warpsolo::json::Json;
use warpsolo::llm_config::ResolvedLocalLlm;
use warpsolo::runs::relay::try_proxy_multi_agent_to_worker;

fn text(s: &str) -> String {
    s.to_string()
}

fn test_openai_model(name: &str) -> ResolvedLocalLlm {
    ResolvedLocalLlm {
        id: text(name),
        display_name: text(name),
        base_model_name: text(name),
        base_url: text("https://example.test/v1"),
        api_style: text("openai"),
        token: text("test-token"),
        token_configured: true,
        headers: Vec::new(),
        reasoning_field_name: text("reasoning_content"),
        thinking: text("off"),
        thinking_budget: None,
        description: None,
        system_prompt: None,
        enabled_tools: None,
    }
}

/// The member of nested objects at a path.
fn at<'a>(value: &'a Json, path: &[&str]) -> &'a Json {
    let mut value = value;
    for key in path {
        value = value.get(key).unwrap_or(&Json::Null);
    }
    value
}

fn text_at<'a>(value: &'a Json, path: &[&str]) -> &'a str {
    at(value, path).as_text().unwrap()
}

fn function_of(message: &Json, index: usize) -> &Json {
    let calls = at(message, &["tool_calls"]).as_list().unwrap();
    at(&calls[index], &["function"])
}

fn empty_request() -> Request {
    Request { tasks: None, input: None, conversation_id: None }
}

fn message(id: &str, task_id: &str, request_id: &str, body: MessageBody) -> Message {
    Message {
        id: text(id),
        task_id: text(task_id),
        request_id: text(request_id),
        timestamp: None,
        message: Some(body),
    }
}

fn task(messages: Vec<Message>) -> Task {
    Task { id: text("task-1"), description: text("task"), messages }
}

fn user_inputs(inputs: Vec<UserInput>) -> Input {
    Input { context: None, kind: Some(InputKind::UserInputs(inputs)) }
}

fn user_query(query: &str) -> UserInput {
    UserInput::UserQuery { query: text(query) }
}

fn notes(content: &str) -> FileContent {
    FileContent { file_path: text("notes.md"), content: text(content), line_range: None }
}

fn read_call() -> MessageBody {
    MessageBody::ToolCall(ApiToolCall {
        tool_call_id: text("call_read"),
        tool: Some(ApiTool::ReadFiles {
            files: vec![ReadFile { name: text("notes.md"), line_ranges: Vec::new() }],
        }),
    })
}

fn read_result() -> UserInput {
    UserInput::ToolCallResult(ApiToolCallResult {
        tool_call_id: text("call_read"),
        result: Some(ApiToolResult::ReadFiles(ReadFilesResult::AnyFilesSuccess(vec![
            AnyFileContent::Text(notes("local notes")),
        ]))),
    })
}

fn write_tool() -> ApiToolCall {
    ApiToolCall {
        tool_call_id: text("call_write"),
        tool: Some(ApiTool::ApplyFileDiffs {
            summary: text("Write notes.md"),
            diffs: Vec::new(),
            new_files: vec![NewFile {
                file_path: text("notes.md"),
                content: text("local notes"),
            }],
        }),
    }
}

fn messages_from_response_events(events: &[ResponseEvent]) -> Vec<&Message> {
    events
        .iter()
        .filter_map(|event| match event {
            ResponseEvent::ClientActions(actions) => Some(actions),
            _ => None,
        })
        .flat_map(|actions| actions.iter())
        .filter_map(|action| match action {
            ClientAction::AddMessagesToTask { messages, .. } => Some(messages.as_slice()),
            _ => None,
        })
        .flatten()
        .collect()
}

fn remote_config(worker_host: &str) -> OrchestrationConfig {
    OrchestrationConfig {
        model_id: text("local"),
        execution_mode: Some(ExecutionMode::Remote { worker_host: text(worker_host) }),
    }
}

fn choice(worker_host: &str, approved: bool) -> OrchestrationChoice {
    OrchestrationChoice { config: Some(remote_config(worker_host)), approved }
}

#[test]
fn openai_messages_include_prior_task_messages() {
    let request = Request {
        tasks: Some(vec![task(vec![
            message(
                "m1",
                "task-1",
                "r1",
                MessageBody::UserQuery { query: text("first question"), context: None },
            ),
            message(
                "m2",
                "task-1",
                "r1",
                MessageBody::AgentOutput { text: text("first answer") },
            ),
        ])]),
        input: Some(user_inputs(vec![user_query("follow up")])),
        conversation_id: None,
    };

    let model = test_openai_model("qwen");
    let messages = openai_messages_for_request(&request, &model);

    assert_eq!(text_at(&messages[0], &["role"]), "system");
    assert_eq!(text_at(&messages[1], &["role"]), "user");
    assert_eq!(text_at(&messages[1], &["content"]), "first question");
    assert_eq!(text_at(&messages[2], &["role"]), "assistant");
    assert_eq!(text_at(&messages[2], &["content"]), "first answer");
    assert_eq!(text_at(&messages[3], &["role"]), "user");
    assert_eq!(text_at(&messages[3], &["content"]), "follow up");
}

#[test]
fn local_tool_call_from_api_reconstructs_write_file() {
    let local = local_tool_call_from_api(&write_tool()).unwrap();

    assert_eq!(local.id, "call_write");
    assert_eq!(local.name, "write_file");
    assert_eq!(text_at(&local.arguments, &["path"]), "notes.md");
    assert_eq!(text_at(&local.arguments, &["content"]), "local notes");
    assert!(matches!(at(&local.arguments, &["overwrite"]), Json::Bool(true)));
}

#[test]
fn openai_messages_include_prior_write_file_tool_history() {
    let request = Request {
        tasks: Some(vec![task(vec![
            message("m1", "task-1", "r1", MessageBody::ToolCall(write_tool())),
            message(
                "m2",
                "task-1",
                "r1",
                MessageBody::ToolCallResult(ApiToolCallResult {
                    tool_call_id: text("call_write"),
                    result: Some(ApiToolResult::ApplyFileDiffs(ApplyFileDiffsResult::Success {
                        updated_files: vec![Some(notes("local notes"))],
                        deleted_files: Vec::new(),
                    })),
                }),
            ),
        ])]),
        input: Some(user_inputs(vec![user_query("continue")])),
        conversation_id: None,
    };

    let model = test_openai_model("qwen");
    let messages = openai_messages_for_request(&request, &model);

    assert_eq!(text_at(function_of(&messages[1], 0), &["name"]), "write_file");
    let arguments = Json::parse(text_at(function_of(&messages[1], 0), &["arguments"])).unwrap();
    assert_eq!(text_at(&arguments, &["path"]), "notes.md");
    assert_eq!(text_at(&arguments, &["content"]), "local notes");
    assert!(matches!(at(&arguments, &["overwrite"]), Json::Bool(true)));
    assert_eq!(text_at(&messages[2], &["role"]), "tool");
    assert_eq!(text_at(&messages[2], &["tool_call_id"]), "call_write");
    assert_eq!(text_at(&messages[2], &["content"]), "notes.md:\nlocal notes");
    assert_eq!(text_at(&messages[3], &["role"]), "user");
    assert_eq!(text_at(&messages[3], &["content"]), "continue");
}

#[test]
fn openai_messages_include_current_request_tool_result() {
    let request = Request {
        tasks: Some(vec![task(vec![message("m1", "task-1", "r1", read_call())])]),
        input: Some(user_inputs(vec![read_result()])),
        conversation_id: None,
    };

    let model = test_openai_model("qwen");
    let messages = openai_messages_for_request(&request, &model);

    assert_eq!(messages.len(), 3);
    assert_eq!(text_at(&messages[1], &["role"]), "assistant");
    assert_eq!(text_at(function_of(&messages[1], 0), &["name"]), "read_file");
    assert_eq!(text_at(&messages[2], &["role"]), "tool");
    assert_eq!(text_at(&messages[2], &["tool_call_id"]), "call_read");
    assert_eq!(text_at(&messages[2], &["content"]), "notes.md:\nlocal notes");
}

#[test]
fn openai_messages_coalesce_tool_calls_and_assistant_text_for_same_turn() {
    let request = Request {
        tasks: Some(vec![task(vec![
            message(
                "m-user",
                "task-1",
                "r-user",
                MessageBody::UserQuery { query: text("inspect the files"), context: None },
            ),
            message("m-call-read", "task-1", "r-agent", read_call()),
            message(
                "m-call-bash",
                "task-1",
                "r-agent",
                MessageBody::ToolCall(ApiToolCall {
                    tool_call_id: text("call_bash"),
                    tool: Some(ApiTool::RunShellCommand {
                        command: text("ls"),
                        wait_until_complete: false,
                    }),
                }),
            ),
            message(
                "m-output",
                "task-1",
                "r-agent",
                MessageBody::AgentOutput { text: text("Let me check that.") },
            ),
        ])]),
        input: Some(user_inputs(vec![
            read_result(),
            UserInput::ToolCallResult(ApiToolCallResult {
                tool_call_id: text("call_bash"),
                result: Some(ApiToolResult::RunShellCommand(RunShellCommandResult {
                    command: text("ls"),
                    output: String::new(),
                    exit_code: 0,
                    result: Some(ShellOutcome::CommandFinished {
                        command_id: text("call_bash"),
                        output: text("Command: ls\nExit code: 0\n\nnotes.md\n"),
                        exit_code: 0,
                    }),
                })),
            }),
        ])),
        conversation_id: None,
    };

    let model = test_openai_model("qwen");
    let messages = openai_messages_for_request(&request, &model);

    assert_eq!(messages.len(), 5);
    assert_eq!(text_at(&messages[1], &["role"]), "user");
    assert_eq!(text_at(&messages[2], &["role"]), "assistant");
    assert_eq!(text_at(&messages[2], &["content"]), "Let me check that.");
    assert_eq!(at(&messages[2], &["tool_calls"]).as_list().unwrap().len(), 2);
    assert_eq!(text_at(&messages[3], &["role"]), "tool");
    assert_eq!(text_at(&messages[3], &["tool_call_id"]), "call_read");
    assert_eq!(text_at(&messages[4], &["role"]), "tool");
    assert_eq!(text_at(&messages[4], &["tool_call_id"]), "call_bash");
}

#[test]
fn api_tool_result_text_strips_local_command_header() {
    let result = ApiToolCallResult {
        tool_call_id: text("call_bash"),
        result: Some(ApiToolResult::RunShellCommand(RunShellCommandResult {
            command: text("printf hi"),
            output: String::new(),
            exit_code: 0,
            result: Some(ShellOutcome::CommandFinished {
                command_id: text("call_bash"),
                output: text("Command: printf hi\nExit code: 0\n\nStdout:\nhi\n"),
                exit_code: 0,
            }),
        })),
    };

    let text = api_tool_result_text(&result);

    assert_eq!(text, "Command: printf hi\nExit code: 0\n\nStdout:\nhi");
}

#[test]
fn extracts_workspace_from_request_context_directory() {
    let request = Request {
        input: Some(Input {
            context: Some(InputContext { pwd: Some(text("/tmp/warp-workspace")) }),
            kind: None,
        }),
        ..empty_request()
    };

    assert_eq!(workspace_for_request(&request, "/home/me"), "/tmp/warp-workspace");
    assert_eq!(workspace_for_request(&empty_request(), "/home/me"), "/home/me");
}

#[test]
fn cloud_agent_initial_events_include_user_query_message() {
    let events = cloud_agent_initial_events(
        "run-1",
        "WarpSOLO agent",
        "initial prompt",
        timestamp(1, 2),
    );
    let messages = messages_from_response_events(&events);

    assert!(messages.iter().any(|message| matches!(
        message.message.as_ref(),
        Some(MessageBody::UserQuery { query, .. }) if query == "initial prompt"
    )));
}

#[test]
fn cloud_agent_followup_initial_events_include_user_query_message() {
    let events = cloud_agent_followup_initial_events("run-1", "follow-up prompt", timestamp(1, 2));
    let messages = messages_from_response_events(&events);

    assert!(messages.iter().any(|message| matches!(
        message.message.as_ref(),
        Some(MessageBody::UserQuery { query, .. }) if query == "follow-up prompt"
    )));
}

#[test]
fn agent_response_events_include_tool_messages() {
    let run = LocalAgentRun {
        output: text("done"),
        reasoning: String::new(),
        tool_calls: Vec::new(),
        tool_events: vec![LocalToolEvent {
            tool_call: LocalToolCall {
                id: text("call_read"),
                name: text("read_file"),
                arguments: Json::object().with("path", Json::text("notes.md")),
            },
            result: LocalToolResult {
                tool_call_id: text("call_read"),
                name: text("read_file"),
                content: text("local notes"),
            },
        }],
    };

    let events = agent_response_events(&empty_request(), &run, timestamp(7, 8));
    let messages = messages_from_response_events(&events);

    assert!(matches!(messages[0].message, Some(MessageBody::ToolCall(_))));
    assert!(matches!(messages[1].message, Some(MessageBody::ToolCallResult(_))));
    assert!(matches!(messages[2].message, Some(MessageBody::AgentOutput { .. })));
    assert_eq!(messages[2].timestamp.unwrap().seconds, 7);
    assert_eq!(messages[2].timestamp.unwrap().nanos, 8);
}

#[test]
fn agent_response_events_include_reasoning_message() {
    let run = LocalAgentRun {
        output: text("done"),
        reasoning: text("I should inspect the workspace first."),
        tool_calls: Vec::new(),
        tool_events: Vec::new(),
    };

    let events = agent_response_events(&empty_request(), &run, timestamp(7, 8));
    let messages = messages_from_response_events(&events);

    assert!(matches!(messages[0].message, Some(MessageBody::AgentReasoning { .. })));
    assert!(matches!(messages[1].message, Some(MessageBody::AgentOutput { .. })));
}

#[test]
fn extracts_remote_worker_request_from_approved_config_update() {
    let request = Request {
        input: Some(Input {
            context: Some(InputContext { pwd: Some(text("/tmp/warp-solo-test")) }),
            kind: Some(InputKind::UserInputs(vec![
                user_query("run the tests"),
                UserInput::OrchestrationConfigUpdate(choice("local-device-devbox", true)),
            ])),
        }),
        ..empty_request()
    };

    let remote = remote_worker_request_from_maa(&request, "/").expect("remote worker request");
    assert_eq!(remote.worker_host, "local-device-devbox");
    assert_eq!(remote.prompt, "run the tests");
    assert_eq!(remote.workspace, "/tmp/warp-solo-test");
    assert_eq!(remote.harness.as_deref(), Some("local-openai"));
}

#[test]
fn extracts_remote_worker_request_from_approved_snapshot() {
    let request = Request {
        tasks: Some(vec![task(vec![message(
            "message-1",
            "",
            "",
            MessageBody::OrchestrationConfigSnapshot(choice("warp", true)),
        )])]),
        input: Some(user_inputs(vec![user_query("continue")])),
        conversation_id: None,
    };

    let remote = remote_worker_request_from_maa(&request, "/").expect("remote worker request");
    assert_eq!(remote.worker_host, "warp");
    assert_eq!(remote.prompt, "continue");
}

#[test]
fn ignores_disapproved_remote_config_update() {
    let request = Request {
        input: Some(user_inputs(vec![UserInput::OrchestrationConfigUpdate(choice(
            "local-device-devbox",
            false,
        ))])),
        ..empty_request()
    };

    assert!(remote_worker_request_from_maa(&request, "/").is_none());
}

#[test]
fn disapproved_update_overrides_approved_snapshot() {
    let request = Request {
        tasks: Some(vec![task(vec![message(
            "message-1",
            "",
            "",
            MessageBody::OrchestrationConfigSnapshot(choice("warp", true)),
        )])]),
        input: Some(user_inputs(vec![UserInput::OrchestrationConfigUpdate(choice(
            "warp", false,
        ))])),
        conversation_id: None,
    };

    assert!(remote_worker_request_from_maa(&request, "/").is_none());
}

#[test]
fn approved_requests_go_to_machines_that_were_found() {
    let request = Request {
        input: Some(user_inputs(vec![
            user_query("run the tests"),
            UserInput::OrchestrationConfigUpdate(choice("local-device-devbox", true)),
        ])),
        ..empty_request()
    };
    let mut store = WorkerStore::new();
    assert!(try_proxy_multi_agent_to_worker(&request, &store, "/").is_none());
    store.insert(DiscoveredWorker {
        source_id: text("test"),
        device_id: text("local-device-devbox"),
        user_id: text("local-user-peer"),
        display_name: text("peer@example.local"),
        hostname: text("example.local."),
        url: text("http://192.168.1.10:9109"),
        capabilities: vec![text("agent")],
        auth: text("none"),
        last_seen_epoch_millis: 1,
    });
    let (remote, worker) = try_proxy_multi_agent_to_worker(&request, &store, "/").unwrap();
    assert_eq!(remote.prompt, "run the tests");
    assert_eq!(worker.url(), "http://192.168.1.10:9109");
    assert!(try_proxy_multi_agent_to_worker(&empty_request(), &store, "/").is_none());
    for host in ["", "warp", " WARP "] {
        let request = Request {
            input: Some(user_inputs(vec![
                user_query("run the tests"),
                UserInput::OrchestrationConfigUpdate(choice(host, true)),
            ])),
            ..empty_request()
        };
        assert!(try_proxy_multi_agent_to_worker(&request, &store, "/").is_none());
    }
}
