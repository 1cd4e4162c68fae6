use warpsolo::account::{
    sanitize_identifier, worker_auth, LocalAccount, LocalAgentWorkerConfig,
};
use warpsolo::agent_api::events::{
    cloud_agent_output_event, cloud_agent_reasoning_event, response_event_sse_chunk,
    response_event_stream, timestamp,
};
use warpsolo::agent_api::results::{
    api_tool_result_from_local, api_tool_result_text, grep_matches_from_content,
    local_result_is_error, shell_exit_code_from_content,
};
use warpsolo::agent_api::tools::{api_tool_from_local, local_tool_call_from_api};
use warpsolo::agent_api::{ApiTool, ApiToolCall, ApiToolResult, ApplyFileDiffsResult, ApiToolCallResult, ClientAction, ResponseEvent};
use warpsolo::agent_state::{
    LocalAgentRun, LocalAssistantTurn, LocalCommandOutput, LocalToolCall, LocalToolEvent,
    LocalToolResult,
};
use warpsolo::chat::context::{
    normalize_openai_context_messages, openai_messages_from_worker_context,
};
use warpsolo::chat::provider::{chat_request_from_openai_messages, ChatMessage};
use warpsolo::chat::turns::{
    local_agent_error_run, single_run, AgentLoop, StreamEvent, MAX_TOOL_ITERATIONS,
};
use warpsolo::chat::{openai_assistant_message, openai_user_message};
use warpsolo::json::Json;
use warpsolo::llm_config::ResolvedLocalLlm;
use warpsolo::local_agent::handoff::{
    AgentConfigSnapshot, InitialSnapshotToken, LocalSpawnRequestBuilder, UserQueryMode,
};
use warpsolo::runs::cloud::{
    created_or_refusal, no_worker, parse_worker_create_response, spawn_prompt,
    CloudAgentRunState, CloudAgentRunStore, SpawnAgentRequest,
};
use warpsolo::runs::events::{
    event_from_json, event_to_json, parse_worker_sse_frame, worker_event_sse_chunk, FrameBuffer,
    WorkerRunEvent,
};
use warpsolo::runs::relay::RemoteRun;
use warpsolo::runs::worker::{
    authorize_worker_request, checked_workspace, normalize_create_request, summarize_tool_result,
    WorkerRunCreateRequest, WorkerRunStatus, WorkerRunStore,
};
use warpsolo::server::LoopbackServer;
use warpsolo::tools::results::format_command_output;

fn text(s: &str) -> String {
    s.to_string()
}

fn qwen() -> ResolvedLocalLlm {
    ResolvedLocalLlm {
        id: text("qwen"),
        display_name: text("qwen"),
        base_model_name: text("qwen"),
        base_url: text("https://example.test/v1"),
        api_style: text("openai"),
        token: text("test-token"),
        token_configured: true,
        headers: Vec::new(),
        reasoning_field_name: text("reasoning_content"),
        thinking: text("off"),
        thinking_budget: None,
        description: None,
        system_prompt: None,
        enabled_tools: None,
    }
}

fn call(id: &str, name: &str, arguments: Json) -> LocalToolCall {
    LocalToolCall { id: text(id), name: text(name), arguments }
}

fn bash(id: &str) -> LocalToolCall {
    call(id, "bash", Json::object().with("command", Json::text("ls")))
}

fn result(id: &str, name: &str, content: &str) -> LocalToolResult {
    LocalToolResult { tool_call_id: text(id), name: text(name), content: text(content) }
}

fn wants(id: &str) -> LocalAssistantTurn {
    LocalAssistantTurn {
        content: String::new(),
        reasoning: String::new(),
        tool_calls: vec![bash(id)],
    }
}

fn says(content: &str) -> LocalAssistantTurn {
    LocalAssistantTurn {
        content: text(content),
        reasoning: String::new(),
        tool_calls: Vec::new(),
    }
}

fn create(prompt: &str) -> WorkerRunCreateRequest {
    WorkerRunCreateRequest {
        prompt: text(prompt),
        workspace: None,
        model_id: None,
        harness: None,
        source_device_id: None,
        context: Vec::new(),
    }
}

fn spawn(prompt: &str) -> SpawnAgentRequest {
    SpawnAgentRequest { prompt: text(prompt), config: None, title: None, workspace: None }
}

#[test]
fn turns_gather_what_is_streamed() {
    let turn = LocalAssistantTurn::from_events(vec![
        StreamEvent::Start,
        StreamEvent::ReasoningChunk(text("hm")),
        StreamEvent::Chunk(text("a")),
        StreamEvent::Chunk(text("b")),
        StreamEvent::ThoughtSignatureChunk,
        StreamEvent::ToolCall(bash("c")),
        StreamEvent::End { texts: Some(vec![text("z")]), reasoning: None, tool_calls: None },
    ]);
    assert_eq!(turn.content, "ab");
    assert_eq!(turn.reasoning, "hm");
    assert_eq!(turn.tool_calls.len(), 1);
    let late = LocalAssistantTurn::from_events(vec![StreamEvent::End {
        texts: Some(vec![text("y"), text("z")]),
        reasoning: Some(text("hm")),
        tool_calls: Some(vec![bash("c")]),
    }]);
    assert_eq!(late.content, "yz");
    assert_eq!(late.reasoning, "hm");
    assert_eq!(late.tool_calls.len(), 1);
}

#[test]
fn agents_use_tools_until_they_answer() {
    let mut agent = AgentLoop::new(vec![openai_user_message("hi")]);
    assert!(agent.take_turn(wants("c1")).is_none());
    assert_eq!(agent.next_call().unwrap().id, "c1");
    let event = agent.take_result(result("c1", "bash", "out"));
    assert_eq!(event.tool_call.id, "c1");
    assert_eq!(event.result.content, "out");
    assert!(agent.next_call().is_none());
    assert_eq!(agent.messages().len(), 3);
    let run = agent.take_turn(says("done")).unwrap();
    assert_eq!(run.output, "done");
    assert_eq!(run.tool_events.len(), 1);
}

#[test]
fn agents_stop_in_the_end() {
    let mut agent = AgentLoop::new(Vec::new());
    for _ in 0..MAX_TOOL_ITERATIONS {
        assert!(agent.take_turn(wants("c")).is_none());
        agent.take_result(result("c", "bash", ""));
    }
    let run = agent.take_turn(wants("c")).unwrap();
    assert_eq!(run.output, "Stopped after 8 tool iterations without a final answer.");
    assert_eq!(run.tool_events.len(), 8);
}

#[test]
fn failures_are_told() {
    assert!(local_agent_error_run("no model").output.contains("no model"));
    assert_eq!(single_run(says("x")).output, "x");
    assert_eq!(LocalAgentRun::from_output(text("y")).output, "y");
}

#[test]
fn conversations_are_made_normal() {
    let context = vec![
        openai_user_message("q"),
        Json::object().with("role", Json::text("stranger")).with("content", Json::text("x")),
        Json::Null,
        openai_assistant_message(&says("a")),
    ];
    let normal = normalize_openai_context_messages(&context);
    assert_eq!(normal.len(), 2);
    let again = normalize_openai_context_messages(&normal);
    assert_eq!(again.len(), 2);
    let messages = openai_messages_from_worker_context(&context, "next", &qwen());
    assert_eq!(messages.len(), 4);
    assert_eq!(messages[0].get_text("role"), Some("system"));
    assert_eq!(messages[3].get_text("content"), Some("next"));
}

#[test]
fn requests_are_made_of_messages() {
    let messages = vec![
        Json::object().with("role", Json::text("system")).with("content", Json::text("be kind")),
        openai_user_message("hi"),
        openai_assistant_message(&wants("c1")),
    ];
    let request = chat_request_from_openai_messages(&qwen(), &messages).unwrap();
    assert_eq!(request.system, "be kind");
    assert_eq!(request.messages.len(), 2);
    assert!(matches!(&request.messages[0], ChatMessage::User(said) if said == "hi"));
    match &request.messages[1] {
        ChatMessage::Assistant { tool_calls, .. } => {
            assert_eq!(tool_calls[0].id, "c1");
            assert_eq!(tool_calls[0].arguments.get_text("command"), Some("ls"));
        }
        _ => panic!("an assistant message"),
    }
    assert_eq!(request.tools.len(), 5);
    let strange = vec![Json::object().with("role", Json::text("stranger"))];
    assert!(chat_request_from_openai_messages(&qwen(), &strange).unwrap().messages.is_empty());
    let broken = vec![Json::object()
        .with("role", Json::text("assistant"))
        .with("tool_calls", Json::list().and(Json::object()))];
    assert!(chat_request_from_openai_messages(&qwen(), &broken).is_err());
}

#[test]
fn calls_are_known_again() {
    for tool in [
        bash("c"),
        call("c", "read_file", Json::object().with("path", Json::text("notes.md"))),
        call(
            "c",
            "grep",
            Json::object().with("pattern", Json::text("a")).with("path", Json::text(".")),
        ),
    ] {
        let api = ApiToolCall {
            tool_call_id: tool.id.clone(),
            tool: Some(api_tool_from_local(&tool)),
        };
        let again = local_tool_call_from_api(&api).unwrap();
        assert_eq!(again.id, tool.id);
        assert_eq!(again.name, tool.name);
        for key in ["path", "pattern", "command"] {
            assert_eq!(again.arguments.get_text(key), tool.arguments.get_text(key));
        }
    }
}

#[test]
fn results_are_read_back() {
    let event = LocalToolEvent {
        tool_call: bash("c"),
        result: result("c", "bash", "Command: ls\nExit code: 3\n\nStdout:\nnotes.md\n"),
    };
    let api = ApiToolCallResult {
        tool_call_id: text("c"),
        result: Some(api_tool_result_from_local(&event)),
    };
    assert!(api_tool_result_text(&api).contains("notes.md"));
    assert_eq!(shell_exit_code_from_content("Command: ls\nExit code: 3\n"), 3);
    assert!(local_result_is_error("Tool failed: no"));
    assert!(!local_result_is_error("fine"));
}

#[test]
fn matches_are_grouped_by_file() {
    let files = grep_matches_from_content("a.rs:1:x\nb.rs:2:y\na.rs:7:z\nSearch results truncated.\n");
    assert_eq!(files.len(), 2);
    assert_eq!(files[0].file_path, "a.rs");
    assert_eq!(files[0].matched_lines, vec![1, 7]);
    assert_eq!(files[1].matched_lines, vec![2]);
}

#[test]
fn events_are_sent_in_frames() {
    assert_eq!(response_event_sse_chunk(&[0xfb, 0xff]), "data: \"-_8=\"\n\n");
    assert_eq!(
        response_event_stream(&vec![b"a".to_vec(), b"bc".to_vec()]),
        "data: \"YQ==\"\n\ndata: \"YmM=\"\n\n"
    );
}

#[test]
fn run_events_are_understood() {
    let events = [
        WorkerRunEvent::State { state: text("running") },
        WorkerRunEvent::ToolCall {
            id: text("c"),
            name: text("bash"),
            arguments: Json::object().with("command", Json::text("ls \"x\"\n")),
        },
        WorkerRunEvent::ToolResult { id: text("c"), name: text("bash"), summary: text("s") },
        WorkerRunEvent::ReasoningDelta { text: text("hm") },
        WorkerRunEvent::OutputDelta { text: text("a\nb") },
        WorkerRunEvent::Error { message: text("no") },
        WorkerRunEvent::Finished { state: text("succeeded") },
    ];
    for event in &events {
        let chunk = worker_event_sse_chunk(event);
        assert!(chunk.starts_with("data: {"));
        assert!(chunk.ends_with("\n\n"));
        let mut buffer = FrameBuffer::new();
        buffer.push(&chunk[..7]);
        assert!(buffer.next_frame().is_none());
        buffer.push(&chunk[7..]);
        let frames = buffer.take_frames();
        assert_eq!(frames.len(), 1);
        let again = parse_worker_sse_frame(&frames[0], false).unwrap().unwrap();
        assert_eq!(event_to_json(&again).print(), event_to_json(event).print());
    }
    assert!(parse_worker_sse_frame(": keep alive", false).unwrap().is_none());
    let broken = parse_worker_sse_frame("data: {", true).unwrap_err();
    assert!(broken.starts_with("failed to parse worker event: "));
    let broken = parse_worker_sse_frame("data: {", false).unwrap_err();
    assert!(broken.starts_with("failed to parse remote worker event: "));
    let bare = Json::object()
        .with("type", Json::text("tool_call"))
        .with("id", Json::text("c"))
        .with("name", Json::text("bash"));
    assert!(event_from_json(&bare, true).is_ok());
    assert!(event_from_json(&bare, false).is_err());
}

#[test]
fn worker_runs_end_once() {
    let mut store = WorkerRunStore::new();
    let (id, answer) = store.start_worker_run(create("do it"), text("/work"), 1);
    assert_eq!(answer.get_text("runId"), Some(id.as_str()));
    let run = store.run_mut(&id).unwrap();
    assert_eq!(run.status(), WorkerRunStatus::Pending);
    run.start(2);
    run.tool_called(&bash("c"), 3);
    run.tool_finished(
        &LocalToolEvent { tool_call: bash("c"), result: result("c", "bash", "out") },
        4,
    );
    run.complete(LocalAgentRun::from_output(text("done")), 5);
    assert_eq!(run.status(), WorkerRunStatus::Succeeded);
    let told = run.events().len();
    run.cancel(6);
    assert_eq!(run.status(), WorkerRunStatus::Succeeded);
    assert_eq!(run.events().len(), told);
    let (events, goes_on) = store.worker_run_events(&id).unwrap();
    assert!(!goes_on);
    assert!(matches!(
        events.last(),
        Some(WorkerRunEvent::Finished { state }) if state == "succeeded"
    ));
    assert_eq!(
        store.get_worker_run(&id).unwrap().status_response().get_text("finalOutput"),
        Some("done")
    );
}

#[test]
fn endings_are_final() {
    let mut store = WorkerRunStore::new();
    let (id, _) = store.start_worker_run(create("do it"), text("/work"), 1);
    let run = store.run_mut(&id).unwrap();
    run.fail(text("no"), 2);
    assert_eq!(run.status(), WorkerRunStatus::Failed);
    run.complete(LocalAgentRun::from_output(text("done")), 3);
    assert_eq!(run.status(), WorkerRunStatus::Failed);
    let endings = run
        .events()
        .iter()
        .filter(|event| matches!(event, WorkerRunEvent::Finished { .. }))
        .count();
    assert_eq!(endings, 1);
}

#[test]
fn followups_keep_the_conversation() {
    let mut store = WorkerRunStore::new();
    let (id, _) = store.start_worker_run(create("do it"), text("/work"), 1);
    assert_eq!(store.followup_worker_run(&id, text("more")).unwrap_err().status, 409);
    store.run_mut(&id).unwrap().start(2);
    store.run_mut(&id).unwrap().complete(LocalAgentRun::from_output(text("done")), 3);
    let request = store.followup_worker_run(&id, text("more")).unwrap();
    assert_eq!(request.prompt, "more");
    assert_eq!(request.workspace.as_deref(), Some("/work"));
    let said: Vec<&str> =
        request.context.iter().map(|message| message.get_text("content").unwrap()).collect();
    assert_eq!(said, vec!["do it", "done"]);
    assert_eq!(store.followup_worker_run("nobody", text("more")).unwrap_err().status, 404);
}

#[test]
fn runs_are_cancelled() {
    let mut store = WorkerRunStore::new();
    let (id, _) = store.start_worker_run(create("do it"), text("/work"), 1);
    assert!(store.cancel_worker_run(&id, 2).is_ok());
    assert_eq!(store.get_worker_run(&id).unwrap().status(), WorkerRunStatus::Cancelled);
    assert_eq!(store.cancel_worker_run("nobody", 3).unwrap_err().status, 404);
}

#[test]
fn bad_requests_are_refused() {
    assert_eq!(normalize_create_request(create("  ")).unwrap_err().status, 400);
    assert_eq!(normalize_create_request(create(" x ")).unwrap().prompt, "x");
    assert_eq!(checked_workspace(text("/nowhere"), false).unwrap_err().status, 400);
    assert_eq!(checked_workspace(text("/work"), true).unwrap(), "/work");
}

#[test]
fn tokens_guard_workers() {
    let bare = LocalAgentWorkerConfig::default();
    assert_eq!(authorize_worker_request(&bare, None, None).unwrap_err().status, 401);
    assert_eq!(authorize_worker_request(&bare, Some("Bearer "), Some("")).unwrap_err().status, 401);
    assert_eq!(worker_auth(&bare), "none");
    let blank =
        LocalAgentWorkerConfig { pairing_token: Some(text("  ")), ..LocalAgentWorkerConfig::default() };
    assert_eq!(
        authorize_worker_request(&blank, Some("Bearer   "), Some("  ")).unwrap_err().message,
        "missing or invalid worker pairing token"
    );
    let closed =
        LocalAgentWorkerConfig { pairing_token: Some(text("token")), ..LocalAgentWorkerConfig::default() };
    assert_eq!(authorize_worker_request(&closed, None, None).unwrap_err().status, 401);
    assert!(authorize_worker_request(&closed, Some("Bearer token"), None).is_ok());
    assert!(authorize_worker_request(&closed, None, Some("token")).is_ok());
    assert!(authorize_worker_request(&closed, Some("Bearer other"), None).is_err());
}

#[test]
fn summaries_are_bounded() {
    assert_eq!(summarize_tool_result("short"), "short");
    let long = summarize_tool_result(&"x".repeat(5000));
    assert!(long.starts_with(&"x".repeat(4000)));
    assert!(long.len() <= 4027);
}

#[test]
fn cloud_runs_follow_their_workers() {
    let mut store = CloudAgentRunStore::new();
    assert_eq!(spawn_prompt(&spawn(" ")).unwrap_err().status, 400);
    assert_eq!(spawn_prompt(&spawn(" hi ")).unwrap(), "hi");
    store.spawned_at(spawn("hi"), text("http://w"), text("/work"), text("run-1"), text("t0"));
    let state = |store: &CloudAgentRunStore| store.get_agent_run("run-1").unwrap().state;
    assert!(!state(&store).is_terminal());
    let running = WorkerRunEvent::State { state: text("running") };
    assert!(!store.relay_at("run-1", &running, "t1"));
    assert_eq!(state(&store), CloudAgentRunState::InProgress);
    store.relay_at("run-1", &WorkerRunEvent::OutputDelta { text: text("out") }, "t2");
    let finished = WorkerRunEvent::Finished { state: text("succeeded") };
    assert!(store.relay_at("run-1", &finished, "t3"));
    assert_eq!(state(&store), CloudAgentRunState::Succeeded);
    assert_eq!(store.get_agent_run("run-1").unwrap().final_output.as_deref(), Some("out"));
    assert_eq!(store.list_agent_runs(10).len(), 1);
    assert_eq!(store.get_agent_run("run-2").unwrap_err().status, 404);
    assert_eq!(store.submit_agent_followup("run-1", " ").unwrap_err().status, 400);
    assert!(store.submit_agent_followup("run-1", "more").is_ok());
    store.reset_agent_run_for_followup("run-1", text("w2"), text("more"), "t4");
    assert!(!state(&store).is_terminal());
    assert!(store.cancel_agent_run("run-1").is_ok());
}

#[test]
fn created_runs_are_read() {
    let created = parse_worker_create_response("{\"runId\":\"r\",\"eventsUrl\":\"/e\"}").unwrap();
    assert_eq!(created.run_id, "r");
    assert_eq!(created.events_url, "/e");
    assert!(parse_worker_create_response("[").is_err());
    assert!(created_or_refusal(false, "500", "oops").is_err());
    assert!(no_worker("mars").message.contains("mars"));
}

#[test]
fn remote_results_find_their_calls() {
    let mut run = RemoteRun::new();
    let now = timestamp(1, 2);
    let called = WorkerRunEvent::ToolCall {
        id: text("c"),
        name: text("bash"),
        arguments: Json::object().with("command", Json::text("ls")),
    };
    let (event, over) = run.relay_worker_event(called, "task", "request", now);
    assert!(event.is_some());
    assert!(!over);
    let done = WorkerRunEvent::ToolResult { id: text("c"), name: text("bash"), summary: text("s") };
    let (event, _) = run.relay_worker_event(done, "task", "request", now);
    assert!(event.is_some());
    let finished = WorkerRunEvent::Finished { state: text("succeeded") };
    let (_, over) = run.relay_worker_event(finished, "task", "request", now);
    assert!(over);
}

#[test]
fn accounts_go_by_machine_and_user() {
    let mut account = LocalAccount::create("Me", "Mars.Local");
    assert_eq!(account.user_id, "local-user-Me");
    assert_eq!(account.device_id, "local-device-Mars.Local");
    assert_eq!(account.display_name, "Me@Mars.Local");
    assert!(!account.sync_local_identity("Me", "Mars.Local"));
    assert!(account.sync_local_identity("You", "Mars.Local"));
    assert_eq!(account.user_id, "local-user-You");
    assert_eq!(sanitize_identifier("a b/c"), "a-b-c");
}

#[test]
fn servers_know_their_addresses() {
    let server = LoopbackServer::listening_on("127.0.0.1:9109");
    assert_eq!(server.server_root_url(), "http://127.0.0.1:9109");
    assert_eq!(server.session_sharing_server_url(), "ws://127.0.0.1:9109");
}

#[test]
fn handoffs_carry_their_conversation() {
    let request = LocalSpawnRequestBuilder::from_handoff(text("go"), Vec::new(), text("conv"), None)
        .with_title(text("title"))
        .with_workspace(text("/work"))
        .build();
    assert_eq!(request.prompt, "go");
    assert_eq!(request.conversation_id.as_deref(), Some("conv"));
    assert_eq!(request.title.as_deref(), Some("title"));
    assert_eq!(request.workspace.as_deref(), Some("/work"));
    let plain = LocalSpawnRequestBuilder::new(text("go"), UserQueryMode::Plan).build();
    assert_eq!(plain.mode, UserQueryMode::Plan);
    assert!(plain.conversation_id.is_none());
}

#[test]
fn json_is_written_and_read() {
    let value = Json::object()
        .with("b", Json::unsigned(7))
        .with("a", Json::list().and(Json::Null).and(Json::Bool(true)))
        .with("b", Json::text("x\n"));
    assert_eq!(value.print(), "{\"b\":\"x\\n\",\"a\":[null,true]}");
    let again = Json::parse(&value.print()).unwrap();
    assert_eq!(again.print(), value.print());
    assert_eq!(Json::parse("18446744073709551615").unwrap().as_u64(), Some(u64::MAX));
    assert!(Json::parse("-1").unwrap().as_u64().is_none());
    assert!(Json::parse("{").is_err());
}

#[test]
fn events_are_heard_in_pieces() {
    let told = [
        WorkerRunEvent::State { state: text("running") },
        WorkerRunEvent::OutputDelta { text: text("out") },
        WorkerRunEvent::Finished { state: text("succeeded") },
        WorkerRunEvent::OutputDelta { text: text("late") },
    ];
    let whole: String = told.iter().map(worker_event_sse_chunk).collect();
    for at in 0..whole.len() {
        let mut buffer = FrameBuffer::new();
        let (mut events, fault) = buffer.hear(&whole[..at], true);
        assert!(fault.is_none());
        let (rest, fault) = buffer.hear(&whole[at..], true);
        assert!(fault.is_none());
        events.extend(rest);
        assert_eq!(events.len(), told.len());
    }
    let mut buffer = FrameBuffer::new();
    let (events, fault) = buffer.hear(&format!("{whole}data: {{\n\n{whole}"), false);
    assert_eq!(events.len(), told.len());
    assert!(fault.unwrap().starts_with("failed to parse remote worker event: "));
}

#[test]
fn nothing_is_taken_in_behind_the_end() {
    let told = || {
        vec![
            WorkerRunEvent::OutputDelta { text: text("out") },
            WorkerRunEvent::Finished { state: text("succeeded") },
            WorkerRunEvent::OutputDelta { text: text("late") },
        ]
    };
    let (sent, over) =
        RemoteRun::new().relay_worker_events(told(), "task", "request", timestamp(1, 2));
    assert_eq!(sent.len(), 1);
    assert!(over);

    let mut store = CloudAgentRunStore::new();
    store.spawned(spawn("hi"), text("http://w"), text("/work"), text("run-1"));
    assert!(store.relay_all_at("run-1", &told(), "t1"));
    let run = store.get_agent_run("run-1").unwrap();
    assert_eq!(run.final_output.as_deref(), Some("out"));
    assert_eq!(run.state, CloudAgentRunState::Succeeded);
    assert!(store.relay_worker_events_to_record("run-2", &told()));
    assert!(!store.relay_worker_events_to_record("run-1", &Vec::new()));
    let event = WorkerRunEvent::Error { message: text("no") };
    assert!(!store.relay_worker_event_to_record("run-1", &event));
    assert_eq!(store.get_agent_run("run-1").unwrap().state, CloudAgentRunState::Failed);
}

#[test]
fn cloud_agents_speak() {
    let now = timestamp(1, 2);
    for event in [
        cloud_agent_output_event("run-1", "said", now),
        cloud_agent_reasoning_event("run-1", "thought", now),
    ] {
        match event {
            ResponseEvent::ClientActions(actions) => match &actions[0] {
                ClientAction::AddMessagesToTask { task_id, messages } => {
                    assert_eq!(task_id, "run-1");
                    assert_eq!(messages[0].request_id, "warpsolo-cloud-request-run-1");
                }
                _ => panic!("a message"),
            },
            _ => panic!("actions"),
        }
    }
}

#[test]
fn handoffs_take_settings() {
    let request = LocalSpawnRequestBuilder::new(text("go"), UserQueryMode::Normal)
        .with_config(AgentConfigSnapshot { json: text("{}") })
        .with_agent_identity_uid(text("uid"))
        .with_skill(text("skill"))
        .with_team(true)
        .with_interactive(false)
        .with_parent_run_id(text("parent"))
        .with_runtime_skills(vec![text("a")])
        .with_referenced_attachments(vec![text("b")])
        .with_conversation_id(text("conv"))
        .with_initial_snapshot_token(InitialSnapshotToken { token: text("t") })
        .build();
    assert_eq!(request.config.unwrap().json, "{}");
    assert_eq!(request.agent_identity_uid.as_deref(), Some("uid"));
    assert_eq!(request.skill.as_deref(), Some("skill"));
    assert_eq!(request.team, Some(true));
    assert_eq!(request.interactive, Some(false));
    assert_eq!(request.parent_run_id.as_deref(), Some("parent"));
    assert_eq!(request.runtime_skills, vec![text("a")]);
    assert_eq!(request.referenced_attachments, vec![text("b")]);
    assert_eq!(request.conversation_id.as_deref(), Some("conv"));
    assert_eq!(request.initial_snapshot_token.unwrap().token, "t");
}

#[test]
fn chunks_are_single_frames() {
    let mut buffer = FrameBuffer::new();
    buffer.push(&response_event_stream(&vec![vec![0, 255], vec![10, 10]]));
    let frames = buffer.take_frames();
    assert_eq!(frames, vec![text("data: \"AP8=\""), text("data: \"Cgo=\"")]);
}

#[test]
fn deep_values_are_read_back_up_to_a_depth() {
    let nested = |depth: usize| {
        let mut value = Json::unsigned(u64::MAX);
        for level in 0..depth {
            value = if level % 2 == 0 {
                Json::list().and(value)
            } else {
                Json::object().with("in", value)
            };
        }
        value
    };
    let deepest = nested(127).print();
    assert_eq!(Json::parse(&deepest).unwrap().print(), deepest);
    assert!(Json::parse(&nested(128).print()).is_err());
    let call = WorkerRunEvent::ToolCall { id: text("c"), name: text("t"), arguments: nested(126) };
    let chunk = worker_event_sse_chunk(&call);
    let again = parse_worker_sse_frame(&chunk, false).unwrap().unwrap();
    assert_eq!(event_to_json(&again).print(), event_to_json(&call).print());
}

#[test]
fn texts_to_replace_go_out_as_they_are() {
    let edit = call(
        "c",
        "search_replace",
        Json::object()
            .with("path", Json::text(" notes.md "))
            .with("search", Json::text("  beta\n"))
            .with("replace", Json::text("  gamma\n")),
    );
    let tool = api_tool_from_local(&edit);
    match &tool {
        ApiTool::ApplyFileDiffs { summary, diffs, new_files } => {
            assert_eq!(summary, "Replace text in notes.md");
            assert!(new_files.is_empty());
            assert_eq!(diffs.len(), 1);
            assert_eq!(diffs[0].file_path, "notes.md");
            assert_eq!(diffs[0].search, "  beta\n");
            assert_eq!(diffs[0].replace, "  gamma\n");
        }
        other => panic!("{other:?}"),
    }
    let again =
        local_tool_call_from_api(&ApiToolCall { tool_call_id: text("c"), tool: Some(tool) }).unwrap();
    assert_eq!(again.arguments.get_text("search"), Some("  beta\n"));
    match api_tool_from_local(&call("c", "search_replace", Json::object())) {
        ApiTool::ApplyFileDiffs { diffs, .. } => assert_eq!(diffs[0].search, ""),
        other => panic!("{other:?}"),
    }
    let write = call(
        "w",
        "write_file",
        Json::object().with("path", Json::text("a")).with("content", Json::text(" x \n")),
    );
    match api_tool_from_local(&write) {
        ApiTool::ApplyFileDiffs { new_files, .. } => assert_eq!(new_files[0].content, "x"),
        other => panic!("{other:?}"),
    }
    let event =
        LocalToolEvent { tool_call: write, result: result("w", "write_file", "Created a") };
    match api_tool_result_from_local(&event) {
        ApiToolResult::ApplyFileDiffs(ApplyFileDiffsResult::Success { updated_files, .. }) => {
            assert_eq!(updated_files[0].as_ref().unwrap().content, "x");
        }
        other => panic!("{other:?}"),
    }
}

#[test]
fn events_are_read_from_lists_too() {
    let read = |line: &str, lenient: bool| {
        parse_worker_sse_frame(&format!("data: {line}\n\n"), lenient)
            .map(|event| event_to_json(&event.unwrap()).print())
    };
    assert_eq!(
        read("[\"output_delta\", \"done\"]", false).unwrap(),
        "{\"type\":\"output_delta\",\"text\":\"done\"}"
    );
    assert_eq!(
        read("[\"tool_call\",\"c\",\"bash\",[1]]", false).unwrap(),
        "{\"type\":\"tool_call\",\"id\":\"c\",\"name\":\"bash\",\"arguments\":[1]}"
    );
    assert!(read("[\"tool_call\",\"c\",\"bash\"]", true).is_ok());
    assert!(read("[\"tool_call\",\"c\",\"bash\"]", false)
        .unwrap_err()
        .ends_with("invalid length 2, expected 3"));
    assert!(read("[]", false).unwrap_err().ends_with("missing field `type`"));
    assert!(read("{\"type\":\"error\"}", false).unwrap_err().ends_with("missing field `message`"));
    assert!(read("{\"type\":\"error\",\"message\":-1}", false)
        .unwrap_err()
        .ends_with("invalid type: integer `-1`, expected a string"));
    assert!(read("{\"type\":\"error\",\"message\":1.5}", false)
        .unwrap_err()
        .ends_with("invalid type: floating point `1.5`, expected a string"));
    assert!(read("{\"type\":true}", false)
        .unwrap_err()
        .ends_with("invalid type: boolean `true`, expected variant identifier"));
    assert!(read("{\"type\":\"dance\"}", false).unwrap_err().ends_with(
        "unknown variant `dance`, expected one of `state`, `tool_call`, `tool_result`, \
         `reasoning_delta`, `output_delta`, `error`, `finished`"
    ));
    assert!(read("null", false)
        .unwrap_err()
        .ends_with("invalid type: null, expected internally tagged enum WorkerRunEvent"));
    let created = parse_worker_create_response("[\"r\",\"/e\"]").unwrap();
    assert_eq!((created.run_id.as_str(), created.events_url.as_str()), ("r", "/e"));
    assert_eq!(
        parse_worker_create_response("{\"runId\":\"r\"}").unwrap_err(),
        "missing field `eventsUrl`"
    );
    assert_eq!(
        parse_worker_create_response("[\"r\"]").unwrap_err(),
        "invalid length 1, expected 2"
    );
}

#[test]
fn exit_codes_read_back() {
    let code = |exit_code: Option<i32>, timed_out: bool| {
        let output = LocalCommandOutput {
            exit_code,
            stdout: text("Exit code: 7\n"),
            stderr: text("Tool failed: no"),
            timed_out,
        };
        shell_exit_code_from_content(&format_command_output("ls\r", &output))
    };
    assert_eq!(code(Some(0), false), 0);
    assert_eq!(code(Some(127), false), 127);
    assert_eq!(code(Some(-9), true), -9);
    assert_eq!(code(Some(i32::MIN), false), i32::MIN);
    assert_eq!(code(Some(i32::MAX), false), i32::MAX);
    assert_eq!(code(None, true), 0);
}
