//! What clients are sent while a request is worked on.

use vstd::prelude::*;

use base64::Engine;

use crate::agent_api::requests::{
    StreamIds, TaskInfo, is_local_id, new_description, stream_ids, task_info, tasks_of,
};
use crate::agent_api::results::{api_tool_result_from_local, is_api_result};
use crate::agent_api::tools::{api_tool_from_local, is_api_tool};
use crate::agent_api::{
    ApiToolCall, ApiToolCallResult, ClientAction, Message, MessageBody, Request, ResponseEvent,
    Timestamp,
};
use crate::agent_state::{
    LocalAgentRun, LocalToolCall, LocalToolEvent, RunView, ToolCallView, ToolEventView,
};
use crate::ids::{is_random_text, new_id_text};
use crate::text::{is_blank, line_texts, occurs_at, split_lines, texts, trim, trimmed};

verus! {

/// What a message says.
pub ghost enum Said {
    Query(Seq<char>),
    Output(Seq<char>),
    Reasoning(Seq<char>),
    Call(ToolCallView),
    Result(ToolEventView),
}

/// Where and when messages are sent.
pub ghost struct Setting {
    pub request_id: Seq<char>,
    pub now: Timestamp,
}

/// Whether a message's body says `said`.
pub open spec fn says(body: MessageBody, said: Said) -> bool {
    match said {
        Said::Query(text) => body matches MessageBody::UserQuery { query, context } && query@ == text
            && context is None,
        Said::Output(output) => body matches MessageBody::AgentOutput { text } && text@ == output,
        Said::Reasoning(text) => body matches MessageBody::AgentReasoning { reasoning }
            && reasoning@ == text,
        Said::Call(call) => {
            &&& body matches MessageBody::ToolCall(told)
            &&& told.tool_call_id@ == call.id
            &&& told.tool matches Some(tool)
            &&& is_api_tool(tool, call)
        },
        Said::Result(event) => {
            &&& body matches MessageBody::ToolCallResult(told)
            &&& told.tool_call_id@ == event.result.tool_call_id
            &&& told.result matches Some(result)
            &&& is_api_result(result, event)
        },
    }
}

/// Whether a message of a task says `said`, under a new name.
pub open spec fn is_message(message: Message, said: Said, task_id: Seq<char>, at: Setting) -> bool {
    &&& is_local_id(message.id@, "local-message-"@)
    &&& message.task_id@ == task_id
    &&& message.request_id@ == at.request_id
    &&& message.timestamp == Some(at.now)
    &&& message.message matches Some(body)
    &&& says(body, said)
}

pub open spec fn are_messages(
    messages: Seq<Message>,
    script: Seq<Said>,
    task_id: Seq<char>,
    at: Setting,
) -> bool {
    &&& messages.len() == script.len()
    &&& forall|i: int|
        0 <= i < script.len() ==> is_message(#[trigger] messages[i], script[i], task_id, at)
}

/// A change that the client makes, by what it says.
pub ghost enum Told {
    Create { id: Seq<char>, description: Seq<char> },
    Add { task_id: Seq<char>, script: Seq<Said> },
}

pub open spec fn is_action(action: ClientAction, told: Told, at: Setting) -> bool {
    match told {
        Told::Create { id, description } => action matches ClientAction::CreateTask {
            id: task,
            description: words,
        } && task@ == id && words@ == description,
        Told::Add { task_id, script } => action matches ClientAction::AddMessagesToTask {
            task_id: task,
            messages,
        } && task@ == task_id && are_messages(messages@, script, task_id, at),
    }
}

/// An event, by what it says.
pub ghost enum Step {
    Init { conversation_id: Seq<char>, request_id: Seq<char>, run_id: Seq<char> },
    Actions(Seq<Told>),
    Finished,
}

pub open spec fn is_event(event: ResponseEvent, step: Step, at: Setting) -> bool {
    match step {
        Step::Init { conversation_id, request_id, run_id } => event matches ResponseEvent::Init {
            conversation_id: conversation,
            request_id: request,
            run_id: run,
        } && conversation@ == conversation_id && request@ == request_id && run@ == run_id,
        Step::Actions(told) => {
            &&& event matches ResponseEvent::ClientActions(actions)
            &&& actions@.len() == told.len()
            &&& forall|i: int|
                0 <= i < told.len() ==> is_action(#[trigger] actions@[i], told[i], at)
        },
        Step::Finished => event is Finished,
    }
}

pub open spec fn are_events(events: Seq<ResponseEvent>, steps: Seq<Step>, at: Setting) -> bool {
    &&& events.len() == steps.len()
    &&& forall|i: int| 0 <= i < steps.len() ==> is_event(#[trigger] events[i], steps[i], at)
}

/// The moment `secs` seconds and `nanos` nanoseconds after the start of 1970.
pub fn timestamp(secs: u64, nanos: u32) -> (now: Timestamp)
    ensures
        now.seconds == secs as i64,
        now.nanos == nanos as i32,
{
    Timestamp { seconds: secs as i64, nanos: nanos as i32 }
}

fn local_message(task_id: &str, request_id: &str, body: MessageBody, now: Timestamp) -> (message:
    Message)
    ensures
        is_local_id(message.id@, "local-message-"@),
        message.task_id@ == task_id@,
        message.request_id@ == request_id@,
        message.timestamp == Some(now),
        message.message == Some(body),
{
    let mut id = "local-message-".to_owned();
    id.append(new_id_text().as_str());
    Message {
        id,
        task_id: task_id.to_owned(),
        request_id: request_id.to_owned(),
        timestamp: Some(now),
        message: Some(body),
    }
}

pub fn agent_output_message(output: &str, task_id: &str, request_id: &str, now: Timestamp) -> (message:
    Message)
    ensures
        is_message(
            message,
            Said::Output(output@),
            task_id@,
            (Setting { request_id: request_id@, now }),
        ),
{
    local_message(task_id, request_id, MessageBody::AgentOutput { text: output.to_owned() }, now)
}

pub fn agent_reasoning_message(
    reasoning: &str,
    task_id: &str,
    request_id: &str,
    now: Timestamp,
) -> (message: Message)
    ensures
        is_message(
            message,
            Said::Reasoning(reasoning@),
            task_id@,
            (Setting { request_id: request_id@, now }),
        ),
{
    local_message(
        task_id,
        request_id,
        MessageBody::AgentReasoning { reasoning: reasoning.to_owned() },
        now,
    )
}

pub fn user_query_message(query: &str, task_id: &str, request_id: &str, now: Timestamp) -> (message:
    Message)
    ensures
        is_message(
            message,
            Said::Query(query@),
            task_id@,
            (Setting { request_id: request_id@, now }),
        ),
{
    local_message(
        task_id,
        request_id,
        MessageBody::UserQuery { query: query.to_owned(), context: None },
        now,
    )
}

pub fn local_tool_call_message(
    call: &LocalToolCall,
    task_id: &str,
    request_id: &str,
    now: Timestamp,
) -> (message: Message)
    ensures
        is_message(
            message,
            Said::Call(call@),
            task_id@,
            (Setting { request_id: request_id@, now }),
        ),
{
    let told = ApiToolCall { tool_call_id: call.id.clone(), tool: Some(api_tool_from_local(call)) };
    local_message(task_id, request_id, MessageBody::ToolCall(told), now)
}

pub fn local_tool_result_message(
    event: &LocalToolEvent,
    task_id: &str,
    request_id: &str,
    now: Timestamp,
) -> (message: Message)
    ensures
        is_message(
            message,
            Said::Result(event@),
            task_id@,
            (Setting { request_id: request_id@, now }),
        ),
{
    let told = ApiToolCallResult {
        tool_call_id: event.result.tool_call_id.clone(),
        result: Some(api_tool_result_from_local(event)),
    };
    local_message(task_id, request_id, MessageBody::ToolCallResult(told), now)
}

fn create_task_action(info: &TaskInfo) -> (action: ClientAction)
    ensures
        action matches ClientAction::CreateTask { id, description } && id@ == info.id@
            && description@ == info.description@,
{
    ClientAction::CreateTask { id: info.id.clone(), description: info.description.clone() }
}

fn add_messages_action(task_id: &str, messages: Vec<Message>) -> (action: ClientAction)
    ensures
        action matches ClientAction::AddMessagesToTask { task_id: task, messages: added } && task@
            == task_id@ && added == messages,
{
    ClientAction::AddMessagesToTask { task_id: task_id.to_owned(), messages }
}

/// The step that adds one message to a task.
pub open spec fn one_message(task_id: Seq<char>, said: Said) -> Step {
    Step::Actions(seq![Told::Add { task_id, script: seq![said] }])
}

/// An event that adds one message to its task.
fn message_event(message: Message, Ghost(said): Ghost<Said>, Ghost(at): Ghost<Setting>) -> (event:
    ResponseEvent)
    requires
        is_message(message, said, message.task_id@, at),
    ensures
        is_event(event, one_message(message.task_id@, said), at),
{
    let task_id = message.task_id.clone();
    let mut messages: Vec<Message> = Vec::new();
    messages.push(message);
    let mut actions: Vec<ClientAction> = Vec::new();
    actions.push(add_messages_action(task_id.as_str(), messages));
    ResponseEvent::ClientActions(actions)
}

pub fn tool_call_event(call: &LocalToolCall, task_id: &str, request_id: &str, now: Timestamp) -> (event:
    ResponseEvent)
    ensures
        is_event(
            event,
            one_message(task_id@, Said::Call(call@)),
            (Setting { request_id: request_id@, now }),
        ),
{
    message_event(
        local_tool_call_message(call, task_id, request_id, now),
        Ghost(Said::Call(call@)),
        Ghost(Setting { request_id: request_id@, now }),
    )
}

pub fn tool_result_event(
    result: &LocalToolEvent,
    task_id: &str,
    request_id: &str,
    now: Timestamp,
) -> (event: ResponseEvent)
    ensures
        is_event(
            event,
            one_message(task_id@, Said::Result(result@)),
            (Setting { request_id: request_id@, now }),
        ),
{
    message_event(
        local_tool_result_message(result, task_id, request_id, now),
        Ghost(Said::Result(result@)),
        Ghost(Setting { request_id: request_id@, now }),
    )
}

pub fn output_event(output: &str, task_id: &str, request_id: &str, now: Timestamp) -> (event:
    ResponseEvent)
    ensures
        is_event(
            event,
            one_message(task_id@, Said::Output(output@)),
            (Setting { request_id: request_id@, now }),
        ),
{
    message_event(
        agent_output_message(output, task_id, request_id, now),
        Ghost(Said::Output(output@)),
        Ghost(Setting { request_id: request_id@, now }),
    )
}

pub fn reasoning_event(reasoning: &str, task_id: &str, request_id: &str, now: Timestamp) -> (event:
    ResponseEvent)
    ensures
        is_event(
            event,
            one_message(task_id@, Said::Reasoning(reasoning@)),
            (Setting { request_id: request_id@, now }),
        ),
{
    message_event(
        agent_reasoning_message(reasoning, task_id, request_id, now),
        Ghost(Said::Reasoning(reasoning@)),
        Ghost(Setting { request_id: request_id@, now }),
    )
}

pub open spec fn init_step(ids: StreamIds) -> Step {
    Step::Init {
        conversation_id: ids.conversation_id@,
        request_id: ids.request_id@,
        run_id: ids.run_id@,
    }
}

fn init_event(ids: &StreamIds) -> (event: ResponseEvent)
    ensures
        forall|at: Setting| #[trigger] is_event(event, init_step(*ids), at),
{
    ResponseEvent::Init {
        conversation_id: ids.conversation_id.clone(),
        request_id: ids.request_id.clone(),
        run_id: ids.run_id.clone(),
    }
}

/// The steps with which an answer begins.
pub open spec fn opening_steps(ids: StreamIds, info: TaskInfo) -> Seq<Step> {
    let create = Told::Create { id: info.id@, description: info.description@ };
    if info.needs_create {
        seq![init_step(ids)].push(Step::Actions(seq![create]))
    } else {
        seq![init_step(ids)]
    }
}

/// The events with which an answer begins.
pub fn opening_events(ids: &StreamIds, info: &TaskInfo) -> (events: Vec<ResponseEvent>)
    ensures
        forall|at: Setting| #[trigger] are_events(events@, opening_steps(*ids, *info), at),
{
    let mut events: Vec<ResponseEvent> = Vec::new();
    events.push(init_event(ids));
    if info.needs_create {
        let mut actions: Vec<ClientAction> = Vec::new();
        actions.push(create_task_action(info));
        events.push(ResponseEvent::ClientActions(actions));
    }
    events
}

pub open spec fn with_text(script: Seq<Said>, text: Seq<char>, said: Said) -> Seq<Said> {
    if is_blank(text) {
        script
    } else {
        script.push(said)
    }
}

/// The last words of an agent: what it thought and what it says.
pub open spec fn last_words(run: RunView) -> Seq<Said> {
    let thought = with_text(seq![], run.reasoning, Said::Reasoning(run.reasoning));
    with_text(thought, run.output, Said::Output(run.output))
}

/// The steps with which an answer ends.
pub open spec fn closing_steps(run: RunView, task_id: Seq<char>) -> Seq<Step> {
    let script = last_words(run);
    if script.len() == 0 {
        seq![Step::Finished]
    } else {
        seq![Step::Actions(seq![Told::Add { task_id, script }])].push(Step::Finished)
    }
}

/// The events with which an answer ends.
pub fn closing_events(run: &LocalAgentRun, task_id: &str, request_id: &str, now: Timestamp) -> (events:
    Vec<ResponseEvent>)
    ensures
        are_events(
            events@,
            closing_steps(run@, task_id@),
            (Setting { request_id: request_id@, now }),
        ),
{
    let ghost at = Setting { request_id: request_id@, now };
    let mut messages: Vec<Message> = Vec::new();
    if !trim(run.reasoning.as_str()).is_empty() {
        messages.push(agent_reasoning_message(run.reasoning.as_str(), task_id, request_id, now));
    }
    if !trim(run.output.as_str()).is_empty() {
        messages.push(agent_output_message(run.output.as_str(), task_id, request_id, now));
    }
    assert(are_messages(messages@, last_words(run@), task_id@, at));
    let mut events: Vec<ResponseEvent> = Vec::new();
    if messages.len() > 0 {
        let mut actions: Vec<ClientAction> = Vec::new();
        actions.push(add_messages_action(task_id, messages));
        let ghost step = Step::Actions(
            seq![Told::Add { task_id: task_id@, script: last_words(run@) }],
        );
        let event = ResponseEvent::ClientActions(actions);
        assert(is_event(event, step, at));
        events.push(event);
    }
    events.push(ResponseEvent::Finished);
    events
}

/// The script of a whole run: thoughts, tool calls, tool events and the answer.
pub open spec fn run_script(run: RunView) -> Seq<Said> {
    let thought = with_text(seq![], run.reasoning, Said::Reasoning(run.reasoning));
    let called = thought + run.tool_calls.map_values(|call: ToolCallView| Said::Call(call));
    with_text(called + event_script(run.tool_events), run.output, Said::Output(run.output))
}

/// Each tool event shows its call and then its result.
pub open spec fn event_script(events: Seq<ToolEventView>) -> Seq<Said>
    decreases events.len(),
{
    if events.len() == 0 {
        seq![]
    } else {
        event_script(events.drop_last()).push(Said::Call(events.last().tool_call)).push(
            Said::Result(events.last()),
        )
    }
}

/// The messages of a whole run.
fn run_messages(run: &LocalAgentRun, task_id: &str, request_id: &str, now: Timestamp) -> (messages:
    Vec<Message>)
    ensures
        are_messages(
            messages@,
            run_script(run@),
            task_id@,
            (Setting { request_id: request_id@, now }),
        ),
{
    let ghost at = Setting { request_id: request_id@, now };
    let ghost mut script: Seq<Said> = seq![];
    let mut messages: Vec<Message> = Vec::new();
    if !trim(run.reasoning.as_str()).is_empty() {
        messages.push(agent_reasoning_message(run.reasoning.as_str(), task_id, request_id, now));
        proof {
            script = script.push(Said::Reasoning(run.reasoning@));
        }
    }
    let ghost thought = script;
    let ghost calls = run@.tool_calls.map_values(|call: ToolCallView| Said::Call(call));
    let mut i: usize = 0;
    assert(script =~= thought + calls.take(0));
    while i < run.tool_calls.len()
        invariant
            i <= run.tool_calls.len(),
            at == (Setting { request_id: request_id@, now }),
            calls == run@.tool_calls.map_values(|call: ToolCallView| Said::Call(call)),
            script == thought + calls.take(i as int),
            are_messages(messages@, script, task_id@, at),
        decreases run.tool_calls.len() - i,
    {
        messages.push(local_tool_call_message(&run.tool_calls[i], task_id, request_id, now));
        proof {
            script = script.push(calls[i as int]);
            assert(script =~= thought + calls.take(i + 1));
        }
        i += 1;
    }
    let ghost called = script;
    assert(called =~= thought + calls);
    let ghost events = run@.tool_events;
    let mut i: usize = 0;
    assert(events.take(0) =~= seq![]);
    assert(script =~= called + event_script(events.take(0)));
    while i < run.tool_events.len()
        invariant
            i <= run.tool_events.len(),
            at == (Setting { request_id: request_id@, now }),
            events == run@.tool_events,
            script == called + event_script(events.take(i as int)),
            are_messages(messages@, script, task_id@, at),
        decreases run.tool_events.len() - i,
    {
        assert(events.take(i + 1).drop_last() =~= events.take(i as int));
        assert(events[i as int] == run.tool_events@[i as int]@);
        messages.push(
            local_tool_call_message(&run.tool_events[i].tool_call, task_id, request_id, now),
        );
        messages.push(local_tool_result_message(&run.tool_events[i], task_id, request_id, now));
        proof {
            script =
            script.push(Said::Call(events[i as int].tool_call)).push(
                Said::Result(events[i as int]),
            );
            assert(script =~= called + event_script(events.take(i + 1)));
        }
        i += 1;
    }
    assert(events.take(events.len() as int) =~= events);
    if !trim(run.output.as_str()).is_empty() {
        messages.push(agent_output_message(run.output.as_str(), task_id, request_id, now));
    }
    messages
}

/// The steps that answer a request with a run that is over.
pub open spec fn response_steps(ids: StreamIds, info: TaskInfo, run: RunView) -> Seq<Step> {
    let create = Told::Create { id: info.id@, description: info.description@ };
    let messages = Told::Add { task_id: info.id@, script: run_script(run) };
    let actions = if info.needs_create {
        seq![create].push(messages)
    } else {
        seq![messages]
    };
    seq![init_step(ids)].push(Step::Actions(actions)).push(Step::Finished)
}

/// The events that answer a request with a run that is over, under given names.
pub fn run_events(ids: &StreamIds, info: &TaskInfo, run: &LocalAgentRun, now: Timestamp) -> (events:
    Vec<ResponseEvent>)
    ensures
        are_events(
            events@,
            response_steps(*ids, *info, run@),
            (Setting { request_id: ids.request_id@, now }),
        ),
{
    let mut actions: Vec<ClientAction> = Vec::new();
    if info.needs_create {
        actions.push(create_task_action(info));
    }
    let messages = run_messages(run, info.id.as_str(), ids.request_id.as_str(), now);
    actions.push(add_messages_action(info.id.as_str(), messages));
    let mut events: Vec<ResponseEvent> = Vec::new();
    events.push(init_event(ids));
    events.push(ResponseEvent::ClientActions(actions));
    events.push(ResponseEvent::Finished);
    events
}

/// The names that are given to the answer to a request.
pub open spec fn are_ids_for(ids: StreamIds, info: TaskInfo, request: Request) -> bool {
    &&& match crate::agent_api::requests::named_conversation(request) {
        Some(id) => ids.conversation_id@ == id,
        None => is_local_id(ids.conversation_id@, "local-conversation-"@),
    }
    &&& is_local_id(ids.request_id@, "local-request-"@)
    &&& is_random_text(ids.run_id@)
    &&& if tasks_of(request).len() > 0 {
        &&& info.id@ == tasks_of(request)[0].id@
        &&& info.description@ == tasks_of(request)[0].description@
        &&& !info.needs_create
    } else {
        &&& is_local_id(info.id@, "local-task-"@)
        &&& info.description@ == new_description(request)
        &&& info.needs_create
    }
}

/// The events that answer a request with a run that is over.
pub fn agent_response_events(request: &Request, run: &LocalAgentRun, now: Timestamp) -> (events: Vec<
    ResponseEvent,
>)
    ensures
        exists|ids: StreamIds, info: TaskInfo|
            #![trigger response_steps(ids, info, run@)]
            are_ids_for(ids, info, *request) && are_events(
                events@,
                response_steps(ids, info, run@),
                (Setting { request_id: ids.request_id@, now }),
            ),
{
    let ids = stream_ids(request);
    let info = task_info(request);
    let events = run_events(&ids, &info, run, now);
    assert(are_ids_for(ids, info, *request));
    events
}

/// The events that end a stream at once.
pub fn ending_events(ids: &StreamIds) -> (events: Vec<ResponseEvent>)
    ensures
        forall|at: Setting| #[trigger]
            are_events(events@, seq![init_step(*ids)].push(Step::Finished), at),
{
    let mut events: Vec<ResponseEvent> = Vec::new();
    events.push(init_event(ids));
    events.push(ResponseEvent::Finished);
    events
}

/// The events that answer a request without doing anything.
pub fn finished_response_events(request: &Request) -> (events: Vec<ResponseEvent>)
    ensures
        events@.len() == 2,
        events@[0] is Init,
        match crate::agent_api::requests::named_conversation(*request) {
            Some(id) => events@[0]->conversation_id@ == id,
            None => is_local_id(events@[0]->conversation_id@, "local-conversation-"@),
        },
        is_local_id(events@[0]->request_id@, "local-request-"@),
        is_random_text(events@[0]->run_id@),
        events@[1] is Finished,
{
    let ids = stream_ids(request);
    let events = ending_events(&ids);
    proof {
        let at = Setting { request_id: seq![], now: Timestamp { seconds: 0, nanos: 0 } };
        let steps = seq![init_step(ids)].push(Step::Finished);
        assert(are_events(events@, steps, at));
        assert(is_event(events@[0], steps[0], at));
        assert(is_event(events@[1], steps[1], at));
    }
    events
}

pub open spec fn cloud_request_id(run_id: Seq<char>) -> Seq<char> {
    "warpsolo-cloud-request-"@ + run_id
}

pub fn cloud_agent_request_id(run_id: &str) -> (id: String)
    ensures
        id@ == cloud_request_id(run_id@),
{
    let mut id = "warpsolo-cloud-request-".to_owned();
    id.append(run_id);
    id
}

pub fn cloud_agent_stream_ids(run_id: &str) -> (ids: StreamIds)
    ensures
        ids.conversation_id@ == "warpsolo-cloud-conversation-"@ + run_id@,
        ids.request_id@ == cloud_request_id(run_id@),
        ids.run_id@ == run_id@,
{
    let mut conversation_id = "warpsolo-cloud-conversation-".to_owned();
    conversation_id.append(run_id);
    StreamIds {
        conversation_id,
        request_id: cloud_agent_request_id(run_id),
        run_id: run_id.to_owned(),
    }
}

/// The first line of a text, if there is one.
pub open spec fn first_line(text: Seq<char>) -> Option<Seq<char>> {
    if line_texts(text).len() > 0 {
        Some(line_texts(text)[0])
    } else {
        None
    }
}

fn take_first_line(text: &str) -> (line: Option<String>)
    ensures
        crate::text::opt_text(line) == first_line(text@),
{
    let lines = split_lines(text);
    if lines.len() > 0 {
        assert(texts(lines@)[0] == lines@[0]@);
        Some(lines[0].clone())
    } else {
        assert(texts(lines@).len() == 0);
        None
    }
}

/// What a cloud task is called: its title, or else what it is asked to do.
pub open spec fn cloud_description(title: Seq<char>, prompt: Seq<char>) -> Seq<char> {
    match first_line(trimmed(title)) {
        Some(line) if line.len() > 0 => line,
        _ => match first_line(trimmed(prompt)) {
            Some(line) => line,
            None => "WarpSOLO agent"@,
        },
    }
}

pub fn cloud_agent_task_info(run_id: &str, title: &str, prompt: &str) -> (info: TaskInfo)
    ensures
        info.id@ == run_id@,
        info.description@ == cloud_description(title@, prompt@),
        info.needs_create,
{
    let mut description = "WarpSOLO agent".to_owned();
    if let Some(line) = take_first_line(trim(prompt)) {
        description = line;
    }
    if let Some(line) = take_first_line(trim(title)) {
        if !line.as_str().is_empty() {
            description = line;
        }
    }
    TaskInfo { id: run_id.to_owned(), description, needs_create: true }
}

pub open spec fn cloud_init(run_id: Seq<char>) -> Step {
    Step::Init {
        conversation_id: "warpsolo-cloud-conversation-"@ + run_id,
        request_id: cloud_request_id(run_id),
        run_id,
    }
}

/// The steps that begin a cloud run.
pub open spec fn cloud_steps(run_id: Seq<char>, title: Seq<char>, prompt: Seq<char>) -> Seq<Step> {
    let create = Told::Create { id: run_id, description: cloud_description(title, prompt) };
    let query = Told::Add { task_id: run_id, script: seq![Said::Query(prompt)] };
    let actions = if is_blank(prompt) {
        seq![create]
    } else {
        seq![create].push(query)
    };
    seq![cloud_init(run_id)].push(Step::Actions(actions))
}

/// The events that begin a cloud run.
pub fn cloud_agent_initial_events(run_id: &str, title: &str, prompt: &str, now: Timestamp) -> (events:
    Vec<ResponseEvent>)
    ensures
        are_events(
            events@,
            cloud_steps(run_id@, title@, prompt@),
            (Setting { request_id: cloud_request_id(run_id@), now }),
        ),
{
    let ids = cloud_agent_stream_ids(run_id);
    let info = cloud_agent_task_info(run_id, title, prompt);
    let mut actions: Vec<ClientAction> = Vec::new();
    actions.push(create_task_action(&info));
    if !trim(prompt).is_empty() {
        let mut messages: Vec<Message> = Vec::new();
        messages.push(user_query_message(prompt, run_id, ids.request_id.as_str(), now));
        actions.push(add_messages_action(run_id, messages));
    }
    let mut events: Vec<ResponseEvent> = Vec::new();
    events.push(init_event(&ids));
    events.push(ResponseEvent::ClientActions(actions));
    events
}

/// The steps that take a cloud run up again.
pub open spec fn followup_steps(run_id: Seq<char>, prompt: Seq<char>) -> Seq<Step> {
    if is_blank(prompt) {
        seq![cloud_init(run_id)]
    } else {
        seq![cloud_init(run_id)].push(one_message(run_id, Said::Query(prompt)))
    }
}

/// The events that take a cloud run up again.
pub fn cloud_agent_followup_initial_events(run_id: &str, prompt: &str, now: Timestamp) -> (events: Vec<
    ResponseEvent,
>)
    ensures
        are_events(
            events@,
            followup_steps(run_id@, prompt@),
            (Setting { request_id: cloud_request_id(run_id@), now }),
        ),
{
    let ids = cloud_agent_stream_ids(run_id);
    let mut events: Vec<ResponseEvent> = Vec::new();
    events.push(init_event(&ids));
    if !trim(prompt).is_empty() {
        let message = user_query_message(prompt, run_id, ids.request_id.as_str(), now);
        events.push(
            message_event(
                message,
                Ghost(Said::Query(prompt@)),
                Ghost(Setting { request_id: cloud_request_id(run_id@), now }),
            ),
        );
    }
    events
}

pub fn cloud_agent_output_event(run_id: &str, output: &str, now: Timestamp) -> (event: ResponseEvent)
    ensures
        is_event(
            event,
            one_message(run_id@, Said::Output(output@)),
            (Setting { request_id: cloud_request_id(run_id@), now }),
        ),
{
    output_event(output, run_id, cloud_agent_request_id(run_id).as_str(), now)
}

pub fn cloud_agent_reasoning_event(run_id: &str, reasoning: &str, now: Timestamp) -> (event:
    ResponseEvent)
    ensures
        is_event(
            event,
            one_message(run_id@, Said::Reasoning(reasoning@)),
            (Setting { request_id: cloud_request_id(run_id@), now }),
        ),
{
    reasoning_event(reasoning, run_id, cloud_agent_request_id(run_id).as_str(), now)
}

/// What base64 with the URL-safe alphabet and padding makes of bytes.
pub uninterp spec fn base64_url(bytes: Seq<u8>) -> Seq<char>;

/// The characters that URL-safe base64 writes.
pub open spec fn is_url_safe(c: char) -> bool {
    ('A' <= c <= 'Z') || ('a' <= c <= 'z') || ('0' <= c <= '9') || c == '-' || c == '_' || c == '='
}

/// `Engine::encode` of `BASE64_URL_SAFE`: its result depends on the bytes alone and holds nothing
/// but the characters of its alphabet and the padding sign.
#[verifier::external_body]
fn encode_url_safe(bytes: &[u8]) -> (text: String)
    requires
        bytes@.len() <= usize::MAX / 4,
    ensures
        text@ == base64_url(bytes@),
        forall|i: int| 0 <= i < text@.len() ==> is_url_safe(#[trigger] text@[i]),
{
    base64::prelude::BASE64_URL_SAFE.encode(bytes)
}

/// An encoded event as a server-sent event.
pub open spec fn event_frame(encoded: Seq<char>) -> Seq<char> {
    "data: \""@ + encoded + "\"\n\n"@
}

/// An encoded event as a server-sent event.
pub fn event_chunk(encoded: &str) -> (chunk: String)
    ensures
        chunk@ == event_frame(encoded@),
{
    let mut chunk = "data: \"".to_owned();
    chunk.append(encoded);
    chunk.append("\"\n\n");
    chunk
}

/// The bytes of an event as a server-sent event.
pub fn response_event_sse_chunk(event: &[u8]) -> (chunk: String)
    requires
        event@.len() <= usize::MAX / 4,
    ensures
        chunk@ == event_frame(base64_url(event@)),
        forall|at: int| #[trigger]
            occurs_at(chunk@, "\n\n"@, at) ==> at == chunk@.len() - 2,
{
    let encoded = encode_url_safe(event);
    let chunk = event_chunk(encoded.as_str());
    proof {
        law_chunks_are_single_frames(encoded@);
    }
    chunk
}

/// An event in its frame ends where the frame's blank line stands, and nowhere before.
pub proof fn law_chunks_are_single_frames(encoded: Seq<char>)
    requires
        forall|i: int| 0 <= i < encoded.len() ==> is_url_safe(#[trigger] encoded[i]),
    ensures
        forall|at: int|
            #![trigger occurs_at(event_frame(encoded), "\n\n"@, at)]
            occurs_at(event_frame(encoded), "\n\n"@, at) <==> at == event_frame(encoded).len() - 2,
{
    reveal_strlit("data: \"");
    reveal_strlit("\"\n\n");
    reveal_strlit("\n\n");
    let frame = event_frame(encoded);
    assert forall|at: int| occurs_at(frame, "\n\n"@, at) <==> at == frame.len() - 2 by {
        if occurs_at(frame, "\n\n"@, at) {
            assert(frame[at] == frame.subrange(at, at + 2)[0]);
            assert(frame[at + 1] == frame.subrange(at, at + 2)[1]);
            if at < 7 {
            } else if at < 7 + encoded.len() {
                assert(frame[at] == encoded[at - 7]);
            }
        }
        if at == frame.len() - 2 {
            assert(frame.subrange(at, at + 2) =~= "\n\n"@);
        }
    }
}

/// The frames of several events, one after the other.
pub open spec fn event_frames(events: Seq<Vec<u8>>) -> Seq<char>
    decreases events.len(),
{
    if events.len() == 0 {
        seq![]
    } else {
        event_frames(events.drop_last()) + event_frame(base64_url(events.last()@))
    }
}

/// The body that answers with several events at once.
pub fn response_event_stream(events: &Vec<Vec<u8>>) -> (body: String)
    requires
        forall|i: int| 0 <= i < events@.len() ==> (#[trigger] events@[i])@.len() <= usize::MAX / 4,
    ensures
        body@ == event_frames(events@),
{
    let mut body = String::new();
    let mut i: usize = 0;
    assert(events@.take(0) =~= seq![]);
    while i < events.len()
        invariant
            i <= events.len(),
            forall|j: int|
                0 <= j < events@.len() ==> (#[trigger] events@[j])@.len() <= usize::MAX / 4,
            body@ == event_frames(events@.take(i as int)),
        decreases events.len() - i,
    {
        assert(events@.take(i + 1).drop_last() =~= events@.take(i as int));
        body.append(response_event_sse_chunk(events[i].as_slice()).as_str());
        i += 1;
    }
    assert(events@.take(events@.len() as int) =~= events@);
    body
}

} // verus!
