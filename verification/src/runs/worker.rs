//! Runs that this machine does for others.

use vstd::prelude::*;

use crate::account::LocalAgentWorkerConfig;
use crate::agent_state::{
    LocalAgentRun, LocalToolCall, LocalToolEvent, RunView, ToolCallView, ToolEventView,
};
use crate::chat::context::{
    append_openai_worker_context_output, append_openai_worker_context_tool_call,
    append_openai_worker_context_tool_result, normal_messages, one_call,
    openai_worker_context_for_prompt,
};
use crate::chat::{result_json, said_by};
use crate::ids::{hyphenated, is_random_id, new_id_text};
use crate::json::{Json, JsonView, jobject, jtext, list_view};
use crate::runs::events::{RunEventView, WorkerRunEvent, event_views};
use crate::runs::{Refusal, is_refusal, refuse};
use crate::text::{
    byte_len, bytes_in, cut_to_bytes, fitting, is_blank, nonblank, opt_text, same, strip_prefix, trim,
    trim_nonblank, trimmed, without_prefix,
};
use crate::text_map::TextMap;

verus! {

/// How many bytes of a tool result are told.
pub const MAX_SUMMARY_BYTES: usize = 4_000;

/// How far a run has come.
#[derive(Debug, Clone, Copy, PartialEq, Eq, Structural)]
pub enum WorkerRunStatus {
    Pending,
    Running,
    Succeeded,
    Failed,
    Cancelled,
}

impl WorkerRunStatus {
    pub open spec fn over(self) -> bool {
        self is Succeeded || self is Failed || self is Cancelled
    }

    pub open spec fn label(self) -> Seq<char> {
        match self {
            WorkerRunStatus::Pending => "pending"@,
            WorkerRunStatus::Running => "running"@,
            WorkerRunStatus::Succeeded => "succeeded"@,
            WorkerRunStatus::Failed => "failed"@,
            WorkerRunStatus::Cancelled => "cancelled"@,
        }
    }

    pub fn is_terminal(self) -> (yes: bool)
        ensures
            yes == self.over(),
    {
        matches!(
            self,
            WorkerRunStatus::Succeeded | WorkerRunStatus::Failed | WorkerRunStatus::Cancelled
        )
    }

    pub fn name(self) -> (name: &'static str)
        ensures
            name@ == self.label(),
    {
        match self {
            WorkerRunStatus::Pending => "pending",
            WorkerRunStatus::Running => "running",
            WorkerRunStatus::Succeeded => "succeeded",
            WorkerRunStatus::Failed => "failed",
            WorkerRunStatus::Cancelled => "cancelled",
        }
    }
}

/// A run that another machine asks for, with the conversation that it goes on with.
#[derive(Debug)]
pub struct WorkerRunCreateRequest {
    pub prompt: String,
    pub workspace: Option<String>,
    pub model_id: Option<String>,
    pub harness: Option<String>,
    pub source_device_id: Option<String>,
    pub context: Vec<Json>,
}

/// The mathematical content of a [`WorkerRunCreateRequest`].
#[verifier::ext_equal]
pub ghost struct CreateView {
    pub prompt: Seq<char>,
    pub workspace: Option<Seq<char>>,
    pub model_id: Option<Seq<char>>,
    pub harness: Option<Seq<char>>,
    pub source_device_id: Option<Seq<char>>,
    pub context: Seq<JsonView>,
}

impl View for WorkerRunCreateRequest {
    type V = CreateView;

    open spec fn view(&self) -> CreateView {
        CreateView {
            prompt: self.prompt@,
            workspace: opt_text(self.workspace),
            model_id: opt_text(self.model_id),
            harness: opt_text(self.harness),
            source_device_id: opt_text(self.source_device_id),
            context: list_view(self.context@),
        }
    }
}

pub open spec fn nonblank_opt(text: Option<Seq<char>>) -> Option<Seq<char>> {
    match text {
        Some(text) => nonblank(text),
        None => None,
    }
}

fn keep_nonblank(text: &Option<String>) -> (out: Option<String>)
    ensures
        opt_text(out) == nonblank_opt(opt_text(*text)),
{
    match text {
        Some(text) => trim_nonblank(text.as_str()),
        None => None,
    }
}

/// A request without white space around its parts and without parts that say nothing.
pub open spec fn normal_request(request: CreateView) -> CreateView {
    CreateView {
        prompt: trimmed(request.prompt),
        workspace: nonblank_opt(request.workspace),
        model_id: nonblank_opt(request.model_id),
        harness: nonblank_opt(request.harness),
        source_device_id: nonblank_opt(request.source_device_id),
        context: request.context,
    }
}

/// The request in the form in which it is worked on, or why it is refused.
pub fn normalize_create_request(request: WorkerRunCreateRequest) -> (out: Result<
    WorkerRunCreateRequest,
    Refusal,
>)
    ensures
        match out {
            Ok(normal) => {
                &&& normal@ == normal_request(request@)
                &&& !is_blank(request@.prompt)
                &&& normal@.harness is None || normal@.harness == Some("local-openai"@)
            },
            Err(refusal) => if is_blank(request@.prompt) {
                is_refusal(refusal, 400, "prompt is required"@)
            } else {
                &&& is_refusal(refusal, 400, "only the local-openai worker harness is supported"@)
                &&& normal_request(request@).harness matches Some(harness)
                &&& harness != "local-openai"@
            },
        },
{
    let prompt = match trim_nonblank(request.prompt.as_str()) {
        Some(prompt) => prompt,
        None => {
            return Err(refuse(400, "prompt is required"));
        },
    };
    let harness = keep_nonblank(&request.harness);
    if let Some(harness) = &harness {
        if !same(harness.as_str(), "local-openai") {
            return Err(refuse(400, "only the local-openai worker harness is supported"));
        }
    }
    let workspace = keep_nonblank(&request.workspace);
    let model_id = keep_nonblank(&request.model_id);
    let source_device_id = keep_nonblank(&request.source_device_id);
    Ok(
        WorkerRunCreateRequest {
            prompt,
            workspace,
            model_id,
            harness,
            source_device_id,
            context: request.context,
        },
    )
}

/// The directory that a run is to work in, once it is known whether it is there.
pub fn checked_workspace(workspace: String, is_dir: bool) -> (out: Result<String, Refusal>)
    ensures
        match out {
            Ok(path) => is_dir && path == workspace,
            Err(refusal) => !is_dir && is_refusal(
                refusal,
                400,
                "workspace must be an existing directory"@,
            ),
        },
{
    if is_dir {
        Ok(workspace)
    } else {
        Err(refuse(400, "workspace must be an existing directory"))
    }
}

/// The directory that a request names, or else `default`.
pub fn workspace_path(request: &WorkerRunCreateRequest, default: &str) -> (path: String)
    ensures
        path@ == match nonblank_opt(request@.workspace) {
            Some(path) => path,
            None => default@,
        },
{
    match keep_nonblank(&request.workspace) {
        Some(path) => path,
        None => default.to_owned(),
    }
}

/// The token that a request shows in one of its two headers.
pub open spec fn shows_token(
    bearer: Option<Seq<char>>,
    explicit: Option<Seq<char>>,
    token: Seq<char>,
) -> bool {
    let borne = match bearer {
        Some(value) => match without_prefix(value, "Bearer "@) {
            Some(shown) => Some(trimmed(shown)),
            None => None,
        },
        None => None,
    };
    borne == Some(token) || match explicit {
        Some(shown) => trimmed(shown) == token,
        None => false,
    }
}

/// Whether a request may come in: there is a token, and the request shows it.
pub open spec fn may_come_in(
    config: LocalAgentWorkerConfig,
    bearer: Option<Seq<char>>,
    explicit: Option<Seq<char>>,
) -> bool {
    match config.token() {
        Some(token) => shows_token(bearer, explicit, token),
        None => false,
    }
}

/// Lets a request in that shows the token. `authorization` and `pairing_token` are the texts of its
/// two headers. Where no token is configured, nobody comes in.
pub fn authorize_worker_request(
    config: &LocalAgentWorkerConfig,
    authorization: Option<&str>,
    pairing_token: Option<&str>,
) -> (out: Result<(), Refusal>)
    ensures
        out is Ok <==> may_come_in(
            *config,
            crate::account::opt_str(authorization),
            crate::account::opt_str(pairing_token),
        ),
        out matches Err(refusal) ==> is_refusal(
            refusal,
            401,
            "missing or invalid worker pairing token"@,
        ),
{
    let expected = match config.required_token() {
        Some(expected) => expected,
        None => {
            return Err(refuse(401, "missing or invalid worker pairing token"));
        },
    };
    let mut shown = false;
    if let Some(value) = authorization {
        if let Some(token) = strip_prefix(value, "Bearer ") {
            shown = same(trim(token), expected.as_str());
        }
    }
    if let Some(value) = pairing_token {
        shown = shown || same(trim(value), expected.as_str());
    }
    if shown {
        Ok(())
    } else {
        Err(refuse(401, "missing or invalid worker pairing token"))
    }
}

/// Nobody comes in where no token is configured, or a blank one.
pub proof fn law_workers_without_a_token_are_closed(
    config: LocalAgentWorkerConfig,
    bearer: Option<Seq<char>>,
    explicit: Option<Seq<char>>,
)
    requires
        config.pairing_token matches Some(token) ==> is_blank(token@),
    ensures
        !may_come_in(config, bearer, explicit),
{
}

/// Nobody comes in who shows nothing.
pub proof fn law_strangers_are_refused(config: LocalAgentWorkerConfig)
    ensures
        !may_come_in(config, None, None),
{
}

/// What others are told of a tool result.
pub open spec fn summary_of(content: Seq<char>) -> Seq<char> {
    if bytes_in(content) <= MAX_SUMMARY_BYTES {
        content
    } else {
        fitting(content, MAX_SUMMARY_BYTES as nat) + "...\n[tool result truncated]"@
    }
}

/// What others are told of a tool result.
pub fn summarize_tool_result(content: &str) -> (summary: String)
    ensures
        summary@ == summary_of(content@),
{
    if byte_len(content) <= MAX_SUMMARY_BYTES {
        return content.to_owned();
    }
    let mut summary = cut_to_bytes(content, MAX_SUMMARY_BYTES).to_owned();
    summary.append("...\n[tool result truncated]");
    summary
}

proof fn lemma_fitting_fits(s: Seq<char>, max: nat)
    ensures
        bytes_in(fitting(s, max)) <= max,
    decreases s.len(),
{
    if s.len() == 0 {
        assert(s =~= seq![]);
        assert(vstd::utf8::encode_utf8(s) =~= seq![]);
    } else if bytes_in(s) > max {
        lemma_fitting_fits(s.drop_last(), max);
    }
}

/// However much a tool gave, others are told of at most 4027 bytes of it.
pub proof fn law_summaries_are_bounded(content: Seq<char>)
    ensures
        bytes_in(summary_of(content)) <= 4027,
{
    if bytes_in(content) > MAX_SUMMARY_BYTES {
        let start = fitting(content, MAX_SUMMARY_BYTES as nat);
        let end = "...\n[tool result truncated]"@;
        lemma_fitting_fits(content, MAX_SUMMARY_BYTES as nat);
        crate::text::lemma_encode_concat(start, end);
        reveal_strlit("...\n[tool result truncated]");
        crate::text::lemma_ascii_bytes(end);
    }
}

/// A run that this machine does for another.
#[derive(Debug)]
pub struct WorkerRunRecord {
    run_id: String,
    status: WorkerRunStatus,
    prompt: String,
    workspace: String,
    model_id: Option<String>,
    harness: Option<String>,
    source_device_id: Option<String>,
    created_at_epoch_millis: u64,
    updated_at_epoch_millis: u64,
    final_output: Option<String>,
    error: Option<String>,
    events: Vec<WorkerRunEvent>,
    context: Vec<Json>,
}

/// The mathematical content of a [`WorkerRunRecord`].
#[verifier::ext_equal]
pub ghost struct RecordView {
    pub run_id: Seq<char>,
    pub status: WorkerRunStatus,
    pub prompt: Seq<char>,
    pub workspace: Seq<char>,
    pub model_id: Option<Seq<char>>,
    pub harness: Option<Seq<char>>,
    pub source_device_id: Option<Seq<char>>,
    pub created_at_epoch_millis: u64,
    pub updated_at_epoch_millis: u64,
    pub final_output: Option<Seq<char>>,
    pub error: Option<Seq<char>>,
    pub events: Seq<RunEventView>,
    pub context: Seq<JsonView>,
}

impl View for WorkerRunRecord {
    type V = RecordView;

    closed spec fn view(&self) -> RecordView {
        RecordView {
            run_id: self.run_id@,
            status: self.status,
            prompt: self.prompt@,
            workspace: self.workspace@,
            model_id: opt_text(self.model_id),
            harness: opt_text(self.harness),
            source_device_id: opt_text(self.source_device_id),
            created_at_epoch_millis: self.created_at_epoch_millis,
            updated_at_epoch_millis: self.updated_at_epoch_millis,
            final_output: opt_text(self.final_output),
            error: opt_text(self.error),
            events: event_views(self.events@),
            context: list_view(self.context@),
        }
    }
}

/// A run that was asked for.
pub open spec fn new_record(run_id: Seq<char>, request: CreateView, workspace: Seq<char>, now: u64) -> RecordView {
    RecordView {
        run_id,
        status: WorkerRunStatus::Pending,
        prompt: request.prompt,
        workspace,
        model_id: request.model_id,
        harness: request.harness,
        source_device_id: request.source_device_id,
        created_at_epoch_millis: now,
        updated_at_epoch_millis: now,
        final_output: None,
        error: None,
        events: seq![RunEventView::State("pending"@)],
        context: normal_messages(request.context).push(said_by("user"@, request.prompt)),
    }
}

impl RecordView {
    pub open spec fn with_event(self, event: RunEventView, now: u64) -> RecordView {
        RecordView { events: self.events.push(event), updated_at_epoch_millis: now, ..self }
    }

    /// The run after it began, unless it is over.
    pub open spec fn started(self, now: u64) -> RecordView {
        if self.status.over() {
            self
        } else {
            RecordView { status: WorkerRunStatus::Running, ..self }.with_event(
                RunEventView::State("running"@),
                now,
            )
        }
    }

    /// The run after it ended, unless it was over already.
    pub open spec fn ended(
        self,
        status: WorkerRunStatus,
        output: Option<Seq<char>>,
        error: Option<Seq<char>>,
        now: u64,
    ) -> RecordView {
        if self.status.over() {
            self
        } else {
            RecordView { status, final_output: output, error, ..self }.with_event(
                RunEventView::State(status.label()),
                now,
            ).with_event(RunEventView::Finished(status.label()), now)
        }
    }

    pub open spec fn with_text(self, text: Seq<char>, event: RunEventView, now: u64) -> RecordView {
        if is_blank(text) {
            self
        } else {
            self.with_event(event, now)
        }
    }

    /// The run after the agent called a tool.
    pub open spec fn tool_called(self, call: ToolCallView, now: u64) -> RecordView {
        RecordView { context: self.context.push(one_call(call)), ..self }.with_event(
            RunEventView::ToolCall { id: call.id, name: call.name, arguments: call.arguments },
            now,
        )
    }

    /// The run after a tool gave its result.
    pub open spec fn tool_finished(self, event: ToolEventView, now: u64) -> RecordView {
        RecordView { context: self.context.push(result_json(event.result)), ..self }.with_event(
            RunEventView::ToolResult {
                id: event.result.tool_call_id,
                name: event.result.name,
                summary: summary_of(event.result.content),
            },
            now,
        )
    }

    /// The run after the agent came to its end.
    pub open spec fn completed(self, run: RunView, now: u64) -> RecordView {
        let told = RecordView {
            context: if is_blank(run.output) {
                self.context
            } else {
                self.context.push(said_by("assistant"@, run.output))
            },
            ..self
        };
        told.with_text(run.reasoning, RunEventView::ReasoningDelta(run.reasoning), now).with_text(
            run.output,
            RunEventView::OutputDelta(run.output),
            now,
        ).ended(WorkerRunStatus::Succeeded, Some(run.output), None, now)
    }

    /// The run after the agent could not go on.
    pub open spec fn failed(self, message: Seq<char>, now: u64) -> RecordView {
        self.with_event(RunEventView::Error(message), now).ended(
            WorkerRunStatus::Failed,
            None,
            Some(message),
            now,
        )
    }

    /// The run after it was called off.
    pub open spec fn cancelled(self, now: u64) -> RecordView {
        if self.status.over() {
            self
        } else {
            RecordView { status: WorkerRunStatus::Cancelled, ..self }.with_event(
                RunEventView::State("cancelled"@),
                now,
            ).with_event(RunEventView::Finished("cancelled"@), now)
        }
    }
}

impl WorkerRunRecord {
    /// A run that was asked for.
    pub fn new(run_id: String, request: WorkerRunCreateRequest, workspace: String, now: u64) -> (run:
        Self)
        ensures
            run@ == new_record(run_id@, request@, workspace@, now),
    {
        let context = openai_worker_context_for_prompt(&request.context, request.prompt.as_str());
        let mut run = WorkerRunRecord {
            run_id,
            status: WorkerRunStatus::Pending,
            prompt: request.prompt,
            workspace,
            model_id: request.model_id,
            harness: request.harness,
            source_device_id: request.source_device_id,
            created_at_epoch_millis: now,
            updated_at_epoch_millis: now,
            final_output: None,
            error: None,
            events: Vec::new(),
            context,
        };
        assert(run@.events =~= seq![]);
        run.push_event(WorkerRunEvent::State { state: "pending".to_owned() }, now);
        assert(run@ =~= new_record(run_id@, request@, workspace@, now));
        run
    }

    fn push_event(&mut self, event: WorkerRunEvent, now: u64)
        ensures
            final(self)@ == old(self)@.with_event(event@, now),
    {
        let ghost before = event_views(self.events@);
        self.updated_at_epoch_millis = now;
        self.events.push(event);
        assert(event_views(self.events@) =~= before.push(event@));
    }

    pub fn status(&self) -> (status: WorkerRunStatus)
        ensures
            status == self@.status,
    {
        self.status
    }

    /// What was told so far.
    pub fn events(&self) -> (events: &Vec<WorkerRunEvent>)
        ensures
            event_views(events@) == self@.events,
    {
        &self.events
    }

    /// The conversation so far.
    pub fn context(&self) -> (context: &Vec<Json>)
        ensures
            list_view(context@) == self@.context,
    {
        &self.context
    }

    /// The run begins.
    pub fn start(&mut self, now: u64)
        ensures
            final(self)@ == old(self)@.started(now),
    {
        if !self.status.is_terminal() {
            self.status = WorkerRunStatus::Running;
            self.push_event(WorkerRunEvent::State { state: "running".to_owned() }, now);
        }
    }

    /// The agent called a tool.
    pub fn tool_called(&mut self, call: &LocalToolCall, now: u64)
        ensures
            final(self)@ == old(self)@.tool_called(call@, now),
    {
        append_openai_worker_context_tool_call(&mut self.context, call);
        self.push_event(worker_tool_call_event(call), now);
    }

    /// A tool gave its result.
    pub fn tool_finished(&mut self, event: &LocalToolEvent, now: u64)
        ensures
            final(self)@ == old(self)@.tool_finished(event@, now),
    {
        append_openai_worker_context_tool_result(&mut self.context, &event.result);
        self.push_event(worker_tool_result_event(event), now);
    }

    /// Ends the run, unless it is over.
    fn finish(&mut self, status: WorkerRunStatus, output: Option<String>, error: Option<String>, now:
        u64)
        ensures
            final(self)@ == old(self)@.ended(status, opt_text(output), opt_text(error), now),
    {
        if !self.status.is_terminal() {
            self.status = status;
            self.final_output = output;
            self.error = error;
            self.push_event(WorkerRunEvent::State { state: status.name().to_owned() }, now);
            self.push_event(WorkerRunEvent::Finished { state: status.name().to_owned() }, now);
        }
    }

    /// The agent came to its end.
    pub fn complete(&mut self, run: LocalAgentRun, now: u64)
        ensures
            final(self)@ == old(self)@.completed(run@, now),
    {
        append_openai_worker_context_output(&mut self.context, run.output.as_str());
        if !trim(run.reasoning.as_str()).is_empty() {
            self.push_event(WorkerRunEvent::ReasoningDelta { text: run.reasoning }, now);
        }
        if !trim(run.output.as_str()).is_empty() {
            self.push_event(WorkerRunEvent::OutputDelta { text: run.output.clone() }, now);
        }
        self.finish(WorkerRunStatus::Succeeded, Some(run.output), None, now);
    }

    /// The agent could not go on.
    pub fn fail(&mut self, message: String, now: u64)
        ensures
            final(self)@ == old(self)@.failed(message@, now),
    {
        self.push_event(WorkerRunEvent::Error { message: message.clone() }, now);
        self.finish(WorkerRunStatus::Failed, None, Some(message), now);
    }

    /// The run is called off.
    pub fn cancel(&mut self, now: u64)
        ensures
            final(self)@ == old(self)@.cancelled(now),
    {
        if !self.status.is_terminal() {
            self.status = WorkerRunStatus::Cancelled;
            self.push_event(WorkerRunEvent::State { state: "cancelled".to_owned() }, now);
            self.push_event(WorkerRunEvent::Finished { state: "cancelled".to_owned() }, now);
        }
    }

    /// What others are told of the run.
    pub fn status_response(&self) -> (out: Json)
        ensures
            out@ == record_json(self@),
    {
        Json::object().with("runId", Json::text(self.run_id.as_str())).with(
            "state",
            Json::text(self.status.name()),
        ).with("prompt", Json::text(self.prompt.as_str())).with(
            "workspace",
            Json::text(self.workspace.as_str()),
        ).with("modelId", text_or_null(&self.model_id)).with("harness", text_or_null(&self.harness)).with(
            "sourceDeviceId",
            text_or_null(&self.source_device_id),
        ).with("createdAtEpochMillis", Json::unsigned(self.created_at_epoch_millis)).with(
            "updatedAtEpochMillis",
            Json::unsigned(self.updated_at_epoch_millis),
        ).with("finalOutput", text_or_null(&self.final_output)).with(
            "error",
            text_or_null(&self.error),
        )
    }

    /// The request that goes on with a run, once it is over.
    pub fn followup_request(&self, prompt: String) -> (out: Result<WorkerRunCreateRequest, Refusal>)
        ensures
            match out {
                Ok(request) => self@.status.over() && request@ == (CreateView {
                    prompt: prompt@,
                    workspace: Some(self@.workspace),
                    model_id: self@.model_id,
                    harness: self@.harness,
                    source_device_id: self@.source_device_id,
                    context: self@.context,
                }),
                Err(refusal) => !self@.status.over() && is_refusal(
                    refusal,
                    409,
                    "cannot follow up while the worker run is still active"@,
                ),
            },
    {
        if !self.status.is_terminal() {
            return Err(refuse(409, "cannot follow up while the worker run is still active"));
        }
        Ok(
            WorkerRunCreateRequest {
                prompt,
                workspace: Some(self.workspace.clone()),
                model_id: self.model_id.clone(),
                harness: self.harness.clone(),
                source_device_id: self.source_device_id.clone(),
                context: copy_messages(&self.context),
            },
        )
    }
}

fn copy_messages(messages: &Vec<Json>) -> (copy: Vec<Json>)
    ensures
        list_view(copy@) == list_view(messages@),
{
    let mut copy: Vec<Json> = Vec::new();
    let mut i: usize = 0;
    while i < messages.len()
        invariant
            i <= messages.len(),
            copy.len() == i,
            forall|j: int| 0 <= j < i ==> (#[trigger] copy@[j])@ == messages@[j]@,
        decreases messages.len() - i,
    {
        copy.push(messages[i].clone());
        i += 1;
    }
    proof {
        crate::json::lemma_list_view(copy@);
        crate::json::lemma_list_view(messages@);
    }
    assert(list_view(copy@) =~= list_view(messages@));
    copy
}

pub open spec fn opt_json(text: Option<Seq<char>>) -> JsonView {
    match text {
        Some(text) => jtext(text),
        None => JsonView::Null,
    }
}

pub(crate) fn text_or_null(text: &Option<String>) -> (out: Json)
    ensures
        out@ == opt_json(opt_text(*text)),
{
    match text {
        Some(text) => Json::text(text.as_str()),
        None => Json::Null,
    }
}

/// What others are told of a run.
pub open spec fn record_json(run: RecordView) -> JsonView {
    jobject().with("runId"@, jtext(run.run_id)).with("state"@, jtext(run.status.label())).with(
        "prompt"@,
        jtext(run.prompt),
    ).with("workspace"@, jtext(run.workspace)).with("modelId"@, opt_json(run.model_id)).with(
        "harness"@,
        opt_json(run.harness),
    ).with("sourceDeviceId"@, opt_json(run.source_device_id)).with(
        "createdAtEpochMillis"@,
        JsonView::Number(crate::json::number_of(run.created_at_epoch_millis)),
    ).with(
        "updatedAtEpochMillis"@,
        JsonView::Number(crate::json::number_of(run.updated_at_epoch_millis)),
    ).with("finalOutput"@, opt_json(run.final_output)).with("error"@, opt_json(run.error))
}

pub fn worker_tool_call_event(call: &LocalToolCall) -> (event: WorkerRunEvent)
    ensures
        event@ == (RunEventView::ToolCall {
            id: call@.id,
            name: call@.name,
            arguments: call@.arguments,
        }),
{
    WorkerRunEvent::ToolCall {
        id: call.id.clone(),
        name: call.name.clone(),
        arguments: call.arguments.clone(),
    }
}

pub fn worker_tool_result_event(event: &LocalToolEvent) -> (out: WorkerRunEvent)
    ensures
        out@ == (RunEventView::ToolResult {
            id: event@.result.tool_call_id,
            name: event@.result.name,
            summary: summary_of(event@.result.content),
        }),
{
    WorkerRunEvent::ToolResult {
        id: event.result.tool_call_id.clone(),
        name: event.result.name.clone(),
        summary: summarize_tool_result(event.result.content.as_str()),
    }
}

/// Something that happens to a run.
pub ghost enum Happening {
    Started,
    ToolCalled(ToolCallView),
    ToolFinished(ToolEventView),
    Completed(RunView),
    Failed(Seq<char>),
    Cancelled,
}

pub open spec fn happened(run: RecordView, what: Happening, now: u64) -> RecordView {
    match what {
        Happening::Started => run.started(now),
        Happening::ToolCalled(call) => run.tool_called(call, now),
        Happening::ToolFinished(event) => run.tool_finished(event, now),
        Happening::Completed(done) => run.completed(done, now),
        Happening::Failed(message) => run.failed(message, now),
        Happening::Cancelled => run.cancelled(now),
    }
}

/// How often a run told that it is over.
pub open spec fn endings(events: Seq<RunEventView>) -> nat
    decreases events.len(),
{
    if events.len() == 0 {
        0
    } else {
        endings(events.drop_last()) + if events.last() is Finished {
            1nat
        } else {
            0nat
        }
    }
}

/// A run that is over told so once, and one that is not over did not.
pub open spec fn ends_once(run: RecordView) -> bool {
    endings(run.events) == if run.status.over() {
        1nat
    } else {
        0nat
    }
}

proof fn lemma_endings(events: Seq<RunEventView>, event: RunEventView)
    ensures
        endings(events.push(event)) == endings(events) + if event is Finished {
            1nat
        } else {
            0nat
        },
{
    assert(events.push(event).drop_last() =~= events);
}

/// A run tells once that it is over, when it is, whatever happens to it in whatever order.
pub proof fn law_runs_end_once(run: RecordView, what: Happening, now: u64)
    requires
        ends_once(run),
    ensures
        ends_once(happened(run, what, now)),
{
    match what {
        Happening::Started => {
            lemma_endings(run.events, RunEventView::State("running"@));
        },
        Happening::ToolCalled(call) => {
            lemma_endings(run.events, happened(run, what, now).events.last());
        },
        Happening::ToolFinished(event) => {
            lemma_endings(run.events, happened(run, what, now).events.last());
        },
        Happening::Completed(done) => {
            let thought = run.with_text(
                done.reasoning,
                RunEventView::ReasoningDelta(done.reasoning),
                now,
            );
            let said = thought.with_text(done.output, RunEventView::OutputDelta(done.output), now);
            lemma_endings(run.events, RunEventView::ReasoningDelta(done.reasoning));
            lemma_endings(thought.events, RunEventView::OutputDelta(done.output));
            lemma_endings(said.events, RunEventView::State("succeeded"@));
            lemma_endings(
                said.events.push(RunEventView::State("succeeded"@)),
                RunEventView::Finished("succeeded"@),
            );
        },
        Happening::Failed(message) => {
            let told = run.events.push(RunEventView::Error(message));
            lemma_endings(run.events, RunEventView::Error(message));
            lemma_endings(told, RunEventView::State("failed"@));
            lemma_endings(
                told.push(RunEventView::State("failed"@)),
                RunEventView::Finished("failed"@),
            );
        },
        Happening::Cancelled => {
            lemma_endings(run.events, RunEventView::State("cancelled"@));
            lemma_endings(
                run.events.push(RunEventView::State("cancelled"@)),
                RunEventView::Finished("cancelled"@),
            );
        },
    }
}

/// A new run has not told that it is over.
pub proof fn law_new_runs_are_open(run_id: Seq<char>, request: CreateView, workspace: Seq<char>, now: u64)
    ensures
        ends_once(new_record(run_id, request, workspace, now)),
        !new_record(run_id, request, workspace, now).status.over(),
{
    let events = seq![RunEventView::State("pending"@)];
    assert(events.drop_last() =~= seq![]);
    assert(endings(events.drop_last()) == 0);
}

/// Once a run is over, nothing that happens changes how it ended, and what it told stays told.
pub proof fn law_endings_are_final(run: RecordView, what: Happening, now: u64)
    requires
        run.status.over(),
    ensures
        happened(run, what, now).status == run.status,
        happened(run, what, now).final_output == run.final_output,
        happened(run, what, now).error == run.error,
        run.events.is_prefix_of(happened(run, what, now).events),
{
    let after = happened(run, what, now).events;
    assert(run.events =~= after.take(run.events.len() as int));
}

/// The runs that this machine does for others, by their names.
#[derive(Debug)]
pub struct WorkerRunStore {
    runs: TextMap<WorkerRunRecord>,
}

impl View for WorkerRunStore {
    type V = Map<Seq<char>, WorkerRunRecord>;

    closed spec fn view(&self) -> Map<Seq<char>, WorkerRunRecord> {
        self.runs@
    }
}

/// What another machine is told of a run that was created for it.
pub open spec fn created_json(run_id: Seq<char>) -> JsonView {
    jobject().with("runId"@, jtext(run_id)).with("state"@, jtext("pending"@)).with(
        "eventsUrl"@,
        jtext("/worker/runs/"@ + run_id + "/events"@),
    )
}

fn created_response(run_id: &str) -> (out: Json)
    ensures
        out@ == created_json(run_id@),
{
    let mut url = "/worker/runs/".to_owned();
    url.append(run_id);
    url.append("/events");
    Json::object().with("runId", Json::text(run_id)).with("state", Json::text("pending")).with(
        "eventsUrl",
        Json::text(url.as_str()),
    )
}

impl WorkerRunStore {
    pub closed spec fn well_formed(&self) -> bool {
        self.runs.well_formed()
    }

    pub fn new() -> (store: Self)
        ensures
            store.well_formed(),
            store@ == Map::<Seq<char>, WorkerRunRecord>::empty(),
    {
        WorkerRunStore { runs: TextMap::new() }
    }

    /// Adds a run under a name; what the other machine is told.
    pub fn create_as(
        &mut self,
        run_id: String,
        request: WorkerRunCreateRequest,
        workspace: String,
        now: u64,
    ) -> (out: Json)
        requires
            old(self).well_formed(),
        ensures
            final(self).well_formed(),
            out@ == created_json(run_id@),
            final(self)@.contains_key(run_id@),
            final(self)@[run_id@]@ == new_record(run_id@, request@, workspace@, now),
            final(self)@ == old(self)@.insert(run_id@, final(self)@[run_id@]),
    {
        let response = created_response(run_id.as_str());
        let run = WorkerRunRecord::new(run_id.clone(), request, workspace, now);
        self.runs.insert(run_id, run);
        response
    }

    /// Adds a run under a new name; the name, and what the other machine is told.
    pub fn start_worker_run(
        &mut self,
        request: WorkerRunCreateRequest,
        workspace: String,
        now: u64,
    ) -> (out: (String, Json))
        requires
            old(self).well_formed(),
        ensures
            final(self).well_formed(),
            exists|id: u128| is_random_id(id) && out.0@ == #[trigger] hyphenated(id),
            out.1@ == created_json(out.0@),
            final(self)@.contains_key(out.0@),
            final(self)@[out.0@]@ == new_record(out.0@, request@, workspace@, now),
            final(self)@ == old(self)@.insert(out.0@, final(self)@[out.0@]),
    {
        let run_id = new_id_text();
        let response = self.create_as(run_id.clone(), request, workspace, now);
        (run_id, response)
    }

    /// A run.
    pub fn get_worker_run(&self, run_id: &str) -> (out: Result<&WorkerRunRecord, Refusal>)
        requires
            self.well_formed(),
        ensures
            match out {
                Ok(run) => self@.contains_key(run_id@) && *run == self@[run_id@],
                Err(refusal) => !self@.contains_key(run_id@) && is_refusal(
                    refusal,
                    404,
                    "worker run was not found"@,
                ),
            },
    {
        match self.runs.get(run_id) {
            Some(run) => Ok(run),
            None => Err(refuse(404, "worker run was not found")),
        }
    }

    /// A run, to be changed.
    pub fn run_mut(&mut self, run_id: &str) -> (out: Option<&mut WorkerRunRecord>)
        requires
            old(self).well_formed(),
        ensures
            match out {
                Some(run) => old(self)@.contains_key(run_id@) && *run == old(self)@[run_id@]
                    && final(self).well_formed() && final(self)@ == old(self)@.insert(
                    run_id@,
                    *final(run),
                ),
                None => !old(self)@.contains_key(run_id@) && *final(self) == *old(self),
            },
    {
        self.runs.get_mut(run_id)
    }

    /// Calls a run off; what the other machine is told of it.
    pub fn cancel_worker_run(&mut self, run_id: &str, now: u64) -> (out: Result<Json, Refusal>)
        requires
            old(self).well_formed(),
        ensures
            final(self).well_formed(),
            match out {
                Ok(told) => {
                    &&& old(self)@.contains_key(run_id@)
                    &&& final(self)@ == old(self)@.insert(run_id@, final(self)@[run_id@])
                    &&& final(self)@[run_id@]@ == old(self)@[run_id@]@.cancelled(now)
                    &&& told@ == record_json(old(self)@[run_id@]@.cancelled(now))
                },
                Err(refusal) => !old(self)@.contains_key(run_id@) && *final(self) == *old(self)
                    && is_refusal(refusal, 404, "worker run was not found"@),
            },
    {
        match self.runs.get_mut(run_id) {
            Some(run) => {
                run.cancel(now);
                Ok(run.status_response())
            },
            None => Err(refuse(404, "worker run was not found")),
        }
    }

    /// The request that goes on with a run.
    pub fn followup_worker_run(&self, run_id: &str, prompt: String) -> (out: Result<
        WorkerRunCreateRequest,
        Refusal,
    >)
        requires
            self.well_formed(),
        ensures
            match out {
                Ok(request) => {
                    &&& self@.contains_key(run_id@)
                    &&& self@[run_id@]@.status.over()
                    &&& request@ == (CreateView {
                        prompt: prompt@,
                        workspace: Some(self@[run_id@]@.workspace),
                        model_id: self@[run_id@]@.model_id,
                        harness: self@[run_id@]@.harness,
                        source_device_id: self@[run_id@]@.source_device_id,
                        context: self@[run_id@]@.context,
                    })
                },
                Err(refusal) => if self@.contains_key(run_id@) {
                    !self@[run_id@]@.status.over() && is_refusal(
                        refusal,
                        409,
                        "cannot follow up while the worker run is still active"@,
                    )
                } else {
                    is_refusal(refusal, 404, "worker run was not found"@)
                },
            },
    {
        match self.runs.get(run_id) {
            Some(run) => run.followup_request(prompt),
            None => Err(refuse(404, "worker run was not found")),
        }
    }

    /// What is told of a run so far, and whether more may come.
    pub fn worker_run_events(&self, run_id: &str) -> (out: Result<(Vec<WorkerRunEvent>, bool), Refusal>)
        requires
            self.well_formed(),
        ensures
            match out {
                Ok((events, more)) => self@.contains_key(run_id@) && event_views(events@)
                    == self@[run_id@]@.events && more == !self@[run_id@]@.status.over(),
                Err(refusal) => !self@.contains_key(run_id@) && is_refusal(
                    refusal,
                    404,
                    "worker run was not found"@,
                ),
            },
    {
        match self.runs.get(run_id) {
            Some(run) => Ok((copy_events(run.events()), !run.status().is_terminal())),
            None => Err(refuse(404, "worker run was not found")),
        }
    }
}

fn copy_events(events: &Vec<WorkerRunEvent>) -> (copy: Vec<WorkerRunEvent>)
    ensures
        event_views(copy@) == event_views(events@),
{
    let mut copy: Vec<WorkerRunEvent> = Vec::new();
    let mut i: usize = 0;
    while i < events.len()
        invariant
            i <= events.len(),
            copy.len() == i,
            forall|j: int| 0 <= j < i ==> (#[trigger] copy@[j])@ == events@[j]@,
        decreases events.len() - i,
    {
        copy.push(events[i].clone());
        i += 1;
    }
    assert(event_views(copy@) =~= event_views(events@));
    copy
}

/// Going on with a run keeps its conversation: the tool calls and results of the run come before
/// the new prompt.
pub proof fn law_followups_keep_the_conversation(
    run: RecordView,
    prompt: Seq<char>,
    run_id: Seq<char>,
    workspace: Seq<char>,
    now: u64,
)
    ensures
        ({
            let request = CreateView {
                prompt,
                workspace: Some(run.workspace),
                model_id: run.model_id,
                harness: run.harness,
                source_device_id: run.source_device_id,
                context: run.context,
            };
            new_record(run_id, request, workspace, now).context == normal_messages(
                run.context,
            ).push(said_by("user"@, prompt))
        }),
{
}

} // verus!
