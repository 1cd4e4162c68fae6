//! Runs that other machines do for this one.

use vstd::prelude::*;

use crate::account::opt_str;
use crate::chat::provider::{trim_end_slashes, without_slashes};
use crate::clock::now_rfc3339;
use crate::discovery::workers::{
    WorkerStore, WorkerView, is_answer, names_no_machine, stands_for_this_machine,
};
use crate::json::{
    Json, JsonView, jlist, jobject, json_parsed, jtext, lemma_list_view, list_view, name_texts,
    named, number_of, text_field, wrong_length, wrong_type,
};
use crate::runs::events::{RunEventView, WorkerRunEvent, event_views};
use crate::runs::worker::{nonblank_opt, opt_json, text_or_null};
use crate::runs::{Refusal, is_refusal, refuse};
use crate::text::{
    byte_len, bytes_in, cut_to_bytes, fitting, is_before, is_blank, nonblank, opt_text, same,
    starts_with, text_before, trim, trim_nonblank, trimmed,
};
use crate::text_map::TextMap;

verus! {

/// How many bytes of a message show how far a run has come.
pub const MAX_STATUS_BYTES: usize = 500;

/// How far a run has come.
#[derive(Debug, Clone, Copy, PartialEq, Eq, Structural)]
pub enum CloudAgentRunState {
    Pending,
    InProgress,
    Succeeded,
    Failed,
    Cancelled,
}

impl CloudAgentRunState {
    /// The state that a worker tells.
    pub open spec fn told(state: Seq<char>) -> Option<CloudAgentRunState> {
        if state == "pending"@ {
            Some(CloudAgentRunState::Pending)
        } else if state == "running"@ {
            Some(CloudAgentRunState::InProgress)
        } else if state == "succeeded"@ {
            Some(CloudAgentRunState::Succeeded)
        } else if state == "failed"@ {
            Some(CloudAgentRunState::Failed)
        } else if state == "cancelled"@ {
            Some(CloudAgentRunState::Cancelled)
        } else {
            None
        }
    }

    pub open spec fn over(self) -> bool {
        self is Succeeded || self is Failed || self is Cancelled
    }

    pub open spec fn label(self) -> Seq<char> {
        match self {
            CloudAgentRunState::Pending => "Pending"@,
            CloudAgentRunState::InProgress => "InProgress"@,
            CloudAgentRunState::Succeeded => "Succeeded"@,
            CloudAgentRunState::Failed => "Failed"@,
            CloudAgentRunState::Cancelled => "Cancelled"@,
        }
    }

    /// What the user is told of a state.
    pub open spec fn message(self) -> Seq<char> {
        match self {
            CloudAgentRunState::Pending => "Queued on WarpSOLO worker"@,
            CloudAgentRunState::InProgress => "Running on WarpSOLO worker"@,
            CloudAgentRunState::Succeeded => "Worker run completed"@,
            CloudAgentRunState::Failed => "Worker run failed"@,
            CloudAgentRunState::Cancelled => "Worker run cancelled"@,
        }
    }

    /// The state that a worker tells.
    pub fn from_worker_state(state: &str) -> (out: Option<Self>)
        ensures
            out == CloudAgentRunState::told(state@),
    {
        if same(state, "pending") {
            Some(CloudAgentRunState::Pending)
        } else if same(state, "running") {
            Some(CloudAgentRunState::InProgress)
        } else if same(state, "succeeded") {
            Some(CloudAgentRunState::Succeeded)
        } else if same(state, "failed") {
            Some(CloudAgentRunState::Failed)
        } else if same(state, "cancelled") {
            Some(CloudAgentRunState::Cancelled)
        } else {
            None
        }
    }

    pub fn as_api_str(self) -> (name: &'static str)
        ensures
            name@ == self.label(),
    {
        match self {
            CloudAgentRunState::Pending => "Pending",
            CloudAgentRunState::InProgress => "InProgress",
            CloudAgentRunState::Succeeded => "Succeeded",
            CloudAgentRunState::Failed => "Failed",
            CloudAgentRunState::Cancelled => "Cancelled",
        }
    }

    pub fn is_terminal(self) -> (yes: bool)
        ensures
            yes == self.over(),
    {
        matches!(
            self,
            CloudAgentRunState::Succeeded
                | CloudAgentRunState::Failed
                | CloudAgentRunState::Cancelled
        )
    }
}

/// What the user is told of a state.
pub fn status_message_for_state(state: CloudAgentRunState) -> (message: String)
    ensures
        message@ == state.message(),
{
    match state {
        CloudAgentRunState::Pending => "Queued on WarpSOLO worker".to_owned(),
        CloudAgentRunState::InProgress => "Running on WarpSOLO worker".to_owned(),
        CloudAgentRunState::Succeeded => "Worker run completed".to_owned(),
        CloudAgentRunState::Failed => "Worker run failed".to_owned(),
        CloudAgentRunState::Cancelled => "Worker run cancelled".to_owned(),
    }
}

/// A state that a worker names is known again under the name that it gives it.
pub proof fn law_worker_states_are_known(status: crate::runs::worker::WorkerRunStatus)
    ensures
        CloudAgentRunState::told(status.label()) is Some,
        CloudAgentRunState::told(status.label())->0.over() == status.over(),
{
    reveal_strlit("pending");
    reveal_strlit("running");
    reveal_strlit("succeeded");
    reveal_strlit("failed");
    reveal_strlit("cancelled");
    assert("pending"@.len() == 7 && "running"@.len() == 7 && "succeeded"@.len() == 9
        && "failed"@.len() == 6 && "cancelled"@.len() == 9);
    assert("pending"@[0] != "running"@[0]);
    assert("succeeded"@[0] != "cancelled"@[0]);
}

/// A message that is short enough to show how far a run has come.
pub open spec fn short_message(message: Seq<char>) -> Seq<char> {
    if bytes_in(message) <= MAX_STATUS_BYTES {
        message
    } else {
        fitting(message, MAX_STATUS_BYTES as nat) + "..."@
    }
}

/// A message that is short enough to show how far a run has come.
pub fn truncate_status_message(message: &str) -> (out: String)
    ensures
        out@ == short_message(message@),
{
    if byte_len(message) <= MAX_STATUS_BYTES {
        return message.to_owned();
    }
    let mut out = cut_to_bytes(message, MAX_STATUS_BYTES).to_owned();
    out.append("...");
    out
}

/// The text without slashes at its start.
pub open spec fn without_start_slashes(s: Seq<char>) -> Seq<char>
    decreases s.len(),
{
    if s.len() > 0 && s[0] == '/' {
        without_start_slashes(s.skip(1))
    } else {
        s
    }
}

fn trim_start_slashes(s: &str) -> (out: &str)
    ensures
        out@ == without_start_slashes(s@),
{
    let len: usize = s.unicode_len();
    let mut start: usize = 0;
    assert(s@.skip(0) =~= s@);
    while start < len && s.get_char(start) == '/'
        invariant
            start <= len == s@.len(),
            without_start_slashes(s@) == without_start_slashes(s@.skip(start as int)),
        decreases len - start,
    {
        assert(s@.skip(start as int).skip(1) =~= s@.skip(start + 1));
        start += 1;
    }
    let out = s.substring_char(start, len);
    assert(out@ =~= s@.skip(start as int));
    out
}

/// The address of a path on a worker; a path that is an address already stays as it is.
pub open spec fn worker_path(worker_url: Seq<char>, path: Seq<char>) -> Seq<char> {
    if "http://"@.is_prefix_of(path) || "https://"@.is_prefix_of(path) {
        path
    } else {
        without_slashes(worker_url) + "/"@ + without_start_slashes(path)
    }
}

/// The address of a path on a worker.
pub fn join_worker_url(worker_url: &str, path: &str) -> (url: String)
    ensures
        url@ == worker_path(worker_url@, path@),
{
    if starts_with(path, "http://") || starts_with(path, "https://") {
        return path.to_owned();
    }
    let mut url = trim_end_slashes(worker_url).to_owned();
    url.append("/");
    url.append(trim_start_slashes(path));
    url
}

/// The address of what is done with a run of a worker.
pub fn worker_run_url(worker_url: &str, worker_run_id: &str, action: &str) -> (url: String)
    ensures
        url@ == worker_path(worker_url@, "/worker/runs/"@ + worker_run_id@ + "/"@ + action@),
{
    let mut path = "/worker/runs/".to_owned();
    path.append(worker_run_id);
    path.append("/");
    path.append(action);
    join_worker_url(worker_url, path.as_str())
}

/// Slashes where an address and a path meet make no difference.
pub proof fn law_slashes_between_do_not_matter(worker_url: Seq<char>, path: Seq<char>)
    ensures
        worker_path(worker_url.push('/'), path) == worker_path(worker_url, path),
        !"http://"@.is_prefix_of(path) && !"https://"@.is_prefix_of(path) ==> worker_path(
            worker_url,
            seq!['/'] + path,
        ) == worker_path(worker_url, path),
{
    reveal_strlit("http://");
    reveal_strlit("https://");
    assert(worker_url.push('/').drop_last() =~= worker_url);
    let slashed = seq!['/'] + path;
    assert(slashed.skip(1) =~= path);
    assert(slashed[0] == '/');
    if "http://"@.is_prefix_of(slashed) {
        assert(slashed.take(7)[0] == 'h');
    }
    if "https://"@.is_prefix_of(slashed) {
        assert(slashed.take(8)[0] == 'h');
    }
}

/// The text of a setting, if it says anything.
pub open spec fn setting_text(config: Option<JsonView>, key: Seq<char>) -> Option<Seq<char>> {
    match config {
        Some(config) => nonblank_opt(config.get_text(key)),
        None => None,
    }
}

fn text_setting(config: Option<&Json>, key: &str) -> (out: Option<String>)
    ensures
        opt_text(out) == setting_text(config_view(config), key@),
{
    match config {
        Some(config) => match config.get_text(key) {
            Some(text) => trim_nonblank(text),
            None => None,
        },
        None => None,
    }
}

pub open spec fn config_view(config: Option<&Json>) -> Option<JsonView> {
    match config {
        Some(config) => Some(config@),
        None => None,
    }
}

/// The host that a run is to be done on.
pub open spec fn host_of(config: Option<JsonView>) -> Seq<char> {
    match setting_text(config, "worker_host"@) {
        Some(host) => host,
        None => "warp"@,
    }
}

/// The host that a run is to be done on.
pub fn worker_host_from_config(config: Option<&Json>) -> (host: String)
    ensures
        host@ == host_of(config_view(config)),
{
    match text_setting(config, "worker_host") {
        Some(host) => host,
        None => "warp".to_owned(),
    }
}

/// The model that a run is to be done with.
pub fn model_id_from_config(config: Option<&Json>) -> (model: Option<String>)
    ensures
        opt_text(model) == setting_text(config_view(config), "model_id"@),
{
    text_setting(config, "model_id")
}

/// What a worker is asked to do.
pub open spec fn ask_json(
    prompt: Seq<char>,
    workspace: Seq<char>,
    model_id: Option<Seq<char>>,
    harness: Option<Seq<char>>,
    device_id: Seq<char>,
) -> JsonView {
    jobject().with("prompt"@, jtext(prompt)).with("workspace"@, jtext(workspace)).with(
        "modelId"@,
        opt_json(model_id),
    ).with("harness"@, opt_json(harness)).with("sourceDeviceId"@, jtext(device_id))
}

/// What a worker is asked to do.
pub fn worker_create_request(
    prompt: &str,
    workspace: &str,
    model_id: &Option<String>,
    harness: &Option<String>,
    device_id: &str,
) -> (out: Json)
    ensures
        out@ == ask_json(prompt@, workspace@, opt_text(*model_id), opt_text(*harness), device_id@),
{
    Json::object().with("prompt", Json::text(prompt)).with("workspace", Json::text(workspace)).with(
        "modelId",
        text_or_null(model_id),
    ).with("harness", text_or_null(harness)).with("sourceDeviceId", Json::text(device_id))
}

/// A run that a worker has created.
#[derive(Debug)]
pub struct WorkerRunCreated {
    pub run_id: String,
    pub events_url: String,
}

/// The run that the members of a value tell of.
pub open spec fn created_of(value: JsonView) -> Result<(Seq<char>, Seq<char>), Seq<char>> {
    match (text_field(value, "runId"@), text_field(value, "eventsUrl"@)) {
        (Ok(run_id), Ok(url)) => Ok((run_id, url)),
        (Err(why), _) => Err(why),
        (_, Err(why)) => Err(why),
    }
}

/// The run that a worker says it has created, or why its answer cannot be read. The answer is an
/// object, or a list of the same in its order.
pub open spec fn read_created(body: Seq<char>) -> Result<(Seq<char>, Seq<char>), Seq<char>> {
    match json_parsed(body) {
        Err(why) => Err(why),
        Ok(JsonView::List(items)) => if items.len() != 2 {
            Err(wrong_length(items.len(), 2))
        } else {
            created_of(named(items, seq!["runId"@, "eventsUrl"@]))
        },
        Ok(JsonView::Object(members)) => created_of(JsonView::Object(members)),
        Ok(other) => Err(wrong_type(other, "struct WorkerRunCreateResponse"@)),
    }
}

/// The view of a run that was read, or not.
pub open spec fn created_outcome(out: Result<WorkerRunCreated, String>) -> Result<
    (Seq<char>, Seq<char>),
    Seq<char>,
> {
    match out {
        Ok(created) => Ok((created.run_id@, created.events_url@)),
        Err(why) => Err(why@),
    }
}

fn created_from(value: &Json) -> (out: Result<WorkerRunCreated, String>)
    ensures
        created_outcome(out) == created_of(value@),
{
    let run_id = value.text_field("runId")?;
    let events_url = value.text_field("eventsUrl")?;
    Ok(WorkerRunCreated { run_id, events_url })
}

/// The run that a worker says it has created.
pub fn parse_worker_create_response(body: &str) -> (out: Result<WorkerRunCreated, String>)
    ensures
        created_outcome(out) == read_created(body@),
{
    let value = Json::parse(body)?;
    match &value {
        Json::List(items) => {
            let mut names: Vec<&'static str> = Vec::new();
            names.push("runId");
            names.push("eventsUrl");
            proof {
                lemma_list_view(items@);
                assert(name_texts(names@) =~= seq!["runId"@, "eventsUrl"@]);
                assert(list_view(items@).skip(0) =~= list_view(items@));
            }
            let told = Json::named(items, 0, &names)?;
            created_from(&told)
        },
        Json::Object(_) => created_from(&value),
        _ => Err(value.wrong_type("struct WorkerRunCreateResponse")),
    }
}

/// The run that a worker says it has created, or what the client is answered. `status` is the
/// worker's status as it is written.
pub fn created_or_refusal(success: bool, status: &str, body: &str) -> (out: Result<
    WorkerRunCreated,
    Refusal,
>)
    ensures
        match out {
            Ok(created) => success && read_created(body@) == Ok::<
                (Seq<char>, Seq<char>),
                Seq<char>,
            >((created.run_id@, created.events_url@)),
            Err(refusal) => if success {
                &&& read_created(body@) matches Err(why)
                &&& is_refusal(refusal, 502, "failed to parse worker response: "@ + why)
            } else {
                is_refusal(refusal, 502, "worker returned "@ + status@ + ": "@ + body@)
            },
        },
{
    if !success {
        let mut message = "worker returned ".to_owned();
        message.append(status);
        message.append(": ");
        message.append(body);
        return Err(Refusal { status: 502, message });
    }
    match parse_worker_create_response(body) {
        Ok(created) => Ok(created),
        Err(why) => {
            let mut message = "failed to parse worker response: ".to_owned();
            message.append(why.as_str());
            Err(Refusal { status: 502, message })
        },
    }
}

/// A run that another machine does for this one.
#[derive(Debug)]
pub struct CloudAgentRunRecord {
    pub run_id: String,
    pub worker_url: String,
    pub worker_run_id: String,
    pub worker_host: String,
    pub prompt: String,
    pub title: String,
    pub workspace: String,
    pub config: Option<Json>,
    pub state: CloudAgentRunState,
    pub status_message: Option<String>,
    pub final_output: Option<String>,
    pub created_at: String,
    pub started_at: Option<String>,
    pub updated_at: String,
}

/// The mathematical content of a [`CloudAgentRunRecord`].
#[verifier::ext_equal]
pub ghost struct CloudRunView {
    pub run_id: Seq<char>,
    pub worker_url: Seq<char>,
    pub worker_run_id: Seq<char>,
    pub worker_host: Seq<char>,
    pub prompt: Seq<char>,
    pub title: Seq<char>,
    pub workspace: Seq<char>,
    pub config: Option<JsonView>,
    pub state: CloudAgentRunState,
    pub status_message: Option<Seq<char>>,
    pub final_output: Option<Seq<char>>,
    pub created_at: Seq<char>,
    pub started_at: Option<Seq<char>>,
    pub updated_at: Seq<char>,
}

pub open spec fn opt_json_view(value: Option<Json>) -> Option<JsonView> {
    match value {
        Some(value) => Some(value@),
        None => None,
    }
}

impl View for CloudAgentRunRecord {
    type V = CloudRunView;

    open spec fn view(&self) -> CloudRunView {
        CloudRunView {
            run_id: self.run_id@,
            worker_url: self.worker_url@,
            worker_run_id: self.worker_run_id@,
            worker_host: self.worker_host@,
            prompt: self.prompt@,
            title: self.title@,
            workspace: self.workspace@,
            config: opt_json_view(self.config),
            state: self.state,
            status_message: opt_text(self.status_message),
            final_output: opt_text(self.final_output),
            created_at: self.created_at@,
            started_at: opt_text(self.started_at),
            updated_at: self.updated_at@,
        }
    }
}

impl Clone for CloudAgentRunRecord {
    fn clone(&self) -> (copy: Self)
        ensures
            copy@ == self@,
    {
        let config = match &self.config {
            Some(config) => Some(config.clone()),
            None => None,
        };
        CloudAgentRunRecord {
            run_id: self.run_id.clone(),
            worker_url: self.worker_url.clone(),
            worker_run_id: self.worker_run_id.clone(),
            worker_host: self.worker_host.clone(),
            prompt: self.prompt.clone(),
            title: self.title.clone(),
            workspace: self.workspace.clone(),
            config,
            state: self.state,
            status_message: self.status_message.clone(),
            final_output: self.final_output.clone(),
            created_at: self.created_at.clone(),
            started_at: self.started_at.clone(),
            updated_at: self.updated_at.clone(),
        }
    }
}

impl CloudRunView {
    /// The run in a state, with what the user is told of it.
    pub open spec fn in_state(self, state: CloudAgentRunState, message: Seq<char>, now: Seq<char>) -> CloudRunView {
        CloudRunView {
            state,
            started_at: if state is InProgress && self.started_at is None {
                Some(now)
            } else {
                self.started_at
            },
            status_message: Some(message),
            updated_at: now,
            ..self
        }
    }

    pub open spec fn with_message(self, message: Seq<char>, now: Seq<char>) -> CloudRunView {
        CloudRunView { status_message: Some(message), updated_at: now, ..self }
    }

    /// The run after its worker told something.
    pub open spec fn told(self, event: RunEventView, now: Seq<char>) -> CloudRunView {
        match event {
            RunEventView::State(state) => match CloudAgentRunState::told(state) {
                Some(state) => self.in_state(state, state.message(), now),
                None => self,
            },
            RunEventView::ToolCall { id, name, .. } => self.with_message(
                "Running tool "@ + name + " ("@ + id + ")"@,
                now,
            ),
            RunEventView::ToolResult { id, name, summary } => self.with_message(
                "Finished tool "@ + name + " ("@ + id + "): "@ + short_message(summary),
                now,
            ),
            RunEventView::ReasoningDelta(text) => if is_blank(text) {
                self
            } else {
                self.with_message(short_message(text), now)
            },
            RunEventView::OutputDelta(text) => CloudRunView {
                final_output: Some(text),
                ..self.with_message(short_message(text), now)
            },
            RunEventView::Error(message) => self.in_state(
                CloudAgentRunState::Failed,
                message,
                now,
            ),
            RunEventView::Finished(state) => {
                let ended = match CloudAgentRunState::told(state) {
                    Some(state) => state,
                    None => CloudAgentRunState::Succeeded,
                };
                self.in_state(ended, ended.message(), now)
            },
        }
    }

    /// The run after its worker told several things, and whether that was all. What is told behind
    /// the end is passed over.
    pub open spec fn told_all(self, events: Seq<RunEventView>, now: Seq<char>) -> (CloudRunView, bool)
        decreases events.len(),
    {
        if events.len() == 0 {
            (self, false)
        } else {
            let (run, over) = self.told_all(events.drop_last(), now);
            if over {
                (run, over)
            } else {
                (run.told(events.last(), now), events.last() is Finished)
            }
        }
    }

    /// Nothing is taken in behind the end.
    proof fn lemma_ends_stay(self, events: Seq<RunEventView>, n: int, now: Seq<char>)
        requires
            0 <= n <= events.len(),
            self.told_all(events.take(n), now).1,
        ensures
            self.told_all(events, now) == self.told_all(events.take(n), now),
        decreases events.len() - n,
    {
        if n < events.len() {
            assert(events.take(n + 1).drop_last() =~= events.take(n));
            self.lemma_ends_stay(events, n + 1, now);
        } else {
            assert(events.take(n) =~= events);
        }
    }

    /// The run after the user went on with it.
    pub open spec fn followed_up(self, worker_run_id: Seq<char>, prompt: Seq<char>, now: Seq<char>) -> CloudRunView {
        CloudRunView {
            worker_run_id,
            prompt,
            state: CloudAgentRunState::Pending,
            status_message: Some("Queued follow-up on WarpSOLO worker"@),
            final_output: None,
            started_at: None,
            updated_at: now,
            ..self
        }
    }
}

impl CloudAgentRunRecord {
    pub fn set_state(&mut self, state: CloudAgentRunState, message: String, now: &str)
        ensures
            final(self)@ == old(self)@.in_state(state, message@, now@),
    {
        self.state = state;
        if state == CloudAgentRunState::InProgress && self.started_at.is_none() {
            self.started_at = Some(now.to_owned());
        }
        self.status_message = Some(message);
        self.updated_at = now.to_owned();
    }

    fn set_message(&mut self, message: String, now: &str)
        ensures
            final(self)@ == old(self)@.with_message(message@, now@),
    {
        self.status_message = Some(message);
        self.updated_at = now.to_owned();
    }

    /// Takes in what the worker told; whether it is done.
    pub fn relay(&mut self, event: &WorkerRunEvent, now: &str) -> (finished: bool)
        ensures
            final(self)@ == old(self)@.told(event@, now@),
            finished == (event@ is Finished),
    {
        match event {
            WorkerRunEvent::State { state } => {
                if let Some(state) = CloudAgentRunState::from_worker_state(state.as_str()) {
                    self.set_state(state, status_message_for_state(state), now);
                }
            },
            WorkerRunEvent::ToolCall { id, name, .. } => {
                let mut message = "Running tool ".to_owned();
                message.append(name.as_str());
                message.append(" (");
                message.append(id.as_str());
                message.append(")");
                self.set_message(message, now);
            },
            WorkerRunEvent::ToolResult { id, name, summary } => {
                let mut message = "Finished tool ".to_owned();
                message.append(name.as_str());
                message.append(" (");
                message.append(id.as_str());
                message.append("): ");
                message.append(truncate_status_message(summary.as_str()).as_str());
                self.set_message(message, now);
            },
            WorkerRunEvent::ReasoningDelta { text } => {
                if !trim(text.as_str()).is_empty() {
                    self.set_message(truncate_status_message(text.as_str()), now);
                }
            },
            WorkerRunEvent::OutputDelta { text } => {
                self.final_output = Some(text.clone());
                self.set_message(truncate_status_message(text.as_str()), now);
            },
            WorkerRunEvent::Error { message } => {
                self.set_state(CloudAgentRunState::Failed, message.clone(), now);
            },
            WorkerRunEvent::Finished { state } => {
                let ended = match CloudAgentRunState::from_worker_state(state.as_str()) {
                    Some(state) => state,
                    None => CloudAgentRunState::Succeeded,
                };
                self.set_state(ended, status_message_for_state(ended), now);
                return true;
            },
        }
        false
    }

    /// Takes in what the worker told; whether it is done.
    pub fn relay_all(&mut self, events: &Vec<WorkerRunEvent>, now: &str) -> (finished: bool)
        ensures
            (final(self)@, finished) == old(self)@.told_all(event_views(events@), now@),
    {
        let ghost all = event_views(events@);
        let ghost before = self@;
        assert(all.take(0) =~= seq![]);
        let mut i: usize = 0;
        while i < events.len()
            invariant
                i <= events.len(),
                all == event_views(events@),
                (self@, false) == before.told_all(all.take(i as int), now@),
                before == old(self)@,
            decreases events.len() - i,
        {
            assert(all.take(i + 1).drop_last() =~= all.take(i as int));
            assert(all.take(i + 1).last() == events@[i as int]@);
            if self.relay(&events[i], now) {
                proof {
                    before.lemma_ends_stay(all, i + 1, now@);
                }
                return true;
            }
            i += 1;
        }
        assert(all.take(all.len() as int) =~= all);
        false
    }

    /// The user goes on with the run.
    pub fn follow_up(&mut self, worker_run_id: String, prompt: String, now: &str)
        ensures
            final(self)@ == old(self)@.followed_up(worker_run_id@, prompt@, now@),
    {
        self.worker_run_id = worker_run_id;
        self.prompt = prompt;
        self.state = CloudAgentRunState::Pending;
        self.status_message = Some("Queued follow-up on WarpSOLO worker".to_owned());
        self.final_output = None;
        self.started_at = None;
        self.updated_at = now.to_owned();
    }
}

/// The configuration of a run with where it is done.
pub open spec fn config_json(run: CloudRunView) -> JsonView {
    let config = match run.config {
        Some(config) => config,
        None => jobject(),
    };
    config.with("worker_host"@, jtext(run.worker_host)).with("workspace"@, jtext(run.workspace))
}

fn agent_config_snapshot_json(run: &CloudAgentRunRecord) -> (out: Json)
    ensures
        out@ == config_json(run@),
{
    let config = match &run.config {
        Some(config) => config.clone(),
        None => Json::object(),
    };
    config.with("worker_host", Json::text(run.worker_host.as_str())).with(
        "workspace",
        Json::text(run.workspace.as_str()),
    )
}

/// What clients are told of a run.
pub open spec fn run_json(run: CloudRunView) -> JsonView {
    jobject().with("task_id"@, jtext(run.run_id)).with("parent_run_id"@, JsonView::Null).with(
        "title"@,
        jtext(run.title),
    ).with("state"@, jtext(run.state.label())).with("prompt"@, jtext(run.prompt)).with(
        "created_at"@,
        jtext(run.created_at),
    ).with("started_at"@, opt_json(run.started_at)).with("updated_at"@, jtext(run.updated_at)).with(
        "status_message"@,
        match run.status_message {
            Some(message) => jobject().with("message"@, jtext(message)),
            None => JsonView::Null,
        },
    ).with("source"@, JsonView::Null).with("session_id"@, JsonView::Null).with(
        "session_link"@,
        JsonView::Null,
    ).with("creator"@, JsonView::Null).with("conversation_id"@, JsonView::Null).with(
        "request_usage"@,
        JsonView::Null,
    ).with("is_sandbox_running"@, JsonView::Bool(false)).with(
        "agent_config_snapshot"@,
        config_json(run),
    ).with("artifacts"@, jlist()).with("last_event_sequence"@, JsonView::Number(number_of(0))).with(
        "children"@,
        jlist(),
    )
}

/// What clients are told of a run.
pub fn agent_run_json(run: &CloudAgentRunRecord) -> (out: Json)
    ensures
        out@ == run_json(run@),
{
    let message = match &run.status_message {
        Some(message) => Json::object().with("message", Json::text(message.as_str())),
        None => Json::Null,
    };
    Json::object().with("task_id", Json::text(run.run_id.as_str())).with(
        "parent_run_id",
        Json::Null,
    ).with("title", Json::text(run.title.as_str())).with(
        "state",
        Json::text(run.state.as_api_str()),
    ).with("prompt", Json::text(run.prompt.as_str())).with(
        "created_at",
        Json::text(run.created_at.as_str()),
    ).with("started_at", text_or_null(&run.started_at)).with(
        "updated_at",
        Json::text(run.updated_at.as_str()),
    ).with("status_message", message).with("source", Json::Null).with("session_id", Json::Null).with(
        "session_link",
        Json::Null,
    ).with("creator", Json::Null).with("conversation_id", Json::Null).with(
        "request_usage",
        Json::Null,
    ).with("is_sandbox_running", Json::Bool(false)).with(
        "agent_config_snapshot",
        agent_config_snapshot_json(run),
    ).with("artifacts", Json::list()).with("last_event_sequence", Json::unsigned(0)).with(
        "children",
        Json::list(),
    )
}

/// A run that a client asks for.
#[derive(Debug)]
pub struct SpawnAgentRequest {
    pub prompt: String,
    pub config: Option<Json>,
    pub title: Option<String>,
    pub workspace: Option<String>,
}

/// What a client asks for, without white space around it.
pub fn spawn_prompt(request: &SpawnAgentRequest) -> (out: Result<String, Refusal>)
    ensures
        match out {
            Ok(prompt) => nonblank(request.prompt@) == Some(prompt@),
            Err(refusal) => is_blank(request.prompt@) && is_refusal(
                refusal,
                400,
                "prompt is required"@,
            ),
        },
{
    match trim_nonblank(request.prompt.as_str()) {
        Some(prompt) => Ok(prompt),
        None => Err(refuse(400, "prompt is required")),
    }
}

/// What a client is answered where no machine goes by the name of the host.
pub fn no_worker(host: &str) -> (refusal: Refusal)
    ensures
        is_refusal(refusal, 503, "no WarpSOLO worker is available for host '"@ + host@ + "'"@),
{
    let mut message = "no WarpSOLO worker is available for host '".to_owned();
    message.append(host);
    message.append("'");
    Refusal { status: 503, message }
}

/// Whether `url` is where a run for a host is done: at this machine's own worker, which is at `own`,
/// where the name stands for this machine, and else at the machine that answers to it.
pub open spec fn is_run_at(
    store: Map<Seq<char>, WorkerView>,
    host: Seq<char>,
    own: Option<Seq<char>>,
    url: Option<Seq<char>>,
) -> bool {
    if names_no_machine(host) {
        url == own
    } else {
        match url {
            Some(url) => exists|worker: WorkerView| #[trigger]
                is_answer(store, host, Some(worker)) && worker.url == url,
            None => is_answer(store, host, None),
        }
    }
}

/// Where a run for a host is done. `own` is where this machine's own worker is, if it has one.
pub fn worker_url_for_run(store: &WorkerStore, host: &str, own: Option<&str>) -> (out: Result<
    String,
    Refusal,
>)
    ensures
        match out {
            Ok(url) => is_run_at(store@, host@, opt_str(own), Some(url@)),
            Err(refusal) => {
                &&& is_run_at(store@, host@, opt_str(own), None)
                &&& is_refusal(
                    refusal,
                    503,
                    "no WarpSOLO worker is available for host '"@ + host@ + "'"@,
                )
            },
        },
{
    if stands_for_this_machine(host) {
        return match own {
            Some(url) => Ok(url.to_owned()),
            None => Err(no_worker(host)),
        };
    }
    match store.find_worker(host) {
        Some(worker) => {
            assert(is_answer(store@, host@, Some(worker@)));
            Ok(worker.url().to_owned())
        },
        None => Err(no_worker(host)),
    }
}

/// A run for this machine is never done on another.
pub proof fn law_runs_for_this_machine_stay_here(
    store: Map<Seq<char>, WorkerView>,
    host: Seq<char>,
    own: Option<Seq<char>>,
    url: Option<Seq<char>>,
)
    requires
        names_no_machine(host),
    ensures
        is_run_at(store, host, own, url) <==> url == own,
{
}

/// The directory that a client names, or else `default`.
pub fn workspace_from_spawn_request(request: &SpawnAgentRequest, default: &str) -> (path: String)
    ensures
        path@ == match nonblank_opt(opt_text(request.workspace)) {
            Some(path) => path,
            None => default@,
        },
{
    if let Some(workspace) = &request.workspace {
        if let Some(path) = trim_nonblank(workspace.as_str()) {
            return path;
        }
    }
    default.to_owned()
}

/// The title of a run.
pub open spec fn title_of(title: Option<Seq<char>>) -> Seq<char> {
    match title {
        Some(title) => if is_blank(title) {
            "WarpSOLO agent"@
        } else {
            title
        },
        None => "WarpSOLO agent"@,
    }
}

fn title_text(title: &Option<String>) -> (out: String)
    ensures
        out@ == title_of(opt_text(*title)),
{
    if let Some(title) = title {
        if !trim(title.as_str()).is_empty() {
            return title.clone();
        }
    }
    "WarpSOLO agent".to_owned()
}

/// A run that a worker has just begun.
pub open spec fn new_cloud_run(
    run_id: Seq<char>,
    worker_url: Seq<char>,
    request: SpawnAgentRequest,
    workspace: Seq<char>,
    now: Seq<char>,
) -> CloudRunView {
    CloudRunView {
        run_id,
        worker_url,
        worker_run_id: run_id,
        worker_host: host_of(opt_json_view(request.config)),
        prompt: trimmed(request.prompt@),
        title: title_of(opt_text(request.title)),
        workspace,
        config: opt_json_view(request.config),
        state: CloudAgentRunState::Pending,
        status_message: Some("Queued on WarpSOLO worker"@),
        final_output: None,
        created_at: now,
        started_at: None,
        updated_at: now,
    }
}

/// What a client is told of a run that was begun for it.
pub open spec fn spawned_json(run_id: Seq<char>) -> JsonView {
    jobject().with("task_id"@, jtext(run_id)).with("run_id"@, jtext(run_id)).with(
        "at_capacity"@,
        JsonView::Bool(false),
    )
}

/// The runs that other machines do for this one, by their names.
#[derive(Debug)]
pub struct CloudAgentRunStore {
    runs: TextMap<CloudAgentRunRecord>,
}

impl View for CloudAgentRunStore {
    type V = Map<Seq<char>, CloudAgentRunRecord>;

    closed spec fn view(&self) -> Map<Seq<char>, CloudAgentRunRecord> {
        self.runs@
    }
}

/// Whether an ending is among what was told.
pub open spec fn ends(events: Seq<RunEventView>) -> bool {
    exists|i: int| 0 <= i < events.len() && (#[trigger] events[i]) is Finished
}

impl CloudRunView {
    /// A run is over when an ending was told.
    proof fn lemma_told_all_ends(self, events: Seq<RunEventView>, now: Seq<char>)
        ensures
            self.told_all(events, now).1 == ends(events),
        decreases events.len(),
    {
        if events.len() > 0 {
            let before = events.drop_last();
            self.lemma_told_all_ends(before, now);
            if ends(before) {
                let i = choose|i: int| 0 <= i < before.len() && (#[trigger] before[i]) is Finished;
                assert(events[i] is Finished);
            }
            if ends(events) && !(events.last() is Finished) {
                let i = choose|i: int| 0 <= i < events.len() && (#[trigger] events[i]) is Finished;
                assert(before[i] is Finished);
            }
        }
    }
}

fn has_ending(events: &Vec<WorkerRunEvent>) -> (yes: bool)
    ensures
        yes == ends(event_views(events@)),
{
    let ghost all = event_views(events@);
    let mut i: usize = 0;
    while i < events.len()
        invariant
            i <= events.len(),
            all == event_views(events@),
            forall|j: int| 0 <= j < i ==> !((#[trigger] all[j]) is Finished),
        decreases events.len() - i,
    {
        assert(all[i as int] == events@[i as int]@);
        if matches!(&events[i], WorkerRunEvent::Finished { .. }) {
            return true;
        }
        i += 1;
    }
    false
}

/// The runs with one of them changed.
pub open spec fn with_run(
    before: Map<Seq<char>, CloudAgentRunRecord>,
    after: Map<Seq<char>, CloudAgentRunRecord>,
    run_id: Seq<char>,
    changed: CloudRunView,
) -> bool {
    after.contains_key(run_id) && after[run_id]@ == changed && after == before.insert(
        run_id,
        after[run_id],
    )
}

impl CloudAgentRunStore {
    pub closed spec fn well_formed(&self) -> bool {
        self.runs.well_formed()
    }

    pub fn new() -> (store: Self)
        ensures
            store.well_formed(),
            store@ == Map::<Seq<char>, CloudAgentRunRecord>::empty(),
    {
        CloudAgentRunStore { runs: TextMap::new() }
    }

    /// Adds a run that a worker has begun at a time; what the client is told.
    pub fn spawned_at(
        &mut self,
        request: SpawnAgentRequest,
        worker_url: String,
        workspace: String,
        run_id: String,
        now: String,
    ) -> (out: Json)
        requires
            old(self).well_formed(),
        ensures
            final(self).well_formed(),
            out@ == spawned_json(run_id@),
            with_run(
                old(self)@,
                final(self)@,
                run_id@,
                new_cloud_run(run_id@, worker_url@, request, workspace@, now@),
            ),
    {
        let worker_host = match &request.config {
            Some(config) => worker_host_from_config(Some(config)),
            None => worker_host_from_config(None),
        };
        let record = CloudAgentRunRecord {
            run_id: run_id.clone(),
            worker_url,
            worker_run_id: run_id.clone(),
            worker_host,
            prompt: trim(request.prompt.as_str()).to_owned(),
            title: title_text(&request.title),
            workspace,
            config: request.config,
            state: CloudAgentRunState::Pending,
            status_message: Some("Queued on WarpSOLO worker".to_owned()),
            final_output: None,
            created_at: now.clone(),
            started_at: None,
            updated_at: now,
        };
        let out = Json::object().with("task_id", Json::text(run_id.as_str())).with(
            "run_id",
            Json::text(run_id.as_str()),
        ).with("at_capacity", Json::Bool(false));
        self.runs.insert(run_id, record);
        out
    }

    /// Adds a run that a worker has begun; what the client is told.
    pub fn spawned(
        &mut self,
        request: SpawnAgentRequest,
        worker_url: String,
        workspace: String,
        run_id: String,
    ) -> (out: Json)
        requires
            old(self).well_formed(),
        ensures
            final(self).well_formed(),
            out@ == spawned_json(run_id@),
            exists|now: Seq<char>| #[trigger]
                with_run(
                    old(self)@,
                    final(self)@,
                    run_id@,
                    new_cloud_run(run_id@, worker_url@, request, workspace@, now),
                ),
    {
        let now = now_rfc3339();
        self.spawned_at(request, worker_url, workspace, run_id, now)
    }

    /// Takes in what the worker of a run told at a time; whether it is done.
    pub fn relay_at(&mut self, run_id: &str, event: &WorkerRunEvent, now: &str) -> (finished: bool)
        requires
            old(self).well_formed(),
        ensures
            final(self).well_formed(),
            finished == (event@ is Finished),
            if old(self)@.contains_key(run_id@) {
                with_run(
                    old(self)@,
                    final(self)@,
                    run_id@,
                    old(self)@[run_id@]@.told(event@, now@),
                )
            } else {
                final(self)@ == old(self)@
            },
    {
        match self.runs.get_mut(run_id) {
            Some(run) => run.relay(event, now),
            None => matches!(event, WorkerRunEvent::Finished { .. }),
        }
    }

    /// Takes in what the worker of a run told; whether it is done.
    pub fn relay_worker_event_to_record(&mut self, run_id: &str, event: &WorkerRunEvent) -> (finished:
        bool)
        requires
            old(self).well_formed(),
        ensures
            final(self).well_formed(),
            finished == (event@ is Finished),
            if old(self)@.contains_key(run_id@) {
                exists|now: Seq<char>|
                    with_run(
                        old(self)@,
                        final(self)@,
                        run_id@,
                        #[trigger] old(self)@[run_id@]@.told(event@, now),
                    )
            } else {
                final(self)@ == old(self)@
            },
    {
        let now = now_rfc3339();
        self.relay_at(run_id, event, now.as_str())
    }

    /// Takes in several things that the worker of a run told at a time; whether it is done.
    pub fn relay_all_at(&mut self, run_id: &str, events: &Vec<WorkerRunEvent>, now: &str) -> (finished:
        bool)
        requires
            old(self).well_formed(),
        ensures
            final(self).well_formed(),
            finished == ends(event_views(events@)),
            if old(self)@.contains_key(run_id@) {
                with_run(
                    old(self)@,
                    final(self)@,
                    run_id@,
                    old(self)@[run_id@]@.told_all(event_views(events@), now@).0,
                )
            } else {
                final(self)@ == old(self)@
            },
    {
        match self.runs.get_mut(run_id) {
            Some(run) => {
                proof {
                    run@.lemma_told_all_ends(event_views(events@), now@);
                }
                run.relay_all(events, now)
            },
            None => has_ending(events),
        }
    }

    /// Takes in several things that the worker of a run told; whether it is done.
    pub fn relay_worker_events_to_record(&mut self, run_id: &str, events: &Vec<WorkerRunEvent>) -> (
        finished: bool)
        requires
            old(self).well_formed(),
        ensures
            final(self).well_formed(),
            finished == ends(event_views(events@)),
            if old(self)@.contains_key(run_id@) {
                exists|now: Seq<char>|
                    with_run(
                        old(self)@,
                        final(self)@,
                        run_id@,
                        #[trigger] old(self)@[run_id@]@.told_all(event_views(events@), now).0,
                    )
            } else {
                final(self)@ == old(self)@
            },
    {
        let now = now_rfc3339();
        self.relay_all_at(run_id, events, now.as_str())
    }

    /// Puts a run into a state at a time.
    pub fn update_agent_run_state(
        &mut self,
        run_id: &str,
        state: CloudAgentRunState,
        message: String,
        now: &str,
    )
        requires
            old(self).well_formed(),
        ensures
            final(self).well_formed(),
            if old(self)@.contains_key(run_id@) {
                with_run(
                    old(self)@,
                    final(self)@,
                    run_id@,
                    old(self)@[run_id@]@.in_state(state, message@, now@),
                )
            } else {
                final(self)@ == old(self)@
            },
    {
        if let Some(run) = self.runs.get_mut(run_id) {
            run.set_state(state, message, now);
        }
    }

    /// Goes on with a run under the worker's new run at a time.
    pub fn reset_agent_run_for_followup(
        &mut self,
        run_id: &str,
        worker_run_id: String,
        prompt: String,
        now: &str,
    )
        requires
            old(self).well_formed(),
        ensures
            final(self).well_formed(),
            if old(self)@.contains_key(run_id@) {
                with_run(
                    old(self)@,
                    final(self)@,
                    run_id@,
                    old(self)@[run_id@]@.followed_up(worker_run_id@, prompt@, now@),
                )
            } else {
                final(self)@ == old(self)@
            },
    {
        if let Some(run) = self.runs.get_mut(run_id) {
            run.follow_up(worker_run_id, prompt, now);
        }
    }

    /// A run.
    pub fn get_agent_run(&self, run_id: &str) -> (out: Result<&CloudAgentRunRecord, Refusal>)
        requires
            self.well_formed(),
        ensures
            match out {
                Ok(run) => self@.contains_key(run_id@) && *run == self@[run_id@],
                Err(refusal) => !self@.contains_key(run_id@) && is_refusal(
                    refusal,
                    404,
                    "agent run was not found"@,
                ),
            },
    {
        match self.runs.get(run_id) {
            Some(run) => Ok(run),
            None => Err(refuse(404, "agent run was not found")),
        }
    }

    /// What is to be sent to which worker so that the user can go on with a run: the prompt, the
    /// worker's address and its name for the run.
    pub fn submit_agent_followup(&self, run_id: &str, message: &str) -> (out: Result<
        (String, String, String),
        Refusal,
    >)
        requires
            self.well_formed(),
        ensures
            match out {
                Ok((prompt, worker_url, worker_run_id)) => {
                    &&& nonblank(message@) == Some(prompt@)
                    &&& self@.contains_key(run_id@)
                    &&& self@[run_id@]@.state.over()
                    &&& worker_url@ == self@[run_id@]@.worker_url
                    &&& worker_run_id@ == self@[run_id@]@.worker_run_id
                },
                Err(refusal) => if is_blank(message@) {
                    is_refusal(refusal, 400, "message is required"@)
                } else if !self@.contains_key(run_id@) {
                    is_refusal(refusal, 404, "agent run was not found"@)
                } else {
                    !self@[run_id@]@.state.over() && is_refusal(
                        refusal,
                        409,
                        "cannot follow up while the agent run is still active"@,
                    )
                },
            },
    {
        let prompt = match trim_nonblank(message) {
            Some(prompt) => prompt,
            None => {
                return Err(refuse(400, "message is required"));
            },
        };
        match self.runs.get(run_id) {
            None => Err(refuse(404, "agent run was not found")),
            Some(run) => if run.state.is_terminal() {
                Ok((prompt, run.worker_url.clone(), run.worker_run_id.clone()))
            } else {
                Err(refuse(409, "cannot follow up while the agent run is still active"))
            },
        }
    }

    /// The address at which a run is called off.
    pub fn cancel_agent_run(&self, run_id: &str) -> (out: Result<String, Refusal>)
        requires
            self.well_formed(),
        ensures
            match out {
                Ok(url) => self@.contains_key(run_id@) && url@ == worker_path(
                    self@[run_id@]@.worker_url,
                    "/worker/runs/"@ + self@[run_id@]@.worker_run_id + "/"@ + "cancel"@,
                ),
                Err(refusal) => !self@.contains_key(run_id@) && is_refusal(
                    refusal,
                    404,
                    "agent run was not found"@,
                ),
            },
    {
        match self.runs.get(run_id) {
            None => Err(refuse(404, "agent run was not found")),
            Some(run) => Ok(
                worker_run_url(run.worker_url.as_str(), run.worker_run_id.as_str(), "cancel"),
            ),
        }
    }
}

/// A worker that says it is done leaves its run over, whatever it calls the end, unless it calls it
/// a beginning.
pub proof fn law_finished_runs_are_over(run: CloudRunView, state: Seq<char>, now: Seq<char>)
    requires
        state != "pending"@,
        state != "running"@,
    ensures
        run.told(RunEventView::Finished(state), now).state.over(),
{
}

/// What a worker tells never changes which run it is, where it is done or what was asked for.
pub proof fn law_runs_keep_who_they_are(run: CloudRunView, event: RunEventView, now: Seq<char>)
    ensures
        run.told(event, now).run_id == run.run_id,
        run.told(event, now).worker_url == run.worker_url,
        run.told(event, now).worker_run_id == run.worker_run_id,
        run.told(event, now).prompt == run.prompt,
        run.told(event, now).workspace == run.workspace,
        run.told(event, now).created_at == run.created_at,
        run.started_at is Some ==> run.told(event, now).started_at == run.started_at,
{
}

/// Whether `list` holds the runs under `keys`, the latest first, and leaves out none that is later
/// than one that it holds.
pub open spec fn is_latest(
    list: Seq<CloudAgentRunRecord>,
    keys: Seq<Seq<char>>,
    store: Map<Seq<char>, CloudAgentRunRecord>,
) -> bool {
    &&& keys.len() == list.len()
    &&& keys.no_duplicates()
    &&& forall|i: int|
        0 <= i < keys.len() ==> store.contains_key(#[trigger] keys[i]) && list[i]@
            == store[keys[i]]@
    &&& forall|i: int, j: int|
        0 <= i < j < list.len() ==> !text_before(
            (#[trigger] list[i])@.updated_at,
            (#[trigger] list[j])@.updated_at,
        )
    &&& forall|key: Seq<char>, i: int|
        store.contains_key(key) && !keys.contains(key) && 0 <= i < list.len() ==> !text_before(
            (#[trigger] list[i])@.updated_at,
            (#[trigger] store[key])@.updated_at,
        )
}

spec fn covers(keys: Seq<Seq<char>>, runs: TextMap<CloudAgentRunRecord>, n: int) -> bool {
    &&& forall|i: int| 0 <= i < n ==> keys.contains(#[trigger] runs.key_at(i))
    &&& forall|k: int|
        0 <= k < keys.len() ==> exists|i: int|
            0 <= i < n && #[trigger] runs.key_at(i) == #[trigger] keys[k]
}

/// Puts a run behind those that are not earlier.
fn place_run(list: &mut Vec<CloudAgentRunRecord>, run: CloudAgentRunRecord) -> (at: usize)
    requires
        forall|i: int, j: int|
            0 <= i < j < old(list)@.len() ==> !text_before(
                (#[trigger] old(list)@[i])@.updated_at,
                (#[trigger] old(list)@[j])@.updated_at,
            ),
    ensures
        at <= old(list)@.len(),
        final(list)@ == old(list)@.insert(at as int, run),
        forall|i: int, j: int|
            0 <= i < j < final(list)@.len() ==> !text_before(
                (#[trigger] final(list)@[i])@.updated_at,
                (#[trigger] final(list)@[j])@.updated_at,
            ),
{
    let ghost before = list@;
    let mut i: usize = 0;
    while i < list.len() && !is_before(list[i].updated_at.as_str(), run.updated_at.as_str())
        invariant
            i <= list.len(),
            list@ == before,
            forall|j: int|
                0 <= j < i ==> !text_before((#[trigger] before[j])@.updated_at, run@.updated_at),
        decreases list.len() - i,
    {
        i += 1;
    }
    list.insert(i, run);
    assert forall|a: int, b: int| 0 <= a < b < list@.len() implies !text_before(
        (#[trigger] list@[a])@.updated_at,
        (#[trigger] list@[b])@.updated_at,
    ) by {
        let old_a = if a < i { a } else { a - 1 };
        let old_b = if b < i { b } else { b - 1 };
        if a == i {
            let next = before[i as int]@.updated_at;
            let later = before[old_b]@.updated_at;
            if text_before(run@.updated_at, later) {
                crate::text::lemma_order_transitive(next, run@.updated_at, later);
                if old_b == i {
                    crate::text::lemma_order_strict(next);
                } else {
                    assert(!text_before(next, later));
                }
            }
        } else if b != i {
            assert(!text_before(before[old_a]@.updated_at, before[old_b]@.updated_at));
        }
    }
    i
}

impl CloudAgentRunStore {
    /// The latest runs, at most `limit` of them.
    pub fn list_agent_runs(&self, limit: usize) -> (list: Vec<CloudAgentRunRecord>)
        requires
            self.well_formed(),
        ensures
            list@.len() == if limit <= self@.len() {
                limit as nat
            } else {
                self@.len()
            },
            exists|keys: Seq<Seq<char>>| #[trigger] is_latest(list@, keys, self@),
    {
        proof {
            self.runs.lemma_places();
        }
        let count: usize = self.runs.len();
        let mut list: Vec<CloudAgentRunRecord> = Vec::new();
        let ghost mut keys: Seq<Seq<char>> = seq![];
        let mut i: usize = 0;
        while i < count
            invariant
                i <= count == self.runs.count(),
                self.runs.well_formed(),
                self@ == self.runs@,
                forall|a: int, b: int|
                    0 <= a < b < self.runs.count() ==> #[trigger] self.runs.key_at(a)
                        != #[trigger] self.runs.key_at(b),
                keys.len() == list@.len() == i,
                keys.no_duplicates(),
                covers(keys, self.runs, i as int),
                forall|k: int|
                    0 <= k < keys.len() ==> self@.contains_key(#[trigger] keys[k]) && list@[k]@
                        == self@[keys[k]]@,
                forall|a: int, b: int|
                    0 <= a < b < list@.len() ==> !text_before(
                        (#[trigger] list@[a])@.updated_at,
                        (#[trigger] list@[b])@.updated_at,
                    ),
            decreases count - i,
        {
            let (key, run) = self.runs.entry(i);
            let copy = run.clone();
            let ghost name = key@;
            let ghost before = keys;
            let ghost old_list = list@;
            let at: usize = place_run(&mut list, copy);
            proof {
                keys = before.insert(at as int, name);
                assert(!before.contains(name)) by {
                    if before.contains(name) {
                        let k = choose|k: int| 0 <= k < before.len() && before[k] == name;
                        let j = choose|j: int|
                            0 <= j < i && #[trigger] self.runs.key_at(j) == before[k];
                        assert(self.runs.key_at(j) != self.runs.key_at(i as int));
                    }
                }
                assert forall|a: int, b: int|
                    0 <= a < keys.len() && 0 <= b < keys.len() && a != b implies keys[a]
                    != keys[b] by {
                    let old_a = if a < at { a } else { a - 1 };
                    let old_b = if b < at { b } else { b - 1 };
                    if a != at && b != at {
                        assert(before[old_a] != before[old_b]);
                    } else if a == at {
                        assert(before.contains(before[old_b]));
                    } else {
                        assert(before.contains(before[old_a]));
                    }
                }
                assert forall|j: int| 0 <= j < i + 1 implies keys.contains(
                    #[trigger] self.runs.key_at(j),
                ) by {
                    if j < i {
                        assert(before.contains(self.runs.key_at(j)));
                        let k = choose|k: int|
                            0 <= k < before.len() && before[k] == self.runs.key_at(j);
                        let to = if k < at { k } else { k + 1 };
                        assert(keys[to] == self.runs.key_at(j));
                    } else {
                        assert(keys[at as int] == name);
                    }
                }
                assert forall|k: int| 0 <= k < keys.len() implies exists|j: int|
                    0 <= j < i + 1 && #[trigger] self.runs.key_at(j) == #[trigger] keys[k] by {
                    if k == at {
                        assert(self.runs.key_at(i as int) == keys[k]);
                    } else {
                        let was = if k < at { k } else { k - 1 };
                        let j = choose|j: int|
                            0 <= j < i && #[trigger] self.runs.key_at(j) == before[was];
                        assert(self.runs.key_at(j) == keys[k]);
                    }
                }
                assert forall|k: int| 0 <= k < keys.len() implies self@.contains_key(
                    #[trigger] keys[k],
                ) && list@[k]@ == self@[keys[k]]@ by {
                    if k != at {
                        let was = if k < at { k } else { k - 1 };
                        assert(self@.contains_key(before[was]));
                        assert(list@[k] == old_list[was]);
                    }
                }
            }
            i += 1;
        }
        proof {
            assert forall|key: Seq<char>| #[trigger] self@.contains_key(key) implies keys.contains(
                key,
            ) by {
                let j = choose|j: int|
                    0 <= j < self.runs.count() && #[trigger] self.runs.key_at(j) == key;
                assert(keys.contains(self.runs.key_at(j)));
            }
            assert(is_latest(list@, keys, self@));
        }
        while list.len() > limit
            invariant
                is_latest(list@, keys, self@),
                list@.len() <= self@.len(),
                list@.len() < self@.len() ==> list@.len() >= limit,
            decreases list.len(),
        {
            let ghost before = list@;
            let ghost old_keys = keys;
            let dropped = list.pop();
            proof {
                keys = old_keys.drop_last();
                let last = before.last();
                assert forall|key: Seq<char>, i: int|
                    self@.contains_key(key) && !keys.contains(key) && 0 <= i
                        < list@.len() implies !text_before(
                    (#[trigger] list@[i])@.updated_at,
                    (#[trigger] self@[key])@.updated_at,
                ) by {
                    assert(list@[i] == before[i]);
                    if old_keys.contains(key) {
                        let k = choose|k: int| 0 <= k < old_keys.len() && old_keys[k] == key;
                        if k < keys.len() {
                            assert(keys[k] == key);
                        }
                        assert(self@.contains_key(old_keys[k]));
                        assert(before[k]@ == self@[key]@);
                        assert(!text_before(before[i]@.updated_at, before[k]@.updated_at));
                    } else {
                        assert(!text_before(before[i]@.updated_at, self@[key]@.updated_at));
                    }
                }
                assert forall|k: int| 0 <= k < keys.len() implies self@.contains_key(
                    #[trigger] keys[k],
                ) && list@[k]@ == self@[keys[k]]@ by {
                    assert(self@.contains_key(old_keys[k]));
                }
                assert forall|a: int, b: int| 0 <= a < b < list@.len() implies !text_before(
                    (#[trigger] list@[a])@.updated_at,
                    (#[trigger] list@[b])@.updated_at,
                ) by {
                    assert(!text_before(before[a]@.updated_at, before[b]@.updated_at));
                }
                assert(keys.no_duplicates());
            }
        }
        list
    }
}

} // verus!
