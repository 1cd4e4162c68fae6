//! The messages of shared sessions. What a message only carries through is kept in its serialized
//! form.

use vstd::prelude::*;

verus! {

/// What a participant may do.
#[derive(Debug, Clone, Copy, PartialEq, Eq, Structural)]
pub enum Role {
    Reader,
    Executor,
    Full,
}

impl Role {
    pub open spec fn executes(self) -> bool {
        !(self is Reader)
    }

    /// Whether this role allows sending input to the shared terminal.
    pub fn can_execute(self) -> (can: bool)
        ensures
            can == self.executes(),
    {
        !matches!(self, Role::Reader)
    }
}

/// The size of a terminal window, in cells.
#[derive(Debug, Clone, Copy, PartialEq, Eq, Structural)]
pub struct WindowSize {
    pub num_rows: usize,
    pub num_cols: usize,
}

/// Where a shared session comes from.
#[derive(Debug)]
pub enum SessionSourceType {
    Terminal(String),
    AmbientAgent { task_id: Option<String> },
}

/// What happened in a shared terminal.
#[derive(Debug)]
pub enum EventType {
    Terminal(String),
    AgentResponse(String),
}

/// An event with its place in the order of events.
#[derive(Debug)]
pub struct OrderedTerminalEvent {
    pub event_no: usize,
    pub event_type: EventType,
}

/// A change of the shared input.
#[derive(Debug)]
pub struct InputUpdate {
    pub id: String,
    pub operations: String,
}

/// A prompt for the agent in the shared terminal.
#[derive(Debug)]
pub struct AgentPromptRequest {
    pub id: String,
    pub prompt: String,
    pub attachments: String,
}

/// Why a session ended.
#[derive(Debug, Clone, Copy, PartialEq, Eq, Structural)]
pub enum SessionEndedReason {
    EndedBySharer,
    InactivityLimitReached,
    ExceededSizeLimit,
}

/// Why a request of a viewer was turned down.
#[derive(Debug, Clone, Copy, PartialEq, Eq, Structural)]
pub enum FailureReason {
    InsufficientPermissions,
    Failed,
}

#[derive(Debug, Clone, Copy, PartialEq, Eq, Structural)]
pub enum ReconnectionFailedReason {
    Invalid,
    SessionNotFound,
    WrongReconnectionToken,
}

#[derive(Debug, Clone, Copy, PartialEq, Eq, Structural)]
pub enum FailedToJoinReason {
    Invalid,
    SessionNotFound,
}

/// A participant as others see it. Without a replica id, input is not replicated; without a
/// selection, nothing is selected.
#[derive(Debug)]
pub struct ParticipantInfo {
    pub id: u128,
    pub firebase_uid: String,
    pub display_name: String,
    pub input_replica_id: Option<String>,
    pub selection: Option<String>,
}

/// A viewer in a participant list.
#[derive(Debug)]
pub struct Viewer {
    pub info: ParticipantInfo,
    pub role: Role,
    pub is_present: bool,
}

/// Everybody in a session. All viewers in it are present.
#[derive(Debug)]
pub struct ParticipantList {
    pub sharer: ParticipantInfo,
    pub viewers: Vec<Viewer>,
}

/// What the sharer sends.
#[derive(Debug)]
pub enum SharerMessage {
    Ping { data: Vec<u8> },
    EndSession { reason: SessionEndedReason },
    OrderedTerminalEvent(OrderedTerminalEvent),
    UpdateSelection(Option<String>),
    UpdateActivePrompt(Option<String>),
    /// `merged` is the session's input context with `update` merged into it.
    UpdateInputContext { update: String, merged: String },
    UpdateInput(InputUpdate),
    UpdateRole { participant_id: u128, role: Role },
    Other,
}

/// What a viewer sends.
#[derive(Debug)]
pub enum ViewerMessage {
    Ping { data: Vec<u8> },
    UpdateSelection(Option<String>),
    RequestRole(Role),
    UpdateInput(InputUpdate),
    ExecuteCommand { buffer_id: String, command: String },
    WriteToPty { request_id: String, bytes: Vec<u8> },
    SendAgentPrompt(AgentPromptRequest),
    SendControlAction(String),
    /// `merged` is the session's input context with `update` merged into it.
    UpdateInputContext { update: String, merged: String },
    ReportTerminalSize { window_size: WindowSize },
    Other,
}

/// What all viewers are told.
#[derive(Debug)]
pub enum Notice {
    SessionEnded { reason: SessionEndedReason },
    OrderedTerminalEvent(OrderedTerminalEvent),
    PresenceUpdated { participant_id: u128, selection: Option<String> },
    ActivePromptUpdated(Option<String>),
    InputContextUpdated(String),
    InputUpdated(InputUpdate),
    RoleChanged { participant_id: u128, role: Role },
}

/// What one viewer is answered.
#[derive(Debug)]
pub enum ViewerReply {
    Pong { data: Vec<u8> },
    FailedToJoin { reason: FailedToJoinReason },
    RoleApproved { new_role: Role },
    RoleRejected,
    InputUpdateRejected { id: String },
    CommandInFlight { id: u128 },
    CommandFailed { id: u128 },
    WriteToPtyFailed,
    AgentPromptInFlight { id: String },
    AgentPromptFailed { reason: FailureReason },
    ControlActionFailed,
}

/// What the sharer is asked to do, or told.
#[derive(Debug)]
pub enum SharerRequest {
    Pong { data: Vec<u8> },
    FailedToInitialize,
    FailedToReconnect { reason: ReconnectionFailedReason },
    Initialized {
        session_id: u128,
        session_secret: u128,
        reconnect_token: u128,
        sharer_id: u128,
        sharer_firebase_uid: String,
    },
    EventsProcessed { latest_processed_event_no: usize },
    PresenceUpdated { participant_id: u128, selection: Option<String> },
    InputUpdated(InputUpdate),
    InputContextUpdated(String),
    ExecuteCommand { id: u128, participant_id: u128, buffer_id: String, command: String },
    WriteToPty { id: String, bytes: Vec<u8> },
    AgentPrompt { participant_id: u128, request: AgentPromptRequest },
    ControlAction { participant_id: u128, request_id: u128, action: String },
    TerminalSizeReported { participant_id: u128, window_size: WindowSize },
}

/// What a viewer is shown when it joins. Without a scrollback the terminal is empty, without an
/// active prompt it shows the shell's own.
#[derive(Debug)]
pub struct Joined {
    pub scrollback: Option<String>,
    pub active_prompt: Option<String>,
    pub latest_event_no: Option<usize>,
    pub window_size: WindowSize,
    pub participant_list: ParticipantList,
    pub viewer_id: u128,
    pub viewer_firebase_uid: String,
    pub init_block_id: String,
    pub input_replica_id: String,
    pub input_context: Option<String>,
    pub source_type: SessionSourceType,
}

/// A message on its way to the connection of a participant.
#[derive(Debug)]
pub enum Outgoing {
    ViewerNotice { conn: u64, notice: Notice },
    ViewerList { conn: u64, list: ParticipantList },
    ViewerReply { conn: u64, reply: ViewerReply },
    ViewerJoined { conn: u64, joined: Joined },
    ViewerRejoined { conn: u64, list: ParticipantList },
    SharerRequest { conn: u64, request: SharerRequest },
    SharerList { conn: u64, list: ParticipantList },
    SharerReconnected { conn: u64, last_received_event_no: Option<usize>, list: ParticipantList },
    /// Not for a participant: the prompt goes to the agent run whose session this is.
    AgentFollowup { conn: u64, agent_run_id: String, request: AgentPromptRequest },
}

/// The mathematical content of a [`ParticipantList`].
#[verifier::ext_equal]
pub struct ListView {
    pub sharer: ParticipantInfo,
    pub viewers: Seq<Viewer>,
}

/// The mathematical content of a [`Joined`].
#[verifier::ext_equal]
pub struct JoinedView {
    pub scrollback: Option<String>,
    pub active_prompt: Option<String>,
    pub latest_event_no: Option<usize>,
    pub window_size: WindowSize,
    pub participant_list: ListView,
    pub viewer_id: u128,
    pub viewer_firebase_uid: String,
    pub init_block_id: String,
    pub input_replica_id: String,
    pub input_context: Option<String>,
    pub source_type: SessionSourceType,
}

/// The mathematical content of an [`Outgoing`].
#[verifier::ext_equal]
pub enum OutgoingView {
    ViewerNotice { conn: u64, notice: Notice },
    ViewerList { conn: u64, list: ListView },
    ViewerReply { conn: u64, reply: ViewerReply },
    ViewerJoined { conn: u64, joined: JoinedView },
    ViewerRejoined { conn: u64, list: ListView },
    SharerRequest { conn: u64, request: SharerRequest },
    SharerList { conn: u64, list: ListView },
    SharerReconnected { conn: u64, last_received_event_no: Option<usize>, list: ListView },
    AgentFollowup { conn: u64, agent_run_id: String, request: AgentPromptRequest },
}

impl View for ParticipantList {
    type V = ListView;

    open spec fn view(&self) -> ListView {
        ListView { sharer: self.sharer, viewers: self.viewers@ }
    }
}

impl View for Joined {
    type V = JoinedView;

    open spec fn view(&self) -> JoinedView {
        JoinedView {
            scrollback: self.scrollback,
            active_prompt: self.active_prompt,
            latest_event_no: self.latest_event_no,
            window_size: self.window_size,
            participant_list: self.participant_list@,
            viewer_id: self.viewer_id,
            viewer_firebase_uid: self.viewer_firebase_uid,
            init_block_id: self.init_block_id,
            input_replica_id: self.input_replica_id,
            input_context: self.input_context,
            source_type: self.source_type,
        }
    }
}

impl View for Outgoing {
    type V = OutgoingView;

    open spec fn view(&self) -> OutgoingView {
        match *self {
            Outgoing::ViewerNotice { conn, notice } => OutgoingView::ViewerNotice { conn, notice },
            Outgoing::ViewerList { conn, list } => OutgoingView::ViewerList { conn, list: list@ },
            Outgoing::ViewerReply { conn, reply } => OutgoingView::ViewerReply { conn, reply },
            Outgoing::ViewerJoined { conn, joined } => OutgoingView::ViewerJoined {
                conn,
                joined: joined@,
            },
            Outgoing::ViewerRejoined { conn, list } => OutgoingView::ViewerRejoined {
                conn,
                list: list@,
            },
            Outgoing::SharerRequest { conn, request } => OutgoingView::SharerRequest { conn, request },
            Outgoing::SharerList { conn, list } => OutgoingView::SharerList { conn, list: list@ },
            Outgoing::SharerReconnected { conn, last_received_event_no, list } =>
                OutgoingView::SharerReconnected { conn, last_received_event_no, list: list@ },
            Outgoing::AgentFollowup { conn, agent_run_id, request } => OutgoingView::AgentFollowup {
                conn,
                agent_run_id,
                request,
            },
        }
    }
}

pub open spec fn outgoing_views(sends: Seq<Outgoing>) -> Seq<OutgoingView> {
    sends.map_values(|send: Outgoing| send@)
}

pub(crate) fn copy_opt(s: &Option<String>) -> (out: Option<String>)
    ensures
        out == *s,
{
    match s {
        Some(text) => Some(text.clone()),
        None => None,
    }
}

impl Clone for SessionSourceType {
    fn clone(&self) -> (copy: Self)
        ensures
            copy == *self,
    {
        match self {
            SessionSourceType::Terminal(payload) => SessionSourceType::Terminal(payload.clone()),
            SessionSourceType::AmbientAgent { task_id } => SessionSourceType::AmbientAgent {
                task_id: copy_opt(task_id),
            },
        }
    }
}

impl Clone for EventType {
    fn clone(&self) -> (copy: Self)
        ensures
            copy == *self,
    {
        match self {
            EventType::Terminal(payload) => EventType::Terminal(payload.clone()),
            EventType::AgentResponse(payload) => EventType::AgentResponse(payload.clone()),
        }
    }
}

impl Clone for OrderedTerminalEvent {
    fn clone(&self) -> (copy: Self)
        ensures
            copy == *self,
    {
        OrderedTerminalEvent { event_no: self.event_no, event_type: self.event_type.clone() }
    }
}

impl Clone for InputUpdate {
    fn clone(&self) -> (copy: Self)
        ensures
            copy == *self,
    {
        InputUpdate { id: self.id.clone(), operations: self.operations.clone() }
    }
}

impl Clone for ParticipantInfo {
    fn clone(&self) -> (copy: Self)
        ensures
            copy == *self,
    {
        ParticipantInfo {
            id: self.id,
            firebase_uid: self.firebase_uid.clone(),
            display_name: self.display_name.clone(),
            input_replica_id: copy_opt(&self.input_replica_id),
            selection: copy_opt(&self.selection),
        }
    }
}

impl Clone for Viewer {
    fn clone(&self) -> (copy: Self)
        ensures
            copy == *self,
    {
        Viewer { info: self.info.clone(), role: self.role, is_present: self.is_present }
    }
}

impl Clone for ParticipantList {
    fn clone(&self) -> (copy: Self)
        ensures
            copy@ == self@,
    {
        let mut viewers: Vec<Viewer> = Vec::new();
        let mut i: usize = 0;
        while i < self.viewers.len()
            invariant
                i <= self.viewers.len(),
                viewers@ == self.viewers@.take(i as int),
            decreases self.viewers.len() - i,
        {
            viewers.push(self.viewers[i].clone());
            i += 1;
            assert(viewers@ =~= self.viewers@.take(i as int));
        }
        assert(viewers@ =~= self.viewers@);
        ParticipantList { sharer: self.sharer.clone(), viewers }
    }
}

impl Clone for Notice {
    fn clone(&self) -> (copy: Self)
        ensures
            copy == *self,
    {
        match self {
            Notice::SessionEnded { reason } => Notice::SessionEnded { reason: *reason },
            Notice::OrderedTerminalEvent(event) => Notice::OrderedTerminalEvent(event.clone()),
            Notice::PresenceUpdated { participant_id, selection } => Notice::PresenceUpdated {
                participant_id: *participant_id,
                selection: copy_opt(selection),
            },
            Notice::ActivePromptUpdated(prompt) => Notice::ActivePromptUpdated(copy_opt(prompt)),
            Notice::InputContextUpdated(update) => Notice::InputContextUpdated(update.clone()),
            Notice::InputUpdated(update) => Notice::InputUpdated(update.clone()),
            Notice::RoleChanged { participant_id, role } => Notice::RoleChanged {
                participant_id: *participant_id,
                role: *role,
            },
        }
    }
}

} // verus!
