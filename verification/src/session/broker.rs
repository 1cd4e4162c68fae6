//! All shared sessions, and the connections to them.

use std::collections::HashMap;

use vstd::prelude::*;

use crate::ids::{
    fresh_id, hyphenated, is_random_id, is_random_text, new_id_text, parse_id, uuid_parsed,
};
use crate::session::protocol::{
    FailedToJoinReason, FailureReason, OrderedTerminalEvent, Outgoing, OutgoingView,
    ReconnectionFailedReason, SessionSourceType, SharerMessage, SharerRequest, ViewerMessage,
    ViewerReply, WindowSize, copy_opt, outgoing_views,
};
use crate::session::shared::{
    SessionView, SharedSession, answer, in_order, ordered_agent_response_event,
};
use crate::text::opt_text;

verus! {

/// What the sharer says of the session it creates.
#[derive(Debug)]
pub struct SessionInit {
    pub selection: Option<String>,
    pub scrollback: Option<String>,
    pub active_prompt: Option<String>,
    pub window_size: WindowSize,
    pub init_block_id: String,
    pub input_replica_id: String,
    pub input_context: Option<String>,
    pub source_type: SessionSourceType,
}

/// The first message on the connection of a sharer.
#[derive(Debug)]
pub enum SharerOpening {
    Initialize(SessionInit),
    Reconnect { reconnect_token: u128, selection: Option<String> },
    Invalid,
}

/// The first message on the connection of a viewer.
#[derive(Debug)]
pub enum ViewerOpening {
    Initialize { viewer_id: Option<u128>, last_received_event_no: Option<usize> },
    Invalid,
}

/// The numbers that a new session goes by.
#[derive(Debug, Clone, Copy)]
pub struct NewSessionIds {
    pub session_id: u128,
    pub session_secret: u128,
    pub reconnect_token: u128,
    pub sharer_id: u128,
}

/// What came of a message: what is sent, and whether the connection goes on.
#[derive(Debug)]
pub struct Handled {
    pub open: bool,
    pub sends: Vec<Outgoing>,
}

/// What came of a viewer's first message. `joined` is the viewer's number, `agent_run_id` the
/// agent run whose session it has joined.
#[derive(Debug)]
pub struct JoinOutcome {
    pub joined: Option<u128>,
    pub agent_run_id: Option<String>,
    pub sends: Vec<Outgoing>,
}

/// All sessions, by their numbers.
pub struct SessionStore {
    sessions: HashMap<u128, SharedSession>,
}

impl View for SessionStore {
    type V = Map<u128, SessionView>;

    closed spec fn view(&self) -> Map<u128, SessionView> {
        self.sessions@.map_values(|session: SharedSession| session@)
    }
}

/// Whether every session is sound.
pub open spec fn all_sound(sessions: Map<u128, SessionView>) -> bool {
    forall|id: u128| #[trigger] sessions.contains_key(id) ==> sessions[id].wf()
}

/// Whether the numbers of a new session are random ones.
pub open spec fn are_random(ids: NewSessionIds) -> bool {
    &&& is_random_id(ids.session_id)
    &&& is_random_id(ids.session_secret)
    &&& is_random_id(ids.reconnect_token)
    &&& is_random_id(ids.sharer_id)
}

/// A session as its sharer created it.
pub open spec fn created(
    init: SessionInit,
    conn: u64,
    ids: NewSessionIds,
    firebase_uid: String,
    display_name: String,
) -> SessionView {
    SessionView {
        reconnect_token: ids.reconnect_token,
        sharer_id: ids.sharer_id,
        sharer_firebase_uid: firebase_uid,
        sharer_display_name: display_name,
        sharer_selection: init.selection,
        scrollback: init.scrollback,
        active_prompt: init.active_prompt,
        window_size: init.window_size,
        init_block_id: init.init_block_id,
        input_replica_id: init.input_replica_id,
        input_context: init.input_context,
        source_type: init.source_type,
        events: seq![],
        sharer_conn: Some(conn),
        viewers: seq![],
        agent_run_id: None,
    }
}

pub open spec fn to_sharer(conn: u64, request: SharerRequest) -> Seq<OutgoingView> {
    seq![OutgoingView::SharerRequest { conn, request }]
}

/// Whether a viewer's message concerns no session, or is passed over where there is none.
pub open spec fn needs_no_session(message: ViewerMessage) -> bool {
    message is Ping || message is Other || message is RequestRole || message is UpdateInput
}

impl SessionStore {
    /// No sessions.
    pub fn new() -> (store: Self)
        ensures
            store@ == Map::<u128, SessionView>::empty(),
            all_sound(store@),
    {
        broadcast use vstd::std_specs::hash::group_hash_axioms;

        let store = SessionStore { sessions: HashMap::new() };
        assert(store@ =~= Map::<u128, SessionView>::empty());
        store
    }

    /// What the users of a session have chosen for their input, in its serialized form.
    pub fn input_context(&self, session_id: u128) -> (context: Option<String>)
        ensures
            opt_text(context) == if self@.contains_key(session_id) {
                opt_text(self@[session_id].input_context)
            } else {
                None
            },
    {
        broadcast use vstd::std_specs::hash::group_hash_axioms;

        match self.sessions.get(&session_id) {
            Some(session) => copy_opt(&session.input_context),
            None => None,
        }
    }

    /// Takes a session out to work on it.
    fn take(&mut self, id: u128) -> (session: Option<SharedSession>)
        ensures
            session is Some <==> old(self)@.contains_key(id),
            session matches Some(session) ==> session@ == old(self)@[id],
            final(self)@ == old(self)@.remove(id),
    {
        broadcast use vstd::std_specs::hash::group_hash_axioms;

        let ghost before = self@;
        let session = self.sessions.remove(&id);
        assert(self@ =~= before.remove(id));
        session
    }

    fn put(&mut self, id: u128, session: SharedSession)
        ensures
            final(self)@ == old(self)@.insert(id, session@),
    {
        broadcast use vstd::std_specs::hash::group_hash_axioms;

        let ghost before = self@;
        let _replaced = self.sessions.insert(id, session);
        assert(self@ =~= before.insert(id, session@));
    }

    /// Whether there is a session with this number.
    pub fn contains(&self, id: u128) -> (yes: bool)
        ensures
            yes == self@.contains_key(id),
    {
        broadcast use vstd::std_specs::hash::group_hash_axioms;

        self.sessions.contains_key(&id)
    }

    /// Creates a session under the given numbers.
    pub fn create(
        &mut self,
        conn: u64,
        opening: SharerOpening,
        ids: NewSessionIds,
        firebase_uid: &String,
        display_name: &String,
    ) -> (handled: Handled)
        requires
            all_sound(old(self)@),
        ensures
            all_sound(final(self)@),
            opening matches SharerOpening::Initialize(init) ==> {
                &&& final(self)@ == old(self)@.insert(
                    ids.session_id,
                    created(init, conn, ids, *firebase_uid, *display_name),
                )
                &&& handled.open
                &&& outgoing_views(handled.sends@) == to_sharer(
                    conn,
                    SharerRequest::Initialized {
                        session_id: ids.session_id,
                        session_secret: ids.session_secret,
                        reconnect_token: ids.reconnect_token,
                        sharer_id: ids.sharer_id,
                        sharer_firebase_uid: *firebase_uid,
                    },
                )
            },
            !(opening is Initialize) ==> {
                &&& final(self)@ == old(self)@
                &&& !handled.open
                &&& outgoing_views(handled.sends@) == to_sharer(
                    conn,
                    SharerRequest::FailedToInitialize,
                )
            },
    {
        let ghost before = self@;
        match opening {
            SharerOpening::Initialize(init) => {
                let session = SharedSession {
                    reconnect_token: ids.reconnect_token,
                    sharer_id: ids.sharer_id,
                    sharer_firebase_uid: firebase_uid.clone(),
                    sharer_display_name: display_name.clone(),
                    sharer_selection: init.selection,
                    scrollback: init.scrollback,
                    active_prompt: init.active_prompt,
                    window_size: init.window_size,
                    init_block_id: init.init_block_id,
                    input_replica_id: init.input_replica_id,
                    input_context: init.input_context,
                    source_type: init.source_type,
                    events: Vec::new(),
                    sharer_conn: Some(conn),
                    viewers: Vec::new(),
                    agent_run_id: None,
                };
                assert(session@ =~= created(init, conn, ids, *firebase_uid, *display_name));
                self.put(ids.session_id, session);
                let request = SharerRequest::Initialized {
                    session_id: ids.session_id,
                    session_secret: ids.session_secret,
                    reconnect_token: ids.reconnect_token,
                    sharer_id: ids.sharer_id,
                    sharer_firebase_uid: firebase_uid.clone(),
                };
                Handled { open: true, sends: single(Outgoing::SharerRequest { conn, request }) }
            },
            _ => Handled {
                open: false,
                sends: single(
                    Outgoing::SharerRequest { conn, request: SharerRequest::FailedToInitialize },
                ),
            },
        }
    }

    /// Creates a session under new random numbers. The session's number comes with the outcome.
    pub fn create_session(
        &mut self,
        conn: u64,
        opening: SharerOpening,
        firebase_uid: &String,
        display_name: &String,
    ) -> (outcome: (u128, Handled))
        requires
            all_sound(old(self)@),
        ensures
            all_sound(final(self)@),
            is_random_id(outcome.0),
            outcome.1.open == (opening is Initialize),
            opening matches SharerOpening::Initialize(init) ==> exists|ids: NewSessionIds|
                are_random(ids) && ids.session_id == outcome.0 && final(self)@ == old(self)@.insert(
                    outcome.0,
                    #[trigger] created(init, conn, ids, *firebase_uid, *display_name),
                ) && outgoing_views(outcome.1.sends@) == to_sharer(
                    conn,
                    SharerRequest::Initialized {
                        session_id: ids.session_id,
                        session_secret: ids.session_secret,
                        reconnect_token: ids.reconnect_token,
                        sharer_id: ids.sharer_id,
                        sharer_firebase_uid: *firebase_uid,
                    },
                ),
            !(opening is Initialize) ==> final(self)@ == old(self)@ && outgoing_views(
                outcome.1.sends@,
            ) == to_sharer(conn, SharerRequest::FailedToInitialize),
    {
        let ids = NewSessionIds {
            session_id: fresh_id(),
            session_secret: fresh_id(),
            reconnect_token: fresh_id(),
            sharer_id: fresh_id(),
        };
        let handled = self.create(conn, opening, ids, firebase_uid, display_name);
        (ids.session_id, handled)
    }

    /// Lets a sharer back into its session, if it has the right token.
    pub fn resume(&mut self, session_id: u128, conn: u64, opening: SharerOpening) -> (handled:
        Handled)
        requires
            all_sound(old(self)@),
        ensures
            all_sound(final(self)@),
            opening matches SharerOpening::Reconnect { reconnect_token, selection } ==> if !old(
                self,
            )@.contains_key(session_id) {
                &&& final(self)@ == old(self)@
                &&& !handled.open
                &&& outgoing_views(handled.sends@) == to_sharer(
                    conn,
                    SharerRequest::FailedToReconnect {
                        reason: ReconnectionFailedReason::SessionNotFound,
                    },
                )
            } else if reconnect_token != old(self)@[session_id].reconnect_token {
                &&& final(self)@ == old(self)@
                &&& !handled.open
                &&& outgoing_views(handled.sends@) == to_sharer(
                    conn,
                    SharerRequest::FailedToReconnect {
                        reason: ReconnectionFailedReason::WrongReconnectionToken,
                    },
                )
            } else {
                let step = old(self)@[session_id].resume_step(conn, selection);
                &&& final(self)@ == old(self)@.insert(session_id, step.session)
                &&& handled.open
                &&& outgoing_views(handled.sends@) == step.sends
            },
            !(opening is Reconnect) ==> {
                &&& final(self)@ == old(self)@
                &&& !handled.open
                &&& outgoing_views(handled.sends@) == to_sharer(
                    conn,
                    SharerRequest::FailedToReconnect { reason: ReconnectionFailedReason::Invalid },
                )
            },
    {
        let ghost before = self@;
        let (reconnect_token, selection) = match opening {
            SharerOpening::Reconnect { reconnect_token, selection } => (reconnect_token, selection),
            _ => {
                return refused(conn, ReconnectionFailedReason::Invalid);
            },
        };
        match self.take(session_id) {
            None => {
                assert(self@ =~= before);
                refused(conn, ReconnectionFailedReason::SessionNotFound)
            },
            Some(session) => {
                let mut session = session;
                if reconnect_token != session.reconnect_token {
                    self.put(session_id, session);
                    assert(self@ =~= before);
                    return refused(conn, ReconnectionFailedReason::WrongReconnectionToken);
                }
                let sends = session.resume(conn, selection);
                self.put(session_id, session);
                assert(self@ =~= before.insert(session_id, session@));
                Handled { open: true, sends }
            },
        }
    }

    /// Lets a viewer into a session. One that brings no number gets `fresh`.
    pub fn join(
        &mut self,
        session_id: u128,
        conn: u64,
        opening: ViewerOpening,
        fresh: u128,
        firebase_uid: &String,
        display_name: &String,
    ) -> (outcome: JoinOutcome)
        requires
            all_sound(old(self)@),
        ensures
            all_sound(final(self)@),
            opening matches ViewerOpening::Initialize { viewer_id, last_received_event_no } ==> if !old(
                self,
            )@.contains_key(session_id) {
                &&& final(self)@ == old(self)@
                &&& outcome.joined is None
                &&& outcome.agent_run_id is None
                &&& outgoing_views(outcome.sends@) == answer(
                    conn,
                    ViewerReply::FailedToJoin { reason: FailedToJoinReason::SessionNotFound },
                )
            } else {
                let id = match viewer_id {
                    Some(id) => id,
                    None => fresh,
                };
                let step = old(self)@[session_id].join_step(
                    conn,
                    id,
                    last_received_event_no,
                    *firebase_uid,
                    *display_name,
                );
                &&& final(self)@ == old(self)@.insert(session_id, step.session)
                &&& outcome.joined == Some(id)
                &&& outcome.agent_run_id == old(self)@[session_id].agent_run_id
                &&& outgoing_views(outcome.sends@) == step.sends
            },
            opening is Invalid ==> {
                &&& final(self)@ == old(self)@
                &&& outcome.joined is None
                &&& outcome.agent_run_id is None
                &&& outgoing_views(outcome.sends@) == answer(
                    conn,
                    ViewerReply::FailedToJoin { reason: FailedToJoinReason::Invalid },
                )
            },
    {
        let ghost before = self@;
        let (viewer_id, last_received) = match opening {
            ViewerOpening::Initialize { viewer_id, last_received_event_no } => (
                viewer_id,
                last_received_event_no,
            ),
            ViewerOpening::Invalid => {
                return turned_away(conn, FailedToJoinReason::Invalid);
            },
        };
        match self.take(session_id) {
            None => {
                assert(self@ =~= before);
                turned_away(conn, FailedToJoinReason::SessionNotFound)
            },
            Some(session) => {
                let mut session = session;
                let id: u128 = match viewer_id {
                    Some(id) => id,
                    None => fresh,
                };
                let agent_run_id = crate::session::protocol::copy_opt(&session.agent_run_id);
                let sends = session.join(conn, id, last_received, firebase_uid, display_name);
                self.put(session_id, session);
                assert(self@ =~= before.insert(session_id, session@));
                JoinOutcome { joined: Some(id), agent_run_id, sends }
            },
        }
    }

    /// Does what a message of a session's sharer asks for. Ending the session, and a message to a
    /// session that is gone, ends the connection.
    pub fn sharer_message(&mut self, session_id: u128, conn: u64, message: SharerMessage) -> (handled:
        Handled)
        requires
            all_sound(old(self)@),
        ensures
            all_sound(final(self)@),
            message matches SharerMessage::Ping { data } ==> {
                &&& final(self)@ == old(self)@
                &&& handled.open
                &&& outgoing_views(handled.sends@) == to_sharer(conn, SharerRequest::Pong { data })
            },
            message is Other ==> {
                &&& final(self)@ == old(self)@
                &&& handled.open
                &&& handled.sends@.len() == 0
            },
            !(message is Ping || message is Other) && !old(self)@.contains_key(session_id) ==> {
                &&& final(self)@ == old(self)@
                &&& !handled.open
                &&& handled.sends@.len() == 0
            },
            !(message is Ping || message is Other) && old(self)@.contains_key(session_id) ==> {
                let step = old(self)@[session_id].sharer_step(conn, message);
                &&& final(self)@ == if message is EndSession {
                    old(self)@.remove(session_id)
                } else {
                    old(self)@.insert(session_id, step.session)
                }
                &&& handled.open == !(message is EndSession)
                &&& outgoing_views(handled.sends@) == step.sends
            },
    {
        let ghost before = self@;
        let message = match message {
            SharerMessage::Ping { data } => {
                return Handled {
                    open: true,
                    sends: single(
                        Outgoing::SharerRequest { conn, request: SharerRequest::Pong { data } },
                    ),
                };
            },
            SharerMessage::Other => {
                return Handled { open: true, sends: Vec::new() };
            },
            message => message,
        };
        let ends: bool = matches!(message, SharerMessage::EndSession { .. });
        match self.take(session_id) {
            None => {
                assert(self@ =~= before);
                Handled { open: false, sends: Vec::new() }
            },
            Some(session) => {
                let mut session = session;
                let sends = session.handle_sharer_message(conn, message);
                if !ends {
                    self.put(session_id, session);
                    assert(self@ =~= before.insert(session_id, session@));
                }
                Handled { open: !ends, sends }
            },
        }
    }

    /// Does what a message of a viewer asks for. A request that is passed on gets the number
    /// `fresh`.
    pub fn viewer_message(
        &mut self,
        session_id: u128,
        conn: u64,
        id: u128,
        message: ViewerMessage,
        fresh: u128,
    ) -> (handled: Handled)
        requires
            all_sound(old(self)@),
        ensures
            all_sound(final(self)@),
            old(self)@.contains_key(session_id) ==> {
                let step = old(self)@[session_id].viewer_step(conn, id, message, fresh);
                &&& final(self)@ == old(self)@.insert(session_id, step.session)
                &&& handled.open
                &&& outgoing_views(handled.sends@) == step.sends
            },
            !old(self)@.contains_key(session_id) ==> {
                &&& final(self)@ == old(self)@
                &&& handled.open == needs_no_session(message)
                &&& outgoing_views(handled.sends@) == match message {
                    ViewerMessage::Ping { data } => answer(conn, ViewerReply::Pong { data }),
                    _ => seq![],
                }
            },
    {
        let ghost before = self@;
        match self.take(session_id) {
            None => {
                assert(self@ =~= before);
                match message {
                    ViewerMessage::Ping { data } => Handled {
                        open: true,
                        sends: single(
                            Outgoing::ViewerReply { conn, reply: ViewerReply::Pong { data } },
                        ),
                    },
                    message => {
                        let open: bool = matches!(
                            message,
                            ViewerMessage::Other
                            | ViewerMessage::RequestRole(_)
                            | ViewerMessage::UpdateInput(_)
                        );
                        let sends: Vec<Outgoing> = Vec::new();
                        assert(outgoing_views(sends@) =~= seq![]);
                        Handled { open, sends }
                    },
                }
            },
            Some(session) => {
                let mut session = session;
                let sends = session.handle_viewer_message(conn, id, message, fresh);
                self.put(session_id, session);
                assert(self@ =~= before.insert(session_id, session@));
                Handled { open: true, sends }
            },
        }
    }

    /// Takes note that the connection of a sharer ended.
    pub fn sharer_disconnected(&mut self, session_id: u128, conn: u64)
        requires
            all_sound(old(self)@),
        ensures
            all_sound(final(self)@),
            final(self)@ == if old(self)@.contains_key(session_id) {
                old(self)@.insert(session_id, old(self)@[session_id].sharer_left(conn))
            } else {
                old(self)@
            },
    {
        let ghost before = self@;
        if let Some(session) = self.take(session_id) {
            let mut session = session;
            session.sharer_disconnected(conn);
            self.put(session_id, session);
            assert(self@ =~= before.insert(session_id, session@));
        } else {
            assert(self@ =~= before);
        }
    }

    /// Takes note that the connection of a viewer ended.
    pub fn viewer_disconnected(&mut self, session_id: u128, conn: u64, id: u128) -> (sends: Vec<
        Outgoing,
    >)
        requires
            all_sound(old(self)@),
        ensures
            all_sound(final(self)@),
            old(self)@.contains_key(session_id) ==> {
                let step = old(self)@[session_id].leave_step(conn, id);
                &&& final(self)@ == old(self)@.insert(session_id, step.session)
                &&& outgoing_views(sends@) == step.sends
            },
            !old(self)@.contains_key(session_id) ==> final(self)@ == old(self)@ && sends@.len() == 0,
    {
        let ghost before = self@;
        if let Some(session) = self.take(session_id) {
            let mut session = session;
            let sends = session.leave(conn, id);
            self.put(session_id, session);
            assert(self@ =~= before.insert(session_id, session@));
            sends
        } else {
            assert(self@ =~= before);
            Vec::new()
        }
    }

    /// Adds what the agent of a session reported; nothing where the session is gone.
    pub fn append_agent_event(&mut self, session_id: u128, response: String) -> (sends: Vec<Outgoing>)
        requires
            all_sound(old(self)@),
            old(self)@.contains_key(session_id) ==> old(self)@[session_id].next_event_no()
                <= usize::MAX,
        ensures
            all_sound(final(self)@),
            old(self)@.contains_key(session_id) ==> {
                let step = old(self)@[session_id].agent_step(
                    OrderedTerminalEvent {
                        event_no: old(self)@[session_id].next_event_no() as usize,
                        event_type: crate::session::protocol::EventType::AgentResponse(response),
                    },
                );
                &&& final(self)@ == old(self)@.insert(session_id, step.session)
                &&& outgoing_views(sends@) == step.sends
            },
            !old(self)@.contains_key(session_id) ==> final(self)@ == old(self)@ && sends@.len() == 0,
    {
        let ghost before = self@;
        if let Some(session) = self.take(session_id) {
            let mut session = session;
            let sends = session.append_agent_event(response);
            self.put(session_id, session);
            assert(self@ =~= before.insert(session_id, session@));
            sends
        } else {
            assert(self@ =~= before);
            Vec::new()
        }
    }
}

fn single(message: Outgoing) -> (sends: Vec<Outgoing>)
    ensures
        outgoing_views(sends@) == seq![message@],
{
    let mut sends: Vec<Outgoing> = Vec::new();
    sends.push(message);
    assert(outgoing_views(sends@) =~= seq![message@]);
    sends
}

fn refused(conn: u64, reason: ReconnectionFailedReason) -> (handled: Handled)
    ensures
        !handled.open,
        outgoing_views(handled.sends@) == to_sharer(
            conn,
            SharerRequest::FailedToReconnect { reason },
        ),
{
    Handled {
        open: false,
        sends: single(
            Outgoing::SharerRequest { conn, request: SharerRequest::FailedToReconnect { reason } },
        ),
    }
}

fn turned_away(conn: u64, reason: FailedToJoinReason) -> (outcome: JoinOutcome)
    ensures
        outcome.joined is None,
        outcome.agent_run_id is None,
        outgoing_views(outcome.sends@) == answer(conn, ViewerReply::FailedToJoin { reason }),
{
    JoinOutcome {
        joined: None,
        agent_run_id: None,
        sends: single(Outgoing::ViewerReply { conn, reply: ViewerReply::FailedToJoin { reason } }),
    }
}

/// What a viewer is answered once the agent run of the session took its prompt, or did not.
pub fn followup_answer(conn: u64, request_id: String, failure: Option<FailureReason>) -> (send:
    Outgoing)
    ensures
        send@ == (OutgoingView::ViewerReply {
            conn,
            reply: match failure {
                None => ViewerReply::AgentPromptInFlight { id: request_id },
                Some(reason) => ViewerReply::AgentPromptFailed { reason },
            },
        }),
{
    match failure {
        None => Outgoing::ViewerReply {
            conn,
            reply: ViewerReply::AgentPromptInFlight { id: request_id },
        },
        Some(reason) => Outgoing::ViewerReply {
            conn,
            reply: ViewerReply::AgentPromptFailed { reason },
        },
    }
}

/// The responses of an agent as events, numbered from 0.
pub open spec fn numbered(responses: Seq<String>) -> Seq<OrderedTerminalEvent> {
    responses.map(
        |i: int, response: String|
            OrderedTerminalEvent {
                event_no: i as usize,
                event_type: crate::session::protocol::EventType::AgentResponse(response),
            },
    )
}

/// The session of an agent run: nobody shares it, and it starts with what the agent said first.
pub open spec fn agent_session(
    agent_run_id: String,
    ids: NewSessionIds,
    init_block_id: String,
    input_replica_id: String,
    firebase_uid: String,
    display_name: String,
    responses: Seq<String>,
) -> SessionView {
    SessionView {
        reconnect_token: ids.reconnect_token,
        sharer_id: ids.sharer_id,
        sharer_firebase_uid: firebase_uid,
        sharer_display_name: display_name,
        sharer_selection: None,
        scrollback: None,
        active_prompt: None,
        window_size: WindowSize { num_rows: 40, num_cols: 120 },
        init_block_id,
        input_replica_id,
        input_context: None,
        source_type: SessionSourceType::AmbientAgent { task_id: Some(agent_run_id) },
        events: numbered(responses),
        sharer_conn: None,
        viewers: seq![],
        agent_run_id: Some(agent_run_id),
    }
}

fn numbered_events(responses: Vec<String>) -> (events: Vec<OrderedTerminalEvent>)
    ensures
        events@ == numbered(responses@),
        in_order(events@),
{
    let mut events: Vec<OrderedTerminalEvent> = Vec::new();
    let mut i: usize = 0;
    while i < responses.len()
        invariant
            i <= responses.len(),
            events@ == numbered(responses@).take(i as int),
        decreases responses.len() - i,
    {
        events.push(ordered_agent_response_event(i, responses[i].clone()));
        i += 1;
        assert(events@ =~= numbered(responses@).take(i as int));
    }
    assert(events@ =~= numbered(responses@));
    assert(responses.len() <= usize::MAX);
    events
}

impl SessionStore {
    /// Creates the session of an agent run under the given numbers.
    pub fn create_agent(
        &mut self,
        agent_run_id: &String,
        ids: NewSessionIds,
        init_block_id: String,
        input_replica_id: String,
        firebase_uid: &String,
        display_name: &String,
        responses: Vec<String>,
    )
        requires
            all_sound(old(self)@),
        ensures
            all_sound(final(self)@),
            final(self)@ == old(self)@.insert(
                ids.session_id,
                agent_session(
                    *agent_run_id,
                    ids,
                    init_block_id,
                    input_replica_id,
                    *firebase_uid,
                    *display_name,
                    responses@,
                ),
            ),
    {
        let session = SharedSession {
            reconnect_token: ids.reconnect_token,
            sharer_id: ids.sharer_id,
            sharer_firebase_uid: firebase_uid.clone(),
            sharer_display_name: display_name.clone(),
            sharer_selection: None,
            scrollback: None,
            active_prompt: None,
            window_size: WindowSize { num_rows: 40, num_cols: 120 },
            init_block_id,
            input_replica_id,
            input_context: None,
            source_type: SessionSourceType::AmbientAgent { task_id: Some(agent_run_id.clone()) },
            events: numbered_events(responses),
            sharer_conn: None,
            viewers: Vec::new(),
            agent_run_id: Some(agent_run_id.clone()),
        };
        assert(session@ =~= agent_session(
            *agent_run_id,
            ids,
            init_block_id,
            input_replica_id,
            *firebase_uid,
            *display_name,
            responses@,
        ));
        self.put(ids.session_id, session);
    }

    /// Creates the session of an agent run under new random numbers, and returns its number.
    pub fn create_agent_shared_session(
        &mut self,
        agent_run_id: &String,
        firebase_uid: &String,
        display_name: &String,
        responses: Vec<String>,
    ) -> (session_id: u128)
        requires
            all_sound(old(self)@),
        ensures
            all_sound(final(self)@),
            is_random_id(session_id),
            exists|ids: NewSessionIds, init_block_id: String, input_replica_id: String|
                are_random(ids) && is_random_text(init_block_id@) && is_random_text(
                    input_replica_id@,
                ) && ids.session_id == session_id && final(self)@ == old(self)@.insert(
                    session_id,
                    #[trigger] agent_session(
                        *agent_run_id,
                        ids,
                        init_block_id,
                        input_replica_id,
                        *firebase_uid,
                        *display_name,
                        responses@,
                    ),
                ),
    {
        let ids = NewSessionIds {
            session_id: fresh_id(),
            session_secret: fresh_id(),
            reconnect_token: fresh_id(),
            sharer_id: fresh_id(),
        };
        self.create_agent(
            agent_run_id,
            ids,
            new_id_text(),
            new_id_text(),
            firebase_uid,
            display_name,
            responses,
        );
        ids.session_id
    }

    /// Lets a viewer into a session. One that brings no number gets a new random one.
    pub fn join_session(
        &mut self,
        session_id: u128,
        conn: u64,
        opening: ViewerOpening,
        firebase_uid: &String,
        display_name: &String,
    ) -> (outcome: JoinOutcome)
        requires
            all_sound(old(self)@),
        ensures
            all_sound(final(self)@),
            outcome.joined is Some <==> opening is Initialize && old(self)@.contains_key(session_id),
            outcome.joined is None ==> final(self)@ == old(self)@ && outgoing_views(outcome.sends@)
                == answer(
                conn,
                ViewerReply::FailedToJoin {
                    reason: if opening is Invalid {
                        FailedToJoinReason::Invalid
                    } else {
                        FailedToJoinReason::SessionNotFound
                    },
                },
            ),
            outcome.joined matches Some(id) ==> {
                let step = old(self)@[session_id].join_step(
                    conn,
                    id,
                    opening->last_received_event_no,
                    *firebase_uid,
                    *display_name,
                );
                &&& opening->viewer_id == Some(id) || (opening->viewer_id is None && is_random_id(id))
                &&& final(self)@ == old(self)@.insert(session_id, step.session)
                &&& outcome.agent_run_id == old(self)@[session_id].agent_run_id
                &&& outgoing_views(outcome.sends@) == step.sends
            },
    {
        self.join(session_id, conn, opening, fresh_id(), firebase_uid, display_name)
    }

    /// Does what a message of a viewer asks for. A request that is passed on gets a new random
    /// number.
    pub fn handle_viewer_message(
        &mut self,
        session_id: u128,
        conn: u64,
        id: u128,
        message: ViewerMessage,
    ) -> (handled: Handled)
        requires
            all_sound(old(self)@),
        ensures
            all_sound(final(self)@),
            exists|fresh: u128| #[trigger]
                is_random_id(fresh) && (old(self)@.contains_key(session_id) ==> {
                    let step = old(self)@[session_id].viewer_step(conn, id, message, fresh);
                    &&& final(self)@ == old(self)@.insert(session_id, step.session)
                    &&& handled.open
                    &&& outgoing_views(handled.sends@) == step.sends
                }),
            !old(self)@.contains_key(session_id) ==> {
                &&& final(self)@ == old(self)@
                &&& handled.open == needs_no_session(message)
                &&& outgoing_views(handled.sends@) == match message {
                    ViewerMessage::Ping { data } => answer(conn, ViewerReply::Pong { data }),
                    _ => seq![],
                }
            },
    {
        let fresh: u128 = fresh_id();
        assert(is_random_id(fresh));
        self.viewer_message(session_id, conn, id, message, fresh)
    }
}

/// The number of the session that a text names, if it names one.
pub fn session_number(text: &str) -> (id: Option<u128>)
    ensures
        id == uuid_parsed(text@),
        forall|written: u128| text@ == #[trigger] hyphenated(written) ==> id == Some(written),
{
    parse_id(text)
}

/// The page that hands a session link over to the native client.
pub open spec fn page_text(session_id: Seq<char>) -> Seq<char> {
    let url = "warposs://shared_session/"@ + session_id;
    "<!doctype html>\n<html>\n<head>\n  <meta charset=\"utf-8\">\n  <meta http-equiv=\"refresh\" content=\"0; url="@
        + url
        + "\">\n  <title>Open WarpSOLO Session</title>\n</head>\n<body>\n  <a href=\""@
        + url
        + "\">Open WarpSOLO session</a>\n  <script>location.href = \""@
        + url
        + "\";</script>\n</body>\n</html>"@
}

/// The page of a session link.
pub fn session_page_text(session_id: &str) -> (page: String)
    ensures
        page@ == page_text(session_id@),
{
    let mut url = "warposs://shared_session/".to_owned();
    url.append(session_id);
    let mut page =
        "<!doctype html>\n<html>\n<head>\n  <meta charset=\"utf-8\">\n  <meta http-equiv=\"refresh\" content=\"0; url=".to_owned();
    page.append(url.as_str());
    page.append("\">\n  <title>Open WarpSOLO Session</title>\n</head>\n<body>\n  <a href=\"");
    page.append(url.as_str());
    page.append("\">Open WarpSOLO session</a>\n  <script>location.href = \"");
    page.append(url.as_str());
    page.append("\";</script>\n</body>\n</html>");
    assert(page@ =~= page_text(session_id@));
    page
}

/// The page of a session link, `None` where the link names no session.
pub fn session_page(session_id: &str) -> (page: Option<String>)
    ensures
        page is Some <==> crate::ids::uuid_parsed(session_id@) is Some,
        page matches Some(page) ==> page@ == page_text(session_id@),
        (exists|id: u128| session_id@ == #[trigger] crate::ids::hyphenated(id)) ==> page is Some,
{
    match parse_id(session_id) {
        Some(_) => Some(session_page_text(session_id)),
        None => None,
    }
}

} // verus!
