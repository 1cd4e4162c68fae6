//! The state of one shared session, and what each message does to it.

use vstd::prelude::*;

use crate::session::protocol::{
    AgentPromptRequest, FailureReason, InputUpdate, Joined, JoinedView, ListView, Notice,
    OrderedTerminalEvent, Outgoing, OutgoingView, ParticipantInfo, ParticipantList, Role,
    SessionSourceType, SharerMessage, SharerRequest, Viewer, ViewerMessage, ViewerReply, WindowSize,
    copy_opt, outgoing_views,
};

verus! {

/// A viewer that is connected.
#[derive(Debug)]
pub struct ViewerState {
    pub id: u128,
    pub conn: u64,
    pub firebase_uid: String,
    pub display_name: String,
    pub selection: Option<String>,
    pub role: Role,
}

/// A shared session.
#[derive(Debug)]
pub struct SharedSession {
    pub reconnect_token: u128,
    pub sharer_id: u128,
    pub sharer_firebase_uid: String,
    pub sharer_display_name: String,
    pub sharer_selection: Option<String>,
    pub scrollback: Option<String>,
    pub active_prompt: Option<String>,
    pub window_size: WindowSize,
    pub init_block_id: String,
    pub input_replica_id: String,
    pub input_context: Option<String>,
    pub source_type: SessionSourceType,
    pub events: Vec<OrderedTerminalEvent>,
    pub sharer_conn: Option<u64>,
    pub viewers: Vec<ViewerState>,
    pub agent_run_id: Option<String>,
}

/// The mathematical content of a [`SharedSession`].
#[verifier::ext_equal]
pub struct SessionView {
    pub reconnect_token: u128,
    pub sharer_id: u128,
    pub sharer_firebase_uid: String,
    pub sharer_display_name: String,
    pub sharer_selection: Option<String>,
    pub scrollback: Option<String>,
    pub active_prompt: Option<String>,
    pub window_size: WindowSize,
    pub init_block_id: String,
    pub input_replica_id: String,
    pub input_context: Option<String>,
    pub source_type: SessionSourceType,
    pub events: Seq<OrderedTerminalEvent>,
    pub sharer_conn: Option<u64>,
    pub viewers: Seq<ViewerState>,
    pub agent_run_id: Option<String>,
}

impl View for SharedSession {
    type V = SessionView;

    open spec fn view(&self) -> SessionView {
        SessionView {
            reconnect_token: self.reconnect_token,
            sharer_id: self.sharer_id,
            sharer_firebase_uid: self.sharer_firebase_uid,
            sharer_display_name: self.sharer_display_name,
            sharer_selection: self.sharer_selection,
            scrollback: self.scrollback,
            active_prompt: self.active_prompt,
            window_size: self.window_size,
            init_block_id: self.init_block_id,
            input_replica_id: self.input_replica_id,
            input_context: self.input_context,
            source_type: self.source_type,
            events: self.events@,
            sharer_conn: self.sharer_conn,
            viewers: self.viewers@,
            agent_run_id: self.agent_run_id,
        }
    }
}

/// A session after a message, and what is sent on account of it.
#[verifier::ext_equal]
pub struct Step {
    pub session: SessionView,
    pub sends: Seq<OutgoingView>,
}

/// The events with `event` added at its place; an event with the same number is replaced.
pub open spec fn with_event(
    events: Seq<OrderedTerminalEvent>,
    event: OrderedTerminalEvent,
) -> Seq<OrderedTerminalEvent>
    decreases events.len(),
{
    if events.len() == 0 || events.last().event_no < event.event_no {
        events.push(event)
    } else if events.last().event_no == event.event_no {
        events.drop_last().push(event)
    } else {
        with_event(events.drop_last(), event).push(events.last())
    }
}

/// The events behind the one with the number `last`, or all.
pub open spec fn later_events(
    events: Seq<OrderedTerminalEvent>,
    last: Option<usize>,
) -> Seq<OrderedTerminalEvent>
    decreases events.len(),
{
    if events.len() == 0 {
        seq![]
    } else {
        let rest = later_events(events.drop_last(), last);
        if last is None || events.last().event_no > last->0 {
            rest.push(events.last())
        } else {
            rest
        }
    }
}

pub open spec fn latest_event_no(events: Seq<OrderedTerminalEvent>) -> Option<usize> {
    if events.len() == 0 {
        None
    } else {
        Some(events.last().event_no)
    }
}

/// Whether events come in the order of their numbers, each number once.
pub open spec fn in_order(events: Seq<OrderedTerminalEvent>) -> bool {
    forall|i: int, j: int|
        0 <= i < j < events.len() ==> (#[trigger] events[i]).event_no < (#[trigger] events[j]).event_no
}

pub open spec fn distinct_viewers(viewers: Seq<ViewerState>) -> bool {
    forall|i: int, j: int|
        0 <= i < j < viewers.len() ==> (#[trigger] viewers[i]).id != (#[trigger] viewers[j]).id
}

/// Whether no two viewers hold an executing role.
pub open spec fn one_executor(viewers: Seq<ViewerState>) -> bool {
    forall|i: int, j: int|
        0 <= i < j < viewers.len() ==> !((#[trigger] viewers[i]).role.executes() && (
        #[trigger] viewers[j]).role.executes())
}

pub open spec fn is_viewer(viewers: Seq<ViewerState>, id: u128) -> bool {
    exists|i: int| 0 <= i < viewers.len() && (#[trigger] viewers[i]).id == id
}

/// Whether the viewer `id` may send input.
pub open spec fn may_execute(viewers: Seq<ViewerState>, id: u128) -> bool {
    exists|i: int|
        0 <= i < viewers.len() && (#[trigger] viewers[i]).id == id && viewers[i].role.executes()
}

/// Whether no viewer but `id` may send input.
pub open spec fn control_is_free(viewers: Seq<ViewerState>, id: u128) -> bool {
    forall|i: int|
        0 <= i < viewers.len() && (#[trigger] viewers[i]).id != id ==> !viewers[i].role.executes()
}

/// The role of a viewer after `id` was given `role`: where that is an executing role and `id` is a
/// viewer, whoever else held one becomes a reader.
pub open spec fn role_after(
    viewers: Seq<ViewerState>,
    viewer: ViewerState,
    id: u128,
    role: Role,
) -> Role {
    if viewer.id == id {
        role
    } else if role.executes() && is_viewer(viewers, id) {
        Role::Reader
    } else {
        viewer.role
    }
}

pub open spec fn with_role(viewers: Seq<ViewerState>, id: u128, role: Role) -> Seq<ViewerState> {
    viewers.map_values(
        |viewer: ViewerState|
            ViewerState { role: role_after(viewers, viewer, id, role), ..viewer },
    )
}

pub open spec fn with_selection(viewers: Seq<ViewerState>, id: u128, selection: Option<String>) -> Seq<
    ViewerState,
> {
    viewers.map_values(
        |viewer: ViewerState|
            if viewer.id == id {
                ViewerState { selection, ..viewer }
            } else {
                viewer
            },
    )
}

/// The viewers without those that `id` names.
pub open spec fn without_viewer(viewers: Seq<ViewerState>, id: u128) -> Seq<ViewerState>
    decreases viewers.len(),
{
    if viewers.len() == 0 {
        seq![]
    } else if viewers.last().id == id {
        without_viewer(viewers.drop_last(), id)
    } else {
        without_viewer(viewers.drop_last(), id).push(viewers.last())
    }
}

/// A viewer in a participant list. A viewer's input has no replica of its own.
pub open spec fn listed(viewer: ViewerState) -> Viewer {
    Viewer {
        info: ParticipantInfo {
            id: viewer.id,
            firebase_uid: viewer.firebase_uid,
            display_name: viewer.display_name,
            input_replica_id: None,
            selection: viewer.selection,
        },
        role: viewer.role,
        is_present: true,
    }
}

impl SessionView {
    /// Events are in order, viewers are distinct, and at most one of them may send input.
    pub open spec fn wf(self) -> bool {
        &&& in_order(self.events)
        &&& distinct_viewers(self.viewers)
        &&& one_executor(self.viewers)
    }

    /// Everybody in the session.
    pub open spec fn list(self) -> ListView {
        ListView {
            sharer: ParticipantInfo {
                id: self.sharer_id,
                firebase_uid: self.sharer_firebase_uid,
                display_name: self.sharer_display_name,
                input_replica_id: Some(self.input_replica_id),
                selection: self.sharer_selection,
            },
            viewers: self.viewers.map_values(|viewer: ViewerState| listed(viewer)),
        }
    }

    /// A notice for every viewer.
    pub open spec fn notices(self, notice: Notice) -> Seq<OutgoingView> {
        self.viewers.map_values(
            |viewer: ViewerState| OutgoingView::ViewerNotice { conn: viewer.conn, notice },
        )
    }

    /// A message for the sharer, if it is connected.
    pub open spec fn to_sharer(self, request: SharerRequest) -> Seq<OutgoingView> {
        match self.sharer_conn {
            Some(conn) => seq![OutgoingView::SharerRequest { conn, request }],
            None => seq![],
        }
    }

    /// The participant list for every viewer, and for the sharer if it is connected.
    pub open spec fn list_updates(self) -> Seq<OutgoingView> {
        self.viewers.map_values(
            |viewer: ViewerState| OutgoingView::ViewerList { conn: viewer.conn, list: self.list() },
        ) + match self.sharer_conn {
            Some(conn) => seq![OutgoingView::SharerList { conn, list: self.list() }],
            None => seq![],
        }
    }

    pub open spec fn unchanged(self, sends: Seq<OutgoingView>) -> Step {
        Step { session: self, sends }
    }

    /// What a message of the sharer, on the connection `conn`, does.
    pub open spec fn sharer_step(self, conn: u64, message: SharerMessage) -> Step {
        match message {
            SharerMessage::Ping { data } => self.unchanged(
                seq![OutgoingView::SharerRequest { conn, request: SharerRequest::Pong { data } }],
            ),
            SharerMessage::EndSession { reason } => self.unchanged(
                self.notices(Notice::SessionEnded { reason }),
            ),
            SharerMessage::OrderedTerminalEvent(event) => {
                let session = SessionView { events: with_event(self.events, event), ..self };
                Step {
                    session,
                    sends: session.notices(Notice::OrderedTerminalEvent(event)).push(
                        OutgoingView::SharerRequest {
                            conn,
                            request: SharerRequest::EventsProcessed {
                                latest_processed_event_no: event.event_no,
                            },
                        },
                    ),
                }
            },
            SharerMessage::UpdateSelection(selection) => Step {
                session: SessionView { sharer_selection: selection, ..self },
                sends: self.notices(
                    Notice::PresenceUpdated { participant_id: self.sharer_id, selection },
                ),
            },
            SharerMessage::UpdateActivePrompt(active_prompt) => Step {
                session: SessionView { active_prompt, ..self },
                sends: self.notices(Notice::ActivePromptUpdated(active_prompt)),
            },
            SharerMessage::UpdateInputContext { update, merged } => Step {
                session: SessionView { input_context: Some(merged), ..self },
                sends: self.notices(Notice::InputContextUpdated(update)),
            },
            SharerMessage::UpdateInput(update) => self.unchanged(
                self.notices(Notice::InputUpdated(update)),
            ),
            SharerMessage::UpdateRole { participant_id, role } => self.role_given(
                participant_id,
                role,
                seq![],
            ),
            SharerMessage::Other => self.unchanged(seq![]),
        }
    }

    /// A role given to a viewer: everybody gets the new list, `reply` goes out, and every viewer
    /// is told.
    pub open spec fn role_given(self, id: u128, role: Role, reply: Seq<OutgoingView>) -> Step {
        let session = SessionView { viewers: with_role(self.viewers, id, role), ..self };
        Step {
            session,
            sends: session.list_updates() + reply + session.notices(
                Notice::RoleChanged { participant_id: id, role },
            ),
        }
    }

    /// What a message of the viewer `id`, on the connection `conn`, does. A request that is passed
    /// on gets the number `fresh`. Input is passed on only for a viewer that holds an executing
    /// role.
    pub open spec fn viewer_step(
        self,
        conn: u64,
        id: u128,
        message: ViewerMessage,
        fresh: u128,
    ) -> Step {
        let may = may_execute(self.viewers, id);
        match message {
            ViewerMessage::Ping { data } => self.unchanged(answer(conn, ViewerReply::Pong { data })),
            ViewerMessage::UpdateSelection(selection) => {
                let session = SessionView {
                    viewers: with_selection(self.viewers, id, selection),
                    ..self
                };
                Step {
                    session,
                    sends: session.notices(
                        Notice::PresenceUpdated { participant_id: id, selection },
                    ) + session.to_sharer(
                        SharerRequest::PresenceUpdated { participant_id: id, selection },
                    ),
                }
            },
            ViewerMessage::RequestRole(role) => if !role.executes() || control_is_free(
                self.viewers,
                id,
            ) {
                self.role_given(id, role, answer(conn, ViewerReply::RoleApproved { new_role: role }))
            } else {
                self.unchanged(answer(conn, ViewerReply::RoleRejected))
            },
            ViewerMessage::UpdateInput(update) => self.unchanged(
                if may {
                    self.to_sharer(SharerRequest::InputUpdated(update))
                } else {
                    answer(conn, ViewerReply::InputUpdateRejected { id: update.id })
                },
            ),
            ViewerMessage::ExecuteCommand { buffer_id, command } => self.unchanged(
                if may {
                    self.to_sharer(
                        SharerRequest::ExecuteCommand {
                            id: fresh,
                            participant_id: id,
                            buffer_id,
                            command,
                        },
                    ) + answer(conn, ViewerReply::CommandInFlight { id: fresh })
                } else {
                    answer(conn, ViewerReply::CommandFailed { id: fresh })
                },
            ),
            ViewerMessage::WriteToPty { request_id, bytes } => self.unchanged(
                if may {
                    self.to_sharer(SharerRequest::WriteToPty { id: request_id, bytes })
                } else {
                    answer(conn, ViewerReply::WriteToPtyFailed)
                },
            ),
            ViewerMessage::SendAgentPrompt(request) => self.unchanged(
                if !may {
                    answer(
                        conn,
                        ViewerReply::AgentPromptFailed {
                            reason: FailureReason::InsufficientPermissions,
                        },
                    )
                } else if self.agent_run_id is Some {
                    seq![
                        OutgoingView::AgentFollowup {
                            conn,
                            agent_run_id: self.agent_run_id->0,
                            request,
                        },
                    ]
                } else {
                    self.to_sharer(SharerRequest::AgentPrompt { participant_id: id, request })
                        + answer(conn, ViewerReply::AgentPromptInFlight { id: request.id })
                },
            ),
            ViewerMessage::SendControlAction(action) => self.unchanged(
                if may {
                    self.to_sharer(
                        SharerRequest::ControlAction {
                            participant_id: id,
                            request_id: fresh,
                            action,
                        },
                    )
                } else {
                    answer(conn, ViewerReply::ControlActionFailed)
                },
            ),
            ViewerMessage::UpdateInputContext { update, merged } => Step {
                session: SessionView { input_context: Some(merged), ..self },
                sends: self.to_sharer(SharerRequest::InputContextUpdated(update)) + self.notices(
                    Notice::InputContextUpdated(update),
                ),
            },
            ViewerMessage::ReportTerminalSize { window_size } => self.unchanged(
                self.to_sharer(
                    SharerRequest::TerminalSizeReported { participant_id: id, window_size },
                ),
            ),
            ViewerMessage::Other => self.unchanged(seq![]),
        }
    }

    /// A viewer that has joined. It comes as a reader with nothing selected, in place of an earlier
    /// connection of the same viewer.
    pub open spec fn with_viewer(
        self,
        conn: u64,
        id: u128,
        firebase_uid: String,
        display_name: String,
    ) -> SessionView {
        SessionView {
            viewers: without_viewer(self.viewers, id).push(
                ViewerState {
                    id,
                    conn,
                    firebase_uid,
                    display_name,
                    selection: None,
                    role: Role::Reader,
                },
            ),
            ..self
        }
    }

    /// What happens when a viewer joins: a newcomer is shown the session, one that comes back the
    /// participants; then everybody gets the new list, and the viewer the events it has missed.
    pub open spec fn join_step(
        self,
        conn: u64,
        id: u128,
        last_received: Option<usize>,
        firebase_uid: String,
        display_name: String,
    ) -> Step {
        let session = self.with_viewer(conn, id, firebase_uid, display_name);
        let welcome = if is_viewer(self.viewers, id) {
            OutgoingView::ViewerRejoined { conn, list: session.list() }
        } else {
            OutgoingView::ViewerJoined {
                conn,
                joined: JoinedView {
                    scrollback: self.scrollback,
                    active_prompt: self.active_prompt,
                    latest_event_no: latest_event_no(self.events),
                    window_size: self.window_size,
                    participant_list: session.list(),
                    viewer_id: id,
                    viewer_firebase_uid: firebase_uid,
                    init_block_id: self.init_block_id,
                    input_replica_id: self.input_replica_id,
                    input_context: self.input_context,
                    source_type: self.source_type,
                },
            }
        };
        Step {
            session,
            sends: seq![welcome] + session.list_updates() + later_events(
                self.events,
                last_received,
            ).map_values(
                |event: OrderedTerminalEvent|
                    OutgoingView::ViewerNotice { conn, notice: Notice::OrderedTerminalEvent(event) },
            ),
        }
    }

    /// What happens when the connection of a viewer ends. A viewer that has joined again on
    /// another connection stays.
    pub open spec fn leave_step(self, conn: u64, id: u128) -> Step {
        if exists|i: int|
            0 <= i < self.viewers.len() && (#[trigger] self.viewers[i]).id == id
                && self.viewers[i].conn == conn {
            let session = SessionView { viewers: without_viewer(self.viewers, id), ..self };
            Step { session, sends: session.list_updates() }
        } else {
            self.unchanged(seq![])
        }
    }

    /// What happens when the sharer comes back on the connection `conn`.
    pub open spec fn resume_step(self, conn: u64, selection: Option<String>) -> Step {
        let session = SessionView {
            sharer_conn: Some(conn),
            sharer_selection: selection,
            ..self
        };
        Step {
            session,
            sends: seq![
                OutgoingView::SharerReconnected {
                    conn,
                    last_received_event_no: latest_event_no(self.events),
                    list: session.list(),
                },
            ],
        }
    }

    /// The session after the connection of the sharer ended.
    pub open spec fn sharer_left(self, conn: u64) -> SessionView {
        if self.sharer_conn == Some(conn) {
            SessionView { sharer_conn: None, ..self }
        } else {
            self
        }
    }

    /// The number of the event that comes next.
    pub open spec fn next_event_no(self) -> int {
        match latest_event_no(self.events) {
            Some(no) => no + 1,
            None => 0,
        }
    }

    /// What happens when the agent whose session this is reports something.
    pub open spec fn agent_step(self, event: OrderedTerminalEvent) -> Step {
        let session = SessionView { events: with_event(self.events, event), ..self };
        Step { session, sends: session.notices(Notice::OrderedTerminalEvent(event)) }
    }
}

/// One answer to one viewer.
pub open spec fn answer(conn: u64, reply: ViewerReply) -> Seq<OutgoingView> {
    seq![OutgoingView::ViewerReply { conn, reply }]
}

proof fn lemma_views_push(sends: Seq<Outgoing>, send: Outgoing)
    ensures
        outgoing_views(sends.push(send)) == outgoing_views(sends).push(send@),
{
    assert(outgoing_views(sends.push(send)) =~= outgoing_views(sends).push(send@));
}

fn send(sends: &mut Vec<Outgoing>, message: Outgoing)
    ensures
        outgoing_views(final(sends)@) == outgoing_views(old(sends)@).push(message@),
{
    proof {
        lemma_views_push(sends@, message);
    }
    sends.push(message);
}

fn viewer_info(viewer: &ViewerState) -> (info: Viewer)
    ensures
        info == listed(*viewer),
{
    Viewer {
        info: ParticipantInfo {
            id: viewer.id,
            firebase_uid: viewer.firebase_uid.clone(),
            display_name: viewer.display_name.clone(),
            input_replica_id: None,
            selection: copy_opt(&viewer.selection),
        },
        role: viewer.role,
        is_present: true,
    }
}

impl SharedSession {
    /// Everybody in the session.
    pub fn participant_list(&self) -> (list: ParticipantList)
        ensures
            list@ == self@.list(),
    {
        let mut viewers: Vec<Viewer> = Vec::new();
        let ghost all = self@.list().viewers;
        let mut i: usize = 0;
        while i < self.viewers.len()
            invariant
                i <= self.viewers.len(),
                all == self@.list().viewers,
                viewers@ == all.take(i as int),
            decreases self.viewers.len() - i,
        {
            viewers.push(viewer_info(&self.viewers[i]));
            i += 1;
            assert(viewers@ =~= all.take(i as int));
        }
        assert(viewers@ =~= all);
        ParticipantList {
            sharer: ParticipantInfo {
                id: self.sharer_id,
                firebase_uid: self.sharer_firebase_uid.clone(),
                display_name: self.sharer_display_name.clone(),
                input_replica_id: Some(self.input_replica_id.clone()),
                selection: copy_opt(&self.sharer_selection),
            },
            viewers,
        }
    }

    fn fanout_viewers(&self, sends: &mut Vec<Outgoing>, notice: Notice)
        ensures
            outgoing_views(final(sends)@) == outgoing_views(old(sends)@) + self@.notices(notice),
    {
        let ghost before = outgoing_views(sends@);
        let ghost all = self@.notices(notice);
        let mut i: usize = 0;
        assert(before + all.take(0) =~= before);
        while i < self.viewers.len()
            invariant
                i <= self.viewers.len(),
                all == self@.notices(notice),
                outgoing_views(sends@) == before + all.take(i as int),
            decreases self.viewers.len() - i,
        {
            send(
                sends,
                Outgoing::ViewerNotice { conn: self.viewers[i].conn, notice: notice.clone() },
            );
            i += 1;
            assert(outgoing_views(sends@) =~= before + all.take(i as int));
        }
        assert(all.take(all.len() as int) =~= all);
    }

    fn fanout_participant_list(&self, sends: &mut Vec<Outgoing>)
        ensures
            outgoing_views(final(sends)@) == outgoing_views(old(sends)@) + self@.list_updates(),
    {
        let list = self.participant_list();
        let ghost before = outgoing_views(sends@);
        let ghost all = self@.viewers.map_values(
            |viewer: ViewerState| OutgoingView::ViewerList { conn: viewer.conn, list: self@.list() },
        );
        let mut i: usize = 0;
        assert(before + all.take(0) =~= before);
        while i < self.viewers.len()
            invariant
                i <= self.viewers.len(),
                list@ == self@.list(),
                all == self@.viewers.map_values(
                    |viewer: ViewerState|
                        OutgoingView::ViewerList { conn: viewer.conn, list: self@.list() },
                ),
                outgoing_views(sends@) == before + all.take(i as int),
            decreases self.viewers.len() - i,
        {
            send(sends, Outgoing::ViewerList { conn: self.viewers[i].conn, list: list.clone() });
            i += 1;
            assert(outgoing_views(sends@) =~= before + all.take(i as int));
        }
        assert(all.take(all.len() as int) =~= all);
        if let Some(conn) = self.sharer_conn {
            send(sends, Outgoing::SharerList { conn, list });
        }
        assert(outgoing_views(sends@) =~= before + self@.list_updates());
    }

    fn send_sharer(&self, sends: &mut Vec<Outgoing>, request: SharerRequest)
        ensures
            outgoing_views(final(sends)@) == outgoing_views(old(sends)@) + self@.to_sharer(request),
    {
        let ghost before = outgoing_views(sends@);
        if let Some(conn) = self.sharer_conn {
            send(sends, Outgoing::SharerRequest { conn, request });
        }
        assert(outgoing_views(sends@) =~= before + self@.to_sharer(request));
    }

    fn find_viewer(&self, id: u128) -> (found: Option<usize>)
        ensures
            found is Some <==> is_viewer(self.viewers@, id),
            found matches Some(i) ==> i < self.viewers@.len() && self.viewers@[i as int].id == id,
    {
        let mut i: usize = 0;
        while i < self.viewers.len()
            invariant
                i <= self.viewers.len(),
                forall|j: int| 0 <= j < i ==> (#[trigger] self.viewers@[j]).id != id,
            decreases self.viewers.len() - i,
        {
            if self.viewers[i].id == id {
                assert(self.viewers@[i as int].id == id);
                return Some(i);
            }
            i += 1;
        }
        None
    }

    /// Whether the viewer `id` may send input.
    pub fn viewer_can_execute(&self, id: u128) -> (can: bool)
        requires
            self@.wf(),
        ensures
            can == may_execute(self.viewers@, id),
    {
        match self.find_viewer(id) {
            Some(i) => {
                let can: bool = self.viewers[i].role.can_execute();
                assert(self.viewers@[i as int].id == id);
                can
            },
            None => false,
        }
    }

    fn is_control_free(&self, id: u128) -> (free: bool)
        ensures
            free == control_is_free(self.viewers@, id),
    {
        let mut i: usize = 0;
        while i < self.viewers.len()
            invariant
                i <= self.viewers.len(),
                forall|j: int|
                    0 <= j < i && (#[trigger] self.viewers@[j]).id != id
                        ==> !self.viewers@[j].role.executes(),
            decreases self.viewers.len() - i,
        {
            if self.viewers[i].id != id && self.viewers[i].role.can_execute() {
                return false;
            }
            i += 1;
        }
        true
    }

    fn set_role(&mut self, id: u128, role: Role)
        ensures
            final(self)@ == (SessionView {
                viewers: with_role(old(self)@.viewers, id, role),
                ..old(self)@
            }),
    {
        let ghost before = self@;
        let ghost all = with_role(before.viewers, id, role);
        let takes_over: bool = role.can_execute() && self.find_viewer(id).is_some();
        let mut i: usize = 0;
        while i < self.viewers.len()
            invariant
                i <= self.viewers.len(),
                self.viewers@.len() == before.viewers.len(),
                all == with_role(before.viewers, id, role),
                takes_over == (role.executes() && is_viewer(before.viewers, id)),
                self@ == (SessionView { viewers: self.viewers@, ..before }),
                forall|j: int| 0 <= j < i ==> #[trigger] self.viewers@[j] == all[j],
                forall|j: int| i <= j < before.viewers.len() ==> #[trigger] self.viewers@[j] == before.viewers[j],
            decreases self.viewers.len() - i,
        {
            let ghost mid = self.viewers@;
            assert(mid[i as int] == before.viewers[i as int]);
            if self.viewers[i].id == id {
                self.viewers[i].role = role;
            } else if takes_over {
                self.viewers[i].role = Role::Reader;
            }
            assert(self.viewers@[i as int] == all[i as int]);
            i += 1;
        }
        assert(self.viewers@ =~= all);
    }

    fn set_selection(&mut self, id: u128, selection: &Option<String>)
        ensures
            final(self)@ == (SessionView {
                viewers: with_selection(old(self)@.viewers, id, *selection),
                ..old(self)@
            }),
    {
        let ghost before = self@;
        let ghost all = with_selection(before.viewers, id, *selection);
        let mut i: usize = 0;
        while i < self.viewers.len()
            invariant
                i <= self.viewers.len(),
                self.viewers@.len() == before.viewers.len(),
                all == with_selection(before.viewers, id, *selection),
                self@ == (SessionView { viewers: self.viewers@, ..before }),
                forall|j: int| 0 <= j < i ==> #[trigger] self.viewers@[j] == all[j],
                forall|j: int| i <= j < before.viewers.len() ==> #[trigger] self.viewers@[j] == before.viewers[j],
            decreases self.viewers.len() - i,
        {
            let ghost mid = self.viewers@;
            assert(mid[i as int] == before.viewers[i as int]);
            if self.viewers[i].id == id {
                self.viewers[i].selection = copy_opt(selection);
            }
            assert(self.viewers@[i as int] == all[i as int]);
            i += 1;
        }
        assert(self.viewers@ =~= all);
    }

    fn remove_viewer(&mut self, id: u128)
        ensures
            final(self)@ == (SessionView {
                viewers: without_viewer(old(self)@.viewers, id),
                ..old(self)@
            }),
    {
        let ghost before = self@;
        let mut i: usize = self.viewers.len();
        assert(before.viewers.take(i as int) =~= before.viewers);
        assert(self.viewers@.skip(i as int) =~= Seq::empty());
        assert(without_viewer(before.viewers, id) =~= without_viewer(
            before.viewers.take(i as int),
            id,
        ) + self.viewers@.skip(i as int));
        while i > 0
            invariant
                i <= self.viewers@.len(),
                i <= before.viewers.len(),
                self@ == (SessionView { viewers: self.viewers@, ..before }),
                self.viewers@.take(i as int) == before.viewers.take(i as int),
                without_viewer(before.viewers, id) == without_viewer(
                    before.viewers.take(i as int),
                    id,
                ) + self.viewers@.skip(i as int),
            decreases i,
        {
            let ghost mid = self.viewers@;
            let ghost head = before.viewers.take(i as int);
            i -= 1;
            assert(head.last() == mid[i as int]) by {
                assert(mid.take(i + 1)[i as int] == head[i as int]);
            }
            assert(head.drop_last() =~= before.viewers.take(i as int));
            if self.viewers[i].id == id {
                let _left = self.viewers.remove(i);
                assert(self.viewers@.skip(i as int) =~= mid.skip(i + 1));
            } else {
                assert(without_viewer(head, id) == without_viewer(head.drop_last(), id).push(
                    head.last(),
                ));
                assert(without_viewer(head, id) + mid.skip(i + 1) =~= without_viewer(
                    head.drop_last(),
                    id,
                ) + mid.skip(i as int));
            }
            assert(self.viewers@.take(i as int) =~= before.viewers.take(i as int)) by {
                assert(mid.take(i + 1).take(i as int) =~= mid.take(i as int));
                assert(head.take(i as int) =~= before.viewers.take(i as int));
            }
        }
        assert(before.viewers.take(0) =~= Seq::empty());
        assert(self.viewers@.skip(0) =~= self.viewers@);
        assert(self.viewers@ =~= without_viewer(before.viewers, id));
    }

    fn insert_event(&mut self, event: OrderedTerminalEvent)
        ensures
            final(self)@ == (SessionView {
                events: with_event(old(self)@.events, event),
                ..old(self)@
            }),
    {
        let ghost before = self@;
        let mut i: usize = self.events.len();
        assert(before.events.take(i as int) =~= before.events);
        assert(with_event(before.events, event) + before.events.skip(i as int) =~= with_event(
            before.events,
            event,
        ));
        while i > 0 && self.events[i - 1].event_no > event.event_no
            invariant
                i <= self.events@.len(),
                self@ == before,
                with_event(before.events, event) == with_event(before.events.take(i as int), event)
                    + before.events.skip(i as int),
            decreases i,
        {
            let ghost head = before.events.take(i as int);
            i -= 1;
            assert(head.drop_last() =~= before.events.take(i as int));
            assert(with_event(head, event) + before.events.skip(i + 1) =~= with_event(
                head.drop_last(),
                event,
            ) + before.events.skip(i as int));
        }
        let ghost head = before.events.take(i as int);
        if i > 0 && self.events[i - 1].event_no == event.event_no {
            let _replaced = self.events.remove(i - 1);
            self.events.insert(i - 1, event);
            assert(head.drop_last().push(event) + before.events.skip(i as int) =~= self.events@);
        } else {
            self.events.insert(i, event);
            assert(head.push(event) + before.events.skip(i as int) =~= self.events@);
        }
    }

    /// The events behind the one with the number `last_received`, or all.
    pub fn events_after(&self, last_received: Option<usize>) -> (events: Vec<OrderedTerminalEvent>)
        ensures
            events@ == later_events(self.events@, last_received),
    {
        let mut events: Vec<OrderedTerminalEvent> = Vec::new();
        let mut i: usize = 0;
        assert(self.events@.take(0) =~= Seq::empty());
        while i < self.events.len()
            invariant
                i <= self.events.len(),
                events@ == later_events(self.events@.take(i as int), last_received),
            decreases self.events.len() - i,
        {
            assert(self.events@.take(i + 1).drop_last() =~= self.events@.take(i as int));
            let missed: bool = match last_received {
                Some(last) => self.events[i].event_no > last,
                None => true,
            };
            if missed {
                events.push(self.events[i].clone());
            }
            i += 1;
        }
        assert(self.events@.take(self.events@.len() as int) =~= self.events@);
        events
    }

    fn latest_event(&self) -> (latest: Option<usize>)
        ensures
            latest == latest_event_no(self.events@),
    {
        if self.events.len() == 0 {
            None
        } else {
            Some(self.events[self.events.len() - 1].event_no)
        }
    }
}

proof fn lemma_with_event_order(events: Seq<OrderedTerminalEvent>, event: OrderedTerminalEvent)
    requires
        in_order(events),
    ensures
        in_order(with_event(events, event)),
        with_event(events, event).contains(event),
        with_event(events, event).len() > 0,
        forall|i: int|
            0 <= i < with_event(events, event).len() ==> (#[trigger] with_event(events, event)[i])
                == event || events.contains(with_event(events, event)[i]),
    decreases events.len(),
{
    let result = with_event(events, event);
    if events.len() == 0 || events.last().event_no < event.event_no {
        assert(result.last() == event);
        assert forall|i: int| 0 <= i < result.len() implies (#[trigger] result[i]) == event
            || events.contains(result[i]) by {
            if i < events.len() {
                assert(result[i] == events[i]);
            }
        }
    } else if events.last().event_no == event.event_no {
        assert(result.last() == event);
        assert forall|i: int| 0 <= i < result.len() implies (#[trigger] result[i]) == event
            || events.contains(result[i]) by {
            if i < events.len() - 1 {
                assert(result[i] == events[i]);
            }
        }
    } else {
        let rest = events.drop_last();
        lemma_with_event_order(rest, event);
        let inner = with_event(rest, event);
        assert forall|i: int| 0 <= i < inner.len() implies (#[trigger] inner[i]).event_no
            < events.last().event_no by {
            if inner[i] != event {
                let j = choose|j: int| 0 <= j < rest.len() && rest[j] == inner[i];
                assert(events[j] == inner[i]);
            }
        }
        assert forall|i: int| 0 <= i < result.len() implies (#[trigger] result[i]) == event
            || events.contains(result[i]) by {
            if i < inner.len() {
                assert(result[i] == inner[i]);
                if inner[i] != event {
                    let j = choose|j: int| 0 <= j < rest.len() && rest[j] == inner[i];
                    assert(events[j] == inner[i]);
                }
            } else {
                assert(result[i] == events[events.len() - 1]);
            }
        }
        let k = choose|k: int| 0 <= k < inner.len() && inner[k] == event;
        assert(result[k] == event);
    }
}

proof fn lemma_without_viewer(viewers: Seq<ViewerState>, id: u128)
    requires
        distinct_viewers(viewers),
        one_executor(viewers),
    ensures
        distinct_viewers(without_viewer(viewers, id)),
        one_executor(without_viewer(viewers, id)),
        !is_viewer(without_viewer(viewers, id), id),
        forall|i: int|
            0 <= i < without_viewer(viewers, id).len() ==> viewers.contains(
                #[trigger] without_viewer(viewers, id)[i],
            ),
    decreases viewers.len(),
{
    if viewers.len() > 0 {
        let rest = viewers.drop_last();
        lemma_without_viewer(rest, id);
        let inner = without_viewer(rest, id);
        let result = without_viewer(viewers, id);
        assert forall|i: int| 0 <= i < inner.len() implies viewers.contains(#[trigger] inner[i])
            && inner[i].id != viewers.last().id && !(inner[i].role.executes()
            && viewers.last().role.executes()) by {
            assert(rest.contains(inner[i]));
            let j = choose|j: int| 0 <= j < rest.len() && rest[j] == inner[i];
            assert(viewers[j] == inner[i]);
        }
        assert forall|i: int| 0 <= i < result.len() implies viewers.contains(
            #[trigger] result[i],
        ) by {
            if i < inner.len() {
                assert(result[i] == inner[i]);
            } else {
                assert(result[i] == viewers[viewers.len() - 1]);
            }
        }
        if viewers.last().id != id {
            assert forall|i: int, j: int| 0 <= i < j < result.len() implies (
            #[trigger] result[i]).id != (#[trigger] result[j]).id && !(result[i].role.executes()
                && result[j].role.executes()) by {
                assert(result[i] == inner[i]);
                if j < inner.len() {
                    assert(result[j] == inner[j]);
                } else {
                    assert(result[j] == viewers.last());
                }
            }
            assert forall|i: int| 0 <= i < result.len() implies (#[trigger] result[i]).id != id by {
                if i < inner.len() {
                    assert(result[i] == inner[i]);
                }
            }
        }
    }
}

/// What is kept once an event was added: that event, and every event with another number.
pub proof fn lemma_stored(
    events: Seq<OrderedTerminalEvent>,
    event: OrderedTerminalEvent,
    other: OrderedTerminalEvent,
)
    requires
        in_order(events),
    ensures
        with_event(events, event).contains(event),
        other.event_no != event.event_no ==> (with_event(events, event).contains(other)
            <==> events.contains(other)),
        other.event_no == event.event_no && with_event(events, event).contains(other) ==> other
            == event,
    decreases events.len(),
{
    let result = with_event(events, event);
    lemma_with_event_order(events, event);
    if other.event_no == event.event_no && result.contains(other) {
        let i = choose|i: int| 0 <= i < result.len() && result[i] == other;
        let j = choose|j: int| 0 <= j < result.len() && result[j] == event;
        if i < j {
            assert(result[i].event_no < result[j].event_no);
        } else if j < i {
            assert(result[j].event_no < result[i].event_no);
        }
    }
    if other.event_no != event.event_no {
        if result.contains(other) {
            let i = choose|i: int| 0 <= i < result.len() && result[i] == other;
            assert(events.contains(result[i]));
        }
        if events.contains(other) {
            let i = choose|i: int| 0 <= i < events.len() && events[i] == other;
            if events.last().event_no < event.event_no {
                assert(result[i] == other);
            } else if events.last().event_no == event.event_no {
                assert(events.drop_last()[i] == other);
                assert(result[i] == other);
            } else {
                let inner = with_event(events.drop_last(), event);
                lemma_stored(events.drop_last(), event, other);
                if i < events.len() - 1 {
                    assert(events.drop_last()[i] == other);
                    let k = choose|k: int| 0 <= k < inner.len() && inner[k] == other;
                    assert(result[k] == other);
                } else {
                    assert(result[result.len() - 1] == other);
                }
            }
        }
    }
}

proof fn lemma_with_role(viewers: Seq<ViewerState>, id: u128, role: Role)
    requires
        distinct_viewers(viewers),
        one_executor(viewers),
    ensures
        distinct_viewers(with_role(viewers, id, role)),
        one_executor(with_role(viewers, id, role)),
{
    let result = with_role(viewers, id, role);
    assert forall|i: int, j: int| 0 <= i < j < result.len() implies (#[trigger] result[i]).id != (
    #[trigger] result[j]).id && !(result[i].role.executes() && result[j].role.executes()) by {
        assert(viewers[i].id != viewers[j].id);
        if viewers[i].id == id || viewers[j].id == id {
            assert(is_viewer(viewers, id));
        }
    }
}

/// Whatever the sharer sends, events stay in order and at most one viewer may send input.
pub proof fn law_sharer_messages_keep_the_session_sound(
    session: SessionView,
    conn: u64,
    message: SharerMessage,
)
    requires
        session.wf(),
    ensures
        session.sharer_step(conn, message).session.wf(),
{
    match message {
        SharerMessage::OrderedTerminalEvent(event) => {
            lemma_with_event_order(session.events, event);
        },
        SharerMessage::UpdateRole { participant_id, role } => {
            lemma_with_role(session.viewers, participant_id, role);
        },
        _ => {},
    }
}

/// Whatever a viewer sends, events stay in order and at most one viewer may send input.
pub proof fn law_viewer_messages_keep_the_session_sound(
    session: SessionView,
    conn: u64,
    id: u128,
    message: ViewerMessage,
    fresh: u128,
)
    requires
        session.wf(),
    ensures
        session.viewer_step(conn, id, message, fresh).session.wf(),
{
    match message {
        ViewerMessage::RequestRole(role) => {
            lemma_with_role(session.viewers, id, role);
        },
        _ => {},
    }
}

/// Who joins comes as a reader, and takes control from nobody else.
pub proof fn law_viewers_join_as_readers(
    session: SessionView,
    conn: u64,
    id: u128,
    firebase_uid: String,
    display_name: String,
)
    requires
        session.wf(),
    ensures
        session.with_viewer(conn, id, firebase_uid, display_name).wf(),
        is_viewer(session.with_viewer(conn, id, firebase_uid, display_name).viewers, id),
        !may_execute(session.with_viewer(conn, id, firebase_uid, display_name).viewers, id),
{
    lemma_without_viewer(session.viewers, id);
    let kept = without_viewer(session.viewers, id);
    let viewers = session.with_viewer(conn, id, firebase_uid, display_name).viewers;
    assert(viewers.last().id == id);
    assert forall|i: int, j: int| 0 <= i < j < viewers.len() implies (#[trigger] viewers[i]).id != (
    #[trigger] viewers[j]).id && !(viewers[i].role.executes() && viewers[j].role.executes()) by {
        assert(viewers[i] == kept[i]);
        if j < kept.len() {
            assert(viewers[j] == kept[j]);
        }
    }
    assert forall|i: int| 0 <= i < viewers.len() && (#[trigger] viewers[i]).id == id implies !viewers[i].role.executes() by {
        if i < kept.len() {
            assert(viewers[i] == kept[i]);
        }
    }
}

/// A viewer that holds no executing role gets nothing to the sharer's terminal: each such request
/// is answered with a failure to that viewer alone, and the session stays as it is.
pub proof fn law_readers_are_refused(
    session: SessionView,
    conn: u64,
    id: u128,
    message: ViewerMessage,
    fresh: u128,
)
    requires
        !may_execute(session.viewers, id),
        message is UpdateInput || message is ExecuteCommand || message is WriteToPty
            || message is SendAgentPrompt || message is SendControlAction,
    ensures
        session.viewer_step(conn, id, message, fresh).session == session,
        session.viewer_step(conn, id, message, fresh).sends.len() == 1,
        session.viewer_step(conn, id, message, fresh).sends[0] matches OutgoingView::ViewerReply {
            conn: to,
            reply,
        } && to == conn && (reply is InputUpdateRejected || reply is CommandFailed
            || reply is WriteToPtyFailed || reply is AgentPromptFailed
            || reply is ControlActionFailed),
{
}

/// Control is given to a viewer that asks for it exactly when nobody else has it.
pub proof fn law_control_is_exclusive(
    session: SessionView,
    conn: u64,
    id: u128,
    role: Role,
    fresh: u128,
)
    requires
        session.wf(),
        is_viewer(session.viewers, id),
        role.executes(),
    ensures
        may_execute(
            session.viewer_step(conn, id, ViewerMessage::RequestRole(role), fresh).session.viewers,
            id,
        ) == (control_is_free(session.viewers, id) || may_execute(session.viewers, id)),
{
    let step = session.viewer_step(conn, id, ViewerMessage::RequestRole(role), fresh);
    if control_is_free(session.viewers, id) {
        let i = choose|i: int| 0 <= i < session.viewers.len() && (#[trigger] session.viewers[i]).id == id;
        assert(step.session.viewers[i].id == id && step.session.viewers[i].role == role);
    }
}

/// What a viewer has missed is exactly what follows the last event it has seen, in order.
pub proof fn law_missed_events(events: Seq<OrderedTerminalEvent>, last: Option<usize>)
    requires
        in_order(events),
    ensures
        in_order(later_events(events, last)),
        forall|event: OrderedTerminalEvent| #[trigger]
            later_events(events, last).contains(event) <==> events.contains(event) && (last is None
                || event.event_no > last->0),
    decreases events.len(),
{
    let result = later_events(events, last);
    if events.len() > 0 {
        let rest = events.drop_last();
        law_missed_events(rest, last);
        let inner = later_events(rest, last);
        assert forall|event: OrderedTerminalEvent| #[trigger]
            result.contains(event) <==> events.contains(event) && (last is None || event.event_no
                > last->0) by {
            assert(inner.contains(event) <==> rest.contains(event) && (last is None
                || event.event_no > last->0));
            if events.contains(event) {
                let j = choose|j: int| 0 <= j < events.len() && events[j] == event;
                if j < rest.len() {
                    assert(rest[j] == event);
                }
            }
            if rest.contains(event) {
                let j = choose|j: int| 0 <= j < rest.len() && rest[j] == event;
                assert(events[j] == event);
            }
            if inner.contains(event) {
                let j = choose|j: int| 0 <= j < inner.len() && inner[j] == event;
                assert(result[j] == event);
            }
            if result.contains(event) {
                let j = choose|j: int| 0 <= j < result.len() && result[j] == event;
                if j < inner.len() {
                    assert(inner[j] == event);
                } else {
                    assert(event == events[events.len() - 1]);
                }
            }
            if event == events.last() && (last is None || event.event_no > last->0) {
                assert(result[result.len() - 1] == event);
            }
        }
        assert forall|i: int, j: int| 0 <= i < j < result.len() implies (
        #[trigger] result[i]).event_no < (#[trigger] result[j]).event_no by {
            assert(result[i] == inner[i]);
            assert(inner.contains(inner[i]));
            let k = choose|k: int| 0 <= k < rest.len() && rest[k] == inner[i];
            assert(events[k] == inner[i]);
            if j < inner.len() {
                assert(result[j] == inner[j]);
            }
        }
    }
}

/// An event that was stored is replayed to a viewer that has not seen it.
pub proof fn law_events_are_replayed(
    events: Seq<OrderedTerminalEvent>,
    event: OrderedTerminalEvent,
    last: Option<usize>,
)
    requires
        in_order(events),
        last is None || event.event_no > last->0,
    ensures
        later_events(with_event(events, event), last).contains(event),
{
    lemma_with_event_order(events, event);
    law_missed_events(with_event(events, event), last);
}

impl SharedSession {
    /// Does what a message of the sharer asks for.
    pub fn handle_sharer_message(&mut self, conn: u64, message: SharerMessage) -> (sends: Vec<
        Outgoing,
    >)
        requires
            old(self)@.wf(),
        ensures
            final(self)@ == old(self)@.sharer_step(conn, message).session,
            outgoing_views(sends@) == old(self)@.sharer_step(conn, message).sends,
            final(self)@.wf(),
    {
        let ghost before = self@;
        let mut sends: Vec<Outgoing> = Vec::new();
        assert(outgoing_views(sends@) =~= seq![]);
        proof {
            law_sharer_messages_keep_the_session_sound(before, conn, message);
        }
        match message {
            SharerMessage::Ping { data } => {
                send(
                    &mut sends,
                    Outgoing::SharerRequest { conn, request: SharerRequest::Pong { data } },
                );
            },
            SharerMessage::EndSession { reason } => {
                self.fanout_viewers(&mut sends, Notice::SessionEnded { reason });
            },
            SharerMessage::OrderedTerminalEvent(event) => {
                let latest_processed_event_no: usize = event.event_no;
                self.insert_event(event.clone());
                self.fanout_viewers(&mut sends, Notice::OrderedTerminalEvent(event));
                send(
                    &mut sends,
                    Outgoing::SharerRequest {
                        conn,
                        request: SharerRequest::EventsProcessed { latest_processed_event_no },
                    },
                );
            },
            SharerMessage::UpdateSelection(selection) => {
                self.sharer_selection = copy_opt(&selection);
                self.fanout_viewers(
                    &mut sends,
                    Notice::PresenceUpdated { participant_id: self.sharer_id, selection },
                );
            },
            SharerMessage::UpdateActivePrompt(active_prompt) => {
                self.active_prompt = copy_opt(&active_prompt);
                self.fanout_viewers(&mut sends, Notice::ActivePromptUpdated(active_prompt));
            },
            SharerMessage::UpdateInputContext { update, merged } => {
                self.input_context = Some(merged);
                self.fanout_viewers(&mut sends, Notice::InputContextUpdated(update));
            },
            SharerMessage::UpdateInput(update) => {
                self.fanout_viewers(&mut sends, Notice::InputUpdated(update));
            },
            SharerMessage::UpdateRole { participant_id, role } => {
                self.set_role(participant_id, role);
                self.fanout_participant_list(&mut sends);
                self.fanout_viewers(&mut sends, Notice::RoleChanged { participant_id, role });
            },
            SharerMessage::Other => {},
        }
        assert(outgoing_views(sends@) =~= before.sharer_step(conn, message).sends);
        sends
    }

    fn handle_viewer_role_request(&mut self, conn: u64, id: u128, role: Role) -> (sends: Vec<
        Outgoing,
    >)
        requires
            old(self)@.wf(),
        ensures
            final(self)@ == old(self)@.viewer_step(
                conn,
                id,
                ViewerMessage::RequestRole(role),
                0,
            ).session,
            outgoing_views(sends@) == old(self)@.viewer_step(
                conn,
                id,
                ViewerMessage::RequestRole(role),
                0,
            ).sends,
    {
        let ghost before = self@;
        let mut sends: Vec<Outgoing> = Vec::new();
        assert(outgoing_views(sends@) =~= seq![]);
        if !role.can_execute() || self.is_control_free(id) {
            self.set_role(id, role);
            self.fanout_participant_list(&mut sends);
            send(
                &mut sends,
                Outgoing::ViewerReply { conn, reply: ViewerReply::RoleApproved { new_role: role } },
            );
            self.fanout_viewers(&mut sends, Notice::RoleChanged { participant_id: id, role });
        } else {
            send(&mut sends, Outgoing::ViewerReply { conn, reply: ViewerReply::RoleRejected });
        }
        assert(outgoing_views(sends@) =~= before.viewer_step(
            conn,
            id,
            ViewerMessage::RequestRole(role),
            0,
        ).sends);
        sends
    }

    fn forward_viewer_input_update(&self, conn: u64, id: u128, update: InputUpdate) -> (sends: Vec<
        Outgoing,
    >)
        requires
            self@.wf(),
        ensures
            outgoing_views(sends@) == self@.viewer_step(
                conn,
                id,
                ViewerMessage::UpdateInput(update),
                0,
            ).sends,
    {
        let mut sends: Vec<Outgoing> = Vec::new();
        assert(outgoing_views(sends@) =~= seq![]);
        if self.viewer_can_execute(id) {
            self.send_sharer(&mut sends, SharerRequest::InputUpdated(update));
        } else {
            send(
                &mut sends,
                Outgoing::ViewerReply {
                    conn,
                    reply: ViewerReply::InputUpdateRejected { id: update.id },
                },
            );
        }
        assert(outgoing_views(sends@) =~= self@.viewer_step(
            conn,
            id,
            ViewerMessage::UpdateInput(update),
            0,
        ).sends);
        sends
    }

    fn forward_agent_prompt(&self, conn: u64, id: u128, request: AgentPromptRequest) -> (sends: Vec<
        Outgoing,
    >)
        requires
            self@.wf(),
        ensures
            outgoing_views(sends@) == self@.viewer_step(
                conn,
                id,
                ViewerMessage::SendAgentPrompt(request),
                0,
            ).sends,
    {
        let mut sends: Vec<Outgoing> = Vec::new();
        assert(outgoing_views(sends@) =~= seq![]);
        if !self.viewer_can_execute(id) {
            send(
                &mut sends,
                Outgoing::ViewerReply {
                    conn,
                    reply: ViewerReply::AgentPromptFailed {
                        reason: FailureReason::InsufficientPermissions,
                    },
                },
            );
        } else {
            match &self.agent_run_id {
                Some(agent_run_id) => send(
                    &mut sends,
                    Outgoing::AgentFollowup { conn, agent_run_id: agent_run_id.clone(), request },
                ),
                None => {
                    let request_id = request.id.clone();
                    self.send_sharer(
                        &mut sends,
                        SharerRequest::AgentPrompt { participant_id: id, request },
                    );
                    send(
                        &mut sends,
                        Outgoing::ViewerReply {
                            conn,
                            reply: ViewerReply::AgentPromptInFlight { id: request_id },
                        },
                    );
                },
            }
        }
        assert(outgoing_views(sends@) =~= self@.viewer_step(
            conn,
            id,
            ViewerMessage::SendAgentPrompt(request),
            0,
        ).sends);
        sends
    }

    /// Does what a message of a viewer asks for. A request that is passed on gets the number
    /// `fresh`.
    pub fn handle_viewer_message(
        &mut self,
        conn: u64,
        id: u128,
        message: ViewerMessage,
        fresh: u128,
    ) -> (sends: Vec<Outgoing>)
        requires
            old(self)@.wf(),
        ensures
            final(self)@ == old(self)@.viewer_step(conn, id, message, fresh).session,
            outgoing_views(sends@) == old(self)@.viewer_step(conn, id, message, fresh).sends,
            final(self)@.wf(),
    {
        let ghost before = self@;
        let mut sends: Vec<Outgoing> = Vec::new();
        assert(outgoing_views(sends@) =~= seq![]);
        proof {
            law_viewer_messages_keep_the_session_sound(before, conn, id, message, fresh);
        }
        match message {
            ViewerMessage::Ping { data } => {
                send(&mut sends, Outgoing::ViewerReply { conn, reply: ViewerReply::Pong { data } });
            },
            ViewerMessage::UpdateSelection(selection) => {
                self.set_selection(id, &selection);
                self.fanout_viewers(
                    &mut sends,
                    Notice::PresenceUpdated {
                        participant_id: id,
                        selection: copy_opt(&selection),
                    },
                );
                self.send_sharer(
                    &mut sends,
                    SharerRequest::PresenceUpdated { participant_id: id, selection },
                );
            },
            ViewerMessage::RequestRole(role) => {
                return self.handle_viewer_role_request(conn, id, role);
            },
            ViewerMessage::UpdateInput(update) => {
                return self.forward_viewer_input_update(conn, id, update);
            },
            ViewerMessage::ExecuteCommand { buffer_id, command } => {
                if self.viewer_can_execute(id) {
                    self.send_sharer(
                        &mut sends,
                        SharerRequest::ExecuteCommand {
                            id: fresh,
                            participant_id: id,
                            buffer_id,
                            command,
                        },
                    );
                    send(
                        &mut sends,
                        Outgoing::ViewerReply {
                            conn,
                            reply: ViewerReply::CommandInFlight { id: fresh },
                        },
                    );
                } else {
                    send(
                        &mut sends,
                        Outgoing::ViewerReply {
                            conn,
                            reply: ViewerReply::CommandFailed { id: fresh },
                        },
                    );
                }
            },
            ViewerMessage::WriteToPty { request_id, bytes } => {
                if self.viewer_can_execute(id) {
                    self.send_sharer(
                        &mut sends,
                        SharerRequest::WriteToPty { id: request_id, bytes },
                    );
                } else {
                    send(
                        &mut sends,
                        Outgoing::ViewerReply { conn, reply: ViewerReply::WriteToPtyFailed },
                    );
                }
            },
            ViewerMessage::SendAgentPrompt(request) => {
                return self.forward_agent_prompt(conn, id, request);
            },
            ViewerMessage::SendControlAction(action) => {
                if self.viewer_can_execute(id) {
                    self.send_sharer(
                        &mut sends,
                        SharerRequest::ControlAction {
                            participant_id: id,
                            request_id: fresh,
                            action,
                        },
                    );
                } else {
                    send(
                        &mut sends,
                        Outgoing::ViewerReply { conn, reply: ViewerReply::ControlActionFailed },
                    );
                }
            },
            ViewerMessage::UpdateInputContext { update, merged } => {
                self.input_context = Some(merged);
                self.send_sharer(
                    &mut sends,
                    SharerRequest::InputContextUpdated(update.clone()),
                );
                self.fanout_viewers(&mut sends, Notice::InputContextUpdated(update));
            },
            ViewerMessage::ReportTerminalSize { window_size } => {
                self.send_sharer(
                    &mut sends,
                    SharerRequest::TerminalSizeReported { participant_id: id, window_size },
                );
            },
            ViewerMessage::Other => {},
        }
        assert(outgoing_views(sends@) =~= before.viewer_step(conn, id, message, fresh).sends);
        sends
    }

    /// Lets a viewer in.
    pub fn join(
        &mut self,
        conn: u64,
        id: u128,
        last_received: Option<usize>,
        firebase_uid: &String,
        display_name: &String,
    ) -> (sends: Vec<Outgoing>)
        requires
            old(self)@.wf(),
        ensures
            final(self)@ == old(self)@.join_step(
                conn,
                id,
                last_received,
                *firebase_uid,
                *display_name,
            ).session,
            outgoing_views(sends@) == old(self)@.join_step(
                conn,
                id,
                last_received,
                *firebase_uid,
                *display_name,
            ).sends,
            final(self)@.wf(),
    {
        let ghost before = self@;
        let ghost step = before.join_step(conn, id, last_received, *firebase_uid, *display_name);
        proof {
            law_viewers_join_as_readers(before, conn, id, *firebase_uid, *display_name);
        }
        let mut sends: Vec<Outgoing> = Vec::new();
        assert(outgoing_views(sends@) =~= seq![]);
        let rejoining: bool = self.find_viewer(id).is_some();
        self.remove_viewer(id);
        self.viewers.push(
            ViewerState {
                id,
                conn,
                firebase_uid: firebase_uid.clone(),
                display_name: display_name.clone(),
                selection: None,
                role: Role::Reader,
            },
        );
        let participant_list = self.participant_list();
        if rejoining {
            send(&mut sends, Outgoing::ViewerRejoined { conn, list: participant_list });
        } else {
            let joined = Joined {
                scrollback: copy_opt(&self.scrollback),
                active_prompt: copy_opt(&self.active_prompt),
                latest_event_no: self.latest_event(),
                window_size: self.window_size,
                participant_list,
                viewer_id: id,
                viewer_firebase_uid: firebase_uid.clone(),
                init_block_id: self.init_block_id.clone(),
                input_replica_id: self.input_replica_id.clone(),
                input_context: copy_opt(&self.input_context),
                source_type: self.source_type.clone(),
            };
            send(&mut sends, Outgoing::ViewerJoined { conn, joined });
        }
        self.fanout_participant_list(&mut sends);
        let ghost so_far = outgoing_views(sends@);
        let missed = self.events_after(last_received);
        let ghost replay = missed@.map_values(
            |event: OrderedTerminalEvent|
                OutgoingView::ViewerNotice { conn, notice: Notice::OrderedTerminalEvent(event) },
        );
        let mut i: usize = 0;
        assert(so_far + replay.take(0) =~= so_far);
        while i < missed.len()
            invariant
                i <= missed.len(),
                replay == missed@.map_values(
                    |event: OrderedTerminalEvent|
                        OutgoingView::ViewerNotice {
                            conn,
                            notice: Notice::OrderedTerminalEvent(event),
                        },
                ),
                outgoing_views(sends@) == so_far + replay.take(i as int),
            decreases missed.len() - i,
        {
            send(
                &mut sends,
                Outgoing::ViewerNotice {
                    conn,
                    notice: Notice::OrderedTerminalEvent(missed[i].clone()),
                },
            );
            i += 1;
            assert(outgoing_views(sends@) =~= so_far + replay.take(i as int));
        }
        assert(replay.take(replay.len() as int) =~= replay);
        assert(outgoing_views(sends@) =~= step.sends);
        sends
    }

    /// Takes note that the connection of a viewer ended.
    pub fn leave(&mut self, conn: u64, id: u128) -> (sends: Vec<Outgoing>)
        requires
            old(self)@.wf(),
        ensures
            final(self)@ == old(self)@.leave_step(conn, id).session,
            outgoing_views(sends@) == old(self)@.leave_step(conn, id).sends,
            final(self)@.wf(),
    {
        let ghost before = self@;
        proof {
            lemma_without_viewer(before.viewers, id);
        }
        let mut sends: Vec<Outgoing> = Vec::new();
        assert(outgoing_views(sends@) =~= seq![]);
        if let Some(i) = self.find_viewer(id) {
            assert(before.viewers[i as int].id == id);
            if self.viewers[i].conn == conn {
                self.remove_viewer(id);
                self.fanout_participant_list(&mut sends);
            }
        }
        assert(outgoing_views(sends@) =~= before.leave_step(conn, id).sends);
        sends
    }

    /// Lets the sharer back in.
    pub fn resume(&mut self, conn: u64, selection: Option<String>) -> (sends: Vec<Outgoing>)
        requires
            old(self)@.wf(),
        ensures
            final(self)@ == old(self)@.resume_step(conn, selection).session,
            outgoing_views(sends@) == old(self)@.resume_step(conn, selection).sends,
            final(self)@.wf(),
    {
        self.sharer_conn = Some(conn);
        self.sharer_selection = selection;
        let mut sends: Vec<Outgoing> = Vec::new();
        assert(outgoing_views(sends@) =~= seq![]);
        send(
            &mut sends,
            Outgoing::SharerReconnected {
                conn,
                last_received_event_no: self.latest_event(),
                list: self.participant_list(),
            },
        );
        sends
    }

    /// Takes note that the connection of the sharer ended.
    pub fn sharer_disconnected(&mut self, conn: u64)
        ensures
            final(self)@ == old(self)@.sharer_left(conn),
    {
        if let Some(current) = self.sharer_conn {
            if current == conn {
                self.sharer_conn = None;
            }
        }
    }

    /// Adds what the agent reported as the next event.
    pub fn append_agent_event(&mut self, response: String) -> (sends: Vec<Outgoing>)
        requires
            old(self)@.wf(),
            old(self)@.next_event_no() <= usize::MAX,
        ensures
            ({
                let event = OrderedTerminalEvent {
                    event_no: old(self)@.next_event_no() as usize,
                    event_type: crate::session::protocol::EventType::AgentResponse(response),
                };
                &&& final(self)@ == old(self)@.agent_step(event).session
                &&& outgoing_views(sends@) == old(self)@.agent_step(event).sends
                &&& final(self)@.events == old(self)@.events.push(event)
            }),
            final(self)@.wf(),
    {
        let event_no: usize = match self.latest_event() {
            Some(latest) => latest + 1,
            None => 0,
        };
        let event = ordered_agent_response_event(event_no, response);
        proof {
            lemma_with_event_order(self.events@, event);
        }
        let mut sends: Vec<Outgoing> = Vec::new();
        assert(outgoing_views(sends@) =~= seq![]);
        self.insert_event(event.clone());
        self.fanout_viewers(&mut sends, Notice::OrderedTerminalEvent(event));
        assert(outgoing_views(sends@) =~= self@.notices(Notice::OrderedTerminalEvent(event)));
        sends
    }
}

/// The event with which an agent's response enters a session.
pub fn ordered_agent_response_event(event_no: usize, response: String) -> (event:
    OrderedTerminalEvent)
    ensures
        event.event_no == event_no,
        event.event_type == crate::session::protocol::EventType::AgentResponse(response),
{
    OrderedTerminalEvent {
        event_no,
        event_type: crate::session::protocol::EventType::AgentResponse(response),
    }
}

} // verus!
