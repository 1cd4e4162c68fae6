//! What participants of a shared session can rely on.

use vstd::prelude::*;

use crate::session::broker::{NewSessionIds, SessionInit, agent_session, created, needs_no_session};
use crate::session::protocol::{
    AgentPromptRequest, EventType, FailureReason, InputUpdate, Notice, OrderedTerminalEvent,
    OutgoingView, Role, SessionEndedReason, SessionSourceType, SharerMessage, SharerRequest,
    ViewerMessage, ViewerReply, WindowSize,
};
use crate::session::shared::{
    SessionView, Step, ViewerState, later_events, lemma_stored, without_viewer,
};

verus! {

/// Whether `id` is the number of a viewer that was given more than the right to look on.
pub open spec fn holds_control(session: SessionView, id: u128) -> bool {
    exists|i: int|
        0 <= i < session.viewers.len() && (#[trigger] session.viewers[i]).id == id
            && session.viewers[i].role != Role::Reader
}

/// Whether every viewer is told `notice`, and nothing else is sent.
pub open spec fn all_are_told(sends: Seq<OutgoingView>, session: SessionView, notice: Notice) -> bool {
    &&& sends.len() == session.viewers.len()
    &&& forall|i: int|
        0 <= i < session.viewers.len() ==> #[trigger] sends[i] == (OutgoingView::ViewerNotice {
            conn: session.viewers[i].conn,
            notice,
        })
}

/// What a viewer with control types, runs or asks for reaches the sharer once, as it was sent, and
/// the session stays as it is.
pub proof fn law_input_reaches_the_sharer(
    session: SessionView,
    conn: u64,
    id: u128,
    sharer: u64,
    fresh: u128,
    update: InputUpdate,
    buffer_id: String,
    command: String,
    request_id: String,
    bytes: Vec<u8>,
    action: String,
)
    requires
        holds_control(session, id),
        session.sharer_conn == Some(sharer),
    ensures
        session.viewer_step(conn, id, ViewerMessage::UpdateInput(update), fresh) == (Step {
            session,
            sends: seq![
                OutgoingView::SharerRequest {
                    conn: sharer,
                    request: SharerRequest::InputUpdated(update),
                },
            ],
        }),
        session.viewer_step(
            conn,
            id,
            ViewerMessage::ExecuteCommand { buffer_id, command },
            fresh,
        ) == (Step {
            session,
            sends: seq![
                OutgoingView::SharerRequest {
                    conn: sharer,
                    request: SharerRequest::ExecuteCommand {
                        id: fresh,
                        participant_id: id,
                        buffer_id,
                        command,
                    },
                },
                OutgoingView::ViewerReply {
                    conn,
                    reply: ViewerReply::CommandInFlight { id: fresh },
                },
            ],
        }),
        session.viewer_step(conn, id, ViewerMessage::WriteToPty { request_id, bytes }, fresh) == (
        Step {
            session,
            sends: seq![
                OutgoingView::SharerRequest {
                    conn: sharer,
                    request: SharerRequest::WriteToPty { id: request_id, bytes },
                },
            ],
        }),
        session.viewer_step(conn, id, ViewerMessage::SendControlAction(action), fresh) == (Step {
            session,
            sends: seq![
                OutgoingView::SharerRequest {
                    conn: sharer,
                    request: SharerRequest::ControlAction {
                        participant_id: id,
                        request_id: fresh,
                        action,
                    },
                },
            ],
        }),
{
    let typed = session.viewer_step(conn, id, ViewerMessage::UpdateInput(update), fresh);
    let run = session.viewer_step(
        conn,
        id,
        ViewerMessage::ExecuteCommand { buffer_id, command },
        fresh,
    );
    assert(run.sends =~= seq![run.sends[0], run.sends[1]]);
}

/// What a viewer without control types, runs or asks for goes nowhere: the viewer is told that it
/// was turned down, and which request that was.
pub proof fn law_refusals_name_the_request(
    session: SessionView,
    conn: u64,
    id: u128,
    fresh: u128,
    update: InputUpdate,
    buffer_id: String,
    command: String,
    request_id: String,
    bytes: Vec<u8>,
    action: String,
    request: AgentPromptRequest,
)
    requires
        !holds_control(session, id),
    ensures
        session.viewer_step(conn, id, ViewerMessage::UpdateInput(update), fresh) == (Step {
            session,
            sends: seq![
                OutgoingView::ViewerReply {
                    conn,
                    reply: ViewerReply::InputUpdateRejected { id: update.id },
                },
            ],
        }),
        session.viewer_step(
            conn,
            id,
            ViewerMessage::ExecuteCommand { buffer_id, command },
            fresh,
        ) == (Step {
            session,
            sends: seq![
                OutgoingView::ViewerReply { conn, reply: ViewerReply::CommandFailed { id: fresh } },
            ],
        }),
        session.viewer_step(conn, id, ViewerMessage::WriteToPty { request_id, bytes }, fresh) == (
        Step {
            session,
            sends: seq![OutgoingView::ViewerReply { conn, reply: ViewerReply::WriteToPtyFailed }],
        }),
        session.viewer_step(conn, id, ViewerMessage::SendControlAction(action), fresh) == (Step {
            session,
            sends: seq![
                OutgoingView::ViewerReply { conn, reply: ViewerReply::ControlActionFailed },
            ],
        }),
        session.viewer_step(conn, id, ViewerMessage::SendAgentPrompt(request), fresh) == (Step {
            session,
            sends: seq![
                OutgoingView::ViewerReply {
                    conn,
                    reply: ViewerReply::AgentPromptFailed {
                        reason: FailureReason::InsufficientPermissions,
                    },
                },
            ],
        }),
{
}

/// A prompt of a viewer with control goes to the agent whose session this is, or else to the sharer,
/// and the viewer hears that it is on its way.
pub proof fn law_prompts_reach_an_agent(
    session: SessionView,
    conn: u64,
    id: u128,
    sharer: u64,
    fresh: u128,
    request: AgentPromptRequest,
)
    requires
        holds_control(session, id),
        session.sharer_conn == Some(sharer),
    ensures
        ({
            let step = session.viewer_step(
                conn,
                id,
                ViewerMessage::SendAgentPrompt(request),
                fresh,
            );
            &&& step.session == session
            &&& match session.agent_run_id {
                Some(agent_run_id) => step.sends == seq![
                    OutgoingView::AgentFollowup { conn, agent_run_id, request },
                ],
                None => step.sends == seq![
                    OutgoingView::SharerRequest {
                        conn: sharer,
                        request: SharerRequest::AgentPrompt { participant_id: id, request },
                    },
                    OutgoingView::ViewerReply {
                        conn,
                        reply: ViewerReply::AgentPromptInFlight { id: request.id },
                    },
                ],
            }
        }),
{
    let step = session.viewer_step(conn, id, ViewerMessage::SendAgentPrompt(request), fresh);
    if session.agent_run_id is None {
        assert(step.sends =~= seq![step.sends[0], step.sends[1]]);
    }
}

/// What a viewer tells of itself reaches everybody: its selection the viewers and the sharer, the
/// context of its input likewise, the size of its window the sharer. A ping comes back to it.
pub proof fn law_viewers_are_heard(
    session: SessionView,
    conn: u64,
    id: u128,
    sharer: u64,
    fresh: u128,
    selection: Option<String>,
    update: String,
    merged: String,
    window_size: WindowSize,
    data: Vec<u8>,
)
    requires
        session.sharer_conn == Some(sharer),
    ensures
        ({
            let step = session.viewer_step(
                conn,
                id,
                ViewerMessage::UpdateSelection(selection),
                fresh,
            );
            let n = session.viewers.len();
            &&& step.session.viewers.len() == n
            &&& forall|i: int|
                0 <= i < n ==> {
                    let before = session.viewers[i];
                    let after = #[trigger] step.session.viewers[i];
                    &&& after.id == before.id && after.conn == before.conn && after.role
                        == before.role
                    &&& after.firebase_uid == before.firebase_uid && after.display_name
                        == before.display_name
                    &&& after.selection == if before.id == id {
                        selection
                    } else {
                        before.selection
                    }
                }
            &&& step.session == (SessionView { viewers: step.session.viewers, ..session })
            &&& all_are_told(
                step.sends.drop_last(),
                session,
                Notice::PresenceUpdated { participant_id: id, selection },
            )
            &&& step.sends.len() > 0 && step.sends.last() == (OutgoingView::SharerRequest {
                conn: sharer,
                request: SharerRequest::PresenceUpdated { participant_id: id, selection },
            })
        }),
        ({
            let step = session.viewer_step(
                conn,
                id,
                ViewerMessage::UpdateInputContext { update, merged },
                fresh,
            );
            &&& step.session == (SessionView { input_context: Some(merged), ..session })
            &&& step.sends.len() > 0 && step.sends[0] == (OutgoingView::SharerRequest {
                conn: sharer,
                request: SharerRequest::InputContextUpdated(update),
            })
            &&& all_are_told(step.sends.skip(1), session, Notice::InputContextUpdated(update))
        }),
        session.viewer_step(conn, id, ViewerMessage::ReportTerminalSize { window_size }, fresh) == (
        Step {
            session,
            sends: seq![
                OutgoingView::SharerRequest {
                    conn: sharer,
                    request: SharerRequest::TerminalSizeReported { participant_id: id, window_size },
                },
            ],
        }),
        session.viewer_step(conn, id, ViewerMessage::Ping { data }, fresh) == (Step {
            session,
            sends: seq![OutgoingView::ViewerReply { conn, reply: ViewerReply::Pong { data } }],
        }),
{
    let told = session.viewer_step(
        conn,
        id,
        ViewerMessage::UpdateInputContext { update, merged },
        fresh,
    );
    assert(forall|i: int| 0 <= i < session.viewers.len() ==> told.sends.skip(1)[i] == told.sends[i + 1]);
}

/// What the sharer does reaches every viewer as it was, and is kept for those who come later.
pub proof fn law_viewers_see_what_the_sharer_does(
    session: SessionView,
    conn: u64,
    selection: Option<String>,
    active_prompt: Option<String>,
    update: String,
    merged: String,
    input: InputUpdate,
    reason: SessionEndedReason,
    data: Vec<u8>,
)
    ensures
        ({
            let step = session.sharer_step(conn, SharerMessage::UpdateSelection(selection));
            &&& step.session == (SessionView { sharer_selection: selection, ..session })
            &&& all_are_told(
                step.sends,
                session,
                Notice::PresenceUpdated { participant_id: session.sharer_id, selection },
            )
        }),
        ({
            let step = session.sharer_step(conn, SharerMessage::UpdateActivePrompt(active_prompt));
            &&& step.session == (SessionView { active_prompt, ..session })
            &&& all_are_told(step.sends, session, Notice::ActivePromptUpdated(active_prompt))
        }),
        ({
            let step = session.sharer_step(
                conn,
                SharerMessage::UpdateInputContext { update, merged },
            );
            &&& step.session == (SessionView { input_context: Some(merged), ..session })
            &&& all_are_told(step.sends, session, Notice::InputContextUpdated(update))
        }),
        ({
            let step = session.sharer_step(conn, SharerMessage::UpdateInput(input));
            &&& step.session == session
            &&& all_are_told(step.sends, session, Notice::InputUpdated(input))
        }),
        all_are_told(
            session.sharer_step(conn, SharerMessage::EndSession { reason }).sends,
            session,
            Notice::SessionEnded { reason },
        ),
        session.sharer_step(conn, SharerMessage::Ping { data }) == (Step {
            session,
            sends: seq![
                OutgoingView::SharerRequest { conn, request: SharerRequest::Pong { data } },
            ],
        }),
{
}

/// An event of the sharer is kept under its number, in the place of one that was there, beside all
/// others; every viewer sees it, and the sharer hears that it was taken.
pub proof fn law_events_are_kept_and_shown(
    session: SessionView,
    conn: u64,
    event: OrderedTerminalEvent,
    other: OrderedTerminalEvent,
)
    requires
        session.wf(),
    ensures
        ({
            let step = session.sharer_step(conn, SharerMessage::OrderedTerminalEvent(event));
            &&& step.session == (SessionView { events: step.session.events, ..session })
            &&& step.session.events.contains(event)
            &&& other.event_no != event.event_no ==> (step.session.events.contains(other)
                <==> session.events.contains(other))
            &&& other.event_no == event.event_no && step.session.events.contains(other) ==> other
                == event
            &&& all_are_told(
                step.sends.drop_last(),
                session,
                Notice::OrderedTerminalEvent(event),
            )
            &&& step.sends.len() > 0 && step.sends.last() == (OutgoingView::SharerRequest {
                conn,
                request: SharerRequest::EventsProcessed {
                    latest_processed_event_no: event.event_no,
                },
            })
        }),
{
    lemma_stored(session.events, event, other);
}

/// What an agent reports becomes the event behind all others, and every viewer sees it.
pub proof fn law_reports_come_last(session: SessionView, event: OrderedTerminalEvent, other: OrderedTerminalEvent)
    requires
        session.wf(),
        event.event_no == session.next_event_no(),
    ensures
        ({
            let step = session.agent_step(event);
            &&& forall|i: int|
                0 <= i < session.events.len() ==> (#[trigger] session.events[i]).event_no
                    < event.event_no
            &&& step.session == (SessionView { events: session.events.push(event), ..session })
            &&& all_are_told(step.sends, session, Notice::OrderedTerminalEvent(event))
            &&& session.events.len() > 0 ==> event.event_no == session.events.last().event_no + 1
            &&& session.events.len() == 0 ==> event.event_no == 0
        }),
{
    let last = session.events.len() - 1;
    assert forall|i: int| 0 <= i < session.events.len() implies (
    #[trigger] session.events[i]).event_no < event.event_no by {
        if i < last {
            assert(session.events[i].event_no < session.events[last].event_no);
        }
    }
}

/// Everybody in a session is listed: the sharer, and every viewer with its role, in order.
pub proof fn law_everybody_is_listed(session: SessionView)
    ensures
        session.list().sharer.id == session.sharer_id,
        session.list().sharer.firebase_uid == session.sharer_firebase_uid,
        session.list().sharer.display_name == session.sharer_display_name,
        session.list().sharer.input_replica_id == Some(session.input_replica_id),
        session.list().sharer.selection == session.sharer_selection,
        session.list().viewers.len() == session.viewers.len(),
        forall|i: int|
            0 <= i < session.viewers.len() ==> {
                let listed = #[trigger] session.list().viewers[i];
                let viewer = session.viewers[i];
                &&& listed.info.id == viewer.id
                &&& listed.info.firebase_uid == viewer.firebase_uid
                &&& listed.info.display_name == viewer.display_name
                &&& listed.info.selection == viewer.selection
                &&& listed.info.input_replica_id is None
                &&& listed.role == viewer.role
                &&& listed.is_present
            },
{
}

/// Whether everybody, the sharer included, is sent the list of participants, and nothing else.
pub open spec fn all_get_the_list(sends: Seq<OutgoingView>, session: SessionView) -> bool {
    let n = session.viewers.len() as int;
    &&& sends.len() == n + (if session.sharer_conn is Some {
        1int
    } else {
        0
    })
    &&& forall|i: int|
        0 <= i < n ==> #[trigger] sends[i] == (OutgoingView::ViewerList {
            conn: session.viewers[i].conn,
            list: session.list(),
        })
    &&& session.sharer_conn matches Some(sharer) ==> sends[n] == (OutgoingView::SharerList {
        conn: sharer,
        list: session.list(),
    })
}

/// Whether `after` is `before` with the role given to the viewer `id`: that viewer has it, and where
/// it brings control, no other viewer keeps control. Nothing else changes.
pub open spec fn role_was_given(before: SessionView, after: SessionView, id: u128, role: Role) -> bool {
    let there = exists|i: int| 0 <= i < before.viewers.len() && (#[trigger] before.viewers[i]).id == id;
    &&& after == (SessionView { viewers: after.viewers, ..before })
    &&& after.viewers.len() == before.viewers.len()
    &&& forall|i: int|
        0 <= i < before.viewers.len() ==> {
            let old_viewer = before.viewers[i];
            let new_viewer = #[trigger] after.viewers[i];
            &&& new_viewer == (ViewerState { role: new_viewer.role, ..old_viewer })
            &&& old_viewer.id == id ==> new_viewer.role == role
            &&& old_viewer.id != id ==> new_viewer.role == if there && role != Role::Reader {
                Role::Reader
            } else {
                old_viewer.role
            }
        }
}

/// A role that the sharer gives is held from then on; everybody gets the new list, and every viewer
/// is told.
pub proof fn law_given_roles_are_held(session: SessionView, conn: u64, id: u128, role: Role)
    ensures
        ({
            let step = session.sharer_step(
                conn,
                SharerMessage::UpdateRole { participant_id: id, role },
            );
            let lists = session.viewers.len() + (if session.sharer_conn is Some {
                1int
            } else {
                0
            });
            &&& role_was_given(session, step.session, id, role)
            &&& all_get_the_list(step.sends.take(lists), step.session)
            &&& all_are_told(
                step.sends.skip(lists),
                session,
                Notice::RoleChanged { participant_id: id, role },
            )
        }),
{
    let step = session.sharer_step(conn, SharerMessage::UpdateRole { participant_id: id, role });
    let lists = step.session.list_updates();
    let notices = step.session.notices(Notice::RoleChanged { participant_id: id, role });
    assert(step.sends =~= lists + notices);
    assert(step.sends.take(lists.len() as int) =~= lists);
    assert(step.sends.skip(lists.len() as int) =~= notices);
}

/// A viewer that asks for a role gets it, and is told so, unless it asks for control that another
/// viewer holds: then it is turned down, and nothing changes.
pub proof fn law_asked_for_roles(session: SessionView, conn: u64, id: u128, role: Role, fresh: u128)
    ensures
        ({
            let step = session.viewer_step(conn, id, ViewerMessage::RequestRole(role), fresh);
            let lists = session.viewers.len() + (if session.sharer_conn is Some {
                1int
            } else {
                0
            });
            let taken = exists|i: int|
                0 <= i < session.viewers.len() && (#[trigger] session.viewers[i]).id != id
                    && session.viewers[i].role != Role::Reader;
            if role != Role::Reader && taken {
                step == (Step {
                    session,
                    sends: seq![
                        OutgoingView::ViewerReply { conn, reply: ViewerReply::RoleRejected },
                    ],
                })
            } else {
                &&& role_was_given(session, step.session, id, role)
                &&& all_get_the_list(step.sends.take(lists), step.session)
                &&& step.sends.len() > lists && step.sends[lists] == (OutgoingView::ViewerReply {
                    conn,
                    reply: ViewerReply::RoleApproved { new_role: role },
                })
                &&& all_are_told(
                    step.sends.skip(lists + 1),
                    session,
                    Notice::RoleChanged { participant_id: id, role },
                )
            }
        }),
{
    let step = session.viewer_step(conn, id, ViewerMessage::RequestRole(role), fresh);
    let lists = step.session.list_updates();
    let notices = step.session.notices(Notice::RoleChanged { participant_id: id, role });
    let reply = OutgoingView::ViewerReply {
        conn,
        reply: ViewerReply::RoleApproved { new_role: role },
    };
    let n = lists.len() as int;
    if step.sends.len() != 1 || role == Role::Reader {
        assert(step.sends =~= lists + seq![reply] + notices);
    }
    if step.sends == lists + seq![reply] + notices {
        assert(step.sends.take(n) =~= lists);
        assert(step.sends[n] == reply);
        assert(step.sends.skip(n + 1) =~= notices);
    }
}

proof fn lemma_without_is_a_filter(viewers: Seq<ViewerState>, id: u128)
    ensures
        without_viewer(viewers, id) == viewers.filter(|viewer: ViewerState| viewer.id != id),
    decreases viewers.len(),
{
    reveal(Seq::filter);
    if viewers.len() > 0 {
        lemma_without_is_a_filter(viewers.drop_last(), id);
    }
}

proof fn lemma_later_is_a_filter(events: Seq<OrderedTerminalEvent>, last: Option<usize>)
    ensures
        later_events(events, last) == events.filter(
            |event: OrderedTerminalEvent| last is None || event.event_no > last->0,
        ),
    decreases events.len(),
{
    reveal(Seq::filter);
    if events.len() > 0 {
        lemma_later_is_a_filter(events.drop_last(), last);
    }
}

/// Who joins takes the last place among the viewers, as a reader that selects nothing, whether or
/// not it was there before; the others stay where they are. It is shown the session, or the
/// participants where it comes back; everybody gets the new list; and then it sees, in order, the
/// events that it has not seen.
pub proof fn law_joining(
    session: SessionView,
    conn: u64,
    id: u128,
    last: Option<usize>,
    firebase_uid: String,
    display_name: String,
)
    ensures
        ({
            let step = session.join_step(conn, id, last, firebase_uid, display_name);
            let came_back = exists|i: int|
                0 <= i < session.viewers.len() && (#[trigger] session.viewers[i]).id == id;
            let others = session.viewers.filter(|viewer: ViewerState| viewer.id != id);
            let missed = session.events.filter(
                |event: OrderedTerminalEvent| last is None || event.event_no > last->0,
            );
            let lists = others.len() + 1 + (if session.sharer_conn is Some {
                1int
            } else {
                0
            });
            &&& step.session == (SessionView {
                viewers: others.push(
                    ViewerState {
                        id,
                        conn,
                        firebase_uid,
                        display_name,
                        selection: None,
                        role: Role::Reader,
                    },
                ),
                ..session
            })
            &&& step.sends.len() == 1 + lists + missed.len()
            &&& came_back ==> step.sends[0] == (OutgoingView::ViewerRejoined {
                conn,
                list: step.session.list(),
            })
            &&& !came_back ==> {
                &&& step.sends[0] matches OutgoingView::ViewerJoined { conn: to, joined }
                &&& to == conn
                &&& joined.scrollback == session.scrollback
                &&& joined.active_prompt == session.active_prompt
                &&& joined.latest_event_no == if session.events.len() == 0 {
                    None
                } else {
                    Some(session.events.last().event_no)
                }
                &&& joined.window_size == session.window_size
                &&& joined.participant_list == step.session.list()
                &&& joined.viewer_id == id
                &&& joined.viewer_firebase_uid == firebase_uid
                &&& joined.init_block_id == session.init_block_id
                &&& joined.input_replica_id == session.input_replica_id
                &&& joined.input_context == session.input_context
                &&& joined.source_type == session.source_type
            }
            &&& all_get_the_list(step.sends.subrange(1, 1 + lists), step.session)
            &&& forall|i: int|
                0 <= i < missed.len() ==> #[trigger] step.sends[1 + lists + i] == (
                OutgoingView::ViewerNotice {
                    conn,
                    notice: Notice::OrderedTerminalEvent(missed[i]),
                })
        }),
{
    let step = session.join_step(conn, id, last, firebase_uid, display_name);
    lemma_without_is_a_filter(session.viewers, id);
    lemma_later_is_a_filter(session.events, last);
    let lists = step.session.list_updates();
    let n = 1 + lists.len() as int;
    assert(step.sends.subrange(1, n) =~= lists);
    let missed = later_events(session.events, last);
    assert forall|i: int| 0 <= i < missed.len() implies #[trigger] step.sends[n + i] == (
    OutgoingView::ViewerNotice { conn, notice: Notice::OrderedTerminalEvent(missed[i]) }) by {}
}

/// Who leaves is no longer there, and everybody gets the new list. The end of a connection that the
/// viewer has since replaced changes nothing.
pub proof fn law_leaving(session: SessionView, conn: u64, id: u128)
    ensures
        ({
            let step = session.leave_step(conn, id);
            let there = exists|i: int|
                0 <= i < session.viewers.len() && (#[trigger] session.viewers[i]).id == id
                    && session.viewers[i].conn == conn;
            if there {
                &&& step.session == (SessionView {
                    viewers: session.viewers.filter(|viewer: ViewerState| viewer.id != id),
                    ..session
                })
                &&& all_get_the_list(step.sends, step.session)
            } else {
                step == (Step { session, sends: seq![] })
            }
        }),
{
    lemma_without_is_a_filter(session.viewers, id);
}

/// A sharer that comes back is reached on its new connection, and hears which event came last and
/// who is there. Only the connection that a sharer is reached on can end its presence.
pub proof fn law_sharers_come_and_go(
    session: SessionView,
    conn: u64,
    other: u64,
    selection: Option<String>,
)
    ensures
        ({
            let step = session.resume_step(conn, selection);
            &&& step.session == (SessionView {
                sharer_conn: Some(conn),
                sharer_selection: selection,
                ..session
            })
            &&& step.sends == seq![
                OutgoingView::SharerReconnected {
                    conn,
                    last_received_event_no: if session.events.len() == 0 {
                        None
                    } else {
                        Some(session.events.last().event_no)
                    },
                    list: step.session.list(),
                },
            ]
            &&& step.session.sharer_left(conn).sharer_conn is None
            &&& other != conn ==> step.session.sharer_left(other) == step.session
        }),
        session.sharer_left(conn) == (SessionView {
            sharer_conn: session.sharer_left(conn).sharer_conn,
            ..session
        }),
{
}

/// Where the sharer is away, nothing is sent to it, whatever a viewer does.
pub proof fn law_absent_sharers_get_nothing(
    session: SessionView,
    conn: u64,
    id: u128,
    message: ViewerMessage,
    fresh: u128,
    i: int,
)
    requires
        session.sharer_conn is None,
        0 <= i < session.viewer_step(conn, id, message, fresh).sends.len(),
    ensures
        ({
            let send = session.viewer_step(conn, id, message, fresh).sends[i];
            !(send is SharerRequest || send is SharerList || send is SharerReconnected)
        }),
{
}

/// The first viewer of a new session is shown what its sharer brought, and the sharer as it is. The
/// session can be taken up again with the token that it was created with.
pub proof fn law_new_sessions_show_what_was_shared(
    init: SessionInit,
    conn: u64,
    ids: NewSessionIds,
    firebase_uid: String,
    display_name: String,
    viewer_conn: u64,
    viewer: u128,
)
    ensures
        ({
            let session = created(init, conn, ids, firebase_uid, display_name);
            let step = session.join_step(viewer_conn, viewer, None, firebase_uid, display_name);
            &&& session.reconnect_token == ids.reconnect_token
            &&& session.sharer_conn == Some(conn)
            &&& session.viewers.len() == 0 && session.events.len() == 0
            &&& session.agent_run_id is None
            &&& session.list().sharer.id == ids.sharer_id
            &&& session.list().sharer.firebase_uid == firebase_uid
            &&& session.list().sharer.display_name == display_name
            &&& session.list().sharer.selection == init.selection
            &&& step.sends.len() == 3
            &&& step.sends[0] matches OutgoingView::ViewerJoined { conn: to, joined } && {
                &&& to == viewer_conn
                &&& joined.scrollback == init.scrollback
                &&& joined.active_prompt == init.active_prompt
                &&& joined.latest_event_no is None
                &&& joined.window_size == init.window_size
                &&& joined.init_block_id == init.init_block_id
                &&& joined.input_replica_id == init.input_replica_id
                &&& joined.input_context == init.input_context
                &&& joined.source_type == init.source_type
            }
        }),
{
    let session = created(init, conn, ids, firebase_uid, display_name);
    law_joining(session, viewer_conn, viewer, None, firebase_uid, display_name);
    lemma_without_is_a_filter(session.viewers, viewer);
}

/// The session of an agent run shows, from the start, what the agent said first, numbered in its
/// order, and belongs to that run.
pub proof fn law_agent_sessions_show_the_run(
    agent_run_id: String,
    ids: NewSessionIds,
    init_block_id: String,
    input_replica_id: String,
    firebase_uid: String,
    display_name: String,
    responses: Seq<String>,
)
    requires
        responses.len() <= usize::MAX,
    ensures
        ({
            let session = agent_session(
                agent_run_id,
                ids,
                init_block_id,
                input_replica_id,
                firebase_uid,
                display_name,
                responses,
            );
            &&& session.agent_run_id == Some(agent_run_id)
            &&& session.source_type == (SessionSourceType::AmbientAgent {
                task_id: Some(agent_run_id),
            })
            &&& session.reconnect_token == ids.reconnect_token
            &&& session.list().sharer.id == ids.sharer_id
            &&& session.list().sharer.firebase_uid == firebase_uid
            &&& session.list().sharer.display_name == display_name
            &&& session.init_block_id == init_block_id
            &&& session.input_replica_id == input_replica_id
            &&& session.window_size == (WindowSize { num_rows: 40, num_cols: 120 })
            &&& session.sharer_conn is None && session.viewers.len() == 0
            &&& session.scrollback is None && session.active_prompt is None
            &&& session.input_context is None && session.sharer_selection is None
            &&& session.events.len() == responses.len()
            &&& forall|i: int|
                0 <= i < responses.len() ==> (#[trigger] session.events[i]).event_no == i
                    && session.events[i].event_type == EventType::AgentResponse(responses[i])
            &&& session.next_event_no() == responses.len()
        }),
{
}

/// Where a session is gone, a viewer that does something to it loses its connection.
pub proof fn law_lost_sessions_end_connections(message: ViewerMessage)
    ensures
        needs_no_session(message) <==> !(message is UpdateSelection || message is ExecuteCommand
            || message is WriteToPty || message is SendAgentPrompt || message is SendControlAction
            || message is UpdateInputContext || message is ReportTerminalSize),
{
}

} // verus!
