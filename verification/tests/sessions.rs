use warpsolo::ids::{is_id, new_id_text};
use warpsolo::session::broker::{
    session_number, session_page, NewSessionIds, SessionInit, SessionStore, SharerOpening, ViewerOpening,
};
use warpsolo::session::protocol::{
    AgentPromptRequest, EventType, FailedToJoinReason, InputUpdate, Notice, OrderedTerminalEvent,
    Outgoing, ReconnectionFailedReason, Role, SessionEndedReason, SessionSourceType,
    SharerMessage, SharerRequest, ViewerMessage, ViewerReply, WindowSize,
};

const SHARER: u64 = 1;
const FIRST: u64 = 2;
const SECOND: u64 = 3;
const SESSION: u128 = 10;
const TOKEN: u128 = 12;

fn text(s: &str) -> String {
    s.to_string()
}

fn init() -> SessionInit {
    SessionInit {
        selection: None,
        scrollback: Some(text("scrollback")),
        active_prompt: None,
        window_size: WindowSize { num_rows: 24, num_cols: 80 },
        init_block_id: text("block"),
        input_replica_id: text("replica"),
        input_context: None,
        source_type: SessionSourceType::Terminal(text("terminal")),
    }
}

fn shared() -> SessionStore {
    let mut store = SessionStore::new();
    let ids = NewSessionIds {
        session_id: SESSION,
        session_secret: 11,
        reconnect_token: TOKEN,
        sharer_id: 13,
    };
    let handled =
        store.create(SHARER, SharerOpening::Initialize(init()), ids, &text("uid"), &text("me"));
    assert!(handled.open);
    assert!(store.contains(SESSION));
    store
}

fn join(store: &mut SessionStore, conn: u64, id: u128) -> Vec<Outgoing> {
    let opening = ViewerOpening::Initialize { viewer_id: None, last_received_event_no: None };
    let outcome = store.join(SESSION, conn, opening, id, &text("viewer"), &text("you"));
    assert_eq!(outcome.joined, Some(id));
    outcome.sends
}

fn event(event_no: usize) -> SharerMessage {
    SharerMessage::OrderedTerminalEvent(OrderedTerminalEvent {
        event_no,
        event_type: EventType::Terminal(text("x")),
    })
}

fn replies(sends: &[Outgoing]) -> Vec<&ViewerReply> {
    sends
        .iter()
        .filter_map(|send| match send {
            Outgoing::ViewerReply { reply, .. } => Some(reply),
            _ => None,
        })
        .collect()
}

fn notices(sends: &[Outgoing]) -> Vec<(u64, &Notice)> {
    sends
        .iter()
        .filter_map(|send| match send {
            Outgoing::ViewerNotice { conn, notice } => Some((*conn, notice)),
            _ => None,
        })
        .collect()
}

#[test]
fn sessions_are_created_under_new_numbers() {
    let mut store = SessionStore::new();
    let (id, handled) =
        store.create_session(SHARER, SharerOpening::Initialize(init()), &text("u"), &text("n"));
    assert!(handled.open);
    assert!(store.contains(id));
    assert!(handled.sends.iter().any(|send| matches!(
        send,
        Outgoing::SharerRequest { request: SharerRequest::Initialized { session_id, .. }, .. }
            if *session_id == id
    )));
    let (_, refused) =
        store.create_session(SHARER, SharerOpening::Invalid, &text("u"), &text("n"));
    assert!(!refused.open);
}

#[test]
fn viewers_join_as_readers() {
    let mut store = shared();
    let sends = join(&mut store, FIRST, 100);
    let joined = sends
        .iter()
        .find_map(|send| match send {
            Outgoing::ViewerJoined { conn, joined } if *conn == FIRST => Some(joined),
            _ => None,
        })
        .unwrap();
    assert_eq!(joined.viewer_id, 100);
    assert_eq!(joined.scrollback.as_deref(), Some("scrollback"));
    assert_eq!(joined.participant_list.viewers.len(), 1);
    assert_eq!(joined.participant_list.viewers[0].role, Role::Reader);
}

#[test]
fn nobody_joins_what_is_not_there() {
    let mut store = shared();
    let opening = ViewerOpening::Initialize { viewer_id: None, last_received_event_no: None };
    let outcome = store.join(99, FIRST, opening, 100, &text("v"), &text("y"));
    assert!(outcome.joined.is_none());
    assert!(matches!(
        replies(&outcome.sends)[0],
        ViewerReply::FailedToJoin { reason: FailedToJoinReason::SessionNotFound }
    ));
    let outcome = store.join(SESSION, FIRST, ViewerOpening::Invalid, 100, &text("v"), &text("y"));
    assert!(matches!(
        replies(&outcome.sends)[0],
        ViewerReply::FailedToJoin { reason: FailedToJoinReason::Invalid }
    ));
}

#[test]
fn readers_are_refused() {
    let mut store = shared();
    join(&mut store, FIRST, 100);
    let command =
        ViewerMessage::ExecuteCommand { buffer_id: text("b"), command: text("rm -r x") };
    let handled = store.viewer_message(SESSION, FIRST, 100, command, 7);
    assert!(handled.open);
    assert_eq!(handled.sends.len(), 1);
    assert!(matches!(replies(&handled.sends)[0], ViewerReply::CommandFailed { id: 7 }));

    let write = ViewerMessage::WriteToPty { request_id: text("r"), bytes: vec![1] };
    let handled = store.viewer_message(SESSION, FIRST, 100, write, 8);
    assert!(matches!(replies(&handled.sends)[0], ViewerReply::WriteToPtyFailed));
    let prompt = ViewerMessage::SendAgentPrompt(AgentPromptRequest {
        id: text("p"),
        prompt: text("hello"),
        attachments: text("[]"),
    });
    let handled = store.viewer_message(SESSION, FIRST, 100, prompt, 9);
    assert!(matches!(replies(&handled.sends)[0], ViewerReply::AgentPromptFailed { .. }));
}

#[test]
fn executors_run_commands() {
    let mut store = shared();
    join(&mut store, FIRST, 100);
    let grant = SharerMessage::UpdateRole { participant_id: 100, role: Role::Executor };
    store.sharer_message(SESSION, SHARER, grant);
    let command = ViewerMessage::ExecuteCommand { buffer_id: text("b"), command: text("ls") };
    let handled = store.viewer_message(SESSION, FIRST, 100, command, 7);
    assert!(handled.sends.iter().any(|send| matches!(
        send,
        Outgoing::SharerRequest { conn: SHARER, request: SharerRequest::ExecuteCommand { id: 7, .. } }
    )));
    assert!(matches!(replies(&handled.sends)[0], ViewerReply::CommandInFlight { id: 7 }));
}

#[test]
fn control_is_exclusive() {
    let mut store = shared();
    join(&mut store, FIRST, 100);
    join(&mut store, SECOND, 200);
    let grant = |id: u128| SharerMessage::UpdateRole { participant_id: id, role: Role::Executor };
    store.sharer_message(SESSION, SHARER, grant(100));
    store.sharer_message(SESSION, SHARER, grant(200));
    let command =
        || ViewerMessage::ExecuteCommand { buffer_id: text("b"), command: text("ls") };
    let first = store.viewer_message(SESSION, FIRST, 100, command(), 7);
    assert!(matches!(replies(&first.sends)[0], ViewerReply::CommandFailed { .. }));
    let second = store.viewer_message(SESSION, SECOND, 200, command(), 8);
    assert!(matches!(replies(&second.sends)[0], ViewerReply::CommandInFlight { .. }));
}

#[test]
fn events_are_replayed() {
    let mut store = shared();
    for event_no in 0..3 {
        assert!(store.sharer_message(SESSION, SHARER, event(event_no)).open);
    }
    let opening =
        ViewerOpening::Initialize { viewer_id: None, last_received_event_no: Some(0) };
    let outcome = store.join(SESSION, FIRST, opening, 100, &text("v"), &text("y"));
    let numbers: Vec<usize> = notices(&outcome.sends)
        .iter()
        .filter_map(|(_, notice)| match notice {
            Notice::OrderedTerminalEvent(event) => Some(event.event_no),
            _ => None,
        })
        .collect();
    assert_eq!(numbers, vec![1, 2]);
}

#[test]
fn events_reach_viewers() {
    let mut store = shared();
    join(&mut store, FIRST, 100);
    let handled = store.sharer_message(SESSION, SHARER, event(0));
    assert!(notices(&handled.sends)
        .iter()
        .any(|(conn, notice)| *conn == FIRST && matches!(notice, Notice::OrderedTerminalEvent(_))));
}

#[test]
fn ended_sessions_are_gone() {
    let mut store = shared();
    join(&mut store, FIRST, 100);
    let end = SharerMessage::EndSession { reason: SessionEndedReason::EndedBySharer };
    let handled = store.sharer_message(SESSION, SHARER, end);
    assert!(!handled.open);
    assert!(!store.contains(SESSION));
    assert!(notices(&handled.sends)
        .iter()
        .any(|(conn, notice)| *conn == FIRST && matches!(notice, Notice::SessionEnded { .. })));
}

#[test]
fn sharers_come_back_with_their_token() {
    let mut store = shared();
    store.sharer_disconnected(SESSION, SHARER);
    let wrong = SharerOpening::Reconnect { reconnect_token: 1, selection: None };
    let handled = store.resume(SESSION, 9, wrong);
    assert!(!handled.open);
    assert!(matches!(
        handled.sends[0],
        Outgoing::SharerRequest {
            request: SharerRequest::FailedToReconnect {
                reason: ReconnectionFailedReason::WrongReconnectionToken
            },
            ..
        }
    ));
    let right = SharerOpening::Reconnect { reconnect_token: TOKEN, selection: None };
    let handled = store.resume(SESSION, 9, right);
    assert!(handled.open);
    assert!(handled
        .sends
        .iter()
        .any(|send| matches!(send, Outgoing::SharerReconnected { conn: 9, .. })));
}

#[test]
fn pings_are_answered() {
    let mut store = shared();
    let handled = store.sharer_message(SESSION, SHARER, SharerMessage::Ping { data: vec![1, 2] });
    assert!(matches!(
        &handled.sends[0],
        Outgoing::SharerRequest { request: SharerRequest::Pong { data }, .. } if data == &vec![1, 2]
    ));
    join(&mut store, FIRST, 100);
    let handled =
        store.viewer_message(SESSION, FIRST, 100, ViewerMessage::Ping { data: vec![3] }, 7);
    assert!(matches!(
        replies(&handled.sends)[0],
        ViewerReply::Pong { data } if data == &vec![3]
    ));
}

#[test]
fn input_of_readers_is_rejected() {
    let mut store = shared();
    join(&mut store, FIRST, 100);
    let update =
        ViewerMessage::UpdateInput(InputUpdate { id: text("u"), operations: text("[]") });
    let handled = store.viewer_message(SESSION, FIRST, 100, update, 7);
    assert!(matches!(
        replies(&handled.sends)[0],
        ViewerReply::InputUpdateRejected { id } if id == "u"
    ));
}

#[test]
fn agent_sessions_go_on() {
    let mut store = SessionStore::new();
    let id = store.create_agent_shared_session(
        &text("run-1"),
        &text("uid"),
        &text("me"),
        vec![text("a"), text("b")],
    );
    let opening = ViewerOpening::Initialize { viewer_id: None, last_received_event_no: None };
    let outcome = store.join(id, FIRST, opening, 100, &text("v"), &text("y"));
    assert_eq!(outcome.agent_run_id.as_deref(), Some("run-1"));
    let sends = store.append_agent_event(id, text("c"));
    assert!(notices(&sends).iter().any(|(_, notice)| matches!(
        notice,
        Notice::OrderedTerminalEvent(OrderedTerminalEvent {
            event_no: 2,
            event_type: EventType::AgentResponse(response),
        }) if response == "c"
    )));
}

#[test]
fn leaving_viewers_are_missed() {
    let mut store = shared();
    join(&mut store, FIRST, 100);
    join(&mut store, SECOND, 200);
    let sends = store.viewer_disconnected(SESSION, FIRST, 100);
    assert!(sends.iter().any(|send| matches!(
        send,
        Outgoing::ViewerList { conn: SECOND, list } if list.viewers.len() == 1
    )));
}

#[test]
fn identifiers_are_random() {
    let id = new_id_text();
    assert_eq!(id.len(), 36);
    assert!(is_id(&id));
    assert_ne!(id, new_id_text());
    assert!(!is_id("run"));
    assert!(session_page("run").is_none());
    assert!(session_page(&id).unwrap().contains(&id));
}

#[test]
fn sessions_are_named_by_their_numbers() {
    assert_eq!(session_number("00000000-0000-0000-0000-00000000000a"), Some(10));
    assert_eq!(session_number("ten"), None);
}
