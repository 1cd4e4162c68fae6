//! Telling a client what another machine does for it.

use vstd::prelude::*;

use crate::agent_api::events::{
    Said, Setting, Step, are_events, is_event, one_message, output_event, reasoning_event, tool_call_event,
    tool_result_event,
};
use crate::agent_api::requests::{
    RemoteWorkerRequest, config_of, is_remote_request, remote_host, remote_worker_request_from_maa,
};
use crate::agent_api::{Request, ResponseEvent, Timestamp};
use crate::agent_state::{
    LocalToolCall, LocalToolEvent, LocalToolResult, ToolCallView, ToolEventView, ToolResultView,
};
use crate::discovery::workers::{DiscoveredWorker, WorkerStore, WorkerView, is_answer, names_no_machine};
use crate::json::{Json, JsonView, jobject};
use crate::runs::cloud::{ask_json, worker_create_request};
use crate::runs::events::{RunEventView, WorkerRunEvent, event_views};
use crate::text::{is_blank, opt_text, trim};
use crate::text_map::TextMap;

verus! {

/// A run on another machine while its client is told of it: the tool calls so far, by their names.
#[derive(Debug)]
pub struct RemoteRun {
    tool_calls: TextMap<LocalToolCall>,
}

impl View for RemoteRun {
    type V = Map<Seq<char>, ToolCallView>;

    closed spec fn view(&self) -> Map<Seq<char>, ToolCallView> {
        self.tool_calls@.map_values(|call: LocalToolCall| call@)
    }
}

/// The call that a result belongs to; one that was not told is made up from the result.
pub open spec fn call_of(
    calls: Map<Seq<char>, ToolCallView>,
    id: Seq<char>,
    name: Seq<char>,
) -> ToolCallView {
    if calls.contains_key(id) {
        calls[id]
    } else {
        ToolCallView { id, name, arguments: jobject() }
    }
}

/// What the client is told, if anything, when the other machine tells something.
pub open spec fn passed_on(calls: Map<Seq<char>, ToolCallView>, event: RunEventView) -> Option<Said> {
    match event {
        RunEventView::ToolCall { id, name, arguments } => Some(
            Said::Call(ToolCallView { id, name, arguments }),
        ),
        RunEventView::ToolResult { id, name, summary } => Some(
            Said::Result(
                ToolEventView {
                    tool_call: call_of(calls, id, name),
                    result: ToolResultView { tool_call_id: id, name, content: summary },
                },
            ),
        ),
        RunEventView::ReasoningDelta(text) => if is_blank(text) {
            None
        } else {
            Some(Said::Reasoning(text))
        },
        RunEventView::OutputDelta(text) => if is_blank(text) {
            None
        } else {
            Some(Said::Output(text))
        },
        RunEventView::Error(message) => Some(Said::Output("Remote worker error: "@ + message)),
        _ => None,
    }
}

/// The calls that are known after the other machine told something.
pub open spec fn known_calls(calls: Map<Seq<char>, ToolCallView>, event: RunEventView) -> Map<
    Seq<char>,
    ToolCallView,
> {
    match event {
        RunEventView::ToolCall { id, name, arguments } => calls.insert(
            id,
            ToolCallView { id, name, arguments },
        ),
        _ => calls,
    }
}

impl RemoteRun {
    pub closed spec fn well_formed(&self) -> bool {
        self.tool_calls.well_formed()
    }

    pub fn new() -> (run: Self)
        ensures
            run.well_formed(),
            run@ == Map::<Seq<char>, ToolCallView>::empty(),
    {
        let run = RemoteRun { tool_calls: TextMap::new() };
        assert(run@ =~= Map::<Seq<char>, ToolCallView>::empty());
        run
    }

    /// What the client is sent, if anything, when the other machine tells something, and whether
    /// that was the last.
    pub fn relay_worker_event(
        &mut self,
        event: WorkerRunEvent,
        task_id: &str,
        request_id: &str,
        now: Timestamp,
    ) -> (out: (Option<ResponseEvent>, bool))
        requires
            old(self).well_formed(),
        ensures
            final(self).well_formed(),
            final(self)@ == known_calls(old(self)@, event@),
            out.1 == (event@ is Finished),
            match out.0 {
                Some(told) => {
                    &&& passed_on(old(self)@, event@) matches Some(said)
                    &&& is_event(
                        told,
                        one_message(task_id@, said),
                        Setting { request_id: request_id@, now },
                    )
                },
                None => passed_on(old(self)@, event@) is None,
            },
    {
        match event {
            WorkerRunEvent::State { .. } => (None, false),
            WorkerRunEvent::ToolCall { id, name, arguments } => {
                let call = LocalToolCall { id: id.clone(), name, arguments };
                let told = tool_call_event(&call, task_id, request_id, now);
                self.tool_calls.insert(id, call);
                assert(self@ =~= known_calls(old(self)@, event@));
                (Some(told), false)
            },
            WorkerRunEvent::ToolResult { id, name, summary } => {
                let tool_call = match self.tool_calls.get(id.as_str()) {
                    Some(call) => call.clone(),
                    None => LocalToolCall {
                        id: id.clone(),
                        name: name.clone(),
                        arguments: Json::object(),
                    },
                };
                let result = LocalToolEvent {
                    tool_call,
                    result: LocalToolResult { tool_call_id: id, name, content: summary },
                };
                (Some(tool_result_event(&result, task_id, request_id, now)), false)
            },
            WorkerRunEvent::ReasoningDelta { text } => if trim(text.as_str()).is_empty() {
                (None, false)
            } else {
                (Some(reasoning_event(text.as_str(), task_id, request_id, now)), false)
            },
            WorkerRunEvent::OutputDelta { text } => if trim(text.as_str()).is_empty() {
                (None, false)
            } else {
                (Some(output_event(text.as_str(), task_id, request_id, now)), false)
            },
            WorkerRunEvent::Error { message } => {
                let mut output = "Remote worker error: ".to_owned();
                output.append(message.as_str());
                (Some(output_event(output.as_str(), task_id, request_id, now)), false)
            },
            WorkerRunEvent::Finished { .. } => (None, true),
        }
    }
}

/// What comes of all that the other machine tells: the calls that are known, what the client is
/// told, and whether that was the last. What is told behind the end is passed over.
pub open spec fn relayed(calls: Map<Seq<char>, ToolCallView>, events: Seq<RunEventView>) -> (
    Map<Seq<char>, ToolCallView>,
    Seq<Said>,
    bool,
)
    decreases events.len(),
{
    if events.len() == 0 {
        (calls, seq![], false)
    } else {
        let (known, script, over) = relayed(calls, events.drop_last());
        if over {
            (known, script, over)
        } else {
            (
                known_calls(known, events.last()),
                match passed_on(known, events.last()) {
                    Some(said) => script.push(said),
                    None => script,
                },
                events.last() is Finished,
            )
        }
    }
}

/// Nothing is passed on behind the end.
proof fn lemma_ends_stay(calls: Map<Seq<char>, ToolCallView>, events: Seq<RunEventView>, n: int)
    requires
        0 <= n <= events.len(),
        relayed(calls, events.take(n)).2,
    ensures
        relayed(calls, events) == relayed(calls, events.take(n)),
    decreases events.len() - n,
{
    if n < events.len() {
        assert(events.take(n + 1).drop_last() =~= events.take(n));
        lemma_ends_stay(calls, events, n + 1);
    } else {
        assert(events.take(n) =~= events);
    }
}

/// The steps that tell a client messages one by one.
pub open spec fn told_one_by_one(task_id: Seq<char>, script: Seq<Said>) -> Seq<Step> {
    script.map_values(|said: Said| one_message(task_id, said))
}

impl RemoteRun {
    /// What the client is sent when the other machine tells several things, and whether that was
    /// all.
    pub fn relay_worker_events(
        &mut self,
        events: Vec<WorkerRunEvent>,
        task_id: &str,
        request_id: &str,
        now: Timestamp,
    ) -> (out: (Vec<ResponseEvent>, bool))
        requires
            old(self).well_formed(),
        ensures
            final(self).well_formed(),
            final(self)@ == relayed(old(self)@, event_views(events@)).0,
            are_events(
                out.0@,
                told_one_by_one(task_id@, relayed(old(self)@, event_views(events@)).1),
                (Setting { request_id: request_id@, now }),
            ),
            out.1 == relayed(old(self)@, event_views(events@)).2,
    {
        let ghost all = event_views(events@);
        let ghost before = self@;
        let ghost at = Setting { request_id: request_id@, now };
        let mut out: Vec<ResponseEvent> = Vec::new();
        assert(all.take(0) =~= seq![]);
        let mut i: usize = 0;
        while i < events.len()
            invariant
                i <= events.len(),
                all == event_views(events@),
                at == (Setting { request_id: request_id@, now }),
                self.well_formed(),
                self@ == relayed(before, all.take(i as int)).0,
                are_events(
                    out@,
                    told_one_by_one(task_id@, relayed(before, all.take(i as int)).1),
                    at,
                ),
                !relayed(before, all.take(i as int)).2,
                before == old(self)@,
            decreases events.len() - i,
        {
            let ghost script = relayed(before, all.take(i as int)).1;
            let ghost told = told_one_by_one(task_id@, script);
            assert(all.take(i + 1).drop_last() =~= all.take(i as int));
            assert(all.take(i + 1).last() == events@[i as int]@);
            let (event, over) = self.relay_worker_event(
                events[i].clone(),
                task_id,
                request_id,
                now,
            );
            if let Some(event) = event {
                out.push(event);
                assert(told_one_by_one(
                    task_id@,
                    relayed(before, all.take(i + 1)).1,
                ) =~= told.push(one_message(task_id@, relayed(before, all.take(i + 1)).1.last())));
            }
            if over {
                proof {
                    lemma_ends_stay(before, all, i + 1);
                }
                return (out, true);
            }
            i += 1;
        }
        assert(all.take(all.len() as int) =~= all);
        (out, false)
    }
}

/// A result that comes behind its call is told with the arguments of that call.
pub proof fn law_results_find_their_calls(
    calls: Map<Seq<char>, ToolCallView>,
    id: Seq<char>,
    name: Seq<char>,
    arguments: JsonView,
    result_name: Seq<char>,
    summary: Seq<char>,
)
    ensures
        ({
            let called = RunEventView::ToolCall { id, name, arguments };
            let given = RunEventView::ToolResult { id, name: result_name, summary };
            passed_on(known_calls(calls, called), given) == Some(
                Said::Result(
                    ToolEventView {
                        tool_call: ToolCallView { id, name, arguments },
                        result: ToolResultView { tool_call_id: id, name: result_name, content: summary },
                    },
                ),
            )
        }),
{
}

/// What the client is told where the other machine could not be used.
pub fn remote_failure_event(why: &str, task_id: &str, request_id: &str, now: Timestamp) -> (event:
    ResponseEvent)
    ensures
        is_event(
            event,
            one_message(task_id@, Said::Output("Remote WarpSOLO worker failed: "@ + why@)),
            (Setting { request_id: request_id@, now }),
        ),
{
    let mut output = "Remote WarpSOLO worker failed: ".to_owned();
    output.append(why);
    output_event(output.as_str(), task_id, request_id, now)
}

/// What the other machine is asked to do.
pub fn remote_create_request(request: &RemoteWorkerRequest, device_id: &str) -> (out: Json)
    ensures
        out@ == ask_json(
            request.prompt@,
            request.workspace@,
            opt_text(request.model_id),
            opt_text(request.harness),
            device_id@,
        ),
{
    worker_create_request(
        request.prompt.as_str(),
        request.workspace.as_str(),
        &request.model_id,
        &request.harness,
        device_id,
    )
}

/// Whether `found` is the machine that a request is passed on to: the one that it asks for, where it
/// asks for one and that one was found.
pub open spec fn is_passed_on_to(
    request: Request,
    store: Map<Seq<char>, WorkerView>,
    found: Option<WorkerView>,
) -> bool {
    match config_of(request) {
        Some(config) => match remote_host(config) {
            Some(host) => is_answer(store, host, found),
            None => found is None,
        },
        None => found is None,
    }
}

/// What another machine is asked to do for a request, and which, where the request is not to be
/// answered here.
pub fn try_proxy_multi_agent_to_worker(request: &Request, store: &WorkerStore, default: &str) -> (out:
    Option<(RemoteWorkerRequest, DiscoveredWorker)>)
    ensures
        match out {
            Some((remote, worker)) => is_remote_request(remote, *request, default@)
                && is_passed_on_to(*request, store@, Some(worker@)),
            None => is_passed_on_to(*request, store@, None),
        },
{
    match remote_worker_request_from_maa(request, default) {
        Some(remote) => match store.find_worker(remote.worker_host.as_str()) {
            Some(worker) => Some((remote, worker)),
            None => None,
        },
        None => None,
    }
}

/// A request for a machine without a name, or for this one, is answered here.
pub proof fn law_requests_for_this_machine_stay_here(
    request: Request,
    store: Map<Seq<char>, WorkerView>,
    found: Option<WorkerView>,
)
    requires
        config_of(request) matches Some(config) && remote_host(config) matches Some(host)
            && names_no_machine(host),
    ensures
        is_passed_on_to(request, store, found) == (found is None),
{
}

/// Without an approved configuration a request is answered here.
pub proof fn law_unapproved_requests_stay_here(
    request: Request,
    store: Map<Seq<char>, WorkerView>,
    found: Option<WorkerView>,
)
    requires
        config_of(request) is None,
    ensures
        is_passed_on_to(request, store, found) == (found is None),
{
}

} // verus!
