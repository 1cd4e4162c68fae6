//! What holds of runs, whoever does them.

use vstd::prelude::*;

use crate::account::LocalAgentWorkerConfig;
use crate::agent_api::events::Said;
use crate::agent_state::{RunView, ToolCallView, ToolEventView, ToolResultView};
use crate::json::{JsonView, number_of, shows};
use crate::runs::cloud::{
    CloudAgentRunState, CloudRunView, SpawnAgentRequest, ask_json, created_of, host_of,
    new_cloud_run, run_json, short_message, spawned_json, worker_path,
};
use crate::runs::events::{RunEventView, event_json};
use crate::runs::relay::{passed_on, relayed};
use crate::runs::worker::{
    CreateView, RecordView, WorkerRunStatus, created_json, may_come_in, new_record, normal_request,
    record_json, summary_of,
};
use crate::text::{bytes_in, fitting, is_blank, trimmed};

verus! {

/// The states of a run are told by their names, and each name is read as the state of the same
/// meaning. No other text tells a state.
pub proof fn law_states_are_read_as_they_are_told(text: Seq<char>)
    ensures
        WorkerRunStatus::Pending.label() == "pending"@,
        WorkerRunStatus::Running.label() == "running"@,
        WorkerRunStatus::Succeeded.label() == "succeeded"@,
        WorkerRunStatus::Failed.label() == "failed"@,
        WorkerRunStatus::Cancelled.label() == "cancelled"@,
        CloudAgentRunState::told(text) == Some(CloudAgentRunState::Pending) <==> text
            == "pending"@,
        CloudAgentRunState::told(text) == Some(CloudAgentRunState::InProgress) <==> text
            == "running"@,
        CloudAgentRunState::told(text) == Some(CloudAgentRunState::Succeeded) <==> text
            == "succeeded"@,
        CloudAgentRunState::told(text) == Some(CloudAgentRunState::Failed) <==> text == "failed"@,
        CloudAgentRunState::told(text) == Some(CloudAgentRunState::Cancelled) <==> text
            == "cancelled"@,
{
    reveal_strlit("pending");
    reveal_strlit("running");
    reveal_strlit("succeeded");
    reveal_strlit("failed");
    reveal_strlit("cancelled");
    assert("pending"@.len() == 7 && "running"@.len() == 7 && "succeeded"@.len() == 9
        && "failed"@.len() == 6 && "cancelled"@.len() == 9);
    assert("pending"@[0] == 'p' && "running"@[0] == 'r');
    assert("succeeded"@[0] == 's' && "cancelled"@[0] == 'c');
}

/// How a run stands is shown to clients in these words, different ones for each state.
pub proof fn law_states_are_shown(state: CloudAgentRunState)
    ensures
        state is Pending ==> state.label() == "Pending"@ && state.message()
            == "Queued on WarpSOLO worker"@,
        state is InProgress ==> state.label() == "InProgress"@ && state.message()
            == "Running on WarpSOLO worker"@,
        state is Succeeded ==> state.label() == "Succeeded"@ && state.message()
            == "Worker run completed"@,
        state is Failed ==> state.label() == "Failed"@ && state.message() == "Worker run failed"@,
        state is Cancelled ==> state.label() == "Cancelled"@ && state.message()
            == "Worker run cancelled"@,
        state.over() <==> state is Succeeded || state is Failed || state is Cancelled,
{
}

/// Whether two runs differ in nothing but how they stand.
pub open spec fn same_run(a: CloudRunView, b: CloudRunView) -> bool {
    &&& a.run_id == b.run_id && a.worker_url == b.worker_url && a.worker_run_id == b.worker_run_id
    &&& a.worker_host == b.worker_host && a.prompt == b.prompt && a.title == b.title
    &&& a.workspace == b.workspace && a.config == b.config && a.created_at == b.created_at
}

/// A run ends as its worker says: a run that failed is shown as failed, one that was cancelled as
/// cancelled, and one that succeeded, or ended in a way that is not known, as succeeded.
pub proof fn law_runs_end_as_the_worker_says(
    run: CloudRunView,
    status: WorkerRunStatus,
    message: Seq<char>,
    now: Seq<char>,
)
    ensures
        run.told(RunEventView::Finished("failed"@), now).state is Failed,
        run.told(RunEventView::Finished("cancelled"@), now).state is Cancelled,
        run.told(RunEventView::Finished("succeeded"@), now).state is Succeeded,
        run.told(RunEventView::Finished("failed"@), now).status_message == Some(
            "Worker run failed"@,
        ),
        run.told(RunEventView::Finished("succeeded"@), now).status_message == Some(
            "Worker run completed"@,
        ),
        run.told(RunEventView::State(status.label()), now).state == match status {
            WorkerRunStatus::Pending => CloudAgentRunState::Pending,
            WorkerRunStatus::Running => CloudAgentRunState::InProgress,
            WorkerRunStatus::Succeeded => CloudAgentRunState::Succeeded,
            WorkerRunStatus::Failed => CloudAgentRunState::Failed,
            WorkerRunStatus::Cancelled => CloudAgentRunState::Cancelled,
        },
        run.told(RunEventView::Finished(status.label()), now).state == run.told(
            RunEventView::State(status.label()),
            now,
        ).state,
        run.told(RunEventView::Error(message), now).state is Failed,
        run.told(RunEventView::Error(message), now).status_message == Some(message),
{
    law_states_are_read_as_they_are_told("failed"@);
    law_states_are_read_as_they_are_told("cancelled"@);
    law_states_are_read_as_they_are_told("succeeded"@);
    law_states_are_read_as_they_are_told(status.label());
}

/// A state whose name is not known changes nothing; an end of that kind counts as a success.
pub proof fn law_unknown_states(run: CloudRunView, name: Seq<char>, now: Seq<char>)
    requires
        name != "pending"@ && name != "running"@ && name != "succeeded"@,
        name != "failed"@ && name != "cancelled"@,
    ensures
        run.told(RunEventView::State(name), now) == run,
        run.told(RunEventView::Finished(name), now).state is Succeeded,
{
}

/// What a worker tells shows in the run: the tool it uses and what came of it, what the agent thinks
/// and says. The last thing that the agent says is the run's output, and nothing else is.
pub proof fn law_runs_show_what_is_told(
    run: CloudRunView,
    id: Seq<char>,
    name: Seq<char>,
    arguments: JsonView,
    text: Seq<char>,
    now: Seq<char>,
)
    ensures
        ({
            let told = run.told(RunEventView::ToolCall { id, name, arguments }, now);
            &&& told.status_message == Some("Running tool "@ + name + " ("@ + id + ")"@)
            &&& told.updated_at == now && told.state == run.state && told.started_at
                == run.started_at
            &&& told.final_output == run.final_output && same_run(told, run)
        }),
        ({
            let told = run.told(RunEventView::ToolResult { id, name, summary: text }, now);
            &&& told.status_message == Some(
                "Finished tool "@ + name + " ("@ + id + "): "@ + short_message(text),
            )
            &&& told.updated_at == now && told.state == run.state && told.started_at
                == run.started_at
            &&& told.final_output == run.final_output && same_run(told, run)
        }),
        ({
            let told = run.told(RunEventView::ReasoningDelta(text), now);
            &&& is_blank(text) ==> told == run
            &&& !is_blank(text) ==> told.status_message == Some(short_message(text))
                && told.updated_at == now
            &&& told.state == run.state && told.started_at == run.started_at
            &&& told.final_output == run.final_output && same_run(told, run)
        }),
        ({
            let told = run.told(RunEventView::OutputDelta(text), now);
            &&& told.final_output == Some(text)
            &&& told.status_message == Some(short_message(text))
            &&& told.updated_at == now && told.state == run.state && told.started_at
                == run.started_at
            &&& same_run(told, run)
        }),
        bytes_in(text) <= 500 ==> short_message(text) == text,
{
}

/// A change of state is dated, keeps the output, and a run starts when it is first told to be
/// running.
pub proof fn law_changes_are_dated(run: CloudRunView, status: WorkerRunStatus, message: Seq<char>, now: Seq<char>)
    ensures
        ({
            let told = run.told(RunEventView::State(status.label()), now);
            let ended = run.told(RunEventView::Finished(status.label()), now);
            let broken = run.told(RunEventView::Error(message), now);
            &&& told.updated_at == now && ended.updated_at == now && broken.updated_at == now
            &&& told.final_output == run.final_output && ended.final_output == run.final_output
            &&& broken.final_output == run.final_output
            &&& same_run(told, run) && same_run(ended, run) && same_run(broken, run)
            &&& told.started_at == if status is Running && run.started_at is None {
                Some(now)
            } else {
                run.started_at
            }
            &&& broken.started_at == run.started_at
        }),
{
    law_states_are_read_as_they_are_told(status.label());
}

/// Events are told one after the other, and nothing is told behind the end of a run.
pub proof fn law_events_are_told_in_order(
    run: CloudRunView,
    events: Seq<RunEventView>,
    event: RunEventView,
    now: Seq<char>,
)
    ensures
        run.told_all(seq![], now) == (run, false),
        !run.told_all(events, now).1 ==> run.told_all(events.push(event), now) == (
            run.told_all(events, now).0.told(event, now),
            event is Finished,
        ),
        run.told_all(events, now).1 ==> run.told_all(events.push(event), now) == run.told_all(
            events,
            now,
        ),
{
    assert(events.push(event).drop_last() =~= events);
}

/// A new run waits, with what was asked for; a follow-up waits too, under the name that the worker
/// gave it, with nothing left of the answer before, and on the same worker.
pub proof fn law_new_runs_wait(
    run_id: Seq<char>,
    worker_url: Seq<char>,
    request: SpawnAgentRequest,
    workspace: Seq<char>,
    run: CloudRunView,
    prompt: Seq<char>,
    now: Seq<char>,
)
    ensures
        ({
            let new = new_cloud_run(run_id, worker_url, request, workspace, now);
            &&& new.run_id == run_id && new.worker_run_id == run_id
            &&& new.worker_url == worker_url && new.workspace == workspace
            &&& new.prompt == trimmed(request.prompt@)
            &&& new.state is Pending && new.final_output is None && new.started_at is None
            &&& new.status_message == Some("Queued on WarpSOLO worker"@)
            &&& new.created_at == now && new.updated_at == now
            &&& request.title matches Some(title) ==> (!is_blank(title@) ==> new.title == title@)
            &&& request.title is None ==> new.title == "WarpSOLO agent"@
            &&& request.config is None ==> new.worker_host == "warp"@ && new.config is None
            &&& request.config matches Some(config) ==> new.config == Some(config@)
        }),
        ({
            let next = run.followed_up(run_id, prompt, now);
            &&& next.worker_run_id == run_id && next.prompt == prompt
            &&& next.state is Pending && next.final_output is None && next.started_at is None
            &&& next.status_message == Some("Queued follow-up on WarpSOLO worker"@)
            &&& next.updated_at == now
            &&& next.run_id == run.run_id && next.worker_url == run.worker_url
            &&& next.worker_host == run.worker_host && next.title == run.title
            &&& next.workspace == run.workspace && next.config == run.config && next.created_at
                == run.created_at
        }),
{
}

/// A run is meant for the machine that its configuration names, and for this one where it names none.
pub proof fn law_runs_are_meant_for_a_machine(config: JsonView, host: Seq<char>)
    ensures
        config.get("worker_host"@) == Some(JsonView::Text(host)) && !is_blank(host) ==> host_of(
            Some(config),
        ) == trimmed(host),
        config.get("worker_host"@) is None || !(config.get("worker_host"@)->0 is Text)
            ==> host_of(Some(config)) == "warp"@,
        config.get("worker_host"@) == Some(JsonView::Text(host)) && is_blank(host) ==> host_of(
            Some(config),
        ) == "warp"@,
        host_of(None) == "warp"@,
{
}

/// Clients see a run as it is.
pub proof fn law_clients_see_the_run(run: CloudRunView)
    ensures
        shows(run_json(run), "task_id"@, JsonView::Text(run.run_id)),
        shows(run_json(run), "title"@, JsonView::Text(run.title)),
        shows(run_json(run), "prompt"@, JsonView::Text(run.prompt)),
        shows(run_json(run), "state"@, JsonView::Text(run.state.label())),
        shows(run_json(run), "created_at"@, JsonView::Text(run.created_at)),
        shows(run_json(run), "updated_at"@, JsonView::Text(run.updated_at)),
        run.started_at matches Some(at) ==> shows(run_json(run), "started_at"@, JsonView::Text(at)),
        run.started_at is None ==> shows(run_json(run), "started_at"@, JsonView::Null),
        run.status_message matches Some(message) ==> exists|shown: JsonView| #[trigger]
            shows(run_json(run), "status_message"@, shown) && shows(
                shown,
                "message"@,
                JsonView::Text(message),
            ),
        run.config is None || run.config->0 is Object ==> exists|shown: JsonView| #[trigger]
            shows(run_json(run), "agent_config_snapshot"@, shown) && shows(
                shown,
                "worker_host"@,
                JsonView::Text(run.worker_host),
            ) && shows(shown, "workspace"@, JsonView::Text(run.workspace)),
        shows(spawned_json(run.run_id), "task_id"@, JsonView::Text(run.run_id)),
        shows(spawned_json(run.run_id), "run_id"@, JsonView::Text(run.run_id)),
        shows(spawned_json(run.run_id), "at_capacity"@, JsonView::Bool(false)),
{
    let members = run_json(run)->Object_0;
    assert(members[0] == ("task_id"@, JsonView::Text(run.run_id)));
    assert(members[2] == ("title"@, JsonView::Text(run.title)));
    assert(members[3] == ("state"@, JsonView::Text(run.state.label())));
    assert(members[4] == ("prompt"@, JsonView::Text(run.prompt)));
    assert(members[5] == ("created_at"@, JsonView::Text(run.created_at)));
    assert(members[6].0 == "started_at"@);
    assert(members.contains(members[6]));
    assert(members[7] == ("updated_at"@, JsonView::Text(run.updated_at)));
    let status = members[8].1;
    assert(members[8].0 == "status_message"@);
    assert(shows(run_json(run), "status_message"@, status));
    if run.status_message is Some {
        assert(status->Object_0[0] == ("message"@, JsonView::Text(run.status_message->0)));
    }
    let config = members[16].1;
    assert(members[16].0 == "agent_config_snapshot"@);
    assert(shows(run_json(run), "agent_config_snapshot"@, config));
    if run.config is None || run.config->0 is Object {
        let all = config->Object_0;
        assert(all[all.len() - 2] == ("worker_host"@, JsonView::Text(run.worker_host)));
        assert(all[all.len() - 1] == ("workspace"@, JsonView::Text(run.workspace)));
    }
    let answer = spawned_json(run.run_id)->Object_0;
    assert(answer[0] == ("task_id"@, JsonView::Text(run.run_id)));
    assert(answer[1] == ("run_id"@, JsonView::Text(run.run_id)));
    assert(answer[2] == ("at_capacity"@, JsonView::Bool(false)));
}

/// What a worker answers to a request for a run is understood by the one who asked: the run's name,
/// and where its events are.
pub proof fn law_created_runs_are_found(run_id: Seq<char>)
    ensures
        created_of(created_json(run_id)) == Ok::<(Seq<char>, Seq<char>), Seq<char>>(
            (run_id, "/worker/runs/"@ + run_id + "/events"@),
        ),
        shows(created_json(run_id), "state"@, JsonView::Text("pending"@)),
{
    broadcast use crate::json::lemma_with_get;

    reveal_strlit("runId");
    reveal_strlit("state");
    reveal_strlit("eventsUrl");
    assert("runId"@.len() == 5 && "state"@.len() == 5 && "eventsUrl"@.len() == 9);
    assert("runId"@[0] == 'r' && "state"@[0] == 's');
    assert(created_json(run_id)->Object_0[1] == ("state"@, JsonView::Text("pending"@)));
}

/// A worker is asked for what the user asked for.
pub proof fn law_workers_are_asked(
    prompt: Seq<char>,
    workspace: Seq<char>,
    model_id: Option<Seq<char>>,
    harness: Option<Seq<char>>,
    device_id: Seq<char>,
)
    ensures
        ({
            let asked = ask_json(prompt, workspace, model_id, harness, device_id);
            &&& shows(asked, "prompt"@, JsonView::Text(prompt))
            &&& shows(asked, "workspace"@, JsonView::Text(workspace))
            &&& shows(asked, "sourceDeviceId"@, JsonView::Text(device_id))
            &&& model_id matches Some(model) ==> shows(asked, "modelId"@, JsonView::Text(model))
            &&& harness matches Some(kind) ==> shows(asked, "harness"@, JsonView::Text(kind))
        }),
{
    let members = ask_json(prompt, workspace, model_id, harness, device_id)->Object_0;
    assert(members[0] == ("prompt"@, JsonView::Text(prompt)));
    assert(members[1] == ("workspace"@, JsonView::Text(workspace)));
    assert(members.contains(members[2]) && members.contains(members[3]));
    assert(members[4] == ("sourceDeviceId"@, JsonView::Text(device_id)));
}

/// Runs are asked for at the worker's address: a path is put behind it with one slash between, and
/// a whole address stays as it is.
pub proof fn law_paths_are_at_the_worker(worker_url: Seq<char>, path: Seq<char>)
    requires
        worker_url.len() > 0 ==> worker_url.last() != '/',
        path.len() > 0 ==> path[0] != '/',
    ensures
        "http://"@.is_prefix_of(path) || "https://"@.is_prefix_of(path) ==> worker_path(
            worker_url,
            path,
        ) == path,
        !("http://"@.is_prefix_of(path) || "https://"@.is_prefix_of(path)) ==> worker_path(
            worker_url,
            path,
        ) == worker_url + "/"@ + path,
{
}

/// A text that is cut to show how far a run has come, or what a tool gave, is the longest start that
/// fits, with a mark behind it; one that fits is shown whole.
pub proof fn law_long_texts_are_cut(text: Seq<char>, longer: int)
    ensures
        bytes_in(text) <= 500 ==> short_message(text) == text,
        bytes_in(text) > 500 ==> exists|n: int|
            0 <= n < text.len() && short_message(text) == #[trigger] text.take(n) + "..."@
                && bytes_in(text.take(n)) <= 500 && (n < longer <= text.len() ==> bytes_in(
                text.take(longer),
            ) > 500),
        bytes_in(text) <= 4000 ==> summary_of(text) == text,
        bytes_in(text) > 4000 ==> exists|n: int|
            0 <= n < text.len() && summary_of(text) == #[trigger] text.take(n)
                + "...\n[tool result truncated]"@ && bytes_in(text.take(n)) <= 4000 && (n < longer
                <= text.len() ==> bytes_in(text.take(longer)) > 4000),
{
    assert(text.take(text.len() as int) =~= text);
    if bytes_in(text) > 500 {
        let n = lemma_cut(text, text, 500, longer);
        assert(short_message(text) == text.take(n) + "..."@);
    }
    if bytes_in(text) > 4000 {
        let n = lemma_cut(text, text, 4000, longer);
        assert(summary_of(text) == text.take(n) + "...\n[tool result truncated]"@);
    }
}

/// What fits of a start of a text is a start of the text.
proof fn lemma_cut(text: Seq<char>, start: Seq<char>, max: nat, longer: int) -> (n: int)
    requires
        start.len() <= text.len(),
        start == text.take(start.len() as int),
    ensures
        0 <= n <= start.len(),
        fitting(start, max) == text.take(n),
        bytes_in(text.take(n)) <= max,
        bytes_in(start) > max ==> n < start.len(),
        n < longer <= start.len() ==> bytes_in(text.take(longer)) > max,
    decreases start.len(),
{
    if start.len() == 0 {
        assert(vstd::utf8::encode_utf8(start) =~= seq![]);
        0
    } else if bytes_in(start) <= max {
        start.len() as int
    } else {
        assert(start.drop_last() =~= text.take(start.len() - 1));
        lemma_cut(text, start.drop_last(), max, longer)
    }
}

/// A run begins with its prompt, waiting, as the last thing said in its conversation; it goes on to
/// run; and each step is told as it happens.
pub proof fn law_runs_are_told_as_they_happen(
    run: RecordView,
    call: ToolCallView,
    event: ToolEventView,
    now: u64,
)
    requires
        !run.status.over(),
    ensures
        run.started(now).status is Running,
        run.started(now).events == run.events.push(RunEventView::State("running"@)),
        run.tool_called(call, now).events == run.events.push(
            RunEventView::ToolCall { id: call.id, name: call.name, arguments: call.arguments },
        ),
        run.tool_finished(event, now).events == run.events.push(
            RunEventView::ToolResult {
                id: event.result.tool_call_id,
                name: event.result.name,
                summary: summary_of(event.result.content),
            },
        ),
        run.tool_called(call, now).status == run.status,
        run.tool_finished(event, now).status == run.status,
        run.cancelled(now).status is Cancelled,
        run.cancelled(now).events == run.events.push(RunEventView::State("cancelled"@)).push(
            RunEventView::Finished("cancelled"@),
        ),
        run.started(now).updated_at_epoch_millis == now,
        run.tool_called(call, now).updated_at_epoch_millis == now,
        run.tool_finished(event, now).updated_at_epoch_millis == now,
        run.cancelled(now).updated_at_epoch_millis == now,
        run.started(now).context == run.context,
        run.cancelled(now).context == run.context,
        run.tool_called(call, now).context.len() == run.context.len() + 1,
        run.tool_finished(event, now).context.len() == run.context.len() + 1,
        run.tool_called(call, now).context.drop_last() == run.context,
        run.tool_finished(event, now).context.drop_last() == run.context,
{
    assert(run.tool_called(call, now).context.drop_last() =~= run.context);
    assert(run.tool_finished(event, now).context.drop_last() =~= run.context);
}

/// A run that the agent completes tells what the agent thought and said, has succeeded, and has the
/// agent's words as its output. A run that fails tells why, and has that as its error.
pub proof fn law_runs_end_with_what_came_of_them(run: RecordView, done: RunView, message: Seq<char>, now: u64)
    requires
        !run.status.over(),
    ensures
        ({
            let end = run.completed(done, now);
            let n = end.events.len() as int;
            &&& end.status is Succeeded && end.final_output == Some(done.output)
                && end.error is None
            &&& end.updated_at_epoch_millis == now
            &&& run.events.is_prefix_of(end.events)
            &&& n >= 2 && end.events[n - 2] == RunEventView::State("succeeded"@)
            &&& end.events[n - 1] == RunEventView::Finished("succeeded"@)
            &&& n == run.events.len() + 2 + (if is_blank(done.reasoning) {
                0int
            } else {
                1
            }) + (if is_blank(done.output) {
                0int
            } else {
                1
            })
            &&& !is_blank(done.reasoning) ==> end.events[run.events.len() as int]
                == RunEventView::ReasoningDelta(done.reasoning)
            &&& !is_blank(done.output) ==> end.events[n - 3] == RunEventView::OutputDelta(
                done.output,
            )
            &&& is_blank(done.output) ==> end.context == run.context
            &&& !is_blank(done.output) ==> end.context.len() == run.context.len() + 1
                && end.context.drop_last() == run.context && shows(
                end.context.last(),
                "role"@,
                JsonView::Text("assistant"@),
            ) && shows(end.context.last(), "content"@, JsonView::Text(done.output))
        }),
        ({
            let end = run.failed(message, now);
            &&& end.status is Failed && end.error == Some(message) && end.final_output is None
            &&& end.updated_at_epoch_millis == now
            &&& end.events == run.events.push(RunEventView::Error(message)).push(
                RunEventView::State("failed"@),
            ).push(RunEventView::Finished("failed"@))
            &&& end.context == run.context
        }),
{
    let end = run.completed(done, now);
    assert(run.events =~= end.events.take(run.events.len() as int));
    if !is_blank(done.output) {
        assert(end.context.drop_last() =~= run.context);
        let said = end.context.last()->Object_0;
        assert(said[0] == ("role"@, JsonView::Text("assistant"@)));
        assert(said[1] == ("content"@, JsonView::Text(done.output)));
    }
}

/// A new run has what it was asked for, without white space around it, and its prompt is the last
/// thing said.
pub proof fn law_runs_begin_with_the_prompt(
    run_id: Seq<char>,
    request: CreateView,
    workspace: Seq<char>,
    now: u64,
)
    ensures
        ({
            let run = new_record(run_id, request, workspace, now);
            &&& run.run_id == run_id && run.prompt == request.prompt && run.workspace == workspace
            &&& run.model_id == request.model_id && run.harness == request.harness
            &&& run.source_device_id == request.source_device_id
            &&& run.status is Pending && run.final_output is None && run.error is None
            &&& run.created_at_epoch_millis == now && run.updated_at_epoch_millis == now
            &&& run.events == seq![RunEventView::State("pending"@)]
            &&& run.context.len() > 0
            &&& shows(run.context.last(), "role"@, JsonView::Text("user"@))
            &&& shows(run.context.last(), "content"@, JsonView::Text(request.prompt))
        }),
        ({
            let normal = normal_request(request);
            &&& normal.prompt == trimmed(request.prompt)
            &&& normal.context == request.context
            &&& request.workspace matches Some(path) ==> (!is_blank(path) ==> normal.workspace
                == Some(trimmed(path)))
            &&& request.model_id matches Some(model) ==> (!is_blank(model) ==> normal.model_id
                == Some(trimmed(model)))
            &&& request.harness matches Some(kind) ==> (!is_blank(kind) ==> normal.harness == Some(
                trimmed(kind),
            ))
            &&& request.source_device_id matches Some(device) ==> (!is_blank(device) ==> normal.source_device_id == Some(trimmed(device)))
            &&& request.workspace is None ==> normal.workspace is None
            &&& request.workspace matches Some(path) ==> (is_blank(path) ==> normal.workspace is None)
            &&& request.model_id is None ==> normal.model_id is None
            &&& request.model_id matches Some(model) ==> (is_blank(model) ==> normal.model_id is None)
            &&& request.harness is None ==> normal.harness is None
            &&& request.harness matches Some(kind) ==> (is_blank(kind) ==> normal.harness is None)
        }),
{
    let said = new_record(run_id, request, workspace, now).context.last()->Object_0;
    assert(said[0] == ("role"@, JsonView::Text("user"@)));
    assert(said[1] == ("content"@, JsonView::Text(request.prompt)));
}

/// Others see a run that this machine does as it is.
pub proof fn law_others_see_the_run(run: RecordView)
    ensures
        shows(record_json(run), "runId"@, JsonView::Text(run.run_id)),
        shows(record_json(run), "state"@, JsonView::Text(run.status.label())),
        shows(record_json(run), "prompt"@, JsonView::Text(run.prompt)),
        shows(record_json(run), "workspace"@, JsonView::Text(run.workspace)),
        shows(
            record_json(run),
            "createdAtEpochMillis"@,
            JsonView::Number(number_of(run.created_at_epoch_millis)),
        ),
        shows(
            record_json(run),
            "updatedAtEpochMillis"@,
            JsonView::Number(number_of(run.updated_at_epoch_millis)),
        ),
        run.model_id matches Some(text) ==> shows(
            record_json(run),
            "modelId"@,
            JsonView::Text(text),
        ),
        run.harness matches Some(text) ==> shows(
            record_json(run),
            "harness"@,
            JsonView::Text(text),
        ),
        run.source_device_id matches Some(text) ==> shows(
            record_json(run),
            "sourceDeviceId"@,
            JsonView::Text(text),
        ),
        run.final_output matches Some(text) ==> shows(
            record_json(run),
            "finalOutput"@,
            JsonView::Text(text),
        ),
        run.error matches Some(text) ==> shows(record_json(run), "error"@, JsonView::Text(text)),
        run.final_output is None ==> shows(record_json(run), "finalOutput"@, JsonView::Null),
        run.error is None ==> shows(record_json(run), "error"@, JsonView::Null),
{
    let members = record_json(run)->Object_0;
    assert(forall|i: int| 0 <= i < 11 ==> members.contains(#[trigger] members[i]));
    assert(members[0] == ("runId"@, JsonView::Text(run.run_id)));
    assert(members[1] == ("state"@, JsonView::Text(run.status.label())));
    assert(members[2] == ("prompt"@, JsonView::Text(run.prompt)));
    assert(members[3] == ("workspace"@, JsonView::Text(run.workspace)));
    assert(members[4].0 == "modelId"@);
    assert(members[5].0 == "harness"@);
    assert(members[6].0 == "sourceDeviceId"@);
    assert(members[7].0 == "createdAtEpochMillis"@);
    assert(members[8].0 == "updatedAtEpochMillis"@);
    assert(members[9].0 == "finalOutput"@);
    assert(members[10].0 == "error"@);
}

/// Who shows the token in either header comes in, and who shows another does not.
pub proof fn law_the_token_opens(
    config: LocalAgentWorkerConfig,
    token: Seq<char>,
    shown: Seq<char>,
    other: Option<Seq<char>>,
)
    requires
        config.pairing_token matches Some(text) && trimmed(text@) == token && token.len() > 0,
    ensures
        trimmed(shown) == token ==> may_come_in(config, Some("Bearer "@ + shown), other)
            && may_come_in(config, other, Some(shown)),
        trimmed(shown) != token ==> !may_come_in(config, Some("Bearer "@ + shown), None)
            && !may_come_in(config, None, Some(shown)),
        !"Bearer "@.is_prefix_of(shown) ==> !may_come_in(config, Some(shown), None),
{
    let bearer = "Bearer "@ + shown;
    reveal_strlit("Bearer ");
    assert("Bearer "@ =~= bearer.subrange(0, 7));
    assert(bearer.skip(7) =~= shown);
}

/// The client that waits for another machine is told all that this machine's agent would have told
/// it: calls with their arguments, results with the calls they belong to, thoughts, words and errors.
pub proof fn law_clients_are_told(
    calls: Map<Seq<char>, ToolCallView>,
    id: Seq<char>,
    name: Seq<char>,
    arguments: JsonView,
    text: Seq<char>,
)
    ensures
        passed_on(calls, RunEventView::ToolCall { id, name, arguments }) == Some(
            Said::Call(ToolCallView { id, name, arguments }),
        ),
        !calls.contains_key(id) ==> passed_on(
            calls,
            RunEventView::ToolResult { id, name, summary: text },
        ) == Some(
            Said::Result(
                ToolEventView {
                    tool_call: ToolCallView { id, name, arguments: JsonView::Object(seq![]) },
                    result: ToolResultView { tool_call_id: id, name, content: text },
                },
            ),
        ),
        !is_blank(text) ==> passed_on(calls, RunEventView::ReasoningDelta(text)) == Some(
            Said::Reasoning(text),
        ),
        !is_blank(text) ==> passed_on(calls, RunEventView::OutputDelta(text)) == Some(
            Said::Output(text),
        ),
        is_blank(text) ==> passed_on(calls, RunEventView::ReasoningDelta(text)) is None
            && passed_on(calls, RunEventView::OutputDelta(text)) is None,
        passed_on(calls, RunEventView::Error(text)) == Some(
            Said::Output("Remote worker error: "@ + text),
        ),
        passed_on(calls, RunEventView::State(text)) is None,
        passed_on(calls, RunEventView::Finished(text)) is None,
{
}

/// The client is told one thing after the other, and a call is remembered for its result, until the
/// run is over.
pub proof fn law_relaying_goes_on_to_the_end(
    calls: Map<Seq<char>, ToolCallView>,
    events: Seq<RunEventView>,
    event: RunEventView,
)
    ensures
        relayed(calls, seq![]) == (calls, Seq::<Said>::empty(), false),
        relayed(calls, events).2 ==> relayed(calls, events.push(event)) == relayed(calls, events),
        !relayed(calls, events).2 ==> {
            let (known, script, _) = relayed(calls, events);
            let (after, told, over) = relayed(calls, events.push(event));
            &&& over == (event is Finished)
            &&& passed_on(known, event) matches Some(said) ==> told == script.push(said)
            &&& passed_on(known, event) is None ==> told == script
            &&& event matches RunEventView::ToolCall { id, name, arguments } ==> after
                == known.insert(id, ToolCallView { id, name, arguments })
            &&& !(event is ToolCall) ==> after == known
        },
{
    assert(events.push(event).drop_last() =~= events);
}

/// Events are sent in the words of the protocol.
pub proof fn law_events_are_sent_in_these_words(event: RunEventView)
    ensures
        shows(
            event_json(event),
            "type"@,
            JsonView::Text(
                match event {
                    RunEventView::State(_) => "state"@,
                    RunEventView::ToolCall { .. } => "tool_call"@,
                    RunEventView::ToolResult { .. } => "tool_result"@,
                    RunEventView::ReasoningDelta(_) => "reasoning_delta"@,
                    RunEventView::OutputDelta(_) => "output_delta"@,
                    RunEventView::Error(_) => "error"@,
                    RunEventView::Finished(_) => "finished"@,
                },
            ),
        ),
        match event {
            RunEventView::State(state) => shows(event_json(event), "state"@, JsonView::Text(state)),
            RunEventView::ToolCall { id, name, arguments } => shows(
                event_json(event),
                "id"@,
                JsonView::Text(id),
            ) && shows(event_json(event), "name"@, JsonView::Text(name)) && shows(
                event_json(event),
                "arguments"@,
                arguments,
            ),
            RunEventView::ToolResult { id, name, summary } => shows(
                event_json(event),
                "id"@,
                JsonView::Text(id),
            ) && shows(event_json(event), "name"@, JsonView::Text(name)) && shows(
                event_json(event),
                "summary"@,
                JsonView::Text(summary),
            ),
            RunEventView::ReasoningDelta(text) => shows(
                event_json(event),
                "text"@,
                JsonView::Text(text),
            ),
            RunEventView::OutputDelta(text) => shows(
                event_json(event),
                "text"@,
                JsonView::Text(text),
            ),
            RunEventView::Error(message) => shows(
                event_json(event),
                "message"@,
                JsonView::Text(message),
            ),
            RunEventView::Finished(state) => shows(
                event_json(event),
                "state"@,
                JsonView::Text(state),
            ),
        },
{
    let members = event_json(event)->Object_0;
    assert(members[0].0 == "type"@);
    assert(members.contains(members[0]) && members.contains(members[1]));
    if event is ToolCall || event is ToolResult {
        assert(members.contains(members[2]) && members.contains(members[3]));
    }
}

} // verus!
