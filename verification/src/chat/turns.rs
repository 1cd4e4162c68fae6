//! Turns of a model, and the loop in which it works with its tools.

use vstd::prelude::*;

use crate::agent_state::{
    LocalAgentRun, LocalAssistantTurn, LocalToolCall, LocalToolEvent, LocalToolResult, RunView,
    ToolCallView, ToolEventView, ToolResultView, TurnView, call_views, event_views,
};
use crate::chat::{openai_assistant_message, openai_tool_result_message, result_json, turn_json};
use crate::json::{Json, JsonView, list_view};
use crate::text::{is_blank, join, joined, texts, trim};

verus! {

/// How often the model may use tools before it must answer.
pub const MAX_TOOL_ITERATIONS: usize = 8;

/// What a provider sends while a model speaks.
#[derive(Debug)]
pub enum StreamEvent {
    Start,
    Chunk(String),
    ReasoningChunk(String),
    ThoughtSignatureChunk,
    ToolCall(LocalToolCall),
    End {
        texts: Option<Vec<String>>,
        reasoning: Option<String>,
        tool_calls: Option<Vec<LocalToolCall>>,
    },
}

pub open spec fn no_turn() -> TurnView {
    TurnView { content: seq![], reasoning: seq![], tool_calls: seq![] }
}

/// The turn after one more event. What the last event repeats counts only where nothing came
/// before.
pub open spec fn heard(turn: TurnView, event: StreamEvent) -> TurnView {
    match event {
        StreamEvent::Chunk(text) => TurnView { content: turn.content + text@, ..turn },
        StreamEvent::ReasoningChunk(text) => TurnView { reasoning: turn.reasoning + text@, ..turn },
        StreamEvent::ToolCall(call) => TurnView {
            tool_calls: turn.tool_calls.push(call@),
            ..turn
        },
        StreamEvent::End { texts: said, reasoning, tool_calls } => TurnView {
            content: if is_blank(turn.content) && said is Some {
                joined(texts(said->0@), seq![])
            } else {
                turn.content
            },
            reasoning: if is_blank(turn.reasoning) && reasoning is Some {
                reasoning->0@
            } else {
                turn.reasoning
            },
            tool_calls: if turn.tool_calls.len() == 0 && tool_calls is Some {
                call_views(tool_calls->0@)
            } else {
                turn.tool_calls
            },
        },
        _ => turn,
    }
}

pub open spec fn heard_all(events: Seq<StreamEvent>) -> TurnView
    decreases events.len(),
{
    if events.len() == 0 {
        no_turn()
    } else {
        heard(heard_all(events.drop_last()), events.last())
    }
}

impl LocalAssistantTurn {
    /// A turn of which nothing was heard yet.
    pub fn silent() -> (turn: Self)
        ensures
            turn@ == no_turn(),
    {
        let turn = LocalAssistantTurn {
            content: String::new(),
            reasoning: String::new(),
            tool_calls: Vec::new(),
        };
        assert(turn@ =~= no_turn());
        turn
    }

    /// Takes in one more event.
    pub fn hear(&mut self, event: StreamEvent)
        ensures
            final(self)@ == heard(old(self)@, event),
    {
        match event {
            StreamEvent::Chunk(text) => {
                self.content.append(text.as_str());
            },
            StreamEvent::ReasoningChunk(text) => {
                self.reasoning.append(text.as_str());
            },
            StreamEvent::ToolCall(call) => {
                let ghost before = call_views(self.tool_calls@);
                self.tool_calls.push(call);
                assert(call_views(self.tool_calls@) =~= before.push(call@));
            },
            StreamEvent::End { texts: said, reasoning, tool_calls } => {
                if trim(self.content.as_str()).is_empty() {
                    if let Some(said) = said {
                        proof {
                            reveal_strlit("");
                            assert(""@ =~= Seq::<char>::empty());
                        }
                        self.content = join(&said, "");
                    }
                }
                if trim(self.reasoning.as_str()).is_empty() {
                    if let Some(reasoning) = reasoning {
                        self.reasoning = reasoning;
                    }
                }
                if self.tool_calls.len() == 0 {
                    if let Some(tool_calls) = tool_calls {
                        self.tool_calls = tool_calls;
                    }
                }
            },
            _ => {},
        }
    }

    /// The turn that a whole stream tells.
    pub fn from_events(events: Vec<StreamEvent>) -> (turn: Self)
        ensures
            turn@ == heard_all(events@),
    {
        let ghost all = events@;
        let mut turn = LocalAssistantTurn::silent();
        assert(all.take(0) =~= seq![]);
        for event in it: events
            invariant
                it.seq() == all,
                turn@ == heard_all(all.take(it.index())),
        {
            assert(all.take(it.index() + 1).drop_last() =~= all.take(it.index()));
            turn.hear(event);
        }
        assert(all.take(all.len() as int) =~= all);
        turn
    }
}

/// The run of a model that is asked once: its tool calls are left to the client.
pub fn single_run(turn: LocalAssistantTurn) -> (run: LocalAgentRun)
    ensures
        run@ == (RunView {
            output: turn@.content,
            reasoning: turn@.reasoning,
            tool_calls: turn@.tool_calls,
            tool_events: seq![],
        }),
{
    let run = LocalAgentRun {
        output: turn.content,
        reasoning: turn.reasoning,
        tool_calls: turn.tool_calls,
        tool_events: Vec::new(),
    };
    assert(run@.tool_events =~= seq![]);
    run
}

/// A model at work with its tools.
#[derive(Debug)]
pub struct AgentLoop {
    messages: Vec<Json>,
    output: Vec<String>,
    reasoning: Vec<String>,
    tool_events: Vec<LocalToolEvent>,
    waiting: Vec<LocalToolCall>,
    rounds: usize,
}

/// The mathematical content of an [`AgentLoop`].
#[verifier::ext_equal]
pub ghost struct LoopView {
    /// The conversation so far.
    pub messages: Seq<JsonView>,
    /// What the model said.
    pub output: Seq<Seq<char>>,
    /// What the model thought.
    pub reasoning: Seq<Seq<char>>,
    /// The tools that it used.
    pub tool_events: Seq<ToolEventView>,
    /// The calls of its last turn that are still to be run.
    pub waiting: Seq<ToolCallView>,
    /// How many of its turns had their tools run.
    pub rounds: nat,
}

pub open spec fn with_part(parts: Seq<Seq<char>>, part: Seq<char>) -> Seq<Seq<char>> {
    if is_blank(part) {
        parts
    } else {
        parts.push(part)
    }
}

impl LoopView {
    pub open spec fn start(messages: Seq<JsonView>) -> LoopView {
        LoopView {
            messages,
            output: seq![],
            reasoning: seq![],
            tool_events: seq![],
            waiting: seq![],
            rounds: 0,
        }
    }

    /// Whether the loop is over with a turn: the model answered, or has used its tools too often.
    pub open spec fn ends_with(self, turn: TurnView) -> bool {
        turn.tool_calls.len() == 0 || self.rounds == MAX_TOOL_ITERATIONS
    }

    /// The loop after a turn of the model.
    pub open spec fn after_turn(self, turn: TurnView) -> LoopView {
        LoopView {
            output: with_part(self.output, turn.content),
            reasoning: with_part(self.reasoning, turn.reasoning),
            messages: if self.ends_with(turn) {
                self.messages
            } else {
                self.messages.push(turn_json(turn.content, turn.tool_calls))
            },
            waiting: if self.ends_with(turn) {
                seq![]
            } else {
                turn.tool_calls
            },
            ..self
        }
    }

    /// The loop after the first of the waiting calls gave a result.
    pub open spec fn after_result(self, result: ToolResultView) -> LoopView {
        LoopView {
            messages: self.messages.push(result_json(result)),
            tool_events: self.tool_events.push(
                ToolEventView { tool_call: self.waiting[0], result },
            ),
            waiting: self.waiting.skip(1),
            rounds: if self.waiting.len() == 1 {
                self.rounds + 1
            } else {
                self.rounds
            },
            ..self
        }
    }

    /// What the loop gave, once `turn` ended it.
    pub open spec fn run(self, turn: TurnView) -> RunView {
        let after = self.after_turn(turn);
        let output = if turn.tool_calls.len() == 0 {
            after.output
        } else {
            after.output.push("Stopped after 8 tool iterations without a final answer."@)
        };
        RunView {
            output: joined(output, "\n\n"@),
            reasoning: joined(after.reasoning, "\n\n"@),
            tool_calls: seq![],
            tool_events: after.tool_events,
        }
    }

    pub open spec fn well_formed(self) -> bool {
        &&& self.rounds <= MAX_TOOL_ITERATIONS
        &&& self.waiting.len() > 0 ==> self.rounds < MAX_TOOL_ITERATIONS
    }
}

impl View for AgentLoop {
    type V = LoopView;

    closed spec fn view(&self) -> LoopView {
        LoopView {
            messages: list_view(self.messages@),
            output: texts(self.output@),
            reasoning: texts(self.reasoning@),
            tool_events: event_views(self.tool_events@),
            waiting: call_views(self.waiting@),
            rounds: self.rounds as nat,
        }
    }
}

fn add_part(parts: &mut Vec<String>, part: &String)
    ensures
        texts(final(parts)@) == with_part(texts(old(parts)@), part@),
{
    if !trim(part.as_str()).is_empty() {
        let ghost before = texts(parts@);
        parts.push(part.clone());
        assert(texts(parts@) =~= before.push(part@));
    }
}

impl AgentLoop {
    /// A loop over a conversation.
    pub fn new(messages: Vec<Json>) -> (agent: Self)
        ensures
            agent@ == LoopView::start(list_view(messages@)),
            agent@.well_formed(),
    {
        let agent = AgentLoop {
            messages,
            output: Vec::new(),
            reasoning: Vec::new(),
            tool_events: Vec::new(),
            waiting: Vec::new(),
            rounds: 0,
        };
        assert(agent@ =~= LoopView::start(list_view(messages@)));
        agent
    }

    /// The conversation that the model is to be sent.
    pub fn messages(&self) -> (messages: &Vec<Json>)
        ensures
            list_view(messages@) == self@.messages,
    {
        &self.messages
    }

    /// The call that is to be run next.
    pub fn next_call(&self) -> (call: Option<&LocalToolCall>)
        ensures
            match call {
                Some(call) => self@.waiting.len() > 0 && call@ == self@.waiting[0],
                None => self@.waiting.len() == 0,
            },
    {
        if self.waiting.len() > 0 {
            Some(&self.waiting[0])
        } else {
            None
        }
    }

    /// Takes in a turn of the model; the run, if that ends the loop.
    pub fn take_turn(&mut self, turn: LocalAssistantTurn) -> (run: Option<LocalAgentRun>)
        requires
            old(self)@.well_formed(),
            old(self)@.waiting.len() == 0,
        ensures
            final(self)@.well_formed(),
            match run {
                Some(run) => old(self)@.ends_with(turn@) && run@ == old(self)@.run(turn@),
                None => !old(self)@.ends_with(turn@) && final(self)@ == old(self)@.after_turn(
                    turn@,
                ),
            },
    {
        let ghost before = self@;
        add_part(&mut self.reasoning, &turn.reasoning);
        add_part(&mut self.output, &turn.content);
        let answered = turn.tool_calls.len() == 0;
        assert(answered == (turn@.tool_calls.len() == 0));
        if answered || self.rounds == MAX_TOOL_ITERATIONS {
            let mut output: Vec<String> = Vec::new();
            let mut reasoning: Vec<String> = Vec::new();
            let mut tool_events: Vec<LocalToolEvent> = Vec::new();
            std::mem::swap(&mut output, &mut self.output);
            std::mem::swap(&mut reasoning, &mut self.reasoning);
            std::mem::swap(&mut tool_events, &mut self.tool_events);
            if !answered {
                let ghost said = texts(output@);
                output.push("Stopped after 8 tool iterations without a final answer.".to_owned());
                assert(texts(output@) =~= said.push(
                    "Stopped after 8 tool iterations without a final answer."@,
                ));
            }
            let run = LocalAgentRun {
                output: join(&output, "\n\n"),
                reasoning: join(&reasoning, "\n\n"),
                tool_calls: Vec::new(),
                tool_events,
            };
            assert(run@.tool_calls =~= seq![]);
            Some(run)
        } else {
            let message = openai_assistant_message(&turn);
            assert(self.messages@.push(message).drop_last() =~= self.messages@);
            self.messages.push(message);
            self.waiting = turn.tool_calls;
            assert(self@ =~= before.after_turn(turn@));
            None
        }
    }

    /// Takes in what the call that was to be run next gave; the event that this makes.
    pub fn take_result(&mut self, result: LocalToolResult) -> (event: LocalToolEvent)
        requires
            old(self)@.well_formed(),
            old(self)@.waiting.len() > 0,
        ensures
            final(self)@.well_formed(),
            final(self)@ == old(self)@.after_result(result@),
            event@ == (ToolEventView { tool_call: old(self)@.waiting[0], result: result@ }),
    {
        let ghost before = self@;
        let message = openai_tool_result_message(&result);
        assert(self.messages@.push(message).drop_last() =~= self.messages@);
        self.messages.push(message);
        let tool_call = self.waiting.remove(0);
        if self.waiting.len() == 0 {
            self.rounds += 1;
        }
        let event = LocalToolEvent { tool_call, result };
        let ghost events = event_views(self.tool_events@);
        let kept = event.clone();
        self.tool_events.push(kept);
        assert(event_views(self.tool_events@) =~= events.push(event@));
        assert(call_views(self.waiting@) =~= before.waiting.skip(1));
        assert(self@ =~= before.after_result(result@));
        event
    }
}

/// A model that has used its tools as often as it may is not given another turn, whatever it says.
pub proof fn law_the_loop_ends(agent: LoopView, turn: TurnView)
    requires
        agent.rounds == MAX_TOOL_ITERATIONS,
    ensures
        agent.ends_with(turn),
        agent.after_turn(turn).waiting.len() == 0,
        agent.after_turn(turn).tool_events == agent.tool_events,
{
}

/// Running the calls of one turn, one after the other.
pub open spec fn after_all(agent: LoopView, results: Seq<ToolResultView>) -> LoopView
    decreases results.len(),
{
    if results.len() == 0 {
        agent
    } else {
        after_all(agent, results.drop_last()).after_result(results.last())
    }
}

/// A turn with its tool calls costs the model one of its rounds, and leaves an event for each call,
/// with the calls in their order.
pub proof fn law_a_turn_is_one_round(agent: LoopView, results: Seq<ToolResultView>)
    requires
        agent.well_formed(),
        agent.waiting.len() > 0,
        results.len() == agent.waiting.len(),
    ensures
        after_all(agent, results).rounds == agent.rounds + 1,
        after_all(agent, results).waiting.len() == 0,
        after_all(agent, results).well_formed(),
        after_all(agent, results).tool_events == agent.tool_events + Seq::new(
            results.len(),
            |i: int| ToolEventView { tool_call: agent.waiting[i], result: results[i] },
        ),
{
    lemma_part_of_a_round(agent, results);
    let after = after_all(agent, results);
    assert(after.waiting =~= agent.waiting.skip(results.len() as int));
}

proof fn lemma_part_of_a_round(agent: LoopView, results: Seq<ToolResultView>)
    requires
        agent.well_formed(),
        agent.waiting.len() > 0,
        results.len() <= agent.waiting.len(),
    ensures
        after_all(agent, results).rounds == agent.rounds + if results.len() == agent.waiting.len() {
            1int
        } else {
            0int
        },
        after_all(agent, results).waiting == agent.waiting.skip(results.len() as int),
        after_all(agent, results).tool_events == agent.tool_events + Seq::new(
            results.len(),
            |i: int| ToolEventView { tool_call: agent.waiting[i], result: results[i] },
        ),
    decreases results.len(),
{
    let event = |i: int| ToolEventView { tool_call: agent.waiting[i], result: results[i] };
    if results.len() == 0 {
        assert(agent.waiting.skip(0) =~= agent.waiting);
        assert(agent.tool_events + Seq::new(0, event) =~= agent.tool_events);
    } else {
        let before = results.drop_last();
        lemma_part_of_a_round(agent, before);
        let rest = after_all(agent, before).waiting;
        assert(rest.skip(1) =~= agent.waiting.skip(results.len() as int));
        assert(rest[0] == agent.waiting[results.len() - 1]);
        let shorter = |i: int| ToolEventView { tool_call: agent.waiting[i], result: before[i] };
        assert((agent.tool_events + Seq::new(before.len(), shorter)).push(event(before.len() as int))
            =~= agent.tool_events + Seq::new(results.len(), event));
    }
}

/// What the user is told where the model could not be reached.
pub fn local_agent_error_message(why: &str) -> (text: String)
    ensures
        text@ == "Local sidecar LLM request failed:\n\n"@ + why@,
{
    let mut text = "Local sidecar LLM request failed:\n\n".to_owned();
    text.append(why);
    text
}

/// The run that stands for a model that could not be reached.
pub fn local_agent_error_run(why: &str) -> (run: LocalAgentRun)
    ensures
        run@ == (RunView {
            output: "Local sidecar LLM request failed:\n\n"@ + why@,
            reasoning: seq![],
            tool_calls: seq![],
            tool_events: seq![],
        }),
{
    LocalAgentRun::from_output(local_agent_error_message(why))
}

} // verus!
