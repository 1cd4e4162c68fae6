//! What an agent does in a turn: tool calls, their results, and what it says.

use vstd::prelude::*;

use crate::json::{Json, JsonView};

verus! {

/// What the model said in one turn.
#[derive(Debug)]
pub struct LocalAssistantTurn {
    pub content: String,
    pub reasoning: String,
    pub tool_calls: Vec<LocalToolCall>,
}

/// A tool that the model wants to use.
#[derive(Debug)]
pub struct LocalToolCall {
    pub id: String,
    pub name: String,
    pub arguments: Json,
}

/// What a tool gave.
#[derive(Debug)]
pub struct LocalToolResult {
    pub tool_call_id: String,
    pub name: String,
    pub content: String,
}

/// A tool call with its result.
#[derive(Debug)]
pub struct LocalToolEvent {
    pub tool_call: LocalToolCall,
    pub result: LocalToolResult,
}

/// What an agent did on a request.
#[derive(Debug)]
pub struct LocalAgentRun {
    pub output: String,
    pub reasoning: String,
    pub tool_calls: Vec<LocalToolCall>,
    pub tool_events: Vec<LocalToolEvent>,
}

/// What a shell command gave.
#[derive(Debug)]
pub struct LocalCommandOutput {
    pub exit_code: Option<i32>,
    pub stdout: String,
    pub stderr: String,
    pub timed_out: bool,
}

/// The mathematical content of a [`LocalToolCall`].
#[verifier::ext_equal]
pub struct ToolCallView {
    pub id: Seq<char>,
    pub name: Seq<char>,
    pub arguments: JsonView,
}

/// The mathematical content of a [`LocalToolResult`].
#[verifier::ext_equal]
pub struct ToolResultView {
    pub tool_call_id: Seq<char>,
    pub name: Seq<char>,
    pub content: Seq<char>,
}

/// The mathematical content of a [`LocalToolEvent`].
#[verifier::ext_equal]
pub struct ToolEventView {
    pub tool_call: ToolCallView,
    pub result: ToolResultView,
}

/// The mathematical content of a [`LocalAssistantTurn`].
#[verifier::ext_equal]
pub struct TurnView {
    pub content: Seq<char>,
    pub reasoning: Seq<char>,
    pub tool_calls: Seq<ToolCallView>,
}

/// The mathematical content of a [`LocalAgentRun`].
#[verifier::ext_equal]
pub struct RunView {
    pub output: Seq<char>,
    pub reasoning: Seq<char>,
    pub tool_calls: Seq<ToolCallView>,
    pub tool_events: Seq<ToolEventView>,
}

impl View for LocalToolCall {
    type V = ToolCallView;

    open spec fn view(&self) -> ToolCallView {
        ToolCallView { id: self.id@, name: self.name@, arguments: self.arguments@ }
    }
}

impl View for LocalToolResult {
    type V = ToolResultView;

    open spec fn view(&self) -> ToolResultView {
        ToolResultView {
            tool_call_id: self.tool_call_id@,
            name: self.name@,
            content: self.content@,
        }
    }
}

impl View for LocalToolEvent {
    type V = ToolEventView;

    open spec fn view(&self) -> ToolEventView {
        ToolEventView { tool_call: self.tool_call@, result: self.result@ }
    }
}

pub open spec fn call_views(calls: Seq<LocalToolCall>) -> Seq<ToolCallView> {
    calls.map_values(|call: LocalToolCall| call@)
}

pub open spec fn event_views(events: Seq<LocalToolEvent>) -> Seq<ToolEventView> {
    events.map_values(|event: LocalToolEvent| event@)
}

impl View for LocalAssistantTurn {
    type V = TurnView;

    open spec fn view(&self) -> TurnView {
        TurnView {
            content: self.content@,
            reasoning: self.reasoning@,
            tool_calls: call_views(self.tool_calls@),
        }
    }
}

impl View for LocalAgentRun {
    type V = RunView;

    open spec fn view(&self) -> RunView {
        RunView {
            output: self.output@,
            reasoning: self.reasoning@,
            tool_calls: call_views(self.tool_calls@),
            tool_events: event_views(self.tool_events@),
        }
    }
}

impl Clone for LocalToolCall {
    fn clone(&self) -> (copy: Self)
        ensures
            copy@ == self@,
    {
        LocalToolCall {
            id: self.id.clone(),
            name: self.name.clone(),
            arguments: self.arguments.clone(),
        }
    }
}

impl Clone for LocalToolResult {
    fn clone(&self) -> (copy: Self)
        ensures
            copy@ == self@,
    {
        LocalToolResult {
            tool_call_id: self.tool_call_id.clone(),
            name: self.name.clone(),
            content: self.content.clone(),
        }
    }
}

impl Clone for LocalToolEvent {
    fn clone(&self) -> (copy: Self)
        ensures
            copy@ == self@,
    {
        LocalToolEvent { tool_call: self.tool_call.clone(), result: self.result.clone() }
    }
}

impl LocalAgentRun {
    /// A run that gave nothing but text.
    pub fn from_output(output: String) -> (run: Self)
        ensures
            run@ == (RunView {
                output: output@,
                reasoning: seq![],
                tool_calls: seq![],
                tool_events: seq![],
            }),
    {
        let run = LocalAgentRun {
            output,
            reasoning: String::new(),
            tool_calls: Vec::new(),
            tool_events: Vec::new(),
        };
        assert(run@.tool_calls =~= seq![]);
        assert(run@.tool_events =~= seq![]);
        run
    }
}

} // verus!
