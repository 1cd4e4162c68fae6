//! Conversations in the form in which chat models take them.

use vstd::prelude::*;

pub mod context;
pub mod history;
pub mod laws;
pub mod model_laws;
pub mod provider;
pub mod turns;

use crate::agent_state::{LocalAssistantTurn, LocalToolCall, LocalToolResult, ToolCallView, ToolResultView};
use crate::json::{Json, JsonView, jobject, json_text, jtext, list_view, lemma_list_view, settled};
use crate::llm_config::ResolvedLocalLlm;
use crate::tools::registry::{local_agent_system_prompt, system_prompt};

verus! {

/// A message with a role and a content.
pub open spec fn said_by(role: Seq<char>, content: Seq<char>) -> JsonView {
    jobject().with("role"@, jtext(role)).with("content"@, jtext(content))
}

fn message(role: &str, content: &str) -> (out: Json)
    ensures
        out@ == said_by(role@, content@),
{
    Json::object().with("role", Json::text(role)).with("content", Json::text(content))
}

/// The message that tells the model what it is to do.
pub fn openai_system_message(model: &ResolvedLocalLlm) -> (out: Json)
    ensures
        out@ == said_by("system"@, system_prompt(model@)),
{
    message("system", local_agent_system_prompt(model).as_str())
}

pub fn openai_user_message(content: &str) -> (out: Json)
    ensures
        out@ == said_by("user"@, content@),
{
    message("user", content)
}

pub fn openai_assistant_text_message(content: &str) -> (out: Json)
    ensures
        out@ == said_by("assistant"@, content@),
{
    message("assistant", content)
}

/// A tool call as the model made it.
pub open spec fn call_json(call: ToolCallView) -> JsonView {
    jobject().with("id"@, jtext(call.id)).with("type"@, jtext("function"@)).with(
        "function"@,
        jobject().with("name"@, jtext(call.name)).with(
            "arguments"@,
            jtext(json_text(settled(call.arguments))),
        ),
    )
}

pub fn openai_tool_call_message(call: &LocalToolCall) -> (out: Json)
    ensures
        out@ == call_json(call@),
{
    Json::object().with("id", Json::text(call.id.as_str())).with("type", Json::text("function")).with(
        "function",
        Json::object().with("name", Json::text(call.name.as_str())).with(
            "arguments",
            Json::text(call.arguments.print().as_str()),
        ),
    )
}

pub open spec fn calls_json(calls: Seq<ToolCallView>) -> JsonView {
    JsonView::List(calls.map_values(|call: ToolCallView| call_json(call)))
}

/// A turn of the model with the tool calls that it made.
pub open spec fn turn_json(content: Seq<char>, calls: Seq<ToolCallView>) -> JsonView {
    said_by("assistant"@, content).with("tool_calls"@, calls_json(calls))
}

fn call_list(calls: &Vec<LocalToolCall>) -> (out: Json)
    ensures
        out@ == calls_json(crate::agent_state::call_views(calls@)),
{
    let ghost views = crate::agent_state::call_views(calls@);
    let mut list: Vec<Json> = Vec::new();
    let mut i: usize = 0;
    while i < calls.len()
        invariant
            i <= calls.len(),
            views == crate::agent_state::call_views(calls@),
            list.len() == i,
            forall|j: int| 0 <= j < i ==> (#[trigger] list@[j])@ == call_json(views[j]),
        decreases calls.len() - i,
    {
        list.push(openai_tool_call_message(&calls[i]));
        i += 1;
    }
    proof {
        lemma_list_view(list@);
        assert(list_view(list@) =~= views.map_values(|call: ToolCallView| call_json(call)));
    }
    Json::List(list)
}

/// A turn of the model.
pub fn openai_assistant_message(turn: &LocalAssistantTurn) -> (out: Json)
    ensures
        out@ == turn_json(turn@.content, turn@.tool_calls),
{
    message("assistant", turn.content.as_str()).with("tool_calls", call_list(&turn.tool_calls))
}

/// What a tool gave.
pub open spec fn result_json(result: ToolResultView) -> JsonView {
    jobject().with("role"@, jtext("tool"@)).with("tool_call_id"@, jtext(result.tool_call_id)).with(
        "name"@,
        jtext(result.name),
    ).with("content"@, jtext(result.content))
}

pub fn openai_tool_result_message(result: &LocalToolResult) -> (out: Json)
    ensures
        out@ == result_json(result@),
{
    Json::object().with("role", Json::text("tool")).with(
        "tool_call_id",
        Json::text(result.tool_call_id.as_str()),
    ).with("name", Json::text(result.name.as_str())).with(
        "content",
        Json::text(result.content.as_str()),
    )
}

} // verus!
