//! Conversations that other devices bring, put into a form that models take.

use vstd::prelude::*;

use crate::agent_state::{LocalToolCall, LocalToolResult, ToolCallView};
use crate::chat::{
    call_json, openai_assistant_text_message, openai_system_message, openai_tool_call_message,
    openai_tool_result_message, openai_user_message, result_json, said_by,
};
use crate::json::{
    Json, JsonView, jlist, jobject, jtext, lemma_list_view, lemma_with_get, list_view,
};
use crate::llm_config::ResolvedLocalLlm;
use crate::text::{is_blank, lemma_trimmed_twice, nonblank, opt_text, same, trim, trim_nonblank, trimmed};
use crate::tools::registry::system_prompt;

verus! {

/// The text of a part of a content.
pub open spec fn part_text(part: JsonView) -> Option<Seq<char>> {
    match part.get_text("text"@) {
        Some(text) => Some(text),
        None => part.text(),
    }
}

/// The texts of the parts that have one, one after the other.
pub open spec fn parts_text(parts: Seq<JsonView>) -> Seq<char>
    decreases parts.len(),
{
    if parts.len() == 0 {
        seq![]
    } else {
        match part_text(parts.last()) {
            Some(text) => parts_text(parts.drop_last()) + text,
            None => parts_text(parts.drop_last()),
        }
    }
}

/// The text of a content: a text, or a list of parts with some text among them.
pub open spec fn content_text(content: JsonView) -> Option<Seq<char>> {
    match content {
        JsonView::Text(text) => Some(text),
        JsonView::List(parts) => if parts_text(parts).len() == 0 {
            None
        } else {
            Some(parts_text(parts))
        },
        _ => None,
    }
}

/// The text of a content.
pub fn openai_context_content_text(content: &Json) -> (out: Option<String>)
    ensures
        opt_text(out) == content_text(content@),
{
    if let Some(text) = content.as_text() {
        return Some(text.to_owned());
    }
    let parts = match content.as_list() {
        Some(parts) => parts,
        None => {
            return None;
        },
    };
    let ghost views = list_view(parts@);
    let mut out = String::new();
    let mut i: usize = 0;
    proof {
        lemma_list_view(parts@);
        assert(views.take(0) =~= seq![]);
    }
    while i < parts.len()
        invariant
            i <= parts.len(),
            views == list_view(parts@),
            views.len() == parts@.len(),
            forall|j: int| 0 <= j < parts@.len() ==> (#[trigger] views[j]) == parts@[j]@,
            out@ == parts_text(views.take(i as int)),
        decreases parts.len() - i,
    {
        assert(views.take(i + 1).drop_last() =~= views.take(i as int));
        assert(views.take(i + 1).last() == parts@[i as int]@);
        match parts[i].get_text("text") {
            Some(text) => {
                out.append(text);
            },
            None => {
                if let Some(text) = parts[i].as_text() {
                    out.append(text);
                }
            },
        }
        i += 1;
    }
    assert(views.take(views.len() as int) =~= views);
    if out.as_str().is_empty() {
        None
    } else {
        Some(out)
    }
}

/// The text of a message's content.
pub open spec fn message_text(message: JsonView) -> Option<Seq<char>> {
    match message.get("content"@) {
        Some(content) => content_text(content),
        None => None,
    }
}

fn text_of_message(message: &Json) -> (out: Option<String>)
    ensures
        opt_text(out) == message_text(message@),
{
    match message.get("content") {
        Some(content) => openai_context_content_text(content),
        None => None,
    }
}

pub open spec fn or_empty(text: Option<Seq<char>>) -> Seq<char> {
    match text {
        Some(text) => text,
        None => seq![],
    }
}

/// The calls of a message, where there are any.
pub open spec fn message_calls(message: JsonView) -> Option<JsonView> {
    match message.get("tool_calls"@) {
        Some(JsonView::List(calls)) => if calls.len() > 0 {
            Some(JsonView::List(calls))
        } else {
            None
        },
        _ => None,
    }
}

pub open spec fn normal_user(message: JsonView) -> Option<JsonView> {
    match message_text(message) {
        Some(content) => if is_blank(content) {
            None
        } else {
            Some(said_by("user"@, content))
        },
        None => None,
    }
}

pub open spec fn normal_assistant(message: JsonView) -> Option<JsonView> {
    let content = or_empty(message_text(message));
    let spoken = if is_blank(content) {
        jobject().with("role"@, jtext("assistant"@))
    } else {
        said_by("assistant"@, content)
    };
    match message_calls(message) {
        Some(calls) => Some(spoken.with("tool_calls"@, calls)),
        None => if is_blank(content) {
            None
        } else {
            Some(spoken)
        },
    }
}

pub open spec fn normal_tool(message: JsonView) -> Option<JsonView> {
    let id = match message.get_text("tool_call_id"@) {
        Some(id) => nonblank(id),
        None => None,
    };
    let name = match message.get_text("name"@) {
        Some(name) => name,
        None => "tool"@,
    };
    let content = or_empty(message_text(message));
    match id {
        Some(id) => Some(
            jobject().with("role"@, jtext("tool"@)).with("tool_call_id"@, jtext(id)).with(
                "name"@,
                jtext(name),
            ).with(
                "content"@,
                jtext(
                    if is_blank(content) {
                        seq![]
                    } else {
                        content
                    },
                ),
            ),
        ),
        None => None,
    }
}

/// A message in the form that models take, `None` where it says nothing that they could use.
pub open spec fn normal_message(message: JsonView) -> Option<JsonView> {
    match message.get_text("role"@) {
        Some(role) => if role == "user"@ {
            normal_user(message)
        } else if role == "assistant"@ {
            normal_assistant(message)
        } else if role == "tool"@ {
            normal_tool(message)
        } else {
            None
        },
        None => None,
    }
}

fn normalize_openai_user_context_message(message: &Json) -> (out: Option<Json>)
    ensures
        match out {
            Some(out) => normal_user(message@) == Some(out@),
            None => normal_user(message@) is None,
        },
{
    match text_of_message(message) {
        Some(content) => if trim(content.as_str()).is_empty() {
            None
        } else {
            Some(openai_user_message(content.as_str()))
        },
        None => None,
    }
}

fn calls_of(message: &Json) -> (out: Option<Json>)
    ensures
        match out {
            Some(out) => message_calls(message@) == Some(out@),
            None => message_calls(message@) is None,
        },
{
    match message.get("tool_calls") {
        Some(calls) => match calls.as_list() {
            Some(items) => {
                proof {
                    lemma_list_view(items@);
                }
                if items.len() > 0 {
                    Some(calls.clone())
                } else {
                    None
                }
            },
            None => None,
        },
        None => None,
    }
}

fn normalize_openai_assistant_context_message(message: &Json) -> (out: Option<Json>)
    ensures
        match out {
            Some(out) => normal_assistant(message@) == Some(out@),
            None => normal_assistant(message@) is None,
        },
{
    let content = match text_of_message(message) {
        Some(content) => content,
        None => String::new(),
    };
    let silent = trim(content.as_str()).is_empty();
    let calls = calls_of(message);
    if silent && calls.is_none() {
        return None;
    }
    let spoken = if silent {
        Json::object().with("role", Json::text("assistant"))
    } else {
        openai_assistant_text_message(content.as_str())
    };
    match calls {
        Some(calls) => Some(spoken.with("tool_calls", calls)),
        None => Some(spoken),
    }
}

fn normalize_openai_tool_context_message(message: &Json) -> (out: Option<Json>)
    ensures
        match out {
            Some(out) => normal_tool(message@) == Some(out@),
            None => normal_tool(message@) is None,
        },
{
    let id = match message.get_text("tool_call_id") {
        Some(id) => match trim_nonblank(id) {
            Some(id) => id,
            None => {
                return None;
            },
        },
        None => {
            return None;
        },
    };
    let mut content = String::new();
    if let Some(text) = text_of_message(message) {
        if !trim(text.as_str()).is_empty() {
            content = text;
        }
    }
    let name = match message.get_text("name") {
        Some(name) => name,
        None => "tool",
    };
    Some(
        Json::object().with("role", Json::text("tool")).with(
            "tool_call_id",
            Json::text(id.as_str()),
        ).with("name", Json::text(name)).with("content", Json::text(content.as_str())),
    )
}

fn normalize_message(message: &Json) -> (out: Option<Json>)
    ensures
        match out {
            Some(out) => normal_message(message@) == Some(out@),
            None => normal_message(message@) is None,
        },
{
    match message.get_text("role") {
        Some(role) => if same(role, "user") {
            normalize_openai_user_context_message(message)
        } else if same(role, "assistant") {
            normalize_openai_assistant_context_message(message)
        } else if same(role, "tool") {
            normalize_openai_tool_context_message(message)
        } else {
            None
        },
        None => None,
    }
}

/// The messages in the form that models take.
pub open spec fn normal_messages(messages: Seq<JsonView>) -> Seq<JsonView>
    decreases messages.len(),
{
    if messages.len() == 0 {
        seq![]
    } else {
        match normal_message(messages.last()) {
            Some(message) => normal_messages(messages.drop_last()).push(message),
            None => normal_messages(messages.drop_last()),
        }
    }
}

proof fn lemma_push(messages: Seq<Json>, message: Json)
    ensures
        list_view(messages.push(message)) == list_view(messages).push(message@),
{
    assert(messages.push(message).drop_last() =~= messages);
}

/// The messages in the form that models take.
pub fn normalize_openai_context_messages(messages: &Vec<Json>) -> (out: Vec<Json>)
    ensures
        list_view(out@) == normal_messages(list_view(messages@)),
{
    let ghost views = list_view(messages@);
    let mut out: Vec<Json> = Vec::new();
    let mut i: usize = 0;
    proof {
        lemma_list_view(messages@);
        assert(views.take(0) =~= seq![]);
    }
    while i < messages.len()
        invariant
            i <= messages.len(),
            views.len() == messages@.len(),
            forall|j: int| 0 <= j < messages@.len() ==> (#[trigger] views[j]) == messages@[j]@,
            list_view(out@) == normal_messages(views.take(i as int)),
        decreases messages.len() - i,
    {
        assert(views.take(i + 1).drop_last() =~= views.take(i as int));
        assert(views.take(i + 1).last() == messages@[i as int]@);
        if let Some(message) = normalize_message(&messages[i]) {
            proof {
                lemma_push(out@, message);
            }
            out.push(message);
        }
        i += 1;
    }
    assert(views.take(views.len() as int) =~= views);
    out
}

/// The messages that a model is sent on a prompt with a conversation from elsewhere.
pub fn openai_messages_from_worker_context(
    context: &Vec<Json>,
    prompt: &str,
    model: &ResolvedLocalLlm,
) -> (messages: Vec<Json>)
    ensures
        list_view(messages@) == seq![said_by("system"@, system_prompt(model@))] + normal_messages(
            list_view(context@),
        ).push(said_by("user"@, prompt@)),
{
    let system = openai_system_message(model);
    let rest = openai_worker_context_for_prompt(context, prompt);
    let mut messages: Vec<Json> = Vec::new();
    let ghost views = list_view(rest@);
    proof {
        lemma_push(messages@, system);
        lemma_list_view(rest@);
    }
    messages.push(system);
    let mut i: usize = 0;
    assert(list_view(messages@) =~= seq![system@] + views.take(0));
    while i < rest.len()
        invariant
            i <= rest.len(),
            views.len() == rest@.len(),
            forall|j: int| 0 <= j < rest@.len() ==> (#[trigger] views[j]) == rest@[j]@,
            list_view(messages@) == seq![system@] + views.take(i as int),
        decreases rest.len() - i,
    {
        let message = rest[i].clone();
        proof {
            lemma_push(messages@, message);
        }
        messages.push(message);
        assert(list_view(messages@) =~= seq![system@] + views.take(i + 1));
        i += 1;
    }
    assert(views.take(views.len() as int) =~= views);
    messages
}

/// A conversation from elsewhere with a prompt behind it.
pub fn openai_worker_context_for_prompt(context: &Vec<Json>, prompt: &str) -> (messages: Vec<Json>)
    ensures
        list_view(messages@) == normal_messages(list_view(context@)).push(
            said_by("user"@, prompt@),
        ),
{
    let mut messages = normalize_openai_context_messages(context);
    let message = openai_user_message(prompt);
    proof {
        lemma_push(messages@, message);
    }
    messages.push(message);
    messages
}

/// Adds what the model said, if it said anything.
pub fn append_openai_worker_context_output(context: &mut Vec<Json>, output: &str)
    ensures
        list_view(final(context)@) == if is_blank(output@) {
            list_view(old(context)@)
        } else {
            list_view(old(context)@).push(said_by("assistant"@, output@))
        },
{
    if !trim(output).is_empty() {
        let message = openai_assistant_text_message(output);
        proof {
            lemma_push(context@, message);
        }
        context.push(message);
    }
}

/// The message that tells of one tool call.
pub open spec fn one_call(call: ToolCallView) -> JsonView {
    jobject().with("role"@, jtext("assistant"@)).with("tool_calls"@, jlist().and(call_json(call)))
}

/// Adds a tool call of the model.
pub fn append_openai_worker_context_tool_call(context: &mut Vec<Json>, call: &LocalToolCall)
    ensures
        list_view(final(context)@) == list_view(old(context)@).push(one_call(call@)),
{
    let message = Json::object().with("role", Json::text("assistant")).with(
        "tool_calls",
        Json::list().and(openai_tool_call_message(call)),
    );
    proof {
        lemma_push(context@, message);
    }
    context.push(message);
}

/// Adds what a tool gave.
pub fn append_openai_worker_context_tool_result(context: &mut Vec<Json>, result: &LocalToolResult)
    ensures
        list_view(final(context)@) == list_view(old(context)@).push(result_json(result@)),
{
    let message = openai_tool_result_message(result);
    proof {
        lemma_push(context@, message);
    }
    context.push(message);
}

proof fn lemma_normal_message(message: JsonView)
    requires
        normal_message(message) is Some,
    ensures
        normal_message(normal_message(message)->0) == normal_message(message),
{
    broadcast use lemma_with_get;

    reveal_strlit("role");
    reveal_strlit("content");
    reveal_strlit("tool_calls");
    reveal_strlit("tool_call_id");
    reveal_strlit("name");
    reveal_strlit("user");
    reveal_strlit("assistant");
    reveal_strlit("tool");
    assert("role"@.len() == 4 && "content"@.len() == 7 && "tool_calls"@.len() == 10
        && "tool_call_id"@.len() == 12 && "name"@.len() == 4);
    assert("role"@[0] != "name"@[0]);
    assert("user"@.len() == 4 && "assistant"@.len() == 9);
    assert("user"@[0] != "tool"@[0]);
    let role = message.get_text("role"@)->0;
    let normal = normal_message(message)->0;
    if role == "user"@ {
        let content = message_text(message)->0;
        assert(normal == said_by("user"@, content));
        assert(normal.get("content"@) == Some(jtext(content)));
        assert(normal.get("role"@) == Some(jtext("user"@)));
    } else if role == "assistant"@ {
        let content = or_empty(message_text(message));
        assert(normal.get("role"@) == Some(jtext("assistant"@)));
        assert(normal.get("content"@) == if is_blank(content) {
            None
        } else {
            Some(jtext(content))
        }) by {
            assert(jobject().get("content"@) is None);
        }
        assert(normal.get("tool_calls"@) == message_calls(message)) by {
            assert(jobject().get("tool_calls"@) is None);
        }
        assert(is_blank(Seq::<char>::empty()));
    } else {
        let id = message.get_text("tool_call_id"@)->0;
        lemma_trimmed_twice(id);
        assert(normal.get("role"@) == Some(jtext("tool"@)));
        assert(normal.get("tool_call_id"@) == Some(jtext(trimmed(id))));
        assert(normal.get("name"@) == Some(
            jtext(
                match message.get_text("name"@) {
                    Some(name) => name,
                    None => "tool"@,
                },
            ),
        ));
        assert(is_blank(Seq::<char>::empty()));
    }
}

/// What was put into the form that models take keeps it: doing so again changes nothing.
pub proof fn law_normal_messages_stay(messages: Seq<JsonView>)
    ensures
        normal_messages(normal_messages(messages)) == normal_messages(messages),
    decreases messages.len(),
{
    if messages.len() > 0 {
        law_normal_messages_stay(messages.drop_last());
        let before = normal_messages(messages.drop_last());
        if let Some(message) = normal_message(messages.last()) {
            lemma_normal_message(messages.last());
            assert(before.push(message).drop_last() =~= before);
        }
    }
}

} // verus!
