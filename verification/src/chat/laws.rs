//! What holds of every conversation that a model is sent.

use vstd::prelude::*;

use crate::agent_api::requests::{current_results, prompt_of, read_result, tasks_of};
use crate::agent_api::tools::local_call_of;
use crate::agent_api::{Message, MessageBody, Request, Task};
use crate::agent_state::{ToolCallView, ToolResultView};
use crate::chat::history::{ChatView, HistoryView, history_of, history_start, request_messages};
use crate::chat::{call_json, result_json, said_by, turn_json};
use crate::json::{JsonView, json_text, settled, shows};
use crate::llm_config::ModelView;
use crate::text::laws::{
    law_joined_texts_are_held, law_joined_texts_stand_in_order, law_longer_texts_are_not_blank,
};
use crate::text::{is_blank, joined};

verus! {

/// Whether a message has this role.
pub open spec fn is_from(message: JsonView, role: Seq<char>) -> bool {
    shows(message, "role"@, JsonView::Text(role))
}

/// Whether a message has this text as its content.
pub open spec fn reads(message: JsonView, content: Seq<char>) -> bool {
    shows(message, "content"@, JsonView::Text(content))
}

/// A message says who speaks and what is said.
pub proof fn law_messages_say_who_speaks(role: Seq<char>, content: Seq<char>)
    ensures
        is_from(said_by(role, content), role),
        reads(said_by(role, content), content),
        said_by(role, content)->Object_0.len() == 2,
{
    let members = said_by(role, content)->Object_0;
    assert(members[0] == ("role"@, JsonView::Text(role)));
    assert(members[1] == ("content"@, JsonView::Text(content)));
}

/// A turn in which the model calls tools is the model's, and holds what the model said and each of
/// the calls, in their order.
pub proof fn law_turns_hold_their_calls(content: Seq<char>, calls: Seq<ToolCallView>)
    ensures
        is_from(turn_json(content, calls), "assistant"@),
        reads(turn_json(content, calls), content),
        exists|list: Seq<JsonView>|
            {
                &&& shows(turn_json(content, calls), "tool_calls"@, JsonView::List(list))
                &&& #[trigger] list.len() == calls.len()
                &&& forall|i: int| 0 <= i < calls.len() ==> #[trigger] list[i] == call_json(calls[i])
            },
{
    let members = turn_json(content, calls)->Object_0;
    assert(members[0] == ("role"@, JsonView::Text("assistant"@)));
    assert(members[1] == ("content"@, JsonView::Text(content)));
    let list = calls.map_values(|call: ToolCallView| call_json(call));
    assert(members[2] == ("tool_calls"@, JsonView::List(list)));
    assert(list.len() == calls.len());
}

/// A call names its tool and carries its arguments, printed as JSON.
pub proof fn law_calls_name_their_tool(call: ToolCallView)
    ensures
        shows(call_json(call), "id"@, JsonView::Text(call.id)),
        shows(call_json(call), "type"@, JsonView::Text("function"@)),
        exists|function: JsonView|
            {
                &&& #[trigger] shows(call_json(call), "function"@, function)
                &&& shows(function, "name"@, JsonView::Text(call.name))
                &&& shows(
                    function,
                    "arguments"@,
                    JsonView::Text(json_text(settled(call.arguments))),
                )
            },
{
    let members = call_json(call)->Object_0;
    assert(members[0] == ("id"@, JsonView::Text(call.id)));
    assert(members[1] == ("type"@, JsonView::Text("function"@)));
    let function = members[2].1;
    assert(members[2] == ("function"@, function));
    assert(function->Object_0[0] == ("name"@, JsonView::Text(call.name)));
    assert(function->Object_0[1] == (
        "arguments"@,
        JsonView::Text(json_text(settled(call.arguments))),
    ));
    assert(shows(call_json(call), "function"@, function));
}

/// The message with a tool's result says which call it answers and what came out.
pub proof fn law_results_answer_their_call(result: ToolResultView)
    ensures
        is_from(result_json(result), "tool"@),
        reads(result_json(result), result.content),
        shows(result_json(result), "tool_call_id"@, JsonView::Text(result.tool_call_id)),
        shows(result_json(result), "name"@, JsonView::Text(result.name)),
{
    let members = result_json(result)->Object_0;
    assert(members[0] == ("role"@, JsonView::Text("tool"@)));
    assert(members[1] == ("tool_call_id"@, JsonView::Text(result.tool_call_id)));
    assert(members[2] == ("name"@, JsonView::Text(result.name)));
    assert(members[3] == ("content"@, JsonView::Text(result.content)));
}

/// Whether a message of the model has a content in which the text stands.
pub open spec fn says(message: JsonView, text: Seq<char>) -> bool {
    &&& is_from(message, "assistant"@)
    &&& exists|before: Seq<char>, after: Seq<char>| #[trigger]
        reads(message, before + text + after)
}

/// Whether one of the messages is the model's and has the text in its content.
pub open spec fn is_said(messages: Seq<JsonView>, text: Seq<char>) -> bool {
    exists|i: int| 0 <= i < messages.len() && #[trigger] says(messages[i], text)
}

/// Whether the text was said, or is about to be.
pub open spec fn is_kept(history: HistoryView, text: Seq<char>) -> bool {
    is_said(history.chat.messages, text) || history.chat.pending.content.contains(text)
}

proof fn lemma_said_grows(messages: Seq<JsonView>, message: JsonView, text: Seq<char>)
    requires
        is_said(messages, text),
    ensures
        is_said(messages.push(message), text),
{
    let i = choose|i: int| 0 <= i < messages.len() && #[trigger] says(messages[i], text);
    assert(says(messages.push(message)[i], text));
}

proof fn lemma_flush_says(chat: ChatView, text: Seq<char>)
    requires
        !is_blank(text),
        is_said(chat.messages, text) || chat.pending.content.contains(text),
    ensures
        is_said(chat.flushed().messages, text),
{
    let pending = chat.pending;
    if is_said(chat.messages, text) {
        if let Some(message) = pending.message() {
            lemma_said_grows(chat.messages, message, text);
        }
    } else {
        let at = pending.content.index_of(text);
        let (before, after) = law_joined_texts_are_held(pending.content, at, "\n\n"@);
        let content = joined(pending.content, "\n\n"@);
        assert(content == before + text + after);
        law_longer_texts_are_not_blank(before, text, after);
        law_messages_say_who_speaks("assistant"@, content);
        law_turns_hold_their_calls(content, pending.tool_calls);
        let message = pending.message()->0;
        assert(reads(message, before + text + after));
        assert(says(message, text));
        let messages = chat.flushed().messages;
        assert(says(messages[messages.len() - 1], text));
    }
}

proof fn lemma_open_keeps(chat: ChatView, id: Seq<char>, text: Seq<char>)
    requires
        !is_blank(text),
        is_said(chat.messages, text) || chat.pending.content.contains(text),
    ensures
        is_said(chat.open_for(id).messages, text) || chat.open_for(id).pending.content.contains(
            text,
        ),
{
    lemma_flush_says(chat, text);
}

proof fn lemma_content_grows(content: Seq<Seq<char>>, more: Seq<char>, text: Seq<char>)
    ensures
        content.contains(text) ==> content.push(more).contains(text),
        content.push(text).contains(text),
{
    assert(content.push(text).last() == text);
    if content.contains(text) {
        let at = content.index_of(text);
        assert(content.push(more)[at] == text);
    }
}

proof fn lemma_result_keeps(history: HistoryView, result: ToolResultView, text: Seq<char>)
    requires
        !is_blank(text),
        is_kept(history, text),
    ensures
        is_kept(history.with_result(result), text),
{
    lemma_flush_says(history.chat, text);
    lemma_said_grows(history.chat.flushed().messages, result_json(result), text);
}

proof fn lemma_message_keeps(history: HistoryView, message: Message, text: Seq<char>)
    requires
        !is_blank(text),
        is_kept(history, text),
    ensures
        is_kept(history.after_message(message), text),
{
    lemma_flush_says(history.chat, text);
    lemma_open_keeps(history.chat, message.request_id@, text);
    let ready = history.chat.open_for(message.request_id@);
    match message.message {
        Some(MessageBody::UserQuery { query, .. }) => {
            lemma_said_grows(
                history.chat.flushed().messages,
                said_by("user"@, query@),
                text,
            );
        },
        Some(MessageBody::AgentOutput { text: more }) => {
            lemma_content_grows(ready.pending.content, more@, text);
        },
        Some(MessageBody::ToolCallResult(result)) => {
            lemma_result_keeps(history, read_result(result), text);
        },
        _ => {},
    }
}

proof fn lemma_messages_keep(history: HistoryView, messages: Seq<Message>, text: Seq<char>)
    requires
        !is_blank(text),
        is_kept(history, text),
    ensures
        is_kept(history.after_messages(messages), text),
    decreases messages.len(),
{
    if messages.len() > 0 {
        lemma_messages_keep(history, messages.drop_last(), text);
        lemma_message_keeps(
            history.after_messages(messages.drop_last()),
            messages.last(),
            text,
        );
    }
}

proof fn lemma_messages_say(history: HistoryView, messages: Seq<Message>, at: int, text: String)
    requires
        0 <= at < messages.len(),
        messages[at].message == Some(MessageBody::AgentOutput { text }),
        !is_blank(text@),
    ensures
        is_kept(history.after_messages(messages), text@),
    decreases messages.len(),
{
    let before = history.after_messages(messages.drop_last());
    if at == messages.len() - 1 {
        let ready = before.chat.open_for(messages.last().request_id@);
        lemma_content_grows(ready.pending.content, text@, text@);
    } else {
        lemma_messages_say(history, messages.drop_last(), at, text);
        lemma_message_keeps(before, messages.last(), text@);
    }
}

proof fn lemma_tasks_say(history: HistoryView, tasks: Seq<Task>, task: int, at: int, text: String)
    requires
        0 <= task < tasks.len(),
        0 <= at < tasks[task].messages@.len(),
        tasks[task].messages@[at].message == Some(MessageBody::AgentOutput { text }),
        !is_blank(text@),
    ensures
        is_kept(history.after_tasks(tasks), text@),
    decreases tasks.len(),
{
    let before = history.after_tasks(tasks.drop_last());
    if task == tasks.len() - 1 {
        lemma_messages_say(before, tasks.last().messages@, at, text);
    } else {
        lemma_tasks_say(history, tasks.drop_last(), task, at, text);
        lemma_messages_keep(before, tasks.last().messages@, text@);
    }
}

proof fn lemma_results_keep(history: HistoryView, results: Seq<ToolResultView>, text: Seq<char>)
    requires
        !is_blank(text),
        is_said(history.chat.messages, text),
    ensures
        is_said(history.after_results(results).chat.messages, text),
    decreases results.len(),
{
    if results.len() > 0 {
        lemma_results_keep(history, results.drop_last(), text);
        let before = history.after_results(results.drop_last());
        lemma_flush_says(before.chat, text);
        lemma_said_grows(
            before.chat.flushed().messages,
            result_json(results.last()),
            text,
        );
    }
}

/// Whatever the agent said in the conversation so far, the model is told that it said so: each
/// output that is not blank stands in the content of one of the model's own messages.
pub proof fn law_the_model_hears_what_it_said(
    request: Request,
    model: ModelView,
    task: int,
    at: int,
    text: String,
)
    requires
        0 <= task < tasks_of(request).len(),
        0 <= at < tasks_of(request)[task].messages@.len(),
        tasks_of(request)[task].messages@[at].message == Some(MessageBody::AgentOutput { text }),
        !is_blank(text@),
    ensures
        is_said(request_messages(request, model), text@),
{
    let told = history_start(model).after_tasks(tasks_of(request));
    lemma_tasks_say(history_start(model), tasks_of(request), task, at, text);
    lemma_flush_says(told.chat, text@);
    let ready = HistoryView { chat: told.chat.flushed(), ..told };
    lemma_results_keep(ready, current_results(request), text@);
    if let Some(word) = crate::chat::history::last_word(request, model) {
        lemma_said_grows(
            history_of(request, model).chat.messages,
            said_by("user"@, word),
            text@,
        );
    }
}

/// What the model said, one part after the other, on the request with that id.
pub open spec fn is_spoken(messages: Seq<Message>, id: Seq<char>, parts: Seq<Seq<char>>) -> bool {
    &&& messages.len() == parts.len()
    &&& forall|i: int|
        0 <= i < parts.len() ==> {
            &&& (#[trigger] messages[i]).request_id@ == id
            &&& messages[i].message matches Some(MessageBody::AgentOutput { text })
            &&& text@ == parts[i]
            &&& !is_blank(parts[i])
        }
}

proof fn lemma_parts_wait(
    history: HistoryView,
    messages: Seq<Message>,
    id: Seq<char>,
    parts: Seq<Seq<char>>,
)
    requires
        history.chat.pending.content.len() == 0,
        history.chat.pending.tool_calls.len() == 0,
        history.chat.pending.request_id is None,
        id.len() > 0,
        is_spoken(messages, id, parts),
    ensures
        ({
            let after = history.after_messages(messages);
            &&& after.chat.messages == history.chat.messages
            &&& after.chat.pending.content == parts
            &&& after.chat.pending.tool_calls.len() == 0
            &&& after.chat.pending.request_id == if parts.len() == 0 {
                None
            } else {
                Some(id)
            }
            &&& after.calls == history.calls
            &&& after.answered == history.answered
        }),
    decreases messages.len(),
{
    if messages.len() > 0 {
        lemma_parts_wait(history, messages.drop_last(), id, parts.drop_last());
        assert(messages.last() == messages[messages.len() - 1]);
        assert(parts =~= parts.drop_last().push(parts.last()));
    } else {
        assert(history.chat.pending.content =~= parts);
    }
}

/// What the agent said on one request, in however many parts, is one message of the model: the
/// parts stand in it in their order, with a blank line between each two.
pub proof fn law_parts_of_a_turn_are_one_message(
    history: HistoryView,
    messages: Seq<Message>,
    id: Seq<char>,
    parts: Seq<Seq<char>>,
    next: Message,
    query: Seq<char>,
)
    requires
        history.chat.pending.content.len() == 0,
        history.chat.pending.tool_calls.len() == 0,
        history.chat.pending.request_id is None,
        id.len() > 0,
        parts.len() > 0,
        is_spoken(messages, id, parts),
        next.message matches Some(MessageBody::UserQuery { query: asked, .. }) && asked@ == query,
        !is_blank(query),
    ensures
        ({
            let after = history.after_messages(messages).after_message(next).chat.messages;
            let n = history.chat.messages.len() as int;
            &&& after.len() == n + 2
            &&& after.take(n) == history.chat.messages
            &&& is_from(after[n], "assistant"@)
            &&& reads(after[n], joined(parts, "\n\n"@))
            &&& is_from(after[n + 1], "user"@)
            &&& reads(after[n + 1], query)
        }),
{
    lemma_parts_wait(history, messages, id, parts);
    let content = joined(parts, "\n\n"@);
    let (before, after) = law_joined_texts_are_held(parts, 0, "\n\n"@);
    assert(messages[0].request_id@ == id);
    law_longer_texts_are_not_blank(before, parts[0], after);
    law_messages_say_who_speaks("assistant"@, content);
    law_messages_say_who_speaks("user"@, query);
    let all = history.after_messages(messages).after_message(next).chat.messages;
    assert(all.take(history.chat.messages.len() as int) =~= history.chat.messages);
}

/// What the agent said on two requests is two messages.
pub proof fn law_turns_are_apart(history: HistoryView, first: Message, second: Message, a: Seq<
    char,
>, b: Seq<char>)
    requires
        history.chat.pending.content.len() == 0,
        history.chat.pending.tool_calls.len() == 0,
        history.chat.pending.request_id is None,
        first.request_id@.len() > 0,
        first.request_id@ != second.request_id@,
        first.message matches Some(MessageBody::AgentOutput { text }) && text@ == a,
        second.message matches Some(MessageBody::AgentOutput { text }) && text@ == b,
        !is_blank(a),
        !is_blank(b),
    ensures
        ({
            let after = history.after_message(first).after_message(second);
            &&& after.chat.messages.len() == history.chat.messages.len() + 1
            &&& is_from(after.chat.messages.last(), "assistant"@)
            &&& reads(after.chat.messages.last(), a)
            &&& after.chat.pending.content == seq![b]
        }),
{
    law_messages_say_who_speaks("assistant"@, a);
    let waiting = history.after_message(first).chat.pending.content;
    assert(waiting =~= seq![a]);
    law_joined_texts_stand_in_order(waiting, seq![], "\n\n"@);
}

/// What the user asked is a message of the user, word for word, behind all that was said before.
pub proof fn law_questions_are_told(history: HistoryView, message: Message, query: Seq<char>)
    requires
        message.message matches Some(MessageBody::UserQuery { query: asked, .. }) && asked@
            == query,
        !is_blank(query),
    ensures
        ({
            let after = history.after_message(message).chat;
            &&& is_from(after.messages.last(), "user"@)
            &&& reads(after.messages.last(), query)
            &&& after.messages.len() > history.chat.messages.len()
            &&& history.chat.messages.is_prefix_of(after.messages)
            &&& after.pending.content.len() == 0
            &&& after.pending.tool_calls.len() == 0
        }),
{
    law_messages_say_who_speaks("user"@, query);
    let after = history.after_message(message).chat.messages;
    assert(history.chat.messages =~= after.take(history.chat.messages.len() as int));
}

/// A tool call waits in the turn that it was made in, behind the calls before it, and is known from
/// then on. Its result is told once it is known, and only then.
pub proof fn law_calls_and_results_are_told(
    history: HistoryView,
    message: Message,
    call: ToolCallView,
    answer: Message,
)
    requires
        message.message matches Some(MessageBody::ToolCall(made)) && local_call_of(made) == Some(
            call,
        ),
        history.chat.pending.request_id is None || (message.request_id@.len() > 0
            && history.chat.pending.request_id == Some(message.request_id@)),
        answer.message matches Some(MessageBody::ToolCallResult(result)) && result.tool_call_id@
            == call.id,
    ensures
        ({
            let after = history.after_message(message);
            let told = after.after_message(answer);
            &&& after.chat.messages == history.chat.messages
            &&& after.chat.pending.content == history.chat.pending.content
            &&& after.chat.pending.tool_calls == history.chat.pending.tool_calls.push(call)
            &&& after.calls.contains(call.id)
            &&& told.chat.messages.len() == history.chat.messages.len() + 2
            &&& told.chat.messages[history.chat.messages.len() as int] == turn_json(
                joined(history.chat.pending.content, "\n\n"@),
                history.chat.pending.tool_calls.push(call),
            )
            &&& is_from(told.chat.messages.last(), "tool"@)
            &&& shows(told.chat.messages.last(), "tool_call_id"@, JsonView::Text(call.id))
            &&& told.answered.contains(call.id)
        }),
        !history.calls.contains(call.id) ==> history.after_message(answer) == history,
{
    if let Some(MessageBody::ToolCallResult(result)) = answer.message {
        law_results_answer_their_call(read_result(result));
    }
}

/// What the user asks now is the last message that the model is sent, word for word.
pub proof fn law_the_prompt_comes_last(request: Request, model: ModelView)
    ensures
        prompt_of(request) matches Some(prompt) ==> (!is_blank(prompt) ==> {
            let messages = request_messages(request, model);
            &&& messages.len() > 0
            &&& is_from(messages.last(), "user"@)
            &&& reads(messages.last(), prompt)
        }),
{
    if let Some(prompt) = prompt_of(request) {
        law_messages_say_who_speaks("user"@, prompt);
    }
}

/// The result of a tool that the request brings is told to the model once its call is known and
/// still open, and is not told a second time.
pub proof fn law_new_results_are_told(history: HistoryView, result: ToolResultView)
    ensures
        history.calls.contains(result.tool_call_id) && !history.answered.contains(
            result.tool_call_id,
        ) ==> {
            let after = history.after_results(seq![result]);
            &&& is_from(after.chat.messages.last(), "tool"@)
            &&& reads(after.chat.messages.last(), result.content)
            &&& shows(
                after.chat.messages.last(),
                "tool_call_id"@,
                JsonView::Text(result.tool_call_id),
            )
            &&& after.after_results(seq![result]) == after
        },
        !history.calls.contains(result.tool_call_id) || history.answered.contains(
            result.tool_call_id,
        ) ==> history.after_results(seq![result]) == history,
{
    law_results_answer_their_call(result);
    reveal_with_fuel(HistoryView::after_results, 2);
    let one = seq![result];
    assert(one.drop_last() =~= seq![]);
    assert(one.last() == result);
}

} // verus!
