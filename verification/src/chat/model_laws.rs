//! What holds of what models are sent and of what they answer.

use vstd::prelude::*;

use crate::agent_state::{LocalToolCall, ToolCallView, ToolEventView, ToolResultView, TurnView};
use crate::chat::context::{normal_message, normal_messages};
use crate::chat::laws::{is_from, law_results_answer_their_call, reads};
use crate::chat::provider::{
    ChatMessageView, ReasoningEffort, RequestView, adapter_of, effort_of, endpoint, read_call,
    with_message,
};
use crate::chat::turns::{LoopView, StreamEvent, heard_all};
use crate::chat::{call_json, result_json, said_by, turn_json};
use crate::json::{JsonView, json_parsed, json_text, settled, shows};
use crate::text::laws::law_blank_texts;
use crate::text::{is_blank, is_white, joined, lowered, texts, trimmed};

verus! {

/// What a model streams is put together in the order in which it comes: text behind text, thoughts
/// behind thoughts and calls behind calls. None of them touches the others.
pub proof fn law_streams_are_put_together(
    events: Seq<StreamEvent>,
    text: String,
    call: LocalToolCall,
)
    ensures
        ({
            let before = heard_all(events);
            let text_heard = heard_all(events.push(StreamEvent::Chunk(text)));
            let thought_heard = heard_all(events.push(StreamEvent::ReasoningChunk(text)));
            let call_heard = heard_all(events.push(StreamEvent::ToolCall(call)));
            &&& text_heard == (TurnView { content: before.content + text@, ..before })
            &&& thought_heard == (TurnView { reasoning: before.reasoning + text@, ..before })
            &&& call_heard == (TurnView { tool_calls: before.tool_calls.push(call@), ..before })
            &&& heard_all(events.push(StreamEvent::Start)) == before
            &&& heard_all(events.push(StreamEvent::ThoughtSignatureChunk)) == before
        }),
        heard_all(seq![]).content.len() == 0,
        heard_all(seq![]).reasoning.len() == 0,
        heard_all(seq![]).tool_calls.len() == 0,
{
    assert(events.push(StreamEvent::Chunk(text)).drop_last() =~= events);
    assert(events.push(StreamEvent::ReasoningChunk(text)).drop_last() =~= events);
    assert(events.push(StreamEvent::ToolCall(call)).drop_last() =~= events);
    assert(events.push(StreamEvent::Start).drop_last() =~= events);
    assert(events.push(StreamEvent::ThoughtSignatureChunk).drop_last() =~= events);
}

/// What comes with the end of a stream only stands in for what was not streamed.
pub proof fn law_ends_fill_what_is_missing(
    events: Seq<StreamEvent>,
    said: Option<Vec<String>>,
    thought: Option<String>,
    calls: Option<Vec<LocalToolCall>>,
)
    ensures
        ({
            let before = heard_all(events);
            let end = StreamEvent::End { texts: said, reasoning: thought, tool_calls: calls };
            let after = heard_all(events.push(end));
            &&& !is_blank(before.content) ==> after.content == before.content
            &&& !is_blank(before.reasoning) ==> after.reasoning == before.reasoning
            &&& before.tool_calls.len() > 0 ==> after.tool_calls == before.tool_calls
            &&& said is None ==> after.content == before.content
            &&& thought is None ==> after.reasoning == before.reasoning
            &&& calls is None ==> after.tool_calls == before.tool_calls
            &&& said matches Some(said) ==> (is_blank(before.content) ==> after.content == joined(
                texts(said@),
                seq![],
            ))
            &&& thought matches Some(thought) ==> (is_blank(before.reasoning) ==> after.reasoning
                == thought@)
            &&& calls matches Some(calls) ==> (before.tool_calls.len() == 0
                ==> after.tool_calls.len() == calls@.len() && forall|i: int|
                0 <= i < calls@.len() ==> #[trigger] after.tool_calls[i] == calls@[i]@)
        }),
{
    let end = StreamEvent::End { texts: said, reasoning: thought, tool_calls: calls };
    assert(events.push(end).drop_last() =~= events);
}

/// A turn with tool calls goes on in the conversation, and its calls are what is run next, while
/// the model has used tools in fewer than eight turns. What it said and thought is kept.
pub proof fn law_turns_are_followed(agent: LoopView, turn: TurnView)
    ensures
        ({
            let after = agent.after_turn(turn);
            let goes_on = turn.tool_calls.len() > 0 && agent.rounds != 8;
            &&& goes_on ==> {
                &&& after.messages == agent.messages.push(turn_json(turn.content, turn.tool_calls))
                &&& after.waiting == turn.tool_calls
            }
            &&& !goes_on ==> after.messages == agent.messages && after.waiting.len() == 0
            &&& !is_blank(turn.content) ==> after.output == agent.output.push(turn.content)
            &&& is_blank(turn.content) ==> after.output == agent.output
            &&& !is_blank(turn.reasoning) ==> after.reasoning == agent.reasoning.push(
                turn.reasoning,
            )
            &&& is_blank(turn.reasoning) ==> after.reasoning == agent.reasoning
            &&& after.tool_events == agent.tool_events
            &&& after.rounds == agent.rounds
        }),
{
}

/// The result of the first open call is told to the model, and kept with its call. The turn is
/// over once all its calls were run.
pub proof fn law_results_are_followed(agent: LoopView, result: ToolResultView)
    requires
        agent.waiting.len() > 0,
    ensures
        ({
            let after = agent.after_result(result);
            &&& after.messages.len() == agent.messages.len() + 1
            &&& after.messages.drop_last() == agent.messages
            &&& is_from(after.messages.last(), "tool"@)
            &&& reads(after.messages.last(), result.content)
            &&& shows(after.messages.last(), "tool_call_id"@, JsonView::Text(result.tool_call_id))
            &&& after.tool_events == agent.tool_events.push(
                ToolEventView { tool_call: agent.waiting[0], result },
            )
            &&& after.waiting.len() == agent.waiting.len() - 1
            &&& forall|i: int|
                0 <= i < after.waiting.len() ==> #[trigger] after.waiting[i] == agent.waiting[i + 1]
            &&& after.rounds == agent.rounds + if after.waiting.len() == 0 {
                1int
            } else {
                0
            }
            &&& after.output == agent.output && after.reasoning == agent.reasoning
        }),
{
    law_results_answer_their_call(result);
    let after = agent.after_result(result);
    assert(after.messages.drop_last() =~= agent.messages);
}

/// The answer of a run holds all that the model said in its turns, in order and with blank lines
/// between, and says so if the model was stopped. The tools it used come with it.
pub proof fn law_answers_hold_what_was_said(agent: LoopView, turn: TurnView)
    requires
        !is_blank(turn.content),
    ensures
        ({
            let run = agent.run(turn);
            &&& run.tool_events == agent.tool_events
            &&& run.tool_calls.len() == 0
            &&& turn.tool_calls.len() == 0 ==> run.output == joined(
                agent.output.push(turn.content),
                "\n\n"@,
            )
            &&& turn.tool_calls.len() > 0 ==> run.output == joined(
                agent.output.push(turn.content).push(
                    "Stopped after 8 tool iterations without a final answer."@,
                ),
                "\n\n"@,
            )
            &&& !is_blank(turn.reasoning) ==> run.reasoning == joined(
                agent.reasoning.push(turn.reasoning),
                "\n\n"@,
            )
        }),
{
}

/// Messages are brought into form one by one, in their order.
pub proof fn law_messages_keep_their_order(first: Seq<JsonView>, second: Seq<JsonView>)
    ensures
        normal_messages(first + second) == normal_messages(first) + normal_messages(second),
    decreases second.len(),
{
    let all = first + second;
    if second.len() == 0 {
        assert(all =~= first);
        assert(normal_messages(first) + normal_messages(second) =~= normal_messages(first));
    } else {
        law_messages_keep_their_order(first, second.drop_last());
        assert(all.drop_last() =~= first + second.drop_last());
        assert(all.last() == second.last());
        assert(normal_messages(all) =~= normal_messages(first) + normal_messages(second));
    }
}

/// A message of the user, of the model or of a tool that is already in form stays as it is, and
/// anybody else's is left out.
pub proof fn law_messages_in_form_stay(
    content: Seq<char>,
    calls: Seq<ToolCallView>,
    result: ToolResultView,
    role: Seq<char>,
)
    requires
        !is_blank(content),
        calls.len() > 0,
        trimmed(result.tool_call_id) == result.tool_call_id,
        result.tool_call_id.len() > 0,
        !is_blank(result.content),
    ensures
        normal_message(said_by("user"@, content)) == Some(said_by("user"@, content)),
        normal_message(said_by("assistant"@, content)) == Some(said_by("assistant"@, content)),
        normal_message(turn_json(content, calls)) == Some(turn_json(content, calls)),
        normal_message(result_json(result)) == Some(result_json(result)),
        role != "user"@ && role != "assistant"@ && role != "tool"@ ==> normal_message(
            said_by(role, content),
        ) is None,
        normal_message(said_by("user"@, seq![])) is None,
        normal_message(said_by("assistant"@, seq![])) is None,
{
    broadcast use crate::json::lemma_with_get;

    reveal_strlit("user");
    reveal_strlit("assistant");
    reveal_strlit("tool");
    reveal_strlit("role");
    reveal_strlit("content");
    reveal_strlit("tool_calls");
    reveal_strlit("tool_call_id");
    reveal_strlit("name");
    assert("user"@ != "assistant"@ && "user"@ != "tool"@ && "assistant"@ != "tool"@) by {
        assert("user"@.len() == 4 && "assistant"@.len() == 9 && "tool"@.len() == 4);
        assert("user"@[0] != "tool"@[0]);
    }
    assert("role"@ != "content"@ && "role"@ != "tool_calls"@ && "content"@ != "tool_calls"@ && "role"@
        != "tool_call_id"@ && "role"@ != "name"@ && "content"@ != "tool_call_id"@ && "content"@
        != "name"@ && "tool_call_id"@ != "name"@ && "tool_calls"@ != "tool_call_id"@) by {
        assert("role"@.len() == 4 && "content"@.len() == 7 && "tool_calls"@.len() == 10
            && "tool_call_id"@.len() == 12 && "name"@.len() == 4);
        assert("role"@[0] != "name"@[0]);
    }
    law_blank_texts(seq![]);
}

/// A conversation is handed to the model in its order: what the system says apart, and the rest
/// message by message, each with its own words.
pub proof fn law_conversations_are_handed_on(
    before: RequestView,
    content: Seq<char>,
    result: ToolResultView,
)
    requires
        !is_blank(content),
        trimmed(result.tool_call_id) == result.tool_call_id,
        result.tool_call_id.len() > 0,
    ensures
        with_message(before, said_by("system"@, content)) == Ok::<RequestView, Seq<char>>(
            RequestView { system: before.system.push(content), ..before },
        ),
        with_message(before, said_by("user"@, content)) == Ok::<RequestView, Seq<char>>(
            RequestView { messages: before.messages.push(ChatMessageView::User(content)), ..before },
        ),
        with_message(before, said_by("assistant"@, content)) == Ok::<RequestView, Seq<char>>(
            RequestView {
                messages: before.messages.push(
                    ChatMessageView::Assistant { text: Some(content), tool_calls: seq![] },
                ),
                ..before
            },
        ),
        with_message(before, result_json(result)) == Ok::<RequestView, Seq<char>>(
            RequestView {
                messages: before.messages.push(
                    ChatMessageView::Tool {
                        tool_call_id: result.tool_call_id,
                        content: result.content,
                    },
                ),
                ..before
            },
        ),
{
    broadcast use crate::json::lemma_with_get;

    reveal_strlit("system");
    reveal_strlit("user");
    reveal_strlit("assistant");
    reveal_strlit("tool");
    reveal_strlit("role");
    reveal_strlit("content");
    reveal_strlit("tool_calls");
    reveal_strlit("tool_call_id");
    reveal_strlit("name");
    assert("user"@.len() == 4 && "assistant"@.len() == 9 && "tool"@.len() == 4 && "system"@.len()
        == 6);
    assert("user"@[0] != "tool"@[0]);
    assert("role"@.len() == 4 && "content"@.len() == 7 && "tool_calls"@.len() == 10
        && "tool_call_id"@.len() == 12 && "name"@.len() == 4);
    assert("role"@[0] != "name"@[0]);
    lemma_printable("system"@);
    lemma_printable("user"@);
    lemma_printable("assistant"@);
    lemma_printable("tool"@);
}

/// A text that white space neither begins nor ends is its own trimmed text.
proof fn lemma_printable(s: Seq<char>)
    requires
        s.len() > 0,
        !is_white(s[0]),
        !is_white(s.last()),
    ensures
        trimmed(s) == s,
{
}

/// A call that the model made reaches it again as the same call: with its id, its tool and its
/// arguments.
pub proof fn law_calls_come_back(index: nat, call: ToolCallView)
    requires
        trimmed(call.name) == call.name,
        call.name.len() > 0,
        !is_blank(json_text(settled(call.arguments))),
        json_parsed(json_text(settled(call.arguments))) == Ok::<JsonView, Seq<char>>(
            settled(call.arguments),
        ),
    ensures
        read_call(index, call_json(call)) == Ok::<ToolCallView, Seq<char>>(
            ToolCallView { arguments: settled(call.arguments), ..call },
        ),
{
    broadcast use crate::json::lemma_with_get;

    reveal_strlit("id");
    reveal_strlit("type");
    reveal_strlit("function");
    reveal_strlit("name");
    reveal_strlit("arguments");
    assert("id"@.len() == 2 && "type"@.len() == 4 && "function"@.len() == 8 && "name"@.len() == 4
        && "arguments"@.len() == 9);
}

/// A style names the way in which a model is spoken to, in whatever case it is written and with
/// white space around it. A style that is not known is spoken to like an OpenAI model.
pub proof fn law_styles_name_their_adapter(style: Seq<char>)
    ensures
        ({
            let name = lowered(trimmed(style));
            &&& name == "anthropic"@ ==> adapter_of(style) is Anthropic
            &&& name == "google"@ || name == "gemini"@ ==> adapter_of(style) is Gemini
            &&& name == "groq"@ ==> adapter_of(style) is Groq
            &&& name == "ollama"@ ==> adapter_of(style) is Ollama
            &&& name == "openai-resp"@ || name == "openai_resp"@ || name == "responses"@
                ==> adapter_of(style) is OpenAIResp
            &&& name == "xai"@ || name == "grok"@ ==> adapter_of(style) is Xai
            &&& name != "anthropic"@ && name != "google"@ && name != "gemini"@ && name != "groq"@
                && name != "ollama"@ && name != "openai-resp"@ && name != "openai_resp"@ && name
                != "responses"@ && name != "xai"@ && name != "grok"@ ==> adapter_of(style) is OpenAI
        }),
{
    reveal_strlit("anthropic");
    reveal_strlit("google");
    reveal_strlit("gemini");
    reveal_strlit("groq");
    reveal_strlit("ollama");
    reveal_strlit("openai-resp");
    reveal_strlit("openai_resp");
    reveal_strlit("responses");
    reveal_strlit("xai");
    reveal_strlit("grok");
    assert("anthropic"@[0] == 'a' && "google"@[1] == 'o' && "gemini"@[1] == 'e' && "groq"@[3] == 'q'
        && "ollama"@[1] == 'l' && "openai-resp"@[1] == 'p' && "openai_resp"@[1] == 'p'
        && "responses"@[0] == 'r' && "xai"@[0] == 'x' && "grok"@[3] == 'k');
    assert("groq"@[0] == 'g' && "groq"@[1] == 'r' && "grok"@[0] == 'g' && "grok"@[1] == 'r');
    assert("google"@[0] == 'g' && "gemini"@[0] == 'g' && "ollama"@[0] == 'o' && "openai-resp"@[0]
        == 'o' && "openai_resp"@[0] == 'o');
}

/// How much a model is to think is said by name. A budget goes before the name, and a model that
/// is not to think has neither.
pub proof fn law_thinking_is_named(thinking: Seq<char>, budget: u32)
    ensures
        ({
            let name = lowered(trimmed(thinking));
            &&& is_blank(thinking) ==> effort_of(thinking, None) is None && effort_of(
                thinking,
                Some(budget),
            ) is None
            &&& name == lowered("off"@) ==> effort_of(thinking, None) is None && effort_of(
                thinking,
                Some(budget),
            ) is None
            &&& !is_blank(thinking) && name != lowered("off"@) ==> {
                &&& effort_of(thinking, Some(budget)) == Some(ReasoningEffort::Budget(budget))
                &&& name == "low"@ ==> effort_of(thinking, None) == Some(ReasoningEffort::Low)
                &&& name == "medium"@ ==> effort_of(thinking, None) == Some(ReasoningEffort::Medium)
                &&& name == "high"@ ==> effort_of(thinking, None) == Some(ReasoningEffort::High)
                &&& name == "max"@ ==> effort_of(thinking, None) == Some(ReasoningEffort::Max)
                &&& name == "xhigh"@ || name == "extra-high"@ || name == "extra_high"@
                    ==> effort_of(thinking, None) == Some(ReasoningEffort::XHigh)
                &&& effort_of(thinking, None) is Some
            }
        }),
{
    reveal_strlit("low");
    reveal_strlit("medium");
    reveal_strlit("high");
    reveal_strlit("max");
    reveal_strlit("xhigh");
    reveal_strlit("extra-high");
    reveal_strlit("extra_high");
    assert("low"@[0] == 'l' && "medium"@[0] == 'm' && "medium"@[1] == 'e' && "high"@[0] == 'h'
        && "max"@[0] == 'm' && "max"@[1] == 'a' && "xhigh"@[0] == 'x' && "extra-high"@[0] == 'e'
        && "extra_high"@[0] == 'e');
}

/// Whether an address ends neither with a slash nor with the name of a service.
pub open spec fn is_base(url: Seq<char>) -> bool {
    &&& url.len() > 0
    &&& !is_white(url[0])
    &&& !is_white(url.last())
    &&& url.last() != '/'
    &&& !"/chat/completions"@.is_suffix_of(url)
    &&& !"/messages"@.is_suffix_of(url)
    &&& !"/responses"@.is_suffix_of(url)
    &&& !"/api/chat"@.is_suffix_of(url)
    &&& !"/embeddings"@.is_suffix_of(url)
}

/// It makes no difference whether the address of a model ends with a slash: what is asked is the
/// address with one slash behind it, and for a model of Anthropic with the version before that.
pub proof fn law_endpoints(url: Seq<char>, style: Seq<char>)
    requires
        is_base(url),
    ensures
        !(adapter_of(style) is Anthropic) ==> endpoint(url, style) == url + "/"@,
        adapter_of(style) is Anthropic && "/v1"@.is_suffix_of(url) ==> endpoint(url, style) == url
            + "/"@,
        adapter_of(style) is Anthropic && !"/v1"@.is_suffix_of(url) ==> endpoint(url, style) == url
            + "/v1/"@,
        endpoint(url.push('/'), style) == endpoint(url, style),
{
    lemma_printable(url);
    lemma_printable(url.push('/'));
    assert(url.push('/').drop_last() =~= url);
    reveal_with_fuel(crate::chat::provider::without_slashes, 2);
    reveal_strlit("/");
    reveal_strlit("/v1");
    reveal_strlit("/v1/");
    assert("/v1"@ + "/"@ =~= "/v1/"@);
    assert(url + "/v1"@ + "/"@ =~= url + ("/v1"@ + "/"@));
}

/// The name of a service behind the address of a model is left out.
pub proof fn law_services_are_left_out(url: Seq<char>, style: Seq<char>)
    requires
        is_base(url),
    ensures
        endpoint(url + "/chat/completions"@, style) == endpoint(url, style),
        endpoint(url + "/messages"@, style) == endpoint(url, style),
        endpoint(url + "/responses"@, style) == endpoint(url, style),
        endpoint(url + "/api/chat"@, style) == endpoint(url, style),
        endpoint(url + "/embeddings"@, style) == endpoint(url, style),
{
    let a = "/chat/completions"@;
    let b = "/messages"@;
    let c = "/responses"@;
    let d = "/api/chat"@;
    let e = "/embeddings"@;
    reveal_strlit("/chat/completions");
    reveal_strlit("/messages");
    reveal_strlit("/responses");
    reveal_strlit("/api/chat");
    reveal_strlit("/embeddings");
    assert(a.len() == 17 && b.len() == 9 && c.len() == 10 && d.len() == 9 && e.len() == 11);
    lemma_printable(url);
    lemma_service(url, a);
    lemma_service(url, b);
    lemma_service(url, c);
    lemma_service(url, d);
    lemma_service(url, e);
    assert(a[15] == 'n' && b[7] == 'e' && c[8] == 'e' && d[7] == 'a' && e[9] == 'g');
    assert(b[6] == 'g' && c[7] == 's');
    lemma_other_service(url, a, b);
    lemma_other_service(url, a, c);
    lemma_other_service(url, a, d);
    lemma_other_service(url, a, e);
    lemma_other_service(url, b, c);
    lemma_other_service(url, b, d);
    lemma_other_service(url, b, e);
    lemma_other_service(url, c, d);
    lemma_other_service(url, c, e);
    lemma_other_service(url, d, e);
}

proof fn lemma_service(url: Seq<char>, service: Seq<char>)
    requires
        is_base(url),
        service.len() > 0,
        !is_white(service.last()),
        service.last() != '/',
    ensures
        trimmed(url + service) == url + service,
        crate::chat::provider::without_slashes(url + service) == url + service,
        service.is_suffix_of(url + service),
        (url + service).take((url + service).len() - service.len()) == url,
{
    let whole = url + service;
    lemma_printable(whole);
    assert(whole.skip(whole.len() - service.len()) =~= service);
    assert(whole.take(whole.len() - service.len()) =~= url);
}

proof fn lemma_other_service(url: Seq<char>, one: Seq<char>, other: Seq<char>)
    requires
        one.len() > 3,
        other.len() > 3,
        one[one.len() - 2] != other[other.len() - 2] || one[one.len() - 3] != other[other.len()
            - 3],
    ensures
        !one.is_suffix_of(url + other),
{
    let whole = url + other;
    if one.is_suffix_of(whole) {
        assert(whole.subrange(whole.len() - one.len(), whole.len() as int) == one);
        assert(one[one.len() - 2] == whole[whole.len() - 2]);
        assert(one[one.len() - 3] == whole[whole.len() - 3]);
        assert(whole[whole.len() - 2] == other[other.len() - 2]);
        assert(whole[whole.len() - 3] == other[other.len() - 3]);
    }
}

} // verus!
