//! What a chat model is asked, whoever provides it.

use vstd::prelude::*;

use crate::agent_state::{LocalToolCall, ToolCallView, call_views};
use crate::chat::context::{openai_context_content_text, or_empty};
use crate::json::{Json, JsonView, jobject, json_parsed, lemma_list_view, list_view};
use crate::llm_config::{ModelView, ResolvedLocalLlm};
use crate::text::{
    decimal, ends_with, is_blank, join, joined, lowered, nonblank, push_decimal, same,
    same_ignoring_case, texts, to_lower, trim, trim_nonblank, trimmed,
};
use crate::tools::registry::{
    LocalTool, enabled_tools, local_agent_system_prompt, system_prompt, tool_description, tool_name,
    tool_parameters, tools_for,
};

verus! {

/// A way to speak to a provider.
#[derive(Debug, Clone, Copy, PartialEq, Eq, Structural)]
pub enum AdapterKind {
    Anthropic,
    Gemini,
    Groq,
    Ollama,
    OpenAIResp,
    Xai,
    OpenAI,
}

/// The way to speak that a style names.
pub open spec fn adapter_of(style: Seq<char>) -> AdapterKind {
    let style = lowered(trimmed(style));
    if style == "anthropic"@ {
        AdapterKind::Anthropic
    } else if style == "google"@ || style == "gemini"@ {
        AdapterKind::Gemini
    } else if style == "groq"@ {
        AdapterKind::Groq
    } else if style == "ollama"@ {
        AdapterKind::Ollama
    } else if style == "openai-resp"@ || style == "openai_resp"@ || style == "responses"@ {
        AdapterKind::OpenAIResp
    } else if style == "xai"@ || style == "grok"@ {
        AdapterKind::Xai
    } else {
        AdapterKind::OpenAI
    }
}

/// The way to speak to a model.
pub fn adapter_kind(model: &ResolvedLocalLlm) -> (kind: AdapterKind)
    ensures
        kind == adapter_of(model.api_style@),
{
    let lower = to_lower(trim(model.api_style.as_str()));
    let style = lower.as_str();
    if same(style, "anthropic") {
        AdapterKind::Anthropic
    } else if same(style, "google") || same(style, "gemini") {
        AdapterKind::Gemini
    } else if same(style, "groq") {
        AdapterKind::Groq
    } else if same(style, "ollama") {
        AdapterKind::Ollama
    } else if same(style, "openai-resp") || same(style, "openai_resp") || same(style, "responses") {
        AdapterKind::OpenAIResp
    } else if same(style, "xai") || same(style, "grok") {
        AdapterKind::Xai
    } else {
        AdapterKind::OpenAI
    }
}

/// Whether a model is to think.
pub open spec fn thinks(thinking: Seq<char>) -> bool {
    !is_blank(thinking) && lowered(trimmed(thinking)) != lowered("off"@)
}

pub fn thinking_enabled(thinking: &str) -> (yes: bool)
    ensures
        yes == thinks(thinking@),
{
    !trim(thinking).is_empty() && !same_ignoring_case(trim(thinking), "off")
}

/// Whether the user has chosen how much a model is to think.
pub fn thinking_explicitly_configured(thinking: &str) -> (yes: bool)
    ensures
        yes == (thinks(thinking@) && lowered(trimmed(thinking@)) != lowered("auto"@)),
{
    !trim(thinking).is_empty() && !same_ignoring_case(trim(thinking), "auto")
        && !same_ignoring_case(trim(thinking), "off")
}

/// How much a model is to think.
#[derive(Debug, Clone, Copy, PartialEq, Eq, Structural)]
pub enum ReasoningEffort {
    Budget(u32),
    Low,
    Medium,
    High,
    XHigh,
    Max,
}

/// How much a model is to think, where it is to think at all.
pub open spec fn effort_of(thinking: Seq<char>, budget: Option<u32>) -> Option<ReasoningEffort> {
    let level = lowered(trimmed(thinking));
    if !thinks(thinking) {
        None
    } else if budget is Some {
        Some(ReasoningEffort::Budget(budget->0))
    } else if level == "low"@ {
        Some(ReasoningEffort::Low)
    } else if level == "medium"@ {
        Some(ReasoningEffort::Medium)
    } else if level == "max"@ {
        Some(ReasoningEffort::Max)
    } else if level == "xhigh"@ || level == "extra-high"@ || level == "extra_high"@ {
        Some(ReasoningEffort::XHigh)
    } else {
        Some(ReasoningEffort::High)
    }
}

/// How much a model is to think, where it is to think at all.
pub fn reasoning_effort_for_model(model: &ResolvedLocalLlm) -> (effort: Option<ReasoningEffort>)
    ensures
        effort == effort_of(model.thinking@, model.thinking_budget),
{
    if !thinking_enabled(model.thinking.as_str()) {
        return None;
    }
    if let Some(budget) = model.thinking_budget {
        return Some(ReasoningEffort::Budget(budget));
    }
    let lower = to_lower(trim(model.thinking.as_str()));
    let level = lower.as_str();
    if same(level, "low") {
        Some(ReasoningEffort::Low)
    } else if same(level, "medium") {
        Some(ReasoningEffort::Medium)
    } else if same(level, "max") {
        Some(ReasoningEffort::Max)
    } else if same(level, "xhigh") || same(level, "extra-high") || same(level, "extra_high") {
        Some(ReasoningEffort::XHigh)
    } else {
        Some(ReasoningEffort::High)
    }
}

/// The text without slashes at its end.
pub open spec fn without_slashes(s: Seq<char>) -> Seq<char>
    decreases s.len(),
{
    if s.len() > 0 && s.last() == '/' {
        without_slashes(s.drop_last())
    } else {
        s
    }
}

/// The text without slashes at its end.
pub fn trim_end_slashes(s: &str) -> (out: &str)
    ensures
        out@ == without_slashes(s@),
{
    let mut end: usize = s.unicode_len();
    assert(s@.take(end as int) =~= s@);
    while end > 0 && s.get_char(end - 1) == '/'
        invariant
            end <= s@.len(),
            without_slashes(s@) == without_slashes(s@.take(end as int)),
        decreases end,
    {
        assert(s@.take(end as int).drop_last() =~= s@.take(end - 1));
        end -= 1;
    }
    let out = s.substring_char(0, end);
    assert(out@ =~= s@.take(end as int));
    out
}

/// The text without `suffix` at its end, if that is where it stands.
pub open spec fn without_suffix(s: Seq<char>, suffix: Seq<char>) -> Option<Seq<char>> {
    if suffix.is_suffix_of(s) {
        Some(s.take(s.len() - suffix.len()))
    } else {
        None
    }
}

fn strip_suffix<'a>(s: &'a str, suffix: &str) -> (rest: Option<&'a str>)
    ensures
        match rest {
            Some(rest) => without_suffix(s@, suffix@) == Some(rest@),
            None => without_suffix(s@, suffix@) is None,
        },
{
    if ends_with(s, suffix) {
        let rest = s.substring_char(0, s.unicode_len() - suffix.unicode_len());
        assert(rest@ =~= s@.take(s@.len() - suffix@.len()));
        Some(rest)
    } else {
        None
    }
}

/// An address without the last part that names a service.
pub open spec fn without_service(url: Seq<char>) -> Seq<char> {
    match without_suffix(url, "/chat/completions"@) {
        Some(rest) => rest,
        None => match without_suffix(url, "/messages"@) {
            Some(rest) => rest,
            None => match without_suffix(url, "/responses"@) {
                Some(rest) => rest,
                None => match without_suffix(url, "/api/chat"@) {
                    Some(rest) => rest,
                    None => match without_suffix(url, "/embeddings"@) {
                        Some(rest) => rest,
                        None => url,
                    },
                },
            },
        },
    }
}

fn strip_service(url: &str) -> (out: &str)
    ensures
        out@ == without_service(url@),
{
    if let Some(rest) = strip_suffix(url, "/chat/completions") {
        rest
    } else if let Some(rest) = strip_suffix(url, "/messages") {
        rest
    } else if let Some(rest) = strip_suffix(url, "/responses") {
        rest
    } else if let Some(rest) = strip_suffix(url, "/api/chat") {
        rest
    } else if let Some(rest) = strip_suffix(url, "/embeddings") {
        rest
    } else {
        url
    }
}

/// The address that a model is reached under.
pub open spec fn endpoint(base_url: Seq<char>, style: Seq<char>) -> Seq<char> {
    let url = without_service(without_slashes(trimmed(base_url)));
    if adapter_of(style) is Anthropic && !"/v1"@.is_suffix_of(url) {
        url + "/v1"@ + "/"@
    } else {
        url + "/"@
    }
}

/// The address that a model is reached under.
pub fn normalized_endpoint_url(model: &ResolvedLocalLlm) -> (out: String)
    ensures
        out@ == endpoint(model.base_url@, model.api_style@),
{
    let url = strip_service(trim_end_slashes(trim(model.base_url.as_str())));
    let mut out = url.to_owned();
    if adapter_kind(model) == AdapterKind::Anthropic && !ends_with(url, "/v1") {
        out.append("/v1");
    }
    out.append("/");
    out
}

/// The address of a model ends with a slash.
pub proof fn law_endpoints_end_with_a_slash(base_url: Seq<char>, style: Seq<char>)
    ensures
        "/"@.is_suffix_of(endpoint(base_url, style)),
{
    let url = endpoint(base_url, style);
    assert(url.skip(url.len() - "/"@.len()) =~= "/"@);
}

/// A message to a model.
#[derive(Debug)]
pub enum ChatMessage {
    User(String),
    Assistant { text: Option<String>, tool_calls: Vec<LocalToolCall> },
    Tool { tool_call_id: String, content: String },
}

/// The mathematical content of a [`ChatMessage`].
#[verifier::ext_equal]
pub ghost enum ChatMessageView {
    User(Seq<char>),
    Assistant { text: Option<Seq<char>>, tool_calls: Seq<ToolCallView> },
    Tool { tool_call_id: Seq<char>, content: Seq<char> },
}

impl View for ChatMessage {
    type V = ChatMessageView;

    open spec fn view(&self) -> ChatMessageView {
        match self {
            ChatMessage::User(text) => ChatMessageView::User(text@),
            ChatMessage::Assistant { text, tool_calls } => ChatMessageView::Assistant {
                text: crate::text::opt_text(*text),
                tool_calls: call_views(tool_calls@),
            },
            ChatMessage::Tool { tool_call_id, content } => ChatMessageView::Tool {
                tool_call_id: tool_call_id@,
                content: content@,
            },
        }
    }
}

/// The text of a message's content, empty where there is none.
pub open spec fn text_or_empty(message: JsonView) -> Seq<char> {
    or_empty(crate::chat::context::message_text(message))
}

fn message_content(message: &Json) -> (out: String)
    ensures
        out@ == text_or_empty(message@),
{
    match message.get("content") {
        Some(content) => match openai_context_content_text(content) {
            Some(text) => text,
            None => String::new(),
        },
        None => String::new(),
    }
}

/// The tool call that stands at place `index` of a message.
pub open spec fn read_call(index: nat, call: JsonView) -> Result<ToolCallView, Seq<char>> {
    match call.get("function"@) {
        None => Err("tool call did not contain function data"@),
        Some(function) => {
            let id = match call.get_text("id"@) {
                Some(id) => id,
                None => "local-tool-call-"@ + decimal(index),
            };
            let name = match function.get_text("name"@) {
                Some(name) => nonblank(name),
                None => None,
            };
            match name {
                None => Err("tool call function name is required"@),
                Some(name) => match function.get("arguments"@) {
                    None => Ok(ToolCallView { id, name, arguments: jobject() }),
                    Some(JsonView::Text(arguments)) => if is_blank(arguments) {
                        Ok(ToolCallView { id, name, arguments: JsonView::Text(arguments) })
                    } else {
                        match json_parsed(arguments) {
                            Ok(arguments) => Ok(ToolCallView { id, name, arguments }),
                            Err(why) => Err(
                                "tool call '"@ + name + "' arguments were not valid JSON: "@ + why,
                            ),
                        }
                    },
                    Some(arguments) => Ok(ToolCallView { id, name, arguments }),
                },
            }
        },
    }
}

/// The view of a tool call that was read, or not.
pub open spec fn call_outcome(out: Result<LocalToolCall, String>) -> Result<
    ToolCallView,
    Seq<char>,
> {
    match out {
        Ok(call) => Ok(call@),
        Err(why) => Err(why@),
    }
}

/// The tool call that stands at place `index` of a message.
pub fn genai_tool_call_from_openai(index: usize, call: &Json) -> (out: Result<LocalToolCall, String>)
    ensures
        call_outcome(out) == read_call(index as nat, call@),
{
    let function = match call.get("function") {
        Some(function) => function,
        None => {
            return Err("tool call did not contain function data".to_owned());
        },
    };
    let id = match call.get_text("id") {
        Some(id) => id.to_owned(),
        None => {
            let mut id = "local-tool-call-".to_owned();
            push_decimal(&mut id, index as u64);
            id
        },
    };
    let name = match function.get_text("name") {
        Some(name) => trim_nonblank(name),
        None => None,
    };
    let name = match name {
        Some(name) => name,
        None => {
            return Err("tool call function name is required".to_owned());
        },
    };
    let given = match function.get("arguments") {
        Some(given) => given,
        None => {
            return Ok(LocalToolCall { id, name, arguments: Json::object() });
        },
    };
    if let Some(text) = given.as_text() {
        if !trim(text).is_empty() {
            return match Json::parse(text) {
                Ok(arguments) => Ok(LocalToolCall { id, name, arguments }),
                Err(fault) => {
                    let mut why = "tool call '".to_owned();
                    why.append(name.as_str());
                    why.append("' arguments were not valid JSON: ");
                    why.append(fault.as_str());
                    Err(why)
                },
            };
        }
    }
    Ok(LocalToolCall { id, name, arguments: given.clone() })
}

/// The tool calls of a list, or why one of them cannot be read.
pub open spec fn read_calls(calls: Seq<JsonView>) -> Result<Seq<ToolCallView>, Seq<char>>
    decreases calls.len(),
{
    if calls.len() == 0 {
        Ok(seq![])
    } else {
        match read_calls(calls.drop_last()) {
            Err(why) => Err(why),
            Ok(before) => match read_call((calls.len() - 1) as nat, calls.last()) {
                Ok(call) => Ok(before.push(call)),
                Err(why) => Err(why),
            },
        }
    }
}

/// What the model said and called in a message, `None` where it did neither.
pub open spec fn read_assistant(message: JsonView) -> Result<Option<ChatMessageView>, Seq<char>> {
    let content = text_or_empty(message);
    let calls = match message.get("tool_calls"@) {
        Some(JsonView::List(calls)) => read_calls(calls),
        _ => Ok(seq![]),
    };
    match calls {
        Err(why) => Err(why),
        Ok(calls) => if is_blank(content) && calls.len() == 0 {
            Ok(None)
        } else {
            Ok(
                Some(
                    ChatMessageView::Assistant {
                        text: if is_blank(content) {
                            None
                        } else {
                            Some(content)
                        },
                        tool_calls: calls,
                    },
                ),
            )
        },
    }
}

proof fn lemma_read_calls_fail(calls: Seq<JsonView>, n: int)
    requires
        0 <= n <= calls.len(),
        read_calls(calls.take(n)) is Err,
    ensures
        read_calls(calls) == read_calls(calls.take(n)),
    decreases calls.len() - n,
{
    if n == calls.len() {
        assert(calls.take(n) =~= calls);
    } else {
        assert(calls.take(n + 1).drop_last() =~= calls.take(n));
        lemma_read_calls_fail(calls, n + 1);
    }
}

fn calls_from_list(items: &Vec<Json>) -> (out: Result<Vec<LocalToolCall>, String>)
    ensures
        match out {
            Ok(calls) => read_calls(list_view(items@)) == Ok::<Seq<ToolCallView>, Seq<char>>(
                call_views(calls@),
            ),
            Err(why) => read_calls(list_view(items@)) == Err::<Seq<ToolCallView>, Seq<char>>(why@),
        },
{
    let ghost views = list_view(items@);
    let mut calls: Vec<LocalToolCall> = Vec::new();
    let mut i: usize = 0;
    proof {
        lemma_list_view(items@);
        assert(views.take(0) =~= seq![]);
        assert(call_views(calls@) =~= seq![]);
    }
    while i < items.len()
        invariant
            i <= items.len(),
            views == list_view(items@),
            views.len() == items@.len(),
            forall|j: int| 0 <= j < items@.len() ==> (#[trigger] views[j]) == items@[j]@,
            read_calls(views.take(i as int)) == Ok::<Seq<ToolCallView>, Seq<char>>(
                call_views(calls@),
            ),
        decreases items.len() - i,
    {
        assert(views.take(i + 1).drop_last() =~= views.take(i as int));
        assert(views.take(i + 1).last() == items@[i as int]@);
        match genai_tool_call_from_openai(i, &items[i]) {
            Ok(call) => {
                let ghost before = call_views(calls@);
                calls.push(call);
                assert(call_views(calls@) =~= before.push(call@));
            },
            Err(why) => {
                proof {
                    lemma_read_calls_fail(views, i + 1);
                }
                return Err(why);
            },
        }
        i += 1;
    }
    assert(views.take(views.len() as int) =~= views);
    Ok(calls)
}

/// What the model said and called in a message.
pub fn assistant_message_from_openai_value(message: &Json) -> (out: Result<
    Option<ChatMessage>,
    String,
>)
    ensures
        match out {
            Ok(Some(out)) => read_assistant(message@) == Ok::<Option<ChatMessageView>, Seq<char>>(
                Some(out@),
            ),
            Ok(None) => read_assistant(message@) == Ok::<Option<ChatMessageView>, Seq<char>>(None),
            Err(why) => read_assistant(message@) == Err::<Option<ChatMessageView>, Seq<char>>(why@),
        },
{
    let content = message_content(message);
    let mut tool_calls: Vec<LocalToolCall> = Vec::new();
    assert(call_views(tool_calls@) =~= seq![]);
    if let Some(listed) = message.get("tool_calls") {
        if let Some(items) = listed.as_list() {
            match calls_from_list(items) {
                Ok(calls) => {
                    tool_calls = calls;
                },
                Err(why) => {
                    return Err(why);
                },
            }
        }
    }
    let silent = trim(content.as_str()).is_empty();
    if silent && tool_calls.len() == 0 {
        assert(call_views(tool_calls@).len() == 0);
        return Ok(None);
    }
    assert(call_views(tool_calls@).len() == tool_calls@.len());
    let text = if silent {
        None
    } else {
        Some(content)
    };
    Ok(Some(ChatMessage::Assistant { text, tool_calls }))
}

/// A conversation as a provider takes it, while it is put together.
#[verifier::ext_equal]
pub ghost struct RequestView {
    pub system: Seq<Seq<char>>,
    pub messages: Seq<ChatMessageView>,
}

/// The conversation with one more message.
pub open spec fn with_message(before: RequestView, message: JsonView) -> Result<
    RequestView,
    Seq<char>,
> {
    let role = match message.get_text("role"@) {
        Some(role) => trimmed(role),
        None => seq![],
    };
    let content = text_or_empty(message);
    if role == "system"@ {
        if is_blank(content) {
            Ok(before)
        } else {
            Ok(RequestView { system: before.system.push(content), ..before })
        }
    } else if role == "user"@ {
        Ok(
            RequestView {
                messages: before.messages.push(ChatMessageView::User(content)),
                ..before
            },
        )
    } else if role == "assistant"@ {
        match read_assistant(message) {
            Err(why) => Err(why),
            Ok(None) => Ok(before),
            Ok(Some(turn)) => Ok(
                RequestView { messages: before.messages.push(turn), ..before },
            ),
        }
    } else if role == "tool"@ {
        let id = match message.get_text("tool_call_id"@) {
            Some(id) => nonblank(id),
            None => None,
        };
        let tool_call_id = match id {
            Some(id) => id,
            None => "local-tool-call"@,
        };
        Ok(
            RequestView {
                messages: before.messages.push(ChatMessageView::Tool { tool_call_id, content }),
                ..before
            },
        )
    } else {
        Ok(before)
    }
}

pub open spec fn with_messages(messages: Seq<JsonView>) -> Result<RequestView, Seq<char>>
    decreases messages.len(),
{
    if messages.len() == 0 {
        Ok(RequestView { system: seq![], messages: seq![] })
    } else {
        match with_messages(messages.drop_last()) {
            Ok(before) => with_message(before, messages.last()),
            Err(why) => Err(why),
        }
    }
}

/// A tool as a provider takes it.
#[derive(Debug)]
pub struct ChatTool {
    pub name: String,
    pub description: String,
    pub parameters: Json,
}

/// What a provider is asked.
#[derive(Debug)]
pub struct ChatRequest {
    pub system: String,
    pub messages: Vec<ChatMessage>,
    pub tools: Vec<ChatTool>,
}

pub open spec fn message_views(messages: Seq<ChatMessage>) -> Seq<ChatMessageView> {
    messages.map_values(|message: ChatMessage| message@)
}

/// Whether `tool` is one of the agent's tools as a provider takes it.
pub open spec fn is_chat_tool(tool: ChatTool, kind: LocalTool) -> bool {
    &&& tool.name@ == tool_name(kind)
    &&& tool.description@ == tool_description(kind)
    &&& tool.parameters@ == tool_parameters(kind)
}

/// Whether `request` puts a conversation to a model.
pub open spec fn is_chat_request(
    request: ChatRequest,
    model: ModelView,
    messages: Seq<JsonView>,
) -> bool {
    &&& with_messages(messages) matches Ok(conversation)
    &&& request.system@ == if conversation.system.len() == 0 {
        system_prompt(model)
    } else {
        joined(conversation.system, "\n\n"@)
    }
    &&& message_views(request.messages@) == conversation.messages
    &&& request.tools@.len() == enabled_tools(model).len()
    &&& forall|i: int|
        0 <= i < request.tools@.len() ==> is_chat_tool(
            #[trigger] request.tools@[i],
            enabled_tools(model)[i],
        )
}

/// The tools of a model as a provider takes them.
pub fn genai_tools(model: &ResolvedLocalLlm) -> (tools: Vec<ChatTool>)
    ensures
        tools@.len() == enabled_tools(model@).len(),
        forall|i: int|
            0 <= i < tools@.len() ==> is_chat_tool(#[trigger] tools@[i], enabled_tools(model@)[i]),
{
    let kinds = tools_for(model);
    let mut tools: Vec<ChatTool> = Vec::new();
    let mut i: usize = 0;
    while i < kinds.len()
        invariant
            i <= kinds.len(),
            tools.len() == i,
            kinds@ == enabled_tools(model@),
            forall|j: int|
                0 <= j < i ==> is_chat_tool(#[trigger] tools@[j], enabled_tools(model@)[j]),
        decreases kinds.len() - i,
    {
        tools.push(
            ChatTool {
                name: kinds[i].name().to_owned(),
                description: kinds[i].description().to_owned(),
                parameters: kinds[i].parameters(),
            },
        );
        i += 1;
    }
    tools
}

proof fn lemma_with_messages_fail(messages: Seq<JsonView>, n: int)
    requires
        0 <= n <= messages.len(),
        with_messages(messages.take(n)) is Err,
    ensures
        with_messages(messages) == with_messages(messages.take(n)),
    decreases messages.len() - n,
{
    if n == messages.len() {
        assert(messages.take(n) =~= messages);
    } else {
        assert(messages.take(n + 1).drop_last() =~= messages.take(n));
        lemma_with_messages_fail(messages, n + 1);
    }
}

/// A conversation while it is put together.
struct Conversation {
    system: Vec<String>,
    messages: Vec<ChatMessage>,
}

impl View for Conversation {
    type V = RequestView;

    closed spec fn view(&self) -> RequestView {
        RequestView { system: texts(self.system@), messages: message_views(self.messages@) }
    }
}

impl Conversation {
    fn push_message(&mut self, message: ChatMessage)
        ensures
            final(self)@ == (RequestView {
                messages: old(self)@.messages.push(message@),
                ..old(self)@
            }),
    {
        let ghost before = message_views(self.messages@);
        self.messages.push(message);
        assert(message_views(self.messages@) =~= before.push(message@));
    }

    fn push_system(&mut self, text: String)
        ensures
            final(self)@ == (RequestView { system: old(self)@.system.push(text@), ..old(self)@ }),
    {
        let ghost before = texts(self.system@);
        self.system.push(text);
        assert(texts(self.system@) =~= before.push(text@));
    }

    fn add(&mut self, message: &Json) -> (out: Result<(), String>)
        ensures
            match out {
                Ok(_) => with_message(old(self)@, message@) == Ok::<RequestView, Seq<char>>(
                    final(self)@,
                ),
                Err(why) => with_message(old(self)@, message@) == Err::<RequestView, Seq<char>>(
                    why@,
                ),
            },
    {
        let role = match message.get_text("role") {
            Some(role) => trim(role),
            None => "",
        };
        proof {
            reveal_strlit("");
            assert(""@ =~= Seq::<char>::empty());
        }
        if same(role, "system") {
            let content = message_content(message);
            if !trim(content.as_str()).is_empty() {
                self.push_system(content);
            }
        } else if same(role, "user") {
            self.push_message(ChatMessage::User(message_content(message)));
        } else if same(role, "assistant") {
            match assistant_message_from_openai_value(message) {
                Ok(Some(turn)) => {
                    self.push_message(turn);
                },
                Ok(None) => {},
                Err(why) => {
                    return Err(why);
                },
            }
        } else if same(role, "tool") {
            let id = match message.get_text("tool_call_id") {
                Some(id) => trim_nonblank(id),
                None => None,
            };
            let tool_call_id = match id {
                Some(id) => id,
                None => "local-tool-call".to_owned(),
            };
            self.push_message(
                ChatMessage::Tool { tool_call_id, content: message_content(message) },
            );
        }
        Ok(())
    }
}

/// What a provider is asked to go on with a conversation.
pub fn chat_request_from_openai_messages(model: &ResolvedLocalLlm, messages: &Vec<Json>) -> (out:
    Result<ChatRequest, String>)
    ensures
        match out {
            Ok(request) => is_chat_request(request, model@, list_view(messages@)),
            Err(why) => with_messages(list_view(messages@)) == Err::<RequestView, Seq<char>>(why@),
        },
{
    let ghost views = list_view(messages@);
    let mut conversation = Conversation { system: Vec::new(), messages: Vec::new() };
    let mut i: usize = 0;
    proof {
        lemma_list_view(messages@);
        assert(views.take(0) =~= seq![]);
        assert(conversation@ =~= (RequestView { system: seq![], messages: seq![] }));
    }
    while i < messages.len()
        invariant
            i <= messages.len(),
            views == list_view(messages@),
            views.len() == messages@.len(),
            forall|j: int| 0 <= j < messages@.len() ==> (#[trigger] views[j]) == messages@[j]@,
            with_messages(views.take(i as int)) == Ok::<RequestView, Seq<char>>(conversation@),
        decreases messages.len() - i,
    {
        assert(views.take(i + 1).drop_last() =~= views.take(i as int));
        assert(views.take(i + 1).last() == messages@[i as int]@);
        if let Err(why) = conversation.add(&messages[i]) {
            proof {
                lemma_with_messages_fail(views, i + 1);
            }
            return Err(why);
        }
        i += 1;
    }
    assert(views.take(views.len() as int) =~= views);
    let system = if conversation.system.len() == 0 {
        assert(conversation@.system.len() == 0);
        local_agent_system_prompt(model)
    } else {
        assert(conversation@.system.len() > 0);
        join(&conversation.system, "\n\n")
    };
    Ok(ChatRequest { system, messages: conversation.messages, tools: genai_tools(model) })
}

} // verus!
