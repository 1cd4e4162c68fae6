//! The conversation so far, as the model is to see it.

use vstd::prelude::*;

use crate::agent_api::requests::{
    current_results, current_tool_results_for_request, extract_user_prompt, local_result_from_api,
    prompt_of, read_result, result_views, tasks_of,
};
use crate::agent_api::tools::{local_call_of, local_tool_call_from_api};
use crate::agent_api::{Message, MessageBody, Request, Task};
use crate::agent_state::{LocalAssistantTurn, LocalToolCall, ToolCallView, ToolResultView, call_views};
use crate::chat::{
    openai_assistant_message, openai_assistant_text_message, openai_system_message,
    openai_tool_result_message, openai_user_message, result_json, said_by, turn_json,
};
use crate::json::{Json, JsonView, list_view};
use crate::llm_config::{ModelView, ResolvedLocalLlm};
use crate::text::{is_blank, join, joined, opt_text, same, texts, trim};
use crate::tools::registry::system_prompt;

verus! {

/// What the model says in a turn, as far as it was read.
#[derive(Debug)]
pub struct PendingOpenAiAssistantTurn {
    pub request_id: Option<String>,
    pub content: Vec<String>,
    pub tool_calls: Vec<LocalToolCall>,
}

/// The mathematical content of a [`PendingOpenAiAssistantTurn`].
#[verifier::ext_equal]
pub ghost struct PendingView {
    pub request_id: Option<Seq<char>>,
    pub content: Seq<Seq<char>>,
    pub tool_calls: Seq<ToolCallView>,
}

impl View for PendingOpenAiAssistantTurn {
    type V = PendingView;

    open spec fn view(&self) -> PendingView {
        PendingView {
            request_id: opt_text(self.request_id),
            content: texts(self.content@),
            tool_calls: call_views(self.tool_calls@),
        }
    }
}

pub open spec fn nothing_pending() -> PendingView {
    PendingView { request_id: None, content: seq![], tool_calls: seq![] }
}

impl PendingView {
    pub open spec fn is_empty(self) -> bool {
        self.content.len() == 0 && self.tool_calls.len() == 0
    }

    /// Whether what is said on a request belongs to this turn.
    pub open spec fn accepts(self, request_id: Seq<char>) -> bool {
        match self.request_id {
            Some(pending) => request_id.len() > 0 && pending == request_id,
            None => true,
        }
    }

    /// The messages that this turn makes: none or one.
    pub open spec fn message(self) -> Option<JsonView> {
        let content = joined(self.content, "\n\n"@);
        if self.tool_calls.len() > 0 {
            Some(turn_json(content, self.tool_calls))
        } else if is_blank(content) {
            None
        } else {
            Some(said_by("assistant"@, content))
        }
    }

    pub open spec fn named(self, request_id: Seq<char>) -> PendingView {
        PendingView {
            request_id: if self.request_id is None && request_id.len() > 0 {
                Some(request_id)
            } else {
                self.request_id
            },
            ..self
        }
    }
}

/// A conversation while it is read: the messages that are complete, and the turn that is not.
#[verifier::ext_equal]
pub ghost struct ChatView {
    pub messages: Seq<JsonView>,
    pub pending: PendingView,
}

impl ChatView {
    /// The conversation with its turn complete.
    pub open spec fn flushed(self) -> ChatView {
        if self.pending.is_empty() {
            self
        } else {
            ChatView {
                messages: match self.pending.message() {
                    Some(message) => self.messages.push(message),
                    None => self.messages,
                },
                pending: nothing_pending(),
            }
        }
    }

    /// The conversation ready for what is said on a request.
    pub open spec fn open_for(self, request_id: Seq<char>) -> ChatView {
        let ready = if !self.pending.is_empty() && !self.pending.accepts(request_id) {
            self.flushed()
        } else {
            self
        };
        ChatView { pending: ready.pending.named(request_id), ..ready }
    }

    pub open spec fn with_content(self, request_id: Seq<char>, content: Seq<char>) -> ChatView {
        let ready = self.open_for(request_id);
        ChatView {
            pending: PendingView { content: ready.pending.content.push(content), ..ready.pending },
            ..ready
        }
    }

    pub open spec fn with_call(self, request_id: Seq<char>, call: ToolCallView) -> ChatView {
        let ready = self.open_for(request_id);
        ChatView {
            pending: PendingView {
                tool_calls: ready.pending.tool_calls.push(call),
                ..ready.pending
            },
            ..ready
        }
    }

    pub open spec fn with_message(self, message: JsonView) -> ChatView {
        ChatView { messages: self.messages.push(message), ..self }
    }
}

/// The view of a conversation that is held in two parts.
pub open spec fn chat_view(messages: Seq<Json>, pending: PendingOpenAiAssistantTurn) -> ChatView {
    ChatView { messages: list_view(messages), pending: pending@ }
}

proof fn lemma_push_message(messages: Seq<Json>, message: Json)
    ensures
        list_view(messages.push(message)) == list_view(messages).push(message@),
{
    assert(messages.push(message).drop_last() =~= messages);
}

impl PendingOpenAiAssistantTurn {
    pub fn new() -> (turn: Self)
        ensures
            turn@ == nothing_pending(),
    {
        let turn = PendingOpenAiAssistantTurn {
            request_id: None,
            content: Vec::new(),
            tool_calls: Vec::new(),
        };
        assert(turn@ =~= nothing_pending());
        turn
    }

    fn is_empty(&self) -> (yes: bool)
        ensures
            yes == self@.is_empty(),
    {
        self.content.len() == 0 && self.tool_calls.len() == 0
    }

    fn accepts_request_id(&self, request_id: &str) -> (yes: bool)
        ensures
            yes == self@.accepts(request_id@),
    {
        match &self.request_id {
            Some(pending) => !request_id.is_empty() && same(pending.as_str(), request_id),
            None => true,
        }
    }

    fn set_request_id_if_needed(&mut self, request_id: &str)
        ensures
            final(self)@ == old(self)@.named(request_id@),
    {
        if self.request_id.is_none() && !request_id.is_empty() {
            self.request_id = Some(request_id.to_owned());
        }
    }

    /// Completes the turn.
    pub fn flush(&mut self, messages: &mut Vec<Json>)
        ensures
            chat_view(final(messages)@, *final(self)) == chat_view(
                old(messages)@,
                *old(self),
            ).flushed(),
    {
        if self.is_empty() {
            return;
        }
        let ghost pending = self@;
        let content = join(&self.content, "\n\n");
        if self.tool_calls.len() == 0 {
            assert(pending.tool_calls.len() == 0);
            if !trim(content.as_str()).is_empty() {
                let message = openai_assistant_text_message(content.as_str());
                proof {
                    lemma_push_message(messages@, message);
                }
                messages.push(message);
            }
        } else {
            assert(pending.tool_calls.len() > 0);
            let mut tool_calls: Vec<LocalToolCall> = Vec::new();
            std::mem::swap(&mut tool_calls, &mut self.tool_calls);
            let message = openai_assistant_message(
                &LocalAssistantTurn { content, reasoning: String::new(), tool_calls },
            );
            proof {
                lemma_push_message(messages@, message);
            }
            messages.push(message);
        }
        self.request_id = None;
        self.content = Vec::new();
        assert(self@ =~= nothing_pending());
    }

    /// Adds what the model said on a request.
    pub fn push_content(&mut self, request_id: &str, content: &str, messages: &mut Vec<Json>)
        ensures
            chat_view(final(messages)@, *final(self)) == chat_view(
                old(messages)@,
                *old(self),
            ).with_content(request_id@, content@),
    {
        if !self.is_empty() && !self.accepts_request_id(request_id) {
            self.flush(messages);
        }
        self.set_request_id_if_needed(request_id);
        let ghost before = texts(self.content@);
        self.content.push(content.to_owned());
        assert(texts(self.content@) =~= before.push(content@));
    }

    /// Adds a tool call that the model made on a request.
    pub fn push_tool_call(&mut self, request_id: &str, call: LocalToolCall, messages: &mut Vec<Json>)
        ensures
            chat_view(final(messages)@, *final(self)) == chat_view(
                old(messages)@,
                *old(self),
            ).with_call(request_id@, call@),
    {
        if !self.is_empty() && !self.accepts_request_id(request_id) {
            self.flush(messages);
        }
        self.set_request_id_if_needed(request_id);
        let ghost before = call_views(self.tool_calls@);
        self.tool_calls.push(call);
        assert(call_views(self.tool_calls@) =~= before.push(call@));
    }
}

/// A conversation while it is read, with the tool calls that it holds and those that were answered.
#[verifier::ext_equal]
pub ghost struct HistoryView {
    pub chat: ChatView,
    pub calls: Set<Seq<char>>,
    pub answered: Set<Seq<char>>,
}

pub open spec fn history_start(model: ModelView) -> HistoryView {
    HistoryView {
        chat: ChatView {
            messages: seq![said_by("system"@, system_prompt(model))],
            pending: nothing_pending(),
        },
        calls: Set::empty(),
        answered: Set::empty(),
    }
}

impl HistoryView {
    pub open spec fn with_result(self, result: ToolResultView) -> HistoryView {
        HistoryView {
            chat: self.chat.flushed().with_message(result_json(result)),
            answered: self.answered.insert(result.tool_call_id),
            ..self
        }
    }

    /// The conversation after one more message was read.
    pub open spec fn after_message(self, message: Message) -> HistoryView {
        let id = message.request_id@;
        match message.message {
            Some(MessageBody::UserQuery { query, .. }) => HistoryView {
                chat: if is_blank(query@) {
                    self.chat.flushed()
                } else {
                    self.chat.flushed().with_message(said_by("user"@, query@))
                },
                ..self
            },
            Some(MessageBody::AgentOutput { text }) => if is_blank(text@) {
                self
            } else {
                HistoryView { chat: self.chat.with_content(id, text@), ..self }
            },
            Some(MessageBody::ToolCall(call)) => match local_call_of(call) {
                Some(call) => HistoryView {
                    chat: self.chat.with_call(id, call),
                    calls: self.calls.insert(call.id),
                    ..self
                },
                None => self,
            },
            Some(MessageBody::ToolCallResult(result)) => if self.calls.contains(
                result.tool_call_id@,
            ) {
                self.with_result(read_result(result))
            } else {
                self
            },
            _ => self,
        }
    }

    pub open spec fn after_messages(self, messages: Seq<Message>) -> HistoryView
        decreases messages.len(),
    {
        if messages.len() == 0 {
            self
        } else {
            self.after_messages(messages.drop_last()).after_message(messages.last())
        }
    }

    pub open spec fn after_tasks(self, tasks: Seq<Task>) -> HistoryView
        decreases tasks.len(),
    {
        if tasks.len() == 0 {
            self
        } else {
            self.after_tasks(tasks.drop_last()).after_messages(tasks.last().messages@)
        }
    }

    /// Whether a result answers a call of the conversation that has no answer yet.
    pub open spec fn awaits(self, result: ToolResultView) -> bool {
        self.calls.contains(result.tool_call_id) && !self.answered.contains(result.tool_call_id)
    }

    /// The conversation with the results that it awaits.
    pub open spec fn after_results(self, results: Seq<ToolResultView>) -> HistoryView
        decreases results.len(),
    {
        if results.len() == 0 {
            self
        } else {
            let before = self.after_results(results.drop_last());
            if before.awaits(results.last()) {
                before.with_result(results.last())
            } else {
                before
            }
        }
    }
}

/// The conversation of a request with the tool results that it brings.
pub open spec fn history_of(request: Request, model: ModelView) -> HistoryView {
    let told = history_start(model).after_tasks(tasks_of(request));
    HistoryView { chat: told.chat.flushed(), ..told }.after_results(current_results(request))
}

/// The conversation of a request without the tool results that it brings.
pub open spec fn told_history(request: Request, model: ModelView) -> HistoryView {
    let told = history_start(model).after_tasks(tasks_of(request));
    HistoryView { chat: told.chat.flushed(), ..told }
}

/// What the user says last: the prompt, or a word to go on where nothing else was added.
pub open spec fn last_word(request: Request, model: ModelView) -> Option<Seq<char>> {
    let asked = match prompt_of(request) {
        Some(prompt) => !is_blank(prompt),
        None => false,
    };
    if asked {
        prompt_of(request)
    } else if history_of(request, model) == told_history(request, model) {
        Some("Continue the current Warp agent conversation."@)
    } else {
        None
    }
}

/// The messages that a model is sent on a request.
pub open spec fn request_messages(request: Request, model: ModelView) -> Seq<JsonView> {
    let messages = history_of(request, model).chat.messages;
    match last_word(request, model) {
        Some(word) => messages.push(said_by("user"@, word)),
        None => messages,
    }
}

/// A conversation while it is read.
struct History {
    messages: Vec<Json>,
    pending: PendingOpenAiAssistantTurn,
    calls: Vec<String>,
    answered: Vec<String>,
}

impl View for History {
    type V = HistoryView;

    closed spec fn view(&self) -> HistoryView {
        HistoryView {
            chat: chat_view(self.messages@, self.pending),
            calls: texts(self.calls@).to_set(),
            answered: texts(self.answered@).to_set(),
        }
    }
}

fn is_among(ids: &Vec<String>, id: &str) -> (yes: bool)
    ensures
        yes == texts(ids@).to_set().contains(id@),
{
    let mut i: usize = 0;
    while i < ids.len()
        invariant
            i <= ids.len(),
            forall|j: int| 0 <= j < i ==> (#[trigger] texts(ids@)[j]) != id@,
        decreases ids.len() - i,
    {
        assert(texts(ids@)[i as int] == ids@[i as int]@);
        if same(ids[i].as_str(), id) {
            return true;
        }
        i += 1;
    }
    false
}

proof fn lemma_push_id(ids: Seq<String>, id: String)
    ensures
        texts(ids.push(id)).to_set() == texts(ids).to_set().insert(id@),
{
    assert(texts(ids.push(id)) =~= texts(ids).push(id@));
    let before = texts(ids);
    assert forall|x: Seq<char>| #[trigger] before.push(id@).contains(x) <==> (before.contains(x) || x
        == id@) by {
        if before.contains(x) {
            let i = choose|i: int| 0 <= i < before.len() && before[i] == x;
            assert(before.push(id@)[i] == x);
        }
        assert(before.push(id@)[before.len() as int] == id@);
        if before.push(id@).contains(x) && x != id@ {
            let i = choose|i: int| 0 <= i < before.push(id@).len() && before.push(id@)[i] == x;
            assert(before[i] == x);
        }
    }
    assert(before.push(id@).to_set() =~= before.to_set().insert(id@));
}

impl History {
    fn start(model: &ResolvedLocalLlm) -> (history: Self)
        ensures
            history@ == history_start(model@),
    {
        let mut messages: Vec<Json> = Vec::new();
        let message = openai_system_message(model);
        proof {
            lemma_push_message(messages@, message);
        }
        messages.push(message);
        let history = History {
            messages,
            pending: PendingOpenAiAssistantTurn::new(),
            calls: Vec::new(),
            answered: Vec::new(),
        };
        assert(texts(history.calls@) =~= seq![]);
        assert(history@ =~= history_start(model@));
        history
    }

    fn flush(&mut self)
        ensures
            final(self)@ == (HistoryView { chat: old(self)@.chat.flushed(), ..old(self)@ }),
    {
        self.pending.flush(&mut self.messages);
    }

    fn add(&mut self, message: Json)
        ensures
            final(self)@ == (HistoryView {
                chat: old(self)@.chat.with_message(message@),
                ..old(self)@
            }),
    {
        proof {
            lemma_push_message(self.messages@, message);
        }
        self.messages.push(message);
    }

    fn add_result(&mut self, result: &crate::agent_state::LocalToolResult)
        ensures
            final(self)@ == old(self)@.with_result(result@),
    {
        self.flush();
        self.add(openai_tool_result_message(result));
        let id = result.tool_call_id.clone();
        proof {
            lemma_push_id(self.answered@, id);
        }
        self.answered.push(id);
    }

    fn read_message(&mut self, message: &Message)
        ensures
            final(self)@ == old(self)@.after_message(*message),
    {
        match &message.message {
            Some(MessageBody::UserQuery { query, .. }) => {
                self.flush();
                if !trim(query.as_str()).is_empty() {
                    self.add(openai_user_message(query.as_str()));
                }
            },
            Some(MessageBody::AgentOutput { text }) => {
                if !trim(text.as_str()).is_empty() {
                    self.pending.push_content(
                        message.request_id.as_str(),
                        text.as_str(),
                        &mut self.messages,
                    );
                }
            },
            Some(MessageBody::ToolCall(call)) => {
                if let Some(call) = local_tool_call_from_api(call) {
                    let id = call.id.clone();
                    proof {
                        lemma_push_id(self.calls@, id);
                    }
                    self.calls.push(id);
                    self.pending.push_tool_call(
                        message.request_id.as_str(),
                        call,
                        &mut self.messages,
                    );
                }
            },
            Some(MessageBody::ToolCallResult(result)) => {
                if is_among(&self.calls, result.tool_call_id.as_str()) {
                    self.add_result(&local_result_from_api(result));
                }
            },
            _ => {},
        }
    }

    fn read_messages(&mut self, messages: &Vec<Message>)
        ensures
            final(self)@ == old(self)@.after_messages(messages@),
    {
        let mut i: usize = 0;
        assert(messages@.take(0) =~= seq![]);
        while i < messages.len()
            invariant
                i <= messages.len(),
                self@ == old(self)@.after_messages(messages@.take(i as int)),
            decreases messages.len() - i,
        {
            assert(messages@.take(i + 1).drop_last() =~= messages@.take(i as int));
            self.read_message(&messages[i]);
            i += 1;
        }
        assert(messages@.take(messages@.len() as int) =~= messages@);
    }

    fn read_tasks(&mut self, tasks: &Vec<Task>)
        ensures
            final(self)@ == old(self)@.after_tasks(tasks@),
    {
        let mut i: usize = 0;
        assert(tasks@.take(0) =~= seq![]);
        while i < tasks.len()
            invariant
                i <= tasks.len(),
                self@ == old(self)@.after_tasks(tasks@.take(i as int)),
            decreases tasks.len() - i,
        {
            assert(tasks@.take(i + 1).drop_last() =~= tasks@.take(i as int));
            self.read_messages(&tasks[i].messages);
            i += 1;
        }
        assert(tasks@.take(tasks@.len() as int) =~= tasks@);
    }

    /// Adds the results that are awaited, and says whether there was one.
    fn read_results(&mut self, results: &Vec<crate::agent_state::LocalToolResult>) -> (added: bool)
        ensures
            final(self)@ == old(self)@.after_results(result_views(results@)),
            added == (final(self)@ != old(self)@),
    {
        let ghost views = result_views(results@);
        let mut added = false;
        let mut i: usize = 0;
        assert(views.take(0) =~= seq![]);
        while i < results.len()
            invariant
                i <= results.len(),
                views == result_views(results@),
                self@ == old(self)@.after_results(views.take(i as int)),
                added ==> self@.answered != old(self)@.answered,
                old(self)@.answered.subset_of(self@.answered),
                !added ==> self@ == old(self)@,
            decreases results.len() - i,
        {
            assert(views.take(i + 1).drop_last() =~= views.take(i as int));
            assert(views.take(i + 1).last() == results@[i as int]@);
            let id = results[i].tool_call_id.as_str();
            if is_among(&self.calls, id) && !is_among(&self.answered, id) {
                self.add_result(&results[i]);
                assert(self@.answered.contains(id@));
                added = true;
            }
            i += 1;
        }
        assert(views.take(views.len() as int) =~= views);
        added
    }
}

/// The messages that a model is sent on a request.
pub fn openai_messages_for_request(request: &Request, model: &ResolvedLocalLlm) -> (messages: Vec<
    Json,
>)
    ensures
        list_view(messages@) == request_messages(*request, model@),
{
    let mut history = History::start(model);
    if let Some(tasks) = &request.tasks {
        history.read_tasks(tasks);
    } else {
        assert(history@ == history_start(model@).after_tasks(seq![]));
    }
    history.flush();
    let added = history.read_results(&current_tool_results_for_request(request));
    let mut asked = false;
    if let Some(prompt) = extract_user_prompt(request) {
        if !trim(prompt.as_str()).is_empty() {
            history.add(openai_user_message(prompt.as_str()));
            asked = true;
        }
    }
    if !asked && !added {
        history.add(openai_user_message("Continue the current Warp agent conversation."));
    }
    history.messages
}

/// Whether a message is a turn in which the model makes the call `id`.
pub open spec fn makes_call(
    message: JsonView,
    content: Seq<char>,
    calls: Seq<ToolCallView>,
    at: int,
    id: Seq<char>,
) -> bool {
    message == turn_json(content, calls) && 0 <= at < calls.len() && calls[at].id == id
}

/// Whether the model makes the call `id` in one of the messages.
pub open spec fn is_called(messages: Seq<JsonView>, id: Seq<char>) -> bool {
    exists|i: int, content: Seq<char>, calls: Seq<ToolCallView>, at: int|
        0 <= i < messages.len() && #[trigger] makes_call(messages[i], content, calls, at, id)
}

/// Whether every tool result comes behind the call that it answers.
pub open spec fn results_follow_calls(messages: Seq<JsonView>) -> bool {
    forall|i: int, result: ToolResultView|
        0 <= i < messages.len() && #[trigger] messages[i] == #[trigger] result_json(result) ==> is_called(
            messages.take(i),
            result.tool_call_id,
        )
}

spec fn is_pending(pending: PendingView, id: Seq<char>) -> bool {
    exists|at: int| 0 <= at < pending.tool_calls.len() && (#[trigger] pending.tool_calls[at]).id == id
}

spec fn sound(history: HistoryView) -> bool {
    let messages = history.chat.messages;
    &&& results_follow_calls(messages)
    &&& forall|id: Seq<char>| #[trigger]
        history.calls.contains(id) ==> is_called(messages, id) || is_pending(
            history.chat.pending,
            id,
        )
}

proof fn lemma_kinds_differ(
    role: Seq<char>,
    content: Seq<char>,
    calls: Seq<ToolCallView>,
    result: ToolResultView,
)
    ensures
        said_by(role, content) != result_json(result),
        turn_json(content, calls) != result_json(result),
{
    assert(said_by(role, content)->Object_0.len() == 2);
    assert(turn_json(content, calls)->Object_0.len() == 3);
    assert(result_json(result)->Object_0.len() == 4);
}

proof fn lemma_same_result(a: ToolResultView, b: ToolResultView)
    requires
        result_json(a) == result_json(b),
    ensures
        a.tool_call_id == b.tool_call_id,
{
    assert(result_json(a)->Object_0[1] == ("tool_call_id"@, jtext_of(a.tool_call_id)));
    assert(result_json(b)->Object_0[1] == ("tool_call_id"@, jtext_of(b.tool_call_id)));
}

spec fn jtext_of(text: Seq<char>) -> JsonView {
    JsonView::Text(text)
}

/// What was called stays called.
proof fn lemma_called_grows(messages: Seq<JsonView>, message: JsonView, id: Seq<char>)
    requires
        is_called(messages, id),
    ensures
        is_called(messages.push(message), id),
{
    let (i, content, calls, at) = choose|
        i: int,
        content: Seq<char>,
        calls: Seq<ToolCallView>,
        at: int,
    |
        0 <= i < messages.len() && #[trigger] makes_call(messages[i], content, calls, at, id);
    assert(makes_call(messages.push(message)[i], content, calls, at, id));
}

proof fn lemma_push_keeps(messages: Seq<JsonView>, message: JsonView)
    requires
        results_follow_calls(messages),
        forall|result: ToolResultView|
            message == #[trigger] result_json(result) ==> is_called(messages, result.tool_call_id),
    ensures
        results_follow_calls(messages.push(message)),
{
    let after = messages.push(message);
    assert forall|i: int, result: ToolResultView|
        0 <= i < after.len() && #[trigger] after[i] == #[trigger] result_json(result) implies is_called(
        after.take(i),
        result.tool_call_id,
    ) by {
        assert(after.take(i) =~= messages.take(i));
        if i < messages.len() {
            assert(messages[i] == result_json(result));
        } else {
            assert(messages.take(i) =~= messages);
        }
    }
}

/// A complete turn keeps the history sound, and leaves nothing pending.
proof fn lemma_flush_keeps(history: HistoryView)
    requires
        sound(history),
    ensures
        sound((HistoryView { chat: history.chat.flushed(), ..history })),
        forall|id: Seq<char>| #[trigger]
            history.calls.contains(id) ==> is_called(history.chat.flushed().messages, id),
{
    let chat = history.chat;
    let pending = chat.pending;
    if pending.is_empty() {
        assert forall|id: Seq<char>| #[trigger] history.calls.contains(id) implies is_called(
            chat.flushed().messages,
            id,
        ) by {
            assert(!is_pending(pending, id));
        }
    } else {
        let content = joined(pending.content, "\n\n"@);
        match pending.message() {
            Some(message) => {
                assert forall|result: ToolResultView|
                    message == #[trigger] result_json(result) implies is_called(
                    chat.messages,
                    result.tool_call_id,
                ) by {
                    lemma_kinds_differ("assistant"@, content, pending.tool_calls, result);
                }
                lemma_push_keeps(chat.messages, message);
            },
            None => {},
        }
        assert forall|id: Seq<char>| #[trigger] history.calls.contains(id) implies is_called(
            chat.flushed().messages,
            id,
        ) by {
            if is_pending(pending, id) {
                let at = choose|at: int|
                    0 <= at < pending.tool_calls.len() && (#[trigger] pending.tool_calls[at]).id
                        == id;
                let last = chat.messages.len() as int;
                assert(makes_call(
                    chat.flushed().messages[last],
                    content,
                    pending.tool_calls,
                    at,
                    id,
                ));
            } else if pending.message() is Some {
                lemma_called_grows(chat.messages, pending.message()->0, id);
            }
        }
    }
}

proof fn lemma_message_keeps(history: HistoryView, message: JsonView)
    requires
        sound(history),
        forall|result: ToolResultView|
            message == #[trigger] result_json(result) ==> is_called(
                history.chat.messages,
                result.tool_call_id,
            ),
    ensures
        sound((HistoryView { chat: history.chat.with_message(message), ..history })),
{
    lemma_push_keeps(history.chat.messages, message);
    assert forall|id: Seq<char>| #[trigger] history.calls.contains(id) implies is_called(
        history.chat.messages.push(message),
        id,
    ) || is_pending(history.chat.pending, id) by {
        if is_called(history.chat.messages, id) {
            lemma_called_grows(history.chat.messages, message, id);
        }
    }
}

proof fn lemma_result_keeps(history: HistoryView, result: ToolResultView)
    requires
        sound(history),
        history.calls.contains(result.tool_call_id),
    ensures
        sound(history.with_result(result)),
{
    lemma_flush_keeps(history);
    let flushed = HistoryView { chat: history.chat.flushed(), ..history };
    assert forall|other: ToolResultView|
        result_json(result) == #[trigger] result_json(other) implies is_called(
        flushed.chat.messages,
        other.tool_call_id,
    ) by {
        lemma_same_result(result, other);
    }
    lemma_message_keeps(flushed, result_json(result));
    let after = HistoryView { chat: flushed.chat.with_message(result_json(result)), ..flushed };
    let answered = history.with_result(result);
    assert(answered.chat == after.chat);
    assert forall|id: Seq<char>| #[trigger] answered.calls.contains(id) implies is_called(
        answered.chat.messages,
        id,
    ) || is_pending(answered.chat.pending, id) by {
        assert(after.calls.contains(id));
    }
}

proof fn lemma_open_keeps(history: HistoryView, request_id: Seq<char>)
    requires
        sound(history),
    ensures
        sound((HistoryView { chat: history.chat.open_for(request_id), ..history })),
{
    lemma_flush_keeps(history);
    let ready = history.chat.open_for(request_id);
    let flushed = !history.chat.pending.is_empty() && !history.chat.pending.accepts(request_id);
    assert forall|id: Seq<char>| #[trigger] history.calls.contains(id) implies is_called(
        ready.messages,
        id,
    ) || is_pending(ready.pending, id) by {
        if !flushed && is_pending(history.chat.pending, id) {
            let at = choose|at: int|
                0 <= at < history.chat.pending.tool_calls.len() && (
                #[trigger] history.chat.pending.tool_calls[at]).id == id;
            assert(ready.pending.tool_calls[at].id == id);
        }
    }
}

proof fn lemma_after_message_keeps(history: HistoryView, message: Message)
    requires
        sound(history),
    ensures
        sound(history.after_message(message)),
{
    let request_id = message.request_id@;
    match message.message {
        Some(MessageBody::UserQuery { query, .. }) => {
            lemma_flush_keeps(history);
            let flushed = HistoryView { chat: history.chat.flushed(), ..history };
            assert forall|result: ToolResultView|
                said_by("user"@, query@) == #[trigger] result_json(result) implies is_called(
                flushed.chat.messages,
                result.tool_call_id,
            ) by {
                lemma_kinds_differ("user"@, query@, seq![], result);
            }
            lemma_message_keeps(flushed, said_by("user"@, query@));
        },
        Some(MessageBody::AgentOutput { text }) => {
            lemma_open_keeps(history, request_id);
            let ready = history.chat.open_for(request_id);
            let after = history.after_message(message);
            if !is_blank(text@) {
                assert forall|id: Seq<char>| #[trigger] after.calls.contains(id) implies is_called(
                    after.chat.messages,
                    id,
                ) || is_pending(after.chat.pending, id) by {
                    assert((HistoryView { chat: ready, ..history }).calls.contains(id));
                    if is_pending(ready.pending, id) {
                        let at = choose|at: int|
                            0 <= at < ready.pending.tool_calls.len() && (
                            #[trigger] ready.pending.tool_calls[at]).id == id;
                        assert(after.chat.pending.tool_calls[at].id == id);
                    }
                }
            }
        },
        Some(MessageBody::ToolCall(call)) => {
            lemma_open_keeps(history, request_id);
            let ready = history.chat.open_for(request_id);
            let after = history.after_message(message);
            if let Some(made) = local_call_of(call) {
                assert forall|id: Seq<char>| #[trigger] after.calls.contains(id) implies is_called(
                    after.chat.messages,
                    id,
                ) || is_pending(after.chat.pending, id) by {
                    if id == made.id {
                        let last = ready.pending.tool_calls.len() as int;
                        assert(after.chat.pending.tool_calls[last].id == id);
                    } else {
                        assert((HistoryView { chat: ready, ..history }).calls.contains(id));
                        if is_pending(ready.pending, id) {
                            let at = choose|at: int|
                                0 <= at < ready.pending.tool_calls.len() && (
                                #[trigger] ready.pending.tool_calls[at]).id == id;
                            assert(after.chat.pending.tool_calls[at].id == id);
                        }
                    }
                }
            }
        },
        Some(MessageBody::ToolCallResult(result)) => {
            if history.calls.contains(result.tool_call_id@) {
                lemma_result_keeps(history, read_result(result));
            }
        },
        _ => {},
    }
}

proof fn lemma_after_messages_keeps(history: HistoryView, messages: Seq<Message>)
    requires
        sound(history),
    ensures
        sound(history.after_messages(messages)),
    decreases messages.len(),
{
    if messages.len() > 0 {
        lemma_after_messages_keeps(history, messages.drop_last());
        lemma_after_message_keeps(history.after_messages(messages.drop_last()), messages.last());
    }
}

proof fn lemma_after_tasks_keeps(history: HistoryView, tasks: Seq<Task>)
    requires
        sound(history),
    ensures
        sound(history.after_tasks(tasks)),
    decreases tasks.len(),
{
    if tasks.len() > 0 {
        lemma_after_tasks_keeps(history, tasks.drop_last());
        lemma_after_messages_keeps(
            history.after_tasks(tasks.drop_last()),
            tasks.last().messages@,
        );
    }
}

proof fn lemma_after_results_keeps(history: HistoryView, results: Seq<ToolResultView>)
    requires
        sound(history),
    ensures
        sound(history.after_results(results)),
    decreases results.len(),
{
    if results.len() > 0 {
        lemma_after_results_keeps(history, results.drop_last());
        let before = history.after_results(results.drop_last());
        if before.awaits(results.last()) {
            lemma_result_keeps(before, results.last());
        }
    }
}

/// Every tool result that a model is sent comes behind a turn in which the model made the call,
/// whatever the conversation holds.
pub proof fn law_tool_results_follow_their_calls(request: Request, model: ModelView)
    ensures
        results_follow_calls(request_messages(request, model)),
{
    let start = history_start(model);
    let system = said_by("system"@, system_prompt(model));
    assert forall|i: int, result: ToolResultView|
        0 <= i < start.chat.messages.len() && #[trigger] start.chat.messages[i] == #[trigger] result_json(
            result,
        ) implies is_called(start.chat.messages.take(i), result.tool_call_id) by {
        lemma_kinds_differ("system"@, system_prompt(model), seq![], result);
    }
    assert(sound(start));
    lemma_after_tasks_keeps(start, tasks_of(request));
    lemma_flush_keeps(start.after_tasks(tasks_of(request)));
    lemma_after_results_keeps(told_history(request, model), current_results(request));
    let history = history_of(request, model);
    if let Some(word) = last_word(request, model) {
        assert forall|result: ToolResultView|
            said_by("user"@, word) == #[trigger] result_json(result) implies is_called(
            history.chat.messages,
            result.tool_call_id,
        ) by {
            lemma_kinds_differ("user"@, word, seq![], result);
        }
        lemma_push_keeps(history.chat.messages, said_by("user"@, word));
    }
}

/// Messages are only ever added behind those that are there.
proof fn lemma_prefix_message(history: HistoryView, message: Message)
    ensures
        history.chat.messages.is_prefix_of(history.after_message(message).chat.messages),
{
}

proof fn lemma_prefix_messages(history: HistoryView, messages: Seq<Message>)
    ensures
        history.chat.messages.is_prefix_of(history.after_messages(messages).chat.messages),
    decreases messages.len(),
{
    if messages.len() > 0 {
        lemma_prefix_messages(history, messages.drop_last());
        lemma_prefix_message(history.after_messages(messages.drop_last()), messages.last());
        let a = history.chat.messages;
        let b = history.after_messages(messages.drop_last()).chat.messages;
        let c = history.after_messages(messages).chat.messages;
        assert(a =~= c.take(a.len() as int)) by {
            assert(b =~= c.take(b.len() as int));
            assert(a =~= b.take(a.len() as int));
        }
    }
}

proof fn lemma_prefix_tasks(history: HistoryView, tasks: Seq<Task>)
    ensures
        history.chat.messages.is_prefix_of(history.after_tasks(tasks).chat.messages),
    decreases tasks.len(),
{
    if tasks.len() > 0 {
        lemma_prefix_tasks(history, tasks.drop_last());
        lemma_prefix_messages(history.after_tasks(tasks.drop_last()), tasks.last().messages@);
        let a = history.chat.messages;
        let b = history.after_tasks(tasks.drop_last()).chat.messages;
        let c = history.after_tasks(tasks).chat.messages;
        assert(a =~= c.take(a.len() as int)) by {
            assert(b =~= c.take(b.len() as int));
            assert(a =~= b.take(a.len() as int));
        }
    }
}

proof fn lemma_prefix_results(history: HistoryView, results: Seq<ToolResultView>)
    requires
        history.chat.messages.len() > 0,
    ensures
        history.after_results(results).chat.messages.len() > 0,
        history.after_results(results).chat.messages[0] == history.chat.messages[0],
    decreases results.len(),
{
    if results.len() > 0 {
        lemma_prefix_results(history, results.drop_last());
    }
}

/// A model is told what it is to do before anything else.
pub proof fn law_conversations_open_with_the_system_prompt(request: Request, model: ModelView)
    ensures
        request_messages(request, model).len() > 0,
        request_messages(request, model)[0] == said_by("system"@, system_prompt(model)),
{
    let start = history_start(model);
    lemma_prefix_tasks(start, tasks_of(request));
    let told = start.after_tasks(tasks_of(request));
    assert(start.chat.messages[0] == told.chat.messages[0]);
    lemma_prefix_results(told_history(request, model), current_results(request));
}

} // verus!
