//! What a run tells while it goes on, and how that is sent.

use vstd::prelude::*;

use crate::json::{
    Json, JsonView, READABLE_DEPTH, is_line, is_plain, jobject, json_parsed, json_text, jtext,
    lemma_list_view, lemma_with_get, name_texts, named, reads_back, settled, settled_members,
    text_field, with_member, wrong_length, wrong_type,
};
use crate::text::{
    chars_of, find_at, first_from, is_blank, join, joined, lemma_first_from, line_texts, occurs_at,
    opt_text, same, split_lines, strip_prefix, texts, trim, trim_start, trimmed_start,
    without_prefix,
};

verus! {

/// What a run tells.
#[derive(Debug)]
pub enum WorkerRunEvent {
    State { state: String },
    ToolCall { id: String, name: String, arguments: Json },
    ToolResult { id: String, name: String, summary: String },
    ReasoningDelta { text: String },
    OutputDelta { text: String },
    Error { message: String },
    Finished { state: String },
}

/// The mathematical content of a [`WorkerRunEvent`].
#[verifier::ext_equal]
pub ghost enum RunEventView {
    State(Seq<char>),
    ToolCall { id: Seq<char>, name: Seq<char>, arguments: JsonView },
    ToolResult { id: Seq<char>, name: Seq<char>, summary: Seq<char> },
    ReasoningDelta(Seq<char>),
    OutputDelta(Seq<char>),
    Error(Seq<char>),
    Finished(Seq<char>),
}

impl View for WorkerRunEvent {
    type V = RunEventView;

    open spec fn view(&self) -> RunEventView {
        match self {
            WorkerRunEvent::State { state } => RunEventView::State(state@),
            WorkerRunEvent::ToolCall { id, name, arguments } => RunEventView::ToolCall {
                id: id@,
                name: name@,
                arguments: arguments@,
            },
            WorkerRunEvent::ToolResult { id, name, summary } => RunEventView::ToolResult {
                id: id@,
                name: name@,
                summary: summary@,
            },
            WorkerRunEvent::ReasoningDelta { text } => RunEventView::ReasoningDelta(text@),
            WorkerRunEvent::OutputDelta { text } => RunEventView::OutputDelta(text@),
            WorkerRunEvent::Error { message } => RunEventView::Error(message@),
            WorkerRunEvent::Finished { state } => RunEventView::Finished(state@),
        }
    }
}

impl Clone for WorkerRunEvent {
    fn clone(&self) -> (copy: Self)
        ensures
            copy@ == self@,
    {
        match self {
            WorkerRunEvent::State { state } => WorkerRunEvent::State { state: state.clone() },
            WorkerRunEvent::ToolCall { id, name, arguments } => WorkerRunEvent::ToolCall {
                id: id.clone(),
                name: name.clone(),
                arguments: arguments.clone(),
            },
            WorkerRunEvent::ToolResult { id, name, summary } => WorkerRunEvent::ToolResult {
                id: id.clone(),
                name: name.clone(),
                summary: summary.clone(),
            },
            WorkerRunEvent::ReasoningDelta { text } => WorkerRunEvent::ReasoningDelta {
                text: text.clone(),
            },
            WorkerRunEvent::OutputDelta { text } => WorkerRunEvent::OutputDelta {
                text: text.clone(),
            },
            WorkerRunEvent::Error { message } => WorkerRunEvent::Error { message: message.clone() },
            WorkerRunEvent::Finished { state } => WorkerRunEvent::Finished { state: state.clone() },
        }
    }
}

pub open spec fn event_views(events: Seq<WorkerRunEvent>) -> Seq<RunEventView> {
    events.map_values(|event: WorkerRunEvent| event@)
}

/// An event of a kind.
pub open spec fn kind_json(kind: Seq<char>) -> JsonView {
    jobject().with("type"@, jtext(kind))
}

/// An event as it is sent.
pub open spec fn event_json(event: RunEventView) -> JsonView {
    match event {
        RunEventView::State(state) => kind_json("state"@).with("state"@, jtext(state)),
        RunEventView::ToolCall { id, name, arguments } => kind_json("tool_call"@).with(
            "id"@,
            jtext(id),
        ).with("name"@, jtext(name)).with("arguments"@, arguments),
        RunEventView::ToolResult { id, name, summary } => kind_json("tool_result"@).with(
            "id"@,
            jtext(id),
        ).with("name"@, jtext(name)).with("summary"@, jtext(summary)),
        RunEventView::ReasoningDelta(text) => kind_json("reasoning_delta"@).with(
            "text"@,
            jtext(text),
        ),
        RunEventView::OutputDelta(text) => kind_json("output_delta"@).with("text"@, jtext(text)),
        RunEventView::Error(message) => kind_json("error"@).with("message"@, jtext(message)),
        RunEventView::Finished(state) => kind_json("finished"@).with("state"@, jtext(state)),
    }
}

fn of_kind(kind: &str) -> (out: Json)
    ensures
        out@ == kind_json(kind@),
{
    Json::object().with("type", Json::text(kind))
}

/// An event as it is sent.
pub fn event_to_json(event: &WorkerRunEvent) -> (out: Json)
    ensures
        out@ == event_json(event@),
{
    match event {
        WorkerRunEvent::State { state } => of_kind("state").with("state", Json::text(state.as_str())),
        WorkerRunEvent::ToolCall { id, name, arguments } => of_kind("tool_call").with(
            "id",
            Json::text(id.as_str()),
        ).with("name", Json::text(name.as_str())).with("arguments", arguments.clone()),
        WorkerRunEvent::ToolResult { id, name, summary } => of_kind("tool_result").with(
            "id",
            Json::text(id.as_str()),
        ).with("name", Json::text(name.as_str())).with("summary", Json::text(summary.as_str())),
        WorkerRunEvent::ReasoningDelta { text } => of_kind("reasoning_delta").with(
            "text",
            Json::text(text.as_str()),
        ),
        WorkerRunEvent::OutputDelta { text } => of_kind("output_delta").with(
            "text",
            Json::text(text.as_str()),
        ),
        WorkerRunEvent::Error { message } => of_kind("error").with(
            "message",
            Json::text(message.as_str()),
        ),
        WorkerRunEvent::Finished { state } => of_kind("finished").with(
            "state",
            Json::text(state.as_str()),
        ),
    }
}

/// The text that an event is sent as.
pub open spec fn event_line(event: RunEventView) -> Seq<char> {
    json_text(settled(event_json(event)))
}

/// An event as a server-sent event.
pub fn worker_event_sse_chunk(event: &WorkerRunEvent) -> (chunk: String)
    ensures
        chunk@ == "data: "@ + event_line(event@) + "\n\n"@,
        is_line(event_line(event@)),
        event_line(event@).len() > 0,
        event_line(event@)[0] == '{',
{
    let mut chunk = "data: ".to_owned();
    let line = event_to_json(event).print();
    chunk.append(line.as_str());
    chunk.append("\n\n");
    chunk
}

/// The names of what an event of a kind tells. Where `lenient`, a tool call tells no arguments.
pub open spec fn told_names(kind: Seq<char>, lenient: bool) -> Seq<Seq<char>> {
    if kind == "state"@ || kind == "finished"@ {
        seq!["state"@]
    } else if kind == "tool_call"@ {
        if lenient {
            seq!["id"@, "name"@]
        } else {
            seq!["id"@, "name"@, "arguments"@]
        }
    } else if kind == "tool_result"@ {
        seq!["id"@, "name"@, "summary"@]
    } else if kind == "reasoning_delta"@ || kind == "output_delta"@ {
        seq!["text"@]
    } else if kind == "error"@ {
        seq!["message"@]
    } else {
        seq![]
    }
}

fn names_told(kind: &str, lenient: bool) -> (names: Vec<&'static str>)
    ensures
        name_texts(names@) == told_names(kind@, lenient),
{
    let mut names: Vec<&'static str> = Vec::new();
    if same(kind, "state") || same(kind, "finished") {
        names.push("state");
    } else if same(kind, "tool_call") {
        names.push("id");
        names.push("name");
        if !lenient {
            names.push("arguments");
        }
    } else if same(kind, "tool_result") {
        names.push("id");
        names.push("name");
        names.push("summary");
    } else if same(kind, "reasoning_delta") || same(kind, "output_delta") {
        names.push("text");
    } else if same(kind, "error") {
        names.push("message");
    }
    assert(name_texts(names@) =~= told_names(kind@, lenient));
    names
}

/// The event of a kind that a value tells. Where `lenient`, a tool call may leave its arguments out.
pub open spec fn read_kind(kind: Seq<char>, value: JsonView, lenient: bool) -> Result<
    RunEventView,
    Seq<char>,
> {
    if kind == "state"@ {
        match text_field(value, "state"@) {
            Ok(state) => Ok(RunEventView::State(state)),
            Err(why) => Err(why),
        }
    } else if kind == "tool_call"@ {
        match (text_field(value, "id"@), text_field(value, "name"@)) {
            (Ok(id), Ok(name)) => match value.get("arguments"@) {
                Some(arguments) => Ok(RunEventView::ToolCall { id, name, arguments }),
                None => if lenient {
                    Ok(RunEventView::ToolCall { id, name, arguments: JsonView::Null })
                } else {
                    Err("missing field `arguments`"@)
                },
            },
            (Err(why), _) => Err(why),
            (_, Err(why)) => Err(why),
        }
    } else if kind == "tool_result"@ {
        match (
            text_field(value, "id"@),
            text_field(value, "name"@),
            text_field(value, "summary"@),
        ) {
            (Ok(id), Ok(name), Ok(summary)) => Ok(RunEventView::ToolResult { id, name, summary }),
            (Err(why), _, _) => Err(why),
            (_, Err(why), _) => Err(why),
            (_, _, Err(why)) => Err(why),
        }
    } else if kind == "reasoning_delta"@ {
        match text_field(value, "text"@) {
            Ok(text) => Ok(RunEventView::ReasoningDelta(text)),
            Err(why) => Err(why),
        }
    } else if kind == "output_delta"@ {
        match text_field(value, "text"@) {
            Ok(text) => Ok(RunEventView::OutputDelta(text)),
            Err(why) => Err(why),
        }
    } else if kind == "error"@ {
        match text_field(value, "message"@) {
            Ok(message) => Ok(RunEventView::Error(message)),
            Err(why) => Err(why),
        }
    } else if kind == "finished"@ {
        match text_field(value, "state"@) {
            Ok(state) => Ok(RunEventView::Finished(state)),
            Err(why) => Err(why),
        }
    } else {
        Err("unknown variant `"@ + kind + known_kinds())
    }
}

/// The end of the complaint about a kind that is not known.
pub open spec fn known_kinds() -> Seq<char> {
    "`, expected one of `state`, `tool_call`, `tool_result`, `reasoning_delta`, `output_delta`, `error`, `finished`"@
}

/// The event that a value tells: an object with a type, or a list of a type and what is told, in
/// its order.
pub open spec fn read_event(value: JsonView, lenient: bool) -> Result<RunEventView, Seq<char>> {
    match value {
        JsonView::Object(_) => match value.get("type"@) {
            None => Err("missing field `type`"@),
            Some(JsonView::Text(kind)) => read_kind(kind, value, lenient),
            Some(other) => Err(wrong_type(other, "variant identifier"@)),
        },
        JsonView::List(items) => if items.len() == 0 {
            Err("missing field `type`"@)
        } else {
            match items[0] {
                JsonView::Text(kind) => {
                    let names = told_names(kind, lenient);
                    if names.len() > 0 && items.len() - 1 != names.len() {
                        Err(wrong_length((items.len() - 1) as nat, names.len()))
                    } else {
                        read_kind(kind, named(items.skip(1), names), lenient)
                    }
                },
                other => Err(wrong_type(other, "variant identifier"@)),
            }
        },
        _ => Err(wrong_type(value, "internally tagged enum WorkerRunEvent"@)),
    }
}

/// The view of an event that was read, or not.
pub open spec fn event_outcome(out: Result<WorkerRunEvent, String>) -> Result<
    RunEventView,
    Seq<char>,
> {
    match out {
        Ok(event) => Ok(event@),
        Err(why) => Err(why@),
    }
}

fn event_of_kind(kind: &str, value: &Json, lenient: bool) -> (out: Result<WorkerRunEvent, String>)
    ensures
        event_outcome(out) == read_kind(kind@, value@, lenient),
{
    if same(kind, "state") {
        Ok(WorkerRunEvent::State { state: value.text_field("state")? })
    } else if same(kind, "tool_call") {
        let id = value.text_field("id")?;
        let name = value.text_field("name")?;
        match value.get("arguments") {
            Some(arguments) => Ok(
                WorkerRunEvent::ToolCall { id, name, arguments: arguments.clone() },
            ),
            None => if lenient {
                Ok(WorkerRunEvent::ToolCall { id, name, arguments: Json::Null })
            } else {
                Err("missing field `arguments`".to_owned())
            },
        }
    } else if same(kind, "tool_result") {
        let id = value.text_field("id")?;
        let name = value.text_field("name")?;
        let summary = value.text_field("summary")?;
        Ok(WorkerRunEvent::ToolResult { id, name, summary })
    } else if same(kind, "reasoning_delta") {
        Ok(WorkerRunEvent::ReasoningDelta { text: value.text_field("text")? })
    } else if same(kind, "output_delta") {
        Ok(WorkerRunEvent::OutputDelta { text: value.text_field("text")? })
    } else if same(kind, "error") {
        Ok(WorkerRunEvent::Error { message: value.text_field("message")? })
    } else if same(kind, "finished") {
        Ok(WorkerRunEvent::Finished { state: value.text_field("state")? })
    } else {
        let mut why = "unknown variant `".to_owned();
        why.append(kind);
        why.append(
            "`, expected one of `state`, `tool_call`, `tool_result`, `reasoning_delta`, `output_delta`, `error`, `finished`",
        );
        Err(why)
    }
}

/// The event that a value tells.
pub fn event_from_json(value: &Json, lenient: bool) -> (out: Result<WorkerRunEvent, String>)
    ensures
        event_outcome(out) == read_event(value@, lenient),
{
    match value {
        Json::Object(_) => match value.get("type") {
            None => Err("missing field `type`".to_owned()),
            Some(Json::Text(kind)) => event_of_kind(kind.as_str(), value, lenient),
            Some(other) => Err(other.wrong_type("variant identifier")),
        },
        Json::List(items) => {
            proof {
                lemma_list_view(items@);
            }
            if items.len() == 0 {
                return Err("missing field `type`".to_owned());
            }
            assert(value@->List_0[0] == items@[0]@);
            match &items[0] {
                Json::Text(kind) => {
                    let names = names_told(kind.as_str(), lenient);
                    assert(name_texts(names@).len() == names@.len());
                    if names.len() == 0 {
                        assert(told_names(kind@, lenient) =~= seq![]);
                        return event_of_kind(kind.as_str(), &Json::object(), lenient);
                    }
                    let told = Json::named(items, 1, &names)?;
                    event_of_kind(kind.as_str(), &told, lenient)
                },
                other => Err(other.wrong_type("variant identifier")),
            }
        },
        _ => Err(value.wrong_type("internally tagged enum WorkerRunEvent")),
    }
}

/// The complete frames at the start of a text; each ends with a blank line.
pub open spec fn frames(text: Seq<char>) -> Seq<Seq<char>>
    decreases text.len(),
{
    match first_from(text, "\n\n"@, 0) {
        Some(at) => if 0 <= at && at + 2 <= text.len() {
            seq![text.take(at)] + frames(text.skip(at + 2))
        } else {
            seq![]
        },
        None => seq![],
    }
}

/// What is left of a text behind its complete frames.
pub open spec fn behind_frames(text: Seq<char>) -> Seq<char>
    decreases text.len(),
{
    match first_from(text, "\n\n"@, 0) {
        Some(at) => if 0 <= at && at + 2 <= text.len() {
            behind_frames(text.skip(at + 2))
        } else {
            text
        },
        None => text,
    }
}

proof fn lemma_blank_line()
    ensures
        "\n\n"@.len() == 2,
{
    reveal_strlit("\n\n");
}

/// Text that arrives in pieces gives the same frames as text that arrives at once, wherever it is
/// cut.
pub proof fn law_frames_in_pieces(before: Seq<char>, after: Seq<char>)
    ensures
        frames(before + after) == frames(before) + frames(behind_frames(before) + after),
        behind_frames(before + after) == behind_frames(behind_frames(before) + after),
    decreases before.len(),
{
    let end = "\n\n"@;
    lemma_blank_line();
    lemma_first_from(before, end, 0);
    match first_from(before, end, 0) {
        Some(at) => {
            let whole = before + after;
            lemma_first_from(whole, end, 0);
            assert(whole.subrange(at, at + 2) =~= before.subrange(at, at + 2));
            assert(occurs_at(whole, end, at));
            let found = first_from(whole, end, 0)->0;
            if found < at {
                assert(whole.subrange(found, found + 2) =~= before.subrange(found, found + 2));
                assert(occurs_at(before, end, found));
            }
            assert(found == at);
            assert(whole.skip(at + 2) =~= before.skip(at + 2) + after);
            assert(whole.take(at) =~= before.take(at));
            law_frames_in_pieces(before.skip(at + 2), after);
            let rest = before.skip(at + 2);
            assert(frames(whole) =~= seq![before.take(at)] + (frames(rest) + frames(
                behind_frames(rest) + after,
            )));
            assert(frames(before) + frames(behind_frames(before) + after) =~= seq![before.take(at)]
                + (frames(rest) + frames(behind_frames(rest) + after)));
        },
        None => {
            assert(frames(before) + frames(before + after) =~= frames(before + after));
        },
    }
}

/// Text that arrives in pieces and is taken out by frames.
#[derive(Debug)]
pub struct FrameBuffer {
    text: String,
}

impl View for FrameBuffer {
    type V = Seq<char>;

    closed spec fn view(&self) -> Seq<char> {
        self.text@
    }
}

impl FrameBuffer {
    pub fn new() -> (buffer: Self)
        ensures
            buffer@.len() == 0,
    {
        FrameBuffer { text: String::new() }
    }

    /// Adds text that arrived.
    pub fn push(&mut self, text: &str)
        ensures
            final(self)@ == old(self)@ + text@,
    {
        self.text.append(text);
    }

    /// Takes the first complete frame out, if there is one.
    pub fn next_frame(&mut self) -> (frame: Option<String>)
        ensures
            match frame {
                Some(frame) => frames(old(self)@) == seq![frame@] + frames(final(self)@)
                    && behind_frames(old(self)@) == behind_frames(final(self)@),
                None => final(self)@ == old(self)@ && frames(old(self)@).len() == 0
                    && behind_frames(old(self)@) == old(self)@,
            },
    {
        proof {
            lemma_blank_line();
            lemma_first_from(self.text@, "\n\n"@, 0);
        }
        let chars = chars_of(self.text.as_str());
        let end = chars_of("\n\n");
        match find_at(&chars, &end, 0) {
            Some(at) => {
                assert(occurs_at(chars@, "\n\n"@, at as int));
                assert(at + 2 <= chars.len());
                let text = self.text.as_str();
                let frame = text.substring_char(0, at).to_owned();
                let rest = text.substring_char(at + 2, chars.len()).to_owned();
                assert(frame@ =~= self.text@.take(at as int));
                assert(rest@ =~= self.text@.skip(at + 2));
                self.text = rest;
                Some(frame)
            },
            None => None,
        }
    }

    /// Takes all complete frames out.
    pub fn take_frames(&mut self) -> (out: Vec<String>)
        ensures
            texts(out@) == frames(old(self)@),
            final(self)@ == behind_frames(old(self)@),
    {
        let ghost all = frames(self@);
        let ghost last = behind_frames(self@);
        let mut out: Vec<String> = Vec::new();
        assert(texts(out@) + frames(self@) =~= all);
        loop
            invariant_except_break
                texts(out@) + frames(self@) == all,
                behind_frames(self@) == last,
            ensures
                texts(out@) == all,
                self@ == last,
            decreases frames(self@).len(),
        {
            let ghost before = texts(out@);
            match self.next_frame() {
                Some(frame) => {
                    let ghost rest = frames(self@);
                    out.push(frame);
                    assert(texts(out@) =~= before.push(frame@));
                    assert(before.push(frame@) + rest =~= before + (seq![frame@] + rest));
                },
                None => {
                    assert(before + frames(self@) =~= before);
                    break;
                },
            }
        }
        out
    }
}

/// A line without carriage returns at its end.
pub open spec fn without_returns(s: Seq<char>) -> Seq<char>
    decreases s.len(),
{
    if s.len() > 0 && s.last() == '\r' {
        without_returns(s.drop_last())
    } else {
        s
    }
}

fn trim_returns(s: &str) -> (out: &str)
    ensures
        out@ == without_returns(s@),
{
    let mut end: usize = s.unicode_len();
    assert(s@.take(end as int) =~= s@);
    while end > 0 && s.get_char(end - 1) == '\r'
        invariant
            end <= s@.len(),
            without_returns(s@) == without_returns(s@.take(end as int)),
        decreases end,
    {
        assert(s@.take(end as int).drop_last() =~= s@.take(end - 1));
        end -= 1;
    }
    let out = s.substring_char(0, end);
    assert(out@ =~= s@.take(end as int));
    out
}

/// What the data lines among some lines say.
pub open spec fn data_lines(lines: Seq<Seq<char>>) -> Seq<Seq<char>>
    decreases lines.len(),
{
    if lines.len() == 0 {
        seq![]
    } else {
        match without_prefix(without_returns(lines.last()), "data:"@) {
            Some(data) => data_lines(lines.drop_last()).push(trimmed_start(data)),
            None => data_lines(lines.drop_last()),
        }
    }
}

/// The data of a frame.
pub open spec fn frame_data(frame: Seq<char>) -> Seq<char> {
    joined(data_lines(line_texts(frame)), "\n"@)
}

/// The data of a frame.
pub fn data_of_frame(frame: &str) -> (data: String)
    ensures
        data@ == frame_data(frame@),
{
    let lines = split_lines(frame);
    let ghost all = texts(lines@);
    let mut data: Vec<String> = Vec::new();
    let mut i: usize = 0;
    assert(all.take(0) =~= seq![]);
    assert(texts(data@) =~= seq![]);
    while i < lines.len()
        invariant
            i <= lines.len(),
            all == texts(lines@),
            texts(data@) == data_lines(all.take(i as int)),
        decreases lines.len() - i,
    {
        assert(all.take(i + 1).drop_last() =~= all.take(i as int));
        assert(all.take(i + 1).last() == lines@[i as int]@);
        if let Some(rest) = strip_prefix(trim_returns(lines[i].as_str()), "data:") {
            let ghost before = texts(data@);
            let line = trim_start(rest).to_owned();
            data.push(line);
            assert(texts(data@) =~= before.push(line@));
        }
        i += 1;
    }
    assert(all.take(all.len() as int) =~= all);
    join(&data, "\n")
}

/// The event that a frame tells, `None` where it has no data.
pub open spec fn read_frame(frame: Seq<char>, lenient: bool) -> Result<
    Option<RunEventView>,
    Seq<char>,
> {
    let data = frame_data(frame);
    let label = if lenient {
        "failed to parse worker event: "@
    } else {
        "failed to parse remote worker event: "@
    };
    if is_blank(data) {
        Ok(None)
    } else {
        match json_parsed(data) {
            Err(why) => Err(label + data + ": "@ + why),
            Ok(value) => match read_event(value, lenient) {
                Ok(event) => Ok(Some(event)),
                Err(why) => Err(label + data + ": "@ + why),
            },
        }
    }
}

/// The view of a frame that was read, or not.
pub open spec fn frame_outcome(out: Result<Option<WorkerRunEvent>, String>) -> Result<
    Option<RunEventView>,
    Seq<char>,
> {
    match out {
        Ok(Some(event)) => Ok(Some(event@)),
        Ok(None) => Ok(None),
        Err(why) => Err(why@),
    }
}

fn frame_error(data: &str, why: &str, lenient: bool) -> (out: String)
    ensures
        out@ == (if lenient {
            "failed to parse worker event: "@
        } else {
            "failed to parse remote worker event: "@
        }) + data@ + ": "@ + why@,
{
    let mut out = if lenient {
        "failed to parse worker event: ".to_owned()
    } else {
        "failed to parse remote worker event: ".to_owned()
    };
    out.append(data);
    out.append(": ");
    out.append(why);
    out
}

/// Whether an event that is sent is heard as it was: every name occurs once in the arguments of a
/// tool call, and they are plain.
pub open spec fn is_telling(event: RunEventView) -> bool {
    event matches RunEventView::ToolCall { arguments, .. } ==> settled(arguments) == arguments
        && is_plain(arguments, (READABLE_DEPTH - 1) as nat)
}

/// The event that a frame tells, `None` where it has no data. A frame that was made for an event
/// tells that event.
pub fn parse_worker_sse_frame(frame: &str, lenient: bool) -> (out: Result<
    Option<WorkerRunEvent>,
    String,
>)
    ensures
        frame_outcome(out) == read_frame(frame@, lenient),
        forall|event: RunEventView|
            is_telling(event) && is_line(#[trigger] event_line(event)) && event_line(event).len()
                > 0 && event_line(event)[0] == '{' && frame@ == "data: "@ + event_line(event)
                ==> frame_outcome(out) == Ok::<Option<RunEventView>, Seq<char>>(Some(event)),
{
    let data = data_of_frame(frame);
    if trim(data.as_str()).is_empty() {
        assert forall|event: RunEventView|
            is_telling(event) && is_line(#[trigger] event_line(event)) && event_line(event).len()
                > 0 && event_line(event)[0] == '{' && frame@ == "data: "@ + event_line(
                event,
            ) implies false by {
            lemma_sent_data(event_line(event));
        }
        return Ok(None);
    }
    match Json::parse(data.as_str()) {
        Err(why) => {
            assert forall|event: RunEventView|
                is_telling(event) && is_line(#[trigger] event_line(event)) && event_line(
                    event,
                ).len() > 0 && event_line(event)[0] == '{' && frame@ == "data: "@ + event_line(
                    event,
                ) implies false by {
                lemma_sent_data(event_line(event));
                lemma_event_reads_back(event);
            }
            Err(frame_error(data.as_str(), why.as_str(), lenient))
        },
        Ok(value) => {
            proof {
                assert forall|event: RunEventView|
                    is_telling(event) && is_line(#[trigger] event_line(event)) && event_line(
                        event,
                    ).len() > 0 && event_line(event)[0] == '{' && frame@ == "data: "@ + event_line(
                        event,
                    ) implies read_event(value@, lenient) == Ok::<RunEventView, Seq<char>>(
                    event,
                ) by {
                    lemma_sent_data(event_line(event));
                    lemma_event_reads_back(event);
                    law_events_are_understood(event, lenient);
                }
            }
            match event_from_json(&value, lenient) {
                Ok(event) => Ok(Some(event)),
                Err(why) => Err(frame_error(data.as_str(), why.as_str(), lenient)),
            }
        },
    }
}

/// The data of a frame that holds one line of data is that line.
proof fn lemma_sent_data(line: Seq<char>)
    requires
        is_line(line),
        line.len() > 0,
        line[0] == '{',
    ensures
        frame_data("data: "@ + line) == line,
        !is_blank(line),
{
    reveal_strlit("data: ");
    reveal_strlit("data:");
    let frame = "data: "@ + line;
    assert forall|i: int| 0 <= i < frame.len() implies frame[i] >= ' ' by {
        if i >= 6 {
            assert(frame[i] == line[i - 6]);
        }
    }
    lemma_one_line(frame, 0);
    assert(frame.subrange(0, frame.len() as int) =~= frame);
    let lines = line_texts(frame);
    assert(crate::text::pieces(frame) =~= seq![frame]);
    assert(lines =~= seq![frame]);
    assert(without_returns(frame) == frame);
    assert("data:"@ =~= frame.take(5));
    let rest = frame.skip(5);
    assert(without_prefix(frame, "data:"@) == Some(rest));
    assert(rest[0] == ' ');
    assert(rest.skip(1) =~= line);
    assert(trimmed_start(rest) == line) by {
        reveal_with_fuel(trimmed_start, 2);
    }
    assert(lines.drop_last() =~= seq![]);
    assert(data_lines(lines) =~= seq![line]) by {
        reveal_with_fuel(data_lines, 2);
    }
    assert(joined(seq![line], "\n"@) == line);
    assert(!is_blank(line)) by {
        lemma_not_blank(line);
    }
}

proof fn lemma_not_blank(line: Seq<char>)
    requires
        line.len() > 0,
        line[0] == '{',
    ensures
        !is_blank(line),
{
    lemma_trimmed_end_keeps(line);
}

proof fn lemma_trimmed_end_keeps(line: Seq<char>)
    requires
        line.len() > 0,
        line[0] == '{',
    ensures
        crate::text::trimmed_end(line).len() > 0,
    decreases line.len(),
{
    if crate::text::is_white(line.last()) {
        assert(line.len() > 1);
        lemma_trimmed_end_keeps(line.drop_last());
    }
}

proof fn lemma_one_line(text: Seq<char>, from: int)
    requires
        forall|i: int| 0 <= i < text.len() ==> text[i] >= ' ',
        0 <= from < text.len(),
    ensures
        crate::text::line_end(text, from) == text.len(),
        crate::text::pieces_from(text, from) == seq![text.subrange(from, text.len() as int)],
    decreases text.len() - from,
{
    lemma_line_end_is_last(text, from);
    let end = crate::text::line_end(text, from);
    assert(crate::text::pieces_from(text, end) =~= seq![]);
    assert(crate::text::pieces_from(text, from) =~= seq![
        text.subrange(from, text.len() as int),
    ]);
}

proof fn lemma_line_end_is_last(text: Seq<char>, from: int)
    requires
        forall|i: int| 0 <= i < text.len() ==> text[i] >= ' ',
        0 <= from <= text.len(),
    ensures
        crate::text::line_end(text, from) == text.len(),
    decreases text.len() - from,
{
    if from < text.len() {
        assert(text[from] != '\n');
        lemma_line_end_is_last(text, from + 1);
    }
}

proof fn lemma_settle(value: JsonView, key: Seq<char>, member: JsonView)
    requires
        value is Object,
        settled(value) == value,
        value.get(key) is None,
        settled(member) == member,
    ensures
        settled(value.with(key, member)) == value.with(key, member),
{
    let members = value->Object_0;
    let after = members.push((key, member));
    assert(after.drop_last() =~= members);
    assert(settled_members(members) == members);
    assert(with_member(members, key, member) =~= after);
}

proof fn lemma_settle_text(value: JsonView, key: Seq<char>, text: Seq<char>)
    requires
        value is Object,
        settled(value) == value,
        value.get(key) is None,
    ensures
        settled(value.with(key, jtext(text))) == value.with(key, jtext(text)),
{
    lemma_settle(value, key, jtext(text));
}

/// An event is written as an object that is read back.
proof fn lemma_event_reads_back(event: RunEventView)
    requires
        is_telling(event),
    ensures
        reads_back(event_json(event)),
        settled(event_json(event)) == event_json(event),
{
    broadcast use lemma_with_get;

    reveal_strlit("type");
    reveal_strlit("state");
    reveal_strlit("id");
    reveal_strlit("name");
    reveal_strlit("summary");
    reveal_strlit("text");
    reveal_strlit("message");
    reveal_strlit("arguments");
    reveal_with_fuel(is_plain, 2);
    assert("type"@.len() == 4 && "state"@.len() == 5 && "id"@.len() == 2 && "name"@.len() == 4
        && "summary"@.len() == 7 && "text"@.len() == 4 && "message"@.len() == 7
        && "arguments"@.len() == 9);
    assert("type"@[1] != "name"@[1] && "type"@[1] != "text"@[1]);
    assert(settled_members(Seq::<(Seq<char>, JsonView)>::empty()) =~= Seq::empty());
    assert(settled(jobject()) == jobject());
    assert(forall|key: Seq<char>| #[trigger] jobject().get(key) is None);
    match event {
        RunEventView::State(state) => {
            lemma_settle_text(jobject(), "type"@, "state"@);
            lemma_settle_text(kind_json("state"@), "state"@, state);
        },
        RunEventView::ToolCall { id, name, arguments } => {
            let kind = kind_json("tool_call"@);
            lemma_settle_text(jobject(), "type"@, "tool_call"@);
            lemma_settle_text(kind, "id"@, id);
            let with_id = kind.with("id"@, jtext(id));
            lemma_settle_text(with_id, "name"@, name);
            let with_name = with_id.with("name"@, jtext(name));
            lemma_settle(with_name, "arguments"@, arguments);
        },
        RunEventView::ToolResult { id, name, summary } => {
            let kind = kind_json("tool_result"@);
            lemma_settle_text(jobject(), "type"@, "tool_result"@);
            lemma_settle_text(kind, "id"@, id);
            let with_id = kind.with("id"@, jtext(id));
            lemma_settle_text(with_id, "name"@, name);
            let with_name = with_id.with("name"@, jtext(name));
            lemma_settle_text(with_name, "summary"@, summary);
        },
        RunEventView::ReasoningDelta(text) => {
            lemma_settle_text(jobject(), "type"@, "reasoning_delta"@);
            lemma_settle_text(kind_json("reasoning_delta"@), "text"@, text);
        },
        RunEventView::OutputDelta(text) => {
            lemma_settle_text(jobject(), "type"@, "output_delta"@);
            lemma_settle_text(kind_json("output_delta"@), "text"@, text);
        },
        RunEventView::Error(message) => {
            lemma_settle_text(jobject(), "type"@, "error"@);
            lemma_settle_text(kind_json("error"@), "message"@, message);
        },
        RunEventView::Finished(state) => {
            lemma_settle_text(jobject(), "type"@, "finished"@);
            lemma_settle_text(kind_json("finished"@), "state"@, state);
        },
    }
}

/// What a run tells is understood by those who are told, tool calls with their arguments too.
pub proof fn law_events_are_understood(event: RunEventView, lenient: bool)
    ensures
        read_event(event_json(event), lenient) == Ok::<RunEventView, Seq<char>>(event),
{
    broadcast use lemma_with_get;

    reveal_strlit("type");
    reveal_strlit("state");
    reveal_strlit("id");
    reveal_strlit("name");
    reveal_strlit("summary");
    reveal_strlit("text");
    reveal_strlit("message");
    reveal_strlit("arguments");
    assert("type"@.len() == 4 && "state"@.len() == 5 && "id"@.len() == 2 && "name"@.len() == 4
        && "summary"@.len() == 7 && "text"@.len() == 4 && "message"@.len() == 7
        && "arguments"@.len() == 9);
    assert("type"@[1] != "name"@[1] && "type"@[1] != "text"@[1]);
    reveal_strlit("tool_call");
    reveal_strlit("tool_result");
    reveal_strlit("reasoning_delta");
    reveal_strlit("output_delta");
    reveal_strlit("error");
    reveal_strlit("finished");
    assert("tool_call"@.len() == 9 && "tool_result"@.len() == 11 && "reasoning_delta"@.len() == 15
        && "output_delta"@.len() == 12 && "error"@.len() == 5 && "finished"@.len() == 8);
    assert("state"@[0] != "error"@[0]);
    let value = event_json(event);
    match event {
        RunEventView::State(state) => {
            assert(value.get("type"@) == Some(jtext("state"@)));
            assert(value.get("state"@) == Some(jtext(state)));
        },
        RunEventView::ToolCall { id, name, arguments } => {
            assert(value.get("type"@) == Some(jtext("tool_call"@)));
            assert(value.get("id"@) == Some(jtext(id)));
            assert(value.get("name"@) == Some(jtext(name)));
            assert(value.get("arguments"@) == Some(arguments));
        },
        RunEventView::ToolResult { id, name, summary } => {
            assert(value.get("type"@) == Some(jtext("tool_result"@)));
            assert(value.get("id"@) == Some(jtext(id)));
            assert(value.get("name"@) == Some(jtext(name)));
            assert(value.get("summary"@) == Some(jtext(summary)));
        },
        RunEventView::ReasoningDelta(text) => {
            assert(value.get("type"@) == Some(jtext("reasoning_delta"@)));
            assert(value.get("text"@) == Some(jtext(text)));
        },
        RunEventView::OutputDelta(text) => {
            assert(value.get("type"@) == Some(jtext("output_delta"@)));
            assert(value.get("text"@) == Some(jtext(text)));
        },
        RunEventView::Error(message) => {
            assert(value.get("type"@) == Some(jtext("error"@)));
            assert(value.get("message"@) == Some(jtext(message)));
        },
        RunEventView::Finished(state) => {
            assert(value.get("type"@) == Some(jtext("finished"@)));
            assert(value.get("state"@) == Some(jtext(state)));
        },
    }
}

/// What frames tell, one after the other, up to the first that cannot be read, and why it cannot.
pub open spec fn heard(frames: Seq<Seq<char>>, lenient: bool) -> (Seq<RunEventView>, Option<Seq<char>>)
    decreases frames.len(),
{
    if frames.len() == 0 {
        (seq![], None)
    } else {
        let (events, fault) = heard(frames.drop_last(), lenient);
        if fault is Some {
            (events, fault)
        } else {
            match read_frame(frames.last(), lenient) {
                Ok(Some(event)) => (events.push(event), None),
                Ok(None) => (events, None),
                Err(why) => (events, Some(why)),
            }
        }
    }
}

/// Nothing is heard behind a frame that cannot be read.
proof fn lemma_faults_stay(frames: Seq<Seq<char>>, n: int, lenient: bool)
    requires
        0 <= n <= frames.len(),
        heard(frames.take(n), lenient).1 is Some,
    ensures
        heard(frames, lenient) == heard(frames.take(n), lenient),
    decreases frames.len() - n,
{
    if n < frames.len() {
        assert(frames.take(n + 1).drop_last() =~= frames.take(n));
        lemma_faults_stay(frames, n + 1, lenient);
    } else {
        assert(frames.take(n) =~= frames);
    }
}

proof fn lemma_heard_together(before: Seq<Seq<char>>, after: Seq<Seq<char>>, lenient: bool)
    requires
        heard(before, lenient).1 is None,
    ensures
        heard(before + after, lenient).0 == heard(before, lenient).0 + heard(after, lenient).0,
        heard(before + after, lenient).1 == heard(after, lenient).1,
    decreases after.len(),
{
    if after.len() == 0 {
        assert(before + after =~= before);
        assert(heard(before, lenient).0 + heard(after, lenient).0 =~= heard(before, lenient).0);
    } else {
        assert((before + after).drop_last() =~= before + after.drop_last());
        lemma_heard_together(before, after.drop_last(), lenient);
        assert(heard(before + after, lenient).0 =~= heard(before, lenient).0 + heard(
            after,
            lenient,
        ).0);
    }
}

/// What a run tells does not depend on the pieces in which it arrives.
pub proof fn law_events_in_pieces(before: Seq<char>, after: Seq<char>, lenient: bool)
    requires
        heard(frames(before), lenient).1 is None,
    ensures
        heard(frames(before + after), lenient).0 == heard(frames(before), lenient).0 + heard(
            frames(behind_frames(before) + after),
            lenient,
        ).0,
        heard(frames(before + after), lenient).1 == heard(
            frames(behind_frames(before) + after),
            lenient,
        ).1,
        behind_frames(before + after) == behind_frames(behind_frames(before) + after),
{
    law_frames_in_pieces(before, after);
    lemma_heard_together(frames(before), frames(behind_frames(before) + after), lenient);
}

impl FrameBuffer {
    /// Adds text that arrived; what its complete frames tell up to the first that cannot be read,
    /// and why it cannot.
    pub fn hear(&mut self, text: &str, lenient: bool) -> (out: (Vec<WorkerRunEvent>, Option<String>))
        ensures
            (event_views(out.0@), opt_text(out.1)) == heard(frames(old(self)@ + text@), lenient),
            final(self)@ == behind_frames(old(self)@ + text@),
    {
        self.push(text);
        let list = self.take_frames();
        let ghost all = texts(list@);
        let mut events: Vec<WorkerRunEvent> = Vec::new();
        let mut i: usize = 0;
        assert(all.take(0) =~= seq![]);
        assert(event_views(events@) =~= seq![]);
        while i < list.len()
            invariant
                i <= list.len(),
                all == texts(list@),
                all == frames(old(self)@ + text@),
                self@ == behind_frames(old(self)@ + text@),
                (event_views(events@), None::<Seq<char>>) == heard(all.take(i as int), lenient),
            decreases list.len() - i,
        {
            assert(all.take(i + 1).drop_last() =~= all.take(i as int));
            assert(all.take(i + 1).last() == list@[i as int]@);
            match parse_worker_sse_frame(list[i].as_str(), lenient) {
                Ok(Some(event)) => {
                    let ghost before = event_views(events@);
                    events.push(event);
                    assert(event_views(events@) =~= before.push(event@));
                },
                Ok(None) => {},
                Err(why) => {
                    proof {
                        lemma_faults_stay(all, i + 1, lenient);
                    }
                    return (events, Some(why));
                },
            }
            i += 1;
        }
        assert(all.take(all.len() as int) =~= all);
        (events, None)
    }
}

} // verus!
