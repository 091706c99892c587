//! The stream of the command-line assistant: what its lines mean, and what is written to it.
use vstd::prelude::*;

use crate::json;
use crate::json::{parse, Json, JsonView};
use crate::seqs;
use crate::text;
use crate::text::{cat2, cat3, cat4, joined, same, trimmed, truncate_chars};

verus! {

/// The assistant: how it is shown, and the program that it is.
pub struct Assistant {
    pub name: String,
    pub program: String,
}

#[verifier::ext_equal]
pub struct AssistantView {
    pub name: Seq<char>,
    pub program: Seq<char>,
}

impl View for Assistant {
    type V = AssistantView;

    open spec fn view(&self) -> AssistantView {
        AssistantView { name: self.name@, program: self.program@ }
    }
}

impl Assistant {
    /// The same assistant once more.
    pub fn copy(&self) -> (r: Assistant)
        ensures
            r@ == self@,
    {
        Assistant { name: self.name.clone(), program: self.program.clone() }
    }
}

/// A single question option from AskUserQuestion
#[derive(Clone)]
pub struct QuestionOption {
    pub label: String,
    pub description: String,
}

/// A question from AskUserQuestion
#[derive(Clone)]
pub struct UserQuestion {
    pub question: String,
    pub header: String,
    pub options: Vec<QuestionOption>,
    pub multi_select: bool,
}

/// A permission request from the assistant
pub struct PermissionRequest {
    pub request_id: String,
    pub tool_name: String,
    pub input_preview: String,
    /// If this is an AskUserQuestion, the parsed questions
    pub questions: Vec<UserQuestion>,
    /// Raw input JSON (needed for sending back with updatedInput)
    pub raw_input: Option<Json>,
}

/// Events produced by the streaming process
pub enum StreamEvent {
    Text(String),
    SessionId(String),
    PermissionNeeded(PermissionRequest),
    /// A turn is over; without a cost it was free.
    Done { cost: Option<serde_json::Number> },
    Stderr(String),
    ProcessExited,
}

#[verifier::ext_equal]
pub struct OptionView {
    pub label: Seq<char>,
    pub description: Seq<char>,
}

#[verifier::ext_equal]
pub struct QuestionView {
    pub question: Seq<char>,
    pub header: Seq<char>,
    pub options: Seq<OptionView>,
    pub multi_select: bool,
}

#[verifier::ext_equal]
pub struct RequestView {
    pub request_id: Seq<char>,
    pub tool_name: Seq<char>,
    pub input_preview: Seq<char>,
    pub questions: Seq<QuestionView>,
    pub raw_input: Option<JsonView>,
}

#[verifier::ext_equal]
pub enum EventView {
    Text(Seq<char>),
    SessionId(Seq<char>),
    PermissionNeeded(RequestView),
    Done { cost: Option<serde_json::Number> },
    Stderr(Seq<char>),
    ProcessExited,
}

impl DeepView for QuestionOption {
    type V = OptionView;

    open spec fn deep_view(&self) -> OptionView {
        OptionView { label: self.label@, description: self.description@ }
    }
}

impl DeepView for UserQuestion {
    type V = QuestionView;

    open spec fn deep_view(&self) -> QuestionView {
        QuestionView {
            question: self.question@,
            header: self.header@,
            options: self.options.deep_view(),
            multi_select: self.multi_select,
        }
    }
}

impl DeepView for PermissionRequest {
    type V = RequestView;

    open spec fn deep_view(&self) -> RequestView {
        RequestView {
            request_id: self.request_id@,
            tool_name: self.tool_name@,
            input_preview: self.input_preview@,
            questions: self.questions.deep_view(),
            raw_input: self.raw_input.deep_view(),
        }
    }
}

impl DeepView for StreamEvent {
    type V = EventView;

    open spec fn deep_view(&self) -> EventView {
        match self {
            StreamEvent::Text(s) => EventView::Text(s@),
            StreamEvent::SessionId(s) => EventView::SessionId(s@),
            StreamEvent::PermissionNeeded(req) => EventView::PermissionNeeded(req.deep_view()),
            StreamEvent::Done { cost } => EventView::Done { cost: *cost },
            StreamEvent::Stderr(s) => EventView::Stderr(s@),
            StreamEvent::ProcessExited => EventView::ProcessExited,
        }
    }
}

// ── What a line of the stream means ──

/// An option of a question: it has a label.
pub open spec fn option_of(o: JsonView) -> Option<OptionView> {
    match o.text_at("label"@) {
        Some(label) => Some(
            OptionView { label, description: o.text_or("description"@, Seq::empty()) },
        ),
        None => None,
    }
}

pub open spec fn options_of(q: JsonView) -> Seq<OptionView> {
    match q.get("options"@) {
        Some(JsonView::Array(items)) => seqs::filter_map(items, |o: JsonView| option_of(o)),
        _ => Seq::empty(),
    }
}

/// A question: it has a text.
pub open spec fn question_of(q: JsonView) -> Option<QuestionView> {
    match q.text_at("question"@) {
        Some(question) => Some(
            QuestionView {
                question,
                header: q.text_or("header"@, Seq::empty()),
                options: options_of(q),
                multi_select: q.flag_at("multiSelect"@),
            },
        ),
        None => None,
    }
}

/// The questions in the input of an AskUserQuestion.
pub open spec fn questions_of(input: Option<JsonView>) -> Seq<QuestionView> {
    match input {
        Some(j) => match j.get("questions"@) {
            Some(JsonView::Array(items)) => seqs::filter_map(items, |q: JsonView| question_of(q)),
            _ => Seq::empty(),
        },
        None => Seq::empty(),
    }
}

/// What a block of an assistant message shows.
pub open spec fn block_text(block: JsonView) -> Option<Seq<char>> {
    match block.text_at("type"@) {
        None => None,
        Some(kind) => if kind == "text"@ {
            block.text_at("text"@)
        } else if kind == "tool_use"@ {
            Some(
                "[tool_use: "@ + block.text_or("name"@, "unknown"@) + "]\n"@ + (match block.get(
                    "input"@,
                ) {
                    Some(input) => json::pretty_json(input),
                    None => Seq::empty(),
                }),
            )
        } else if kind == "tool_result"@ {
            match block.text_at("content"@) {
                Some(t) => Some("[tool_result] "@ + t),
                None => None,
            }
        } else {
            None
        },
    }
}

/// An assistant message: the text of its blocks, or nothing to show.
pub open spec fn assistant_event(val: JsonView) -> EventView {
    match val.get_in("message"@, "content"@) {
        Some(JsonView::Array(content)) => {
            let parts = seqs::filter_map(content, |b: JsonView| block_text(b));
            if parts.len() == 0 {
                EventView::Stderr(Seq::empty())
            } else {
                EventView::Text(text::join(parts, "\n"@))
            }
        },
        _ => EventView::Stderr("[assistant message with no content]"@),
    }
}

/// The field `direct` of the request, or the field `nested` of its tool.
pub open spec fn request_field(
    val: JsonView,
    direct: Seq<char>,
    nested: Seq<char>,
) -> Option<JsonView> {
    match val.get_in("request"@, direct) {
        Some(j) => Some(j),
        None => match val.get_in("request"@, "tool"@) {
            Some(tool) => tool.get(nested),
            None => None,
        },
    }
}

/// A request for permission, with its questions where it asks some.
pub open spec fn request_of(val: JsonView) -> RequestView {
    let tool_name = match request_field(val, "tool_name"@, "name"@) {
        Some(JsonView::Text(s)) => s,
        _ => "unknown"@,
    };
    let raw_input = request_field(val, "input"@, "input"@);
    RequestView {
        request_id: val.text_or("request_id"@, Seq::empty()),
        tool_name,
        input_preview: match raw_input {
            Some(j) => json::pretty_json(j),
            None => Seq::empty(),
        },
        questions: if tool_name == "AskUserQuestion"@ {
            questions_of(raw_input)
        } else {
            Seq::empty()
        },
        raw_input,
    }
}

/// The cost of a turn, where one is given.
pub open spec fn cost_of(val: JsonView) -> Option<serde_json::Number> {
    let field = match val.get("total_cost_usd"@) {
        Some(j) => Some(j),
        None => val.get("cost_usd"@),
    };
    match field {
        Some(JsonView::Number(n)) => Some(n),
        _ => None,
    }
}

/// The content of a tool result, or its output where it has no content.
pub open spec fn result_text(val: JsonView) -> Seq<char> {
    match val.text_at("content"@) {
        Some(t) => t,
        None => val.text_or("output"@, Seq::empty()),
    }
}

/// What a JSON value in the stream means; `line` is the text that it was read from.
pub open spec fn value_event(val: JsonView, line: Seq<char>) -> EventView {
    match val.text_at("type"@) {
        None => EventView::Stderr("[no type field] "@ + text::first_chars(line, 200)),
        Some(kind) => if kind == "system"@ {
            let subtype = val.text_or("subtype"@, Seq::empty());
            match val.text_at("session_id"@) {
                Some(sid) if subtype == "init"@ => EventView::SessionId(sid),
                _ => EventView::Stderr("[system/"@ + subtype + "]"@),
            }
        } else if kind == "assistant"@ {
            assistant_event(val)
        } else if kind == "control_request"@ {
            EventView::PermissionNeeded(request_of(val))
        } else if kind == "result"@ {
            EventView::Done { cost: cost_of(val) }
        } else if kind == "tool_result"@ {
            let content = result_text(val);
            if content.len() == 0 {
                EventView::Stderr("[tool_result: empty]"@)
            } else {
                EventView::Text("[tool_result] "@ + content)
            }
        } else if kind == "stream_event"@ {
            EventView::Stderr(" "@)
        } else if kind == "user"@ || kind == "rate_limit_event"@ {
            EventView::Stderr(Seq::empty())
        } else {
            EventView::Stderr("[unhandled: "@ + kind + "]"@)
        },
    }
}

/// What a line of the stream means.
pub open spec fn line_event(line: Seq<char>) -> EventView {
    match json::parsed_json(line) {
        Ok(val) => value_event(val, line),
        Err(_) => EventView::Stderr("[raw] "@ + text::first_chars(line, 200)),
    }
}

/// Parse questions from an AskUserQuestion control_request input
pub fn parse_ask_user_questions(input: Option<&Json>) -> (r: Vec<UserQuestion>)
    ensures
        r.deep_view() == questions_of(match input {
            Some(j) => Some(j@),
            None => None,
        }),
{
    let mut r: Vec<UserQuestion> = Vec::new();
    if let Some(input) = input {
        if let Some(Json::Array(items)) = input.get("questions") {
            let ghost all = json::items_view(items@);
            let ghost f = |q: JsonView| question_of(q);
            proof {
                json::lemma_items(items@);
                assert(all.take(0) == Seq::<JsonView>::empty());
            }
            let mut i: usize = 0;
            while i < items.len()
                invariant
                    i <= items@.len(),
                    all == json::items_view(items@),
                    all.len() == items@.len(),
                    forall|k: int| 0 <= k < items@.len() ==> #[trigger] all[k] == items@[k]@,
                    f == (|q: JsonView| question_of(q)),
                    r.deep_view() == seqs::filter_map(all.take(i as int), f),
                decreases items@.len() - i,
            {
                let q = &items[i];
                proof {
                    seqs::lemma_filter_map_step(all, i as int, f);
                    assert(all[i as int] == q@);
                }
                if let Some(question) = q.text_at("question") {
                    let item = UserQuestion {
                        question: question.to_string(),
                        header: q.text_or("header", "").to_string(),
                        options: parse_options(q),
                        multi_select: q.flag_at("multiSelect"),
                    };
                    proof {
                        reveal_strlit("");
                        assert(""@ == Seq::<char>::empty());
                    }
                    let ghost before = r.deep_view();
                    r.push(item);
                    assert(r.deep_view() == before.push(item.deep_view()));
                }
                i += 1;
            }
            assert(all.take(i as int) == all);
        }
    }
    r
}

fn parse_options(q: &Json) -> (r: Vec<QuestionOption>)
    ensures
        r.deep_view() == options_of(q@),
{
    let mut r: Vec<QuestionOption> = Vec::new();
    if let Some(Json::Array(items)) = q.get("options") {
        let ghost all = json::items_view(items@);
        let ghost f = |o: JsonView| option_of(o);
        proof {
            json::lemma_items(items@);
            assert(all.take(0) == Seq::<JsonView>::empty());
        }
        let mut i: usize = 0;
        while i < items.len()
            invariant
                i <= items@.len(),
                all == json::items_view(items@),
                all.len() == items@.len(),
                forall|k: int| 0 <= k < items@.len() ==> #[trigger] all[k] == items@[k]@,
                f == (|o: JsonView| option_of(o)),
                r.deep_view() == seqs::filter_map(all.take(i as int), f),
            decreases items@.len() - i,
        {
            let o = &items[i];
            proof {
                seqs::lemma_filter_map_step(all, i as int, f);
                assert(all[i as int] == o@);
            }
            if let Some(label) = o.text_at("label") {
                let item = QuestionOption {
                    label: label.to_string(),
                    description: o.text_or("description", "").to_string(),
                };
                proof {
                    reveal_strlit("");
                    assert(""@ == Seq::<char>::empty());
                }
                let ghost before = r.deep_view();
                r.push(item);
                assert(r.deep_view() == before.push(item.deep_view()));
            }
            i += 1;
        }
        assert(all.take(i as int) == all);
    }
    r
}

fn show_block(block: &Json) -> (r: Option<String>)
    ensures
        r.deep_view() == block_text(block@),
{
    match block.text_at("type") {
        None => None,
        Some(kind) => if same(kind, "text") {
            match block.text_at("text") {
                Some(t) => Some(t.to_string()),
                None => None,
            }
        } else if same(kind, "tool_use") {
            let input = match block.get("input") {
                Some(input) => input.to_pretty_text(),
                None => String::new(),
            };
            Some(cat4("[tool_use: ", block.text_or("name", "unknown"), "]\n", input.as_str()))
        } else if same(kind, "tool_result") {
            match block.text_at("content") {
                Some(t) => Some(cat2("[tool_result] ", t)),
                None => None,
            }
        } else {
            None
        },
    }
}

fn parse_assistant(val: &Json) -> (r: StreamEvent)
    ensures
        r.deep_view() == assistant_event(val@),
{
    match val.get_in("message", "content") {
        Some(Json::Array(content)) => {
            let ghost all = json::items_view(content@);
            let ghost f = |b: JsonView| block_text(b);
            let mut parts: Vec<String> = Vec::new();
            proof {
                json::lemma_items(content@);
                assert(all.take(0) == Seq::<JsonView>::empty());
            }
            let mut i: usize = 0;
            while i < content.len()
                invariant
                    i <= content@.len(),
                    all == json::items_view(content@),
                    all.len() == content@.len(),
                    forall|k: int| 0 <= k < content@.len() ==> #[trigger] all[k] == content@[k]@,
                    f == (|b: JsonView| block_text(b)),
                    text::texts(parts@) == seqs::filter_map(all.take(i as int), f),
                decreases content@.len() - i,
            {
                proof {
                    seqs::lemma_filter_map_step(all, i as int, f);
                    assert(all[i as int] == content@[i as int]@);
                }
                if let Some(part) = show_block(&content[i]) {
                    proof {
                        text::lemma_texts_push(parts@, part);
                    }
                    parts.push(part);
                }
                i += 1;
            }
            assert(all.take(i as int) == all);
            if parts.len() == 0 {
                StreamEvent::Stderr(String::new())
            } else {
                StreamEvent::Text(joined(&parts, "\n"))
            }
        },
        _ => StreamEvent::Stderr("[assistant message with no content]".to_string()),
    }
}

fn find_request_field<'a>(val: &'a Json, direct: &str, nested: &str) -> (r: Option<&'a Json>)
    ensures
        match r {
            Some(j) => request_field(val@, direct@, nested@) == Some(j@),
            None => request_field(val@, direct@, nested@) is None,
        },
{
    match val.get_in("request", direct) {
        Some(j) => Some(j),
        None => match val.get_in("request", "tool") {
            Some(tool) => tool.get(nested),
            None => None,
        },
    }
}

fn parse_request(val: &Json) -> (r: PermissionRequest)
    ensures
        r.deep_view() == request_of(val@),
{
    proof {
        reveal_strlit("");
        assert(""@ == Seq::<char>::empty());
    }
    let request_id = val.text_or("request_id", "").to_string();
    let tool_name = match find_request_field(val, "tool_name", "name") {
        Some(Json::Text(s)) => s.clone(),
        _ => "unknown".to_string(),
    };
    let found = find_request_field(val, "input", "input");
    let input_preview = match found {
        Some(j) => j.to_pretty_text(),
        None => String::new(),
    };
    let questions = if same(tool_name.as_str(), "AskUserQuestion") {
        parse_ask_user_questions(found)
    } else {
        Vec::new()
    };
    let raw_input = match found {
        Some(j) => Some(j.copy()),
        None => None,
    };
    PermissionRequest { request_id, tool_name, input_preview, questions, raw_input }
}

fn parse_cost(val: &Json) -> (r: Option<serde_json::Number>)
    ensures
        r == cost_of(val@),
{
    let field = match val.get("total_cost_usd") {
        Some(j) => Some(j),
        None => val.get("cost_usd"),
    };
    match field {
        Some(Json::Number(n)) => Some(json::copy_number(n)),
        _ => None,
    }
}

/// What a JSON value in the stream means; `line` is the text that it was read from.
pub fn parse_stream_value(val: &Json, line: &str) -> (r: StreamEvent)
    ensures
        r.deep_view() == value_event(val@, line@),
{
    proof {
        reveal_strlit("");
        assert(""@ == Seq::<char>::empty());
    }
    let kind = match val.text_at("type") {
        Some(t) => t,
        None => {
            return StreamEvent::Stderr(cat2("[no type field] ", truncate_chars(line, 200)));
        },
    };
    if same(kind, "system") {
        let subtype = val.text_or("subtype", "");
        if same(subtype, "init") {
            if let Some(sid) = val.text_at("session_id") {
                return StreamEvent::SessionId(sid.to_string());
            }
        }
        StreamEvent::Stderr(cat3("[system/", subtype, "]"))
    } else if same(kind, "assistant") {
        parse_assistant(val)
    } else if same(kind, "control_request") {
        StreamEvent::PermissionNeeded(parse_request(val))
    } else if same(kind, "result") {
        StreamEvent::Done { cost: parse_cost(val) }
    } else if same(kind, "tool_result") {
        let content = match val.text_at("content") {
            Some(t) => t,
            None => val.text_or("output", ""),
        };
        if content.is_empty() {
            StreamEvent::Stderr("[tool_result: empty]".to_string())
        } else {
            StreamEvent::Text(cat2("[tool_result] ", content))
        }
    } else if same(kind, "stream_event") {
        // Deltas come while the assistant thinks; a text that is not empty keeps the session awake.
        StreamEvent::Stderr(" ".to_string())
    } else if same(kind, "user") || same(kind, "rate_limit_event") {
        StreamEvent::Stderr(String::new())
    } else {
        StreamEvent::Stderr(cat3("[unhandled: ", kind, "]"))
    }
}

/// Parse a single NDJSON line from the assistant's stream-json output into a StreamEvent.
/// Every line becomes an event: unknown formats become Stderr events, so that the session
/// doesn't silently get stuck.
pub fn parse_stream_line(line: &str) -> (r: StreamEvent)
    ensures
        r.deep_view() == line_event(line@),
{
    match parse(line) {
        Ok(val) => parse_stream_value(&val, line),
        Err(_) => StreamEvent::Stderr(cat2("[raw] ", truncate_chars(line, 200))),
    }
}

// ── What is written to the process ──

/// A line for the input of the process, with what the debug log says of it.
pub struct Outgoing {
    pub line: String,
    pub logs: Vec<String>,
}

#[verifier::ext_equal]
pub struct OutgoingView {
    pub line: Seq<char>,
    pub logs: Seq<Seq<char>>,
}

impl DeepView for Outgoing {
    type V = OutgoingView;

    open spec fn deep_view(&self) -> OutgoingView {
        OutgoingView { line: self.line@, logs: text::texts(self.logs@) }
    }
}

/// The message that hands a prompt to the process.
pub open spec fn prompt_message(prompt: Seq<char>, session_id: Option<Seq<char>>) -> JsonView {
    json::empty_object().with("type"@, JsonView::Text("user"@)).with(
        "message"@,
        json::empty_object().with("role"@, JsonView::Text("user"@)).with(
            "content"@,
            JsonView::Text(prompt),
        ),
    ).with(
        "session_id"@,
        JsonView::Text(
            match session_id {
                Some(sid) => sid,
                None => "default"@,
            },
        ),
    ).with("parent_tool_use_id"@, JsonView::Null)
}

/// Whether this is one line: its only line feed is at its end.
pub open spec fn is_line(line: Seq<char>) -> bool {
    line.len() > 0 && line.last() == '\n' && !line.drop_last().contains('\n')
}

/// Whether this is a message on a line of its own, which reads as the message again.
pub open spec fn line_holds(line: Seq<char>, message: JsonView) -> bool {
    is_line(line) && json::reads_as(line.drop_last(), message)
}

/// The prompt on a line of its own.
pub open spec fn prompt_sent(prompt: Seq<char>, session_id: Option<Seq<char>>) -> OutgoingView {
    let message = json::compact_json(prompt_message(prompt, session_id));
    OutgoingView {
        line: message.push('\n'),
        logs: seq!["[send_prompt] "@ + text::first_chars(message, 200)],
    }
}

/// What a request is answered: an allowed one gets an input, be it empty; a denied one a reason.
pub open spec fn permission_answer(
    allow: bool,
    updated_input: Option<JsonView>,
    deny_message: Option<Seq<char>>,
) -> JsonView {
    if allow {
        json::empty_object().with("behavior"@, JsonView::Text("allow"@)).with(
            "updatedPermissions"@,
            JsonView::Array(Seq::empty()),
        ).with(
            "updatedInput"@,
            match updated_input {
                Some(input) => input,
                None => json::empty_object(),
            },
        )
    } else {
        json::empty_object().with("behavior"@, JsonView::Text("deny"@)).with(
            "message"@,
            JsonView::Text(
                match deny_message {
                    Some(reason) => reason,
                    None => "User denied this action"@,
                },
            ),
        )
    }
}

/// The message that answers a request for permission.
pub open spec fn permission_message(
    request_id: Seq<char>,
    allow: bool,
    updated_input: Option<JsonView>,
    deny_message: Option<Seq<char>>,
) -> JsonView {
    json::empty_object().with("type"@, JsonView::Text("control_response"@)).with(
        "response"@,
        json::empty_object().with("subtype"@, JsonView::Text("success"@)).with(
            "request_id"@,
            JsonView::Text(request_id),
        ).with("response"@, permission_answer(allow, updated_input, deny_message)),
    )
}

/// The answer on a line of its own.
pub open spec fn permission_sent(
    request_id: Seq<char>,
    allow: bool,
    updated_input: Option<JsonView>,
    deny_message: Option<Seq<char>>,
) -> OutgoingView {
    let message = json::compact_json(
        permission_message(request_id, allow, updated_input, deny_message),
    );
    let log = "[ctrl_resp] "@ + text::first_chars(message, 300);
    OutgoingView {
        line: message.push('\n'),
        logs: if allow && updated_input is None {
            seq!["[ctrl_resp] WARNING: no updatedInput for allow, using empty object"@, log]
        } else {
            seq![log]
        },
    }
}

/// The line that sends a user prompt to the running process.
pub fn send_prompt_to_process(prompt: &str, session_id: Option<&str>) -> (r: Outgoing)
    ensures
        r.deep_view() == prompt_sent(
            prompt@,
            match session_id {
                Some(sid) => Some(sid@),
                None => None,
            },
        ),
        line_holds(
            r.line@,
            prompt_message(
                prompt@,
                match session_id {
                    Some(sid) => Some(sid@),
                    None => None,
                },
            ),
        ),
{
    let sid = match session_id {
        Some(sid) => sid,
        None => "default",
    };
    let message = Json::object().with("role", Json::text("user")).with(
        "content",
        Json::text(prompt),
    );
    let msg = Json::object().with("type", Json::text("user")).with("message", message).with(
        "session_id",
        Json::text(sid),
    ).with("parent_tool_use_id", Json::Null);
    proof {
        reveal_with_fuel(JsonView::nested_within, 4);
    }
    let mut line = msg.to_text();
    let ghost written = line@;
    let mut logs: Vec<String> = Vec::new();
    logs.push(cat2("[send_prompt] ", truncate_chars(line.as_str(), 200)));
    line.push('\n');
    assert(line@.drop_last() == written);
    Outgoing { line, logs }
}

/// The line that answers a permission request (allow or deny).
///
/// When allowing: `updated_input` MUST contain the tool's input (original or modified).
///   The assistant hangs if updatedInput is missing on allow.
/// When denying: `deny_message` should explain why (the assistant sees it and may adjust).
pub fn send_permission_response(
    request_id: &str,
    allow: bool,
    updated_input: Option<Json>,
    deny_message: Option<&str>,
) -> (r: Outgoing)
    ensures
        r.deep_view() == permission_sent(
            request_id@,
            allow,
            updated_input.deep_view(),
            match deny_message {
                Some(reason) => Some(reason@),
                None => None,
            },
        ),
        is_line(r.line@),
        (updated_input.deep_view() matches Some(input) ==> input.nested_within(
            (json::DEPTH_READ - 3) as nat,
        )) ==> line_holds(
            r.line@,
            permission_message(
                request_id@,
                allow,
                updated_input.deep_view(),
                match deny_message {
                    Some(reason) => Some(reason@),
                    None => None,
                },
            ),
        ),
{
    let ghost shallow = updated_input.deep_view() matches Some(input) ==> input.nested_within(
        (json::DEPTH_READ - 3) as nat,
    );
    let mut logs: Vec<String> = Vec::new();
    let response = if allow {
        let r = Json::object().with("behavior", Json::text("allow")).with(
            "updatedPermissions",
            Json::Array(Vec::new()),
        );
        match updated_input {
            Some(input) => r.with("updatedInput", input),
            None => {
                // The assistant hangs if updatedInput is missing on allow
                logs.push(
                    "[ctrl_resp] WARNING: no updatedInput for allow, using empty object".to_string(),
                );
                r.with("updatedInput", Json::object())
            },
        }
    } else {
        let reason = match deny_message {
            Some(reason) => reason,
            None => "User denied this action",
        };
        Json::object().with("behavior", Json::text("deny")).with("message", Json::text(reason))
    };
    let ghost held = response@;
    proof {
        if shallow {
            reveal_with_fuel(JsonView::nested_within, 2);
            assert(held.nested_within((json::DEPTH_READ - 2) as nat));
        }
    }
    let answer = Json::object().with("subtype", Json::text("success")).with(
        "request_id",
        Json::text(request_id),
    ).with("response", response);
    let ghost held_answer = answer@;
    let msg = Json::object().with("type", Json::text("control_response")).with("response", answer);
    proof {
        if shallow {
            reveal_with_fuel(JsonView::nested_within, 2);
            assert(held_answer.nested_within((json::DEPTH_READ - 1) as nat));
            assert(msg@.nested_within(json::DEPTH_READ as nat));
        }
    }
    let mut line = msg.to_text();
    let ghost written = line@;
    logs.push(cat2("[ctrl_resp] ", truncate_chars(line.as_str(), 300)));
    line.push('\n');
    assert(line@.drop_last() == written);
    Outgoing { line, logs }
}

// ── The process ──

/// The arguments that every process is started with.
pub open spec fn fixed_args() -> Seq<Seq<char>> {
    seq![
        "-p"@,
        "--output-format"@,
        "stream-json"@,
        "--input-format"@,
        "stream-json"@,
        "--verbose"@,
        "--permission-prompt-tool"@,
        "stdio"@,
    ]
}

/// All the arguments: the fixed ones, and the conversation that is begun or resumed.
pub open spec fn process_args(session_id: Seq<char>, is_resume: bool) -> Seq<Seq<char>> {
    fixed_args().push(
        if is_resume {
            "--resume"@
        } else {
            "--session-id"@
        },
    ).push(session_id)
}

/// A process to be started.
pub struct Spawn {
    pub program: String,
    pub args: Vec<String>,
    /// Where the process works, if not in the directory of its parent.
    pub workdir: Option<String>,
}

#[verifier::ext_equal]
pub struct SpawnView {
    pub program: Seq<char>,
    pub args: Seq<Seq<char>>,
    pub workdir: Option<Seq<char>>,
}

impl DeepView for Spawn {
    type V = SpawnView;

    open spec fn deep_view(&self) -> SpawnView {
        SpawnView {
            program: self.program@,
            args: text::texts(self.args@),
            workdir: self.workdir.deep_view(),
        }
    }
}

/// What a long-lived streaming process is started as.
pub fn spawn_session_process(
    program: &str,
    session_id: &str,
    is_resume: bool,
    workdir: Option<String>,
) -> (r: Spawn)
    ensures
        r.deep_view() == (SpawnView {
            program: program@,
            args: process_args(session_id@, is_resume),
            workdir: workdir.deep_view(),
        }),
{
    let mut args: Vec<String> = Vec::new();
    args.push("-p".to_string());
    args.push("--output-format".to_string());
    args.push("stream-json".to_string());
    args.push("--input-format".to_string());
    args.push("stream-json".to_string());
    args.push("--verbose".to_string());
    args.push("--permission-prompt-tool".to_string());
    args.push("stdio".to_string());
    if is_resume {
        args.push("--resume".to_string());
    } else {
        args.push("--session-id".to_string());
    }
    args.push(session_id.to_string());
    assert(text::texts(args@) =~= process_args(session_id@, is_resume));
    Spawn { program: program.to_string(), args, workdir }
}

impl Spawn {
    /// What is said where the process could not be started.
    pub fn failed(&self, error: &str) -> (r: String)
        ensures
            r@ == "Failed to spawn "@ + self.program@ + ": "@ + error@,
    {
        cat4("Failed to spawn ", self.program.as_str(), ": ", error)
    }
}

/// What a line of the standard output gives.
pub struct OutputLine {
    /// What the debug log says of it, where the line is JSON.
    pub log: Option<String>,
    pub event: StreamEvent,
}

#[verifier::ext_equal]
pub struct OutputLineView {
    pub log: Option<Seq<char>>,
    pub event: EventView,
}

impl DeepView for OutputLine {
    type V = OutputLineView;

    open spec fn deep_view(&self) -> OutputLineView {
        OutputLineView { log: self.log.deep_view(), event: self.event.deep_view() }
    }
}

/// The line of the debug log on a JSON value of the stream.
pub open spec fn stream_log(val: JsonView, line: Seq<char>) -> Seq<char> {
    "[stream] type="@ + val.text_or("type"@, "?"@) + " sub="@ + val.text_or(
        "subtype"@,
        Seq::empty(),
    ) + (" | "@ + text::first_chars(line, 200))
}

/// What a line of the standard output gives: nothing where it is blank, else an event.
pub open spec fn output_line(line: Seq<char>) -> Option<OutputLineView> {
    if text::trim(line).len() == 0 {
        None
    } else {
        Some(
            OutputLineView {
                log: match json::parsed_json(line) {
                    Ok(val) => Some(stream_log(val, line)),
                    Err(_) => None,
                },
                event: line_event(line),
            },
        )
    }
}

/// Reads a line of the standard output of the process.
pub fn read_output_line(line: &str) -> (r: Option<OutputLine>)
    ensures
        r.deep_view() == output_line(line@),
{
    if trimmed(line).is_empty() {
        return None;
    }
    proof {
        reveal_strlit("");
        assert(""@ == Seq::<char>::empty());
    }
    match parse(line) {
        Ok(val) => {
            let preview = cat2(" | ", truncate_chars(line, 200));
            let head = cat4(
                "[stream] type=",
                val.text_or("type", "?"),
                " sub=",
                val.text_or("subtype", ""),
            );
            let log = cat2(head.as_str(), preview.as_str());
            Some(OutputLine { log: Some(log), event: parse_stream_value(&val, line) })
        },
        Err(_) => Some(
            OutputLine {
                log: None,
                event: StreamEvent::Stderr(cat2("[raw] ", truncate_chars(line, 200))),
            },
        ),
    }
}

/// What a line of the standard error gives: nothing where it is empty, else an event.
pub open spec fn error_line(line: Seq<char>) -> Option<EventView> {
    if line.len() == 0 {
        None
    } else {
        Some(EventView::Stderr(line))
    }
}

/// Reads a line of the standard error of the process: an event unless it is empty.
pub fn read_error_line(line: String) -> (r: Option<StreamEvent>)
    ensures
        r.deep_view() == error_line(line@),
{
    if line.as_str().is_empty() {
        None
    } else {
        Some(StreamEvent::Stderr(line))
    }
}

// ── Laws ──

/// No line of the stream ends the session: every line has a meaning, and none means that the
/// process is gone.
pub proof fn law_no_line_ends_the_process(line: Seq<char>)
    ensures
        !(line_event(line) is ProcessExited),
{
}

/// A request that asks questions carries an object as its input, into which answers can be put.
pub proof fn law_questions_come_with_an_object(val: JsonView)
    ensures
        request_of(val).questions.len() > 0 ==> request_of(val).raw_input matches Some(
            JsonView::Object(_),
        ),
{
}

/// A line that is blank gives no event, and every other line gives one.
pub proof fn law_every_line_that_is_not_blank_is_an_event(line: Seq<char>)
    ensures
        output_line(line) is None <==> text::trim(line).len() == 0,
        output_line(line) is Some ==> output_line(line)->0.event == line_event(line),
{
}

/// Allowing always hands an input back.
pub proof fn law_allowing_has_an_input(
    updated_input: Option<JsonView>,
    deny_message: Option<Seq<char>>,
)
    ensures
        permission_answer(true, updated_input, deny_message).get("updatedInput"@) == Some(
            match updated_input {
                Some(input) => input,
                None => json::empty_object(),
            },
        ),
{
}

proof fn lemma_block_kinds_differ()
    ensures
        "text"@ != "tool_use"@,
        "text"@ != "tool_result"@,
        "tool_use"@ != "tool_result"@,
{
    reveal_strlit("text");
    reveal_strlit("tool_use");
    reveal_strlit("tool_result");
    assert("text"@.len() == 4);
    assert("tool_use"@.len() == 8);
    assert("tool_result"@.len() == 11);
}

proof fn lemma_line_kinds_differ()
    ensures
        "system"@ != "assistant"@,
        "system"@ != "control_request"@,
        "system"@ != "result"@,
        "system"@ != "tool_result"@,
        "system"@ != "stream_event"@,
        "system"@ != "user"@,
        "system"@ != "rate_limit_event"@,
        "assistant"@ != "control_request"@,
        "assistant"@ != "result"@,
        "assistant"@ != "tool_result"@,
        "assistant"@ != "stream_event"@,
        "assistant"@ != "user"@,
        "assistant"@ != "rate_limit_event"@,
        "control_request"@ != "result"@,
        "control_request"@ != "tool_result"@,
        "control_request"@ != "stream_event"@,
        "control_request"@ != "user"@,
        "control_request"@ != "rate_limit_event"@,
        "result"@ != "tool_result"@,
        "result"@ != "stream_event"@,
        "result"@ != "user"@,
        "result"@ != "rate_limit_event"@,
        "tool_result"@ != "stream_event"@,
        "tool_result"@ != "user"@,
        "tool_result"@ != "rate_limit_event"@,
        "stream_event"@ != "user"@,
        "stream_event"@ != "rate_limit_event"@,
        "user"@ != "rate_limit_event"@,
{
    reveal_strlit("system");
    reveal_strlit("assistant");
    reveal_strlit("control_request");
    reveal_strlit("result");
    reveal_strlit("tool_result");
    reveal_strlit("stream_event");
    reveal_strlit("user");
    reveal_strlit("rate_limit_event");
    assert("system"@.len() == 6 && "result"@.len() == 6);
    assert("system"@[0] == 's' && "result"@[0] == 'r');
    assert("assistant"@.len() == 9);
    assert("control_request"@.len() == 15);
    assert("tool_result"@.len() == 11);
    assert("stream_event"@.len() == 12);
    assert("user"@.len() == 4);
    assert("rate_limit_event"@.len() == 16);
}

/// Whether a value is a message of the assistant with these blocks.
pub open spec fn is_answer(val: JsonView, content: Seq<JsonView>) -> bool {
    val.text_at("type"@) == Some("assistant"@) && val.get_in("message"@, "content"@) == Some(
        JsonView::Array(content),
    )
}

/// A message of a single block shows just that: a text as it is, a tool with its name and its
/// input, the result of a tool with its content. Any other block, and no block at all, shows
/// nothing.
pub proof fn law_a_single_block_is_shown(val: JsonView, line: Seq<char>, block: JsonView)
    requires
        is_answer(val, seq![block]),
    ensures
        block.text_at("type"@) == Some("text"@) ==> (block.text_at("text"@) matches Some(t)
            ==> value_event(val, line) == EventView::Text(t)),
        block.text_at("type"@) == Some("text"@) && block.text_at("text"@) is None ==> value_event(
            val,
            line,
        ) == EventView::Stderr(Seq::empty()),
        block.text_at("type"@) == Some("tool_use"@) ==> (value_event(val, line) matches
            EventView::Text(t) && {
            let name = block.text_or("name"@, "unknown"@);
            &&& block.get("input"@) matches Some(input) ==> t == "[tool_use: "@ + name + "]\n"@
                + json::pretty_json(input)
            &&& block.get("input"@) is None ==> t == "[tool_use: "@ + name + "]\n"@
        }),
        block.text_at("type"@) == Some("tool_result"@) ==> (block.text_at("content"@) matches Some(
            t,
        ) ==> value_event(val, line) == EventView::Text("[tool_result] "@ + t)),
        block.text_at("type"@) == Some("tool_result"@) && block.text_at("content"@) is None
            ==> value_event(val, line) == EventView::Stderr(Seq::empty()),
        block.text_at("type"@) is None || (block.text_at("type"@) matches Some(kind) && kind
            != "text"@ && kind != "tool_use"@ && kind != "tool_result"@) ==> value_event(val, line)
            == EventView::Stderr(Seq::empty()),
{
    lemma_block_kinds_differ();
    lemma_line_kinds_differ();
    let f = |b: JsonView| block_text(b);
    seqs::law_filter_map_goes_part_by_part(seq![block], Seq::empty(), block, f);
    let name = block.text_or("name"@, "unknown"@);
    assert("[tool_use: "@ + name + "]\n"@ + Seq::empty() == "[tool_use: "@ + name + "]\n"@);
}

/// The blocks of a message are shown one after the other, each from a new line on; blocks that
/// show nothing leave no trace, and a message without blocks shows nothing.
pub proof fn law_blocks_are_shown_in_order(
    val_a: JsonView,
    a: Seq<JsonView>,
    val_b: JsonView,
    b: Seq<JsonView>,
    val: JsonView,
    line: Seq<char>,
)
    requires
        is_answer(val_a, a),
        is_answer(val_b, b),
        is_answer(val, a + b),
    ensures
        value_event(val, line) is Text <==> value_event(val_a, line) is Text || value_event(
            val_b,
            line,
        ) is Text,
        value_event(val_a, line) is Text && value_event(val_b, line) is Text ==> value_event(
            val,
            line,
        ) == EventView::Text(value_event(val_a, line)->Text_0 + "\n"@ + value_event(val_b, line)->Text_0),
        !(value_event(val_a, line) is Text) ==> value_event(val_a, line) == EventView::Stderr(
            Seq::empty(),
        ) && value_event(val, line) == value_event(val_b, line),
        !(value_event(val_b, line) is Text) ==> value_event(val_b, line) == EventView::Stderr(
            Seq::empty(),
        ) && value_event(val, line) == value_event(val_a, line),
        a.len() == 0 ==> !(value_event(val_a, line) is Text),
{
    lemma_line_kinds_differ();
    let f = |x: JsonView| block_text(x);
    seqs::law_filter_map_goes_part_by_part(a, b, val, f);
    let p = seqs::filter_map(a, f);
    let q = seqs::filter_map(b, f);
    text::law_join(p, q, "\n"@, Seq::empty());
    if p.len() == 0 {
        assert(p + q == q);
    }
    if q.len() == 0 {
        assert(p + q == p);
    }
}

/// Whatever else a message holds, the text of every text block of it is shown; a message is
/// silent only where no block of it has anything to show.
pub proof fn law_no_text_is_dropped(val: JsonView, line: Seq<char>, content: Seq<JsonView>, i: int)
    requires
        is_answer(val, content),
        0 <= i < content.len(),
    ensures
        content[i].text_at("type"@) == Some("text"@) ==> (content[i].text_at("text"@) matches Some(
            t,
        ) ==> (value_event(val, line) matches EventView::Text(all) && text::contains(all, t))),
        content[i].text_at("type"@) == Some("tool_use"@) ==> (value_event(val, line) matches
            EventView::Text(all) && text::contains(
            all,
            "[tool_use: "@ + content[i].text_or("name"@, "unknown"@) + "]\n"@,
        )),
        content[i].text_at("type"@) == Some("tool_result"@) ==> (content[i].text_at(
            "content"@,
        ) matches Some(t) ==> (value_event(val, line) matches EventView::Text(all)
            && text::contains(all, "[tool_result] "@ + t))),
        !(value_event(val, line) is Text) ==> value_event(val, line) == EventView::Stderr(
            Seq::empty(),
        ),
{
    lemma_line_kinds_differ();
    lemma_block_kinds_differ();
    lemma_part_is_shown(val, line, content, i);
    if let Some(t) = block_text(content[i]) {
        let head = "[tool_use: "@ + content[i].text_or("name"@, "unknown"@) + "]\n"@;
        if content[i].text_at("type"@) == Some("tool_use"@) {
            let tail = match content[i].get("input"@) {
                Some(input) => json::pretty_json(input),
                None => Seq::empty(),
            };
            assert(t == head + tail);
            lemma_start_is_contained(value_event(val, line)->Text_0, head, tail);
        }
    }
}

proof fn lemma_part_is_shown(val: JsonView, line: Seq<char>, content: Seq<JsonView>, i: int)
    requires
        is_answer(val, content),
        0 <= i < content.len(),
    ensures
        block_text(content[i]) matches Some(t) ==> (value_event(val, line) matches EventView::Text(
            all,
        ) && text::contains(all, t)),
        !(value_event(val, line) is Text) ==> value_event(val, line) == EventView::Stderr(
            Seq::empty(),
        ),
{
    lemma_line_kinds_differ();
    let f = |x: JsonView| block_text(x);
    let parts = seqs::filter_map(content, f);
    seqs::law_filter_map_has_what_is_made(content, f, i);
    if let Some(t) = block_text(content[i]) {
        assert(f(content[i]) == Some(t));
        let k = choose|k: int| 0 <= k < parts.len() && parts[k] == t;
        text::law_join_has_every_part(parts, "\n"@, k);
    }
}

proof fn lemma_start_is_contained(all: Seq<char>, head: Seq<char>, tail: Seq<char>)
    requires
        text::contains(all, head + tail),
    ensures
        text::contains(all, head),
{
    let whole = head + tail;
    let at = choose|at: int| text::found_at(all, whole, at);
    let found = all.subrange(at, at + whole.len());
    assert(found == whole);
    assert forall|i: int| 0 <= i < head.len() implies all[at + i] == #[trigger] head[i] by {
        assert(found[i] == whole[i]);
    }
    assert(all.subrange(at, at + head.len()) =~= head);
    assert(text::found_at(all, head, at));
}

/// What a line means hangs on its type: the name of the conversation comes with the line that
/// begins it, a request asks for permission, a result ends the turn. No other line does any of
/// these.
pub proof fn law_what_a_line_is_for(val: JsonView, line: Seq<char>)
    requires
        json::reads_as(line, val),
    ensures
        line_event(line) == value_event(val, line),
        line_event(line) is PermissionNeeded <==> val.text_at("type"@) == Some(
            "control_request"@,
        ),
        line_event(line) is Done <==> val.text_at("type"@) == Some("result"@),
        line_event(line) is SessionId <==> val.text_at("type"@) == Some("system"@) && val.text_at(
            "subtype"@,
        ) == Some("init"@) && val.text_at("session_id"@) is Some,
        line_event(line) matches EventView::SessionId(sid) ==> val.text_at("session_id"@) == Some(
            sid,
        ),
        line_event(line) matches EventView::Text(t) ==> val.text_at("type"@) == Some("assistant"@)
            || val.text_at("type"@) == Some("tool_result"@),
        val.text_at("type"@) == Some("user"@) || val.text_at("type"@) == Some("rate_limit_event"@)
            ==> line_event(line) == EventView::Stderr(Seq::empty()),
        val.text_at("type"@) == Some("stream_event"@) ==> line_event(line) == EventView::Stderr(
            " "@,
        ),
{
    lemma_line_kinds_differ();
    reveal_strlit("init");
    assert("init"@.len() == 4);
}

/// The end of a turn tells its cost where it is given as a number: the total, and only where
/// there is no total the other figure.
pub proof fn law_the_end_of_a_turn_has_its_cost(
    val: JsonView,
    line: Seq<char>,
    n: serde_json::Number,
)
    requires
        val.text_at("type"@) == Some("result"@),
    ensures
        val.get("total_cost_usd"@) == Some(JsonView::Number(n)) ==> value_event(val, line)
            == (EventView::Done { cost: Some(n) }),
        val.get("total_cost_usd"@) is None && val.get("cost_usd"@) == Some(JsonView::Number(n))
            ==> value_event(val, line) == (EventView::Done { cost: Some(n) }),
        val.get("total_cost_usd"@) is None && val.get("cost_usd"@) is None ==> value_event(
            val,
            line,
        ) == (EventView::Done { cost: None }),
{
    lemma_line_kinds_differ();
}

/// A result of a tool on a line of its own shows its content, or its output where it has no
/// content.
pub proof fn law_results_of_tools_are_shown(val: JsonView, line: Seq<char>, t: Seq<char>)
    requires
        val.text_at("type"@) == Some("tool_result"@),
        t.len() > 0,
    ensures
        val.text_at("content"@) == Some(t) ==> value_event(val, line) == EventView::Text(
            "[tool_result] "@ + t,
        ),
        val.text_at("content"@) is None && val.text_at("output"@) == Some(t) ==> value_event(
            val,
            line,
        ) == EventView::Text("[tool_result] "@ + t),
        val.text_at("content"@) is None && val.text_at("output"@) is None ==> value_event(val, line)
            == EventView::Stderr("[tool_result: empty]"@),
{
    lemma_line_kinds_differ();
}

/// A line that is not understood is not lost: it is shown as an error with its start, or with the
/// type that nobody knows.
pub proof fn law_lines_not_understood_are_told(val: JsonView, line: Seq<char>, kind: Seq<char>)
    ensures
        json::parsed_json(line) is Err && line.len() <= 200 ==> line_event(line)
            == EventView::Stderr("[raw] "@ + line),
        json::parsed_json(line) is Err && line.len() > 200 ==> line_event(line)
            == EventView::Stderr("[raw] "@ + line.take(200)),
        val.text_at("type"@) is None && line.len() <= 200 ==> value_event(val, line)
            == EventView::Stderr("[no type field] "@ + line),
        val.text_at("type"@) is None && line.len() > 200 ==> value_event(val, line)
            == EventView::Stderr("[no type field] "@ + line.take(200)),
        val.text_at("type"@) == Some(kind) && kind != "system"@ && kind != "assistant"@ && kind
            != "control_request"@ && kind != "result"@ && kind != "tool_result"@ && kind
            != "stream_event"@ && kind != "user"@ && kind != "rate_limit_event"@ ==> value_event(
            val,
            line,
        ) == EventView::Stderr("[unhandled: "@ + kind + "]"@),
        val.text_at("type"@) == Some("assistant"@) && !(val.get_in("message"@, "content"@) matches
            Some(JsonView::Array(_))) ==> value_event(val, line) == EventView::Stderr(
            "[assistant message with no content]"@,
        ),
        val.text_at("type"@) == Some("system"@) && val.text_at("subtype"@) == Some(kind) && (kind
            != "init"@ || val.text_at("session_id"@) is None) ==> value_event(val, line)
            == EventView::Stderr("[system/"@ + kind + "]"@),
{
    lemma_line_kinds_differ();
}

/// A request for permission is taken as it was made: its name, its tool, and its input, which is
/// also what is shown of it. What stands in the request itself goes before what stands in its
/// tool.
pub proof fn law_requests_are_taken_as_made(val: JsonView, line: Seq<char>)
    requires
        val.text_at("type"@) == Some("control_request"@),
    ensures
        value_event(val, line) matches EventView::PermissionNeeded(req) && {
            let tool = val.get_in("request"@, "tool"@);
            &&& val.text_at("request_id"@) matches Some(id) ==> req.request_id == id
            &&& val.text_at("request_id"@) is None ==> req.request_id.len() == 0
            &&& val.get_in("request"@, "tool_name"@) matches Some(JsonView::Text(name))
                ==> req.tool_name == name
            &&& val.get_in("request"@, "tool_name"@) is None ==> (tool matches Some(t) ==> (
            t.text_at("name"@) matches Some(name) ==> req.tool_name == name))
            &&& val.get_in("request"@, "tool_name"@) is None && tool is None ==> req.tool_name
                == "unknown"@
            &&& val.get_in("request"@, "input"@) matches Some(input) ==> req.raw_input == Some(
                input,
            )
            &&& val.get_in("request"@, "input"@) is None ==> (tool matches Some(t)
                ==> req.raw_input == t.get("input"@))
            &&& val.get_in("request"@, "input"@) is None && tool is None ==> req.raw_input is None
            &&& req.raw_input matches Some(input) ==> req.input_preview == json::pretty_json(input)
            &&& req.raw_input is None ==> req.input_preview.len() == 0
            &&& req.tool_name != "AskUserQuestion"@ ==> req.questions.len() == 0
        },
{
    lemma_line_kinds_differ();
}

/// Whether these options are offered by a question, one for one.
pub open spec fn offers(shown: Seq<OptionView>, options: Seq<JsonView>) -> bool {
    shown.len() == options.len() && forall|k: int|
        0 <= k < options.len() ==> {
            &&& options[k].text_at("label"@) == Some((#[trigger] shown[k]).label)
            &&& options[k].text_at("description"@) matches Some(d) ==> shown[k].description == d
            &&& options[k].text_at("description"@) is None ==> shown[k].description.len() == 0
        }
}

/// The questions of a request are asked in their order, each with its text, its header and all
/// its options; one that has no text, or an option that has no label, is passed over.
pub proof fn law_questions_are_asked(
    input: JsonView,
    items: Seq<JsonView>,
    i: int,
    options: Seq<JsonView>,
)
    requires
        input.get("questions"@) == Some(JsonView::Array(items)),
        0 <= i < items.len(),
        items[i].get("options"@) == Some(JsonView::Array(options)),
    ensures
        (forall|k: int| 0 <= k < items.len() ==> (#[trigger] items[k]).text_at("question"@) is Some)
            ==> {
            let asked = questions_of(Some(input));
            &&& asked.len() == items.len()
            &&& items[i].text_at("question"@) == Some(asked[i].question)
            &&& items[i].text_at("header"@) matches Some(h) ==> asked[i].header == h
            &&& items[i].text_at("header"@) is None ==> asked[i].header.len() == 0
            &&& asked[i].multi_select == items[i].flag_at("multiSelect"@)
            &&& (forall|k: int|
                0 <= k < options.len() ==> (#[trigger] options[k]).text_at("label"@) is Some)
                ==> offers(asked[i].options, options)
        },
{
    let f = |q: JsonView| question_of(q);
    let g = |o: JsonView| option_of(o);
    if forall|k: int| 0 <= k < items.len() ==> (#[trigger] items[k]).text_at("question"@) is Some {
        assert forall|k: int| 0 <= k < items.len() implies f(#[trigger] items[k]) is Some by {}
        seqs::law_filter_map_keeps_the_places(items, f, i);
        let asked = questions_of(Some(input));
        if forall|k: int|
            0 <= k < options.len() ==> (#[trigger] options[k]).text_at("label"@) is Some {
            assert forall|k: int| 0 <= k < options.len() implies g(#[trigger] options[k]) is Some by {}
            let shown = asked[i].options;
            assert(shown == seqs::filter_map(options, g));
            assert(shown.len() == options.len()) by {
                if options.len() > 0 {
                    seqs::law_filter_map_keeps_the_places(options, g, 0);
                }
            }
            assert forall|k: int| 0 <= k < options.len() implies {
                &&& options[k].text_at("label"@) == Some((#[trigger] shown[k]).label)
                &&& options[k].text_at("description"@) matches Some(d) ==> shown[k].description == d
                &&& options[k].text_at("description"@) is None ==> shown[k].description.len() == 0
            } by {
                seqs::law_filter_map_keeps_the_places(options, g, k);
            }
        }
    }
}

/// Questions that follow one another in the input follow one another when they are asked.
pub proof fn law_questions_go_one_by_one(
    input_a: JsonView,
    a: Seq<JsonView>,
    input_b: JsonView,
    b: Seq<JsonView>,
    input: JsonView,
)
    requires
        input_a.get("questions"@) == Some(JsonView::Array(a)),
        input_b.get("questions"@) == Some(JsonView::Array(b)),
        input.get("questions"@) == Some(JsonView::Array(a + b)),
    ensures
        questions_of(Some(input)) == questions_of(Some(input_a)) + questions_of(Some(input_b)),
        a.len() == 1 && a[0].text_at("question"@) is None ==> questions_of(Some(input_a)).len()
            == 0,
        a.len() == 1 && a[0].text_at("question"@) is Some ==> questions_of(Some(input_a)).len()
            == 1,
{
    let f = |q: JsonView| question_of(q);
    seqs::law_filter_map_goes_part_by_part(a, b, input, f);
    if a.len() == 1 {
        assert(a == seq![a[0]]);
        seqs::law_filter_map_goes_part_by_part(a, b, a[0], f);
    }
}

/// The tool that asks questions has its questions asked.
pub proof fn law_the_asking_tool_asks(val: JsonView, line: Seq<char>, input: JsonView)
    requires
        val.text_at("type"@) == Some("control_request"@),
        val.get_in("request"@, "tool_name"@) == Some(JsonView::Text("AskUserQuestion"@)),
        val.get_in("request"@, "input"@) == Some(input),
    ensures
        value_event(val, line) matches EventView::PermissionNeeded(req) && req.questions
            == questions_of(Some(input)),
{
    lemma_line_kinds_differ();
}

/// Whether a message hands a prompt to the conversation of that name, unchanged.
pub open spec fn hands_over(m: JsonView, prompt: Seq<char>, session_id: Seq<char>) -> bool {
    &&& m.text_at("type"@) == Some("user"@)
    &&& m.get_in("message"@, "role"@) == Some(JsonView::Text("user"@))
    &&& m.get_in("message"@, "content"@) == Some(JsonView::Text(prompt))
    &&& m.text_at("session_id"@) == Some(session_id)
    &&& m.get("parent_tool_use_id"@) == Some(JsonView::Null)
}

/// Whether a line is a prompt on its way to the conversation of that name.
pub open spec fn is_prompt_line(line: Seq<char>, prompt: Seq<char>, session_id: Seq<char>) -> bool {
    exists|m: JsonView|
        line == json::compact_json(m).push('\n') && #[trigger] hands_over(m, prompt, session_id)
}

/// What is sent of a prompt is a line that hands the whole prompt over, to the conversation that
/// it is for.
pub proof fn law_prompts_are_handed_over(prompt: Seq<char>, session_id: Seq<char>)
    ensures
        hands_over(prompt_message(prompt, Some(session_id)), prompt, session_id),
        hands_over(prompt_message(prompt, None), prompt, "default"@),
        is_prompt_line(prompt_sent(prompt, Some(session_id)).line, prompt, session_id),
{
    reveal_strlit("type");
    reveal_strlit("message");
    reveal_strlit("session_id");
    reveal_strlit("parent_tool_use_id");
    reveal_strlit("role");
    reveal_strlit("content");
    assert("type"@.len() == 4);
    assert("message"@.len() == 7);
    assert("session_id"@.len() == 10);
    assert("parent_tool_use_id"@.len() == 18);
    assert("role"@.len() == 4);
    assert("content"@.len() == 7);
    assert(hands_over(prompt_message(prompt, Some(session_id)), prompt, session_id));
}

/// Whether a message answers the request of that name, and how: an allowed tool gets its input
/// back, a denied one is told why.
pub open spec fn answers(
    m: JsonView,
    request_id: Seq<char>,
    allow: bool,
    input: JsonView,
    reason: Seq<char>,
) -> bool {
    &&& m.text_at("type"@) == Some("control_response"@)
    &&& m.get_in("response"@, "subtype"@) == Some(JsonView::Text("success"@))
    &&& m.get_in("response"@, "request_id"@) == Some(JsonView::Text(request_id))
    &&& m.get_in("response"@, "response"@) matches Some(r) && {
        &&& allow ==> r.text_at("behavior"@) == Some("allow"@)
        &&& allow ==> r.get("updatedInput"@) == Some(input)
        &&& allow ==> r.get("updatedPermissions"@) == Some(JsonView::Array(Seq::empty()))
        &&& !allow ==> r.text_at("behavior"@) == Some("deny"@)
        &&& !allow ==> r.text_at("message"@) == Some(reason)
    }
}

/// Whether a line is the answer to the request of that name.
pub open spec fn is_answer_line(
    line: Seq<char>,
    request_id: Seq<char>,
    allow: bool,
    input: JsonView,
    reason: Seq<char>,
) -> bool {
    exists|m: JsonView|
        line == json::compact_json(m).push('\n') && #[trigger] answers(
            m,
            request_id,
            allow,
            input,
            reason,
        )
}

/// What is sent to answer a request is a line that answers that request: it allows exactly where
/// the user allowed. Without an input an allowed tool gets an empty object, and without a reason
/// a denied one is told that the user denied it.
pub proof fn law_requests_are_answered(
    request_id: Seq<char>,
    allow: bool,
    updated_input: Option<JsonView>,
    deny_message: Option<Seq<char>>,
)
    ensures
        ({
            let input = match updated_input {
                Some(input) => input,
                None => JsonView::Object(Map::empty()),
            };
            let reason = match deny_message {
                Some(reason) => reason,
                None => "User denied this action"@,
            };
            &&& answers(
                permission_message(request_id, allow, updated_input, deny_message),
                request_id,
                allow,
                input,
                reason,
            )
            &&& is_answer_line(
                permission_sent(request_id, allow, updated_input, deny_message).line,
                request_id,
                allow,
                input,
                reason,
            )
        }),
{
    reveal_strlit("type");
    reveal_strlit("response");
    reveal_strlit("subtype");
    reveal_strlit("request_id");
    reveal_strlit("behavior");
    reveal_strlit("updatedInput");
    reveal_strlit("updatedPermissions");
    reveal_strlit("message");
    assert("type"@.len() == 4);
    assert("response"@.len() == 8);
    assert("subtype"@.len() == 7);
    assert("request_id"@.len() == 10);
    assert("behavior"@.len() == 8);
    assert("updatedInput"@.len() == 12);
    assert("updatedPermissions"@.len() == 18);
    assert("message"@.len() == 7);
    let m = permission_message(request_id, allow, updated_input, deny_message);
    let input = match updated_input {
        Some(input) => input,
        None => JsonView::Object(Map::empty()),
    };
    let reason = match deny_message {
        Some(reason) => reason,
        None => "User denied this action"@,
    };
    assert(answers(m, request_id, allow, input, reason));
}

/// A process is started to read and write the stream, and asks for permission there; its last two
/// arguments name the conversation, which is resumed or begun.
pub proof fn law_arguments_of_the_process(session_id: Seq<char>, is_resume: bool)
    ensures
        ({
            let args = process_args(session_id, is_resume);
            &&& args.len() == 10
            &&& args[0] == "-p"@
            &&& args[1] == "--output-format"@ && args[2] == "stream-json"@
            &&& args[3] == "--input-format"@ && args[4] == "stream-json"@
            &&& args[5] == "--verbose"@
            &&& args[6] == "--permission-prompt-tool"@ && args[7] == "stdio"@
            &&& is_resume ==> args[8] == "--resume"@
            &&& !is_resume ==> args[8] == "--session-id"@
            &&& args[9] == session_id
        }),
{
}

/// A line that is JSON leaves its type and its start in the debug log; any other leaves nothing
/// there.
pub proof fn law_the_stream_is_logged(line: Seq<char>, val: JsonView)
    requires
        text::trim(line).len() > 0,
    ensures
        json::parsed_json(line) is Err ==> output_line(line)->0.log is None,
        json::reads_as(line, val) ==> (output_line(line)->0.log matches Some(log) && {
            let head = "[stream] type="@ + val.text_or("type"@, "?"@) + " sub="@ + val.text_or(
                "subtype"@,
                Seq::empty(),
            );
            &&& line.len() <= 200 ==> log == head + (" | "@ + line)
            &&& line.len() > 200 ==> log == head + (" | "@ + line.take(200))
        }),
{
}

/// A line of the standard error comes through whole, unless it is empty.
pub proof fn law_error_lines_come_through(line: Seq<char>)
    ensures
        line.len() > 0 ==> error_line(line) == Some(EventView::Stderr(line)),
        line.len() == 0 ==> error_line(line) is None,
{
}

/// What is sent is logged with its start; and it is logged as a warning that an allowed tool had no
/// input.
pub proof fn law_what_is_sent_is_logged(
    prompt: Seq<char>,
    session_id: Option<Seq<char>>,
    request_id: Seq<char>,
    allow: bool,
    input: Option<JsonView>,
    reason: Option<Seq<char>>,
)
    ensures
        ({
            let out = prompt_sent(prompt, session_id);
            let sent = out.line.drop_last();
            &&& out.logs.len() == 1
            &&& sent.len() <= 200 ==> out.logs[0] == "[send_prompt] "@ + sent
            &&& sent.len() > 200 ==> out.logs[0] == "[send_prompt] "@ + sent.take(200)
        }),
        ({
            let out = permission_sent(request_id, allow, input, reason);
            let sent = out.line.drop_last();
            &&& out.logs.len() == (if allow && input is None {
                2int
            } else {
                1
            })
            &&& sent.len() <= 300 ==> out.logs.last() == "[ctrl_resp] "@ + sent
            &&& sent.len() > 300 ==> out.logs.last() == "[ctrl_resp] "@ + sent.take(300)
        }),
{
    let a = prompt_sent(prompt, session_id);
    assert(a.line.drop_last() =~= json::compact_json(prompt_message(prompt, session_id)));
    let b = permission_sent(request_id, allow, input, reason);
    assert(b.line.drop_last() =~= json::compact_json(
        permission_message(request_id, allow, input, reason),
    ));
}

/// A line holds one message at most: it ends with its only line feed, and what stands before it
/// reads as the message.
pub proof fn law_a_line_holds_one_message(line: Seq<char>, a: JsonView, b: JsonView, i: int)
    requires
        line_holds(line, a),
    ensures
        line.len() > 0 && line.last() == '\n',
        0 <= i < line.len() - 1 ==> line[i] != '\n',
        json::parsed_json(line.drop_last()) == Ok::<JsonView, Seq<char>>(a),
        line_holds(line, b) ==> a == b,
{
    if 0 <= i < line.len() - 1 {
        assert(line.drop_last()[i] == line[i]);
        assert(line.drop_last().contains(line.drop_last()[i]));
    }
}

/// A question that offers nothing has no options, and an option without a label is not offered.
pub proof fn law_questions_without_options(q: JsonView, items: Seq<JsonView>)
    ensures
        !(q.get("options"@) matches Some(JsonView::Array(_))) ==> options_of(q).len() == 0,
        q.get("options"@) == Some(JsonView::Array(items)) && (forall|k: int|
            0 <= k < items.len() ==> (#[trigger] items[k]).text_at("label"@) is None) ==> options_of(
            q,
        ).len() == 0,
        questions_of(None).len() == 0,
{
    let g = |o: JsonView| option_of(o);
    if q.get("options"@) == Some(JsonView::Array(items)) && items.len() > 0 && (forall|k: int|
        0 <= k < items.len() ==> (#[trigger] items[k]).text_at("label"@) is None) {
        assert forall|k: int| 0 <= k < items.len() implies g(#[trigger] items[k]) is None by {}
        seqs::law_filter_map_has_what_is_made(items, g, 0);
    }
}

}
