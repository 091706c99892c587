//! A session: what it shows, what it waits for, and how the events of its process move it.
use vstd::prelude::*;

use crate::claude::{
    send_prompt_to_process, spawn_session_process, Assistant, AssistantView, EventView,
    PermissionRequest, RequestView, Spawn, SpawnView, StreamEvent,
};
use crate::claude;
use crate::cursor;
use crate::json::JsonView;
use crate::seqs;
use crate::text;
use crate::text::{
    begins, cat2, cat3, cat4, decimal_of, lines_of, padded_end, repeat_char, trimmed,
    truncate_chars,
};

verus! {

/// How long a running session may be silent: two minutes, in nanoseconds.
pub const WATCHDOG: u64 = 120_000_000_000;

/// State of a session
pub enum SessionState {
    Idle,
    Running,
    AwaitingPermission(PermissionRequest),
}

/// A single session running in a tile.
///
/// Moments are nanoseconds since the program started. Of the process the session knows whether
/// its input, its handle and its events are at hand.
pub struct ClaudeSession {
    pub id: usize,
    /// Who the session talks to
    pub assistant: Assistant,
    pub session_id: Option<String>,
    pub input_buf: String,
    /// In bytes, between two characters of `input_buf`.
    pub cursor_pos: usize,
    pub output_lines: Vec<String>,
    pub scroll_offset: u16,
    pub state: SessionState,
    pub prompt_count: u32,
    pub title: String,
    pub rain_tick: u64,
    pub process_stdin: bool,
    pub process_child: bool,
    pub event_rx: bool,
    /// Moment of the last event received, for the watchdog
    pub last_event_time: Option<u64>,
    /// A prompt queued while the session is busy (sent automatically when idle)
    pub queued_prompt: Option<String>,
    /// Where the process works, if not in the directory of the program
    pub workdir: Option<String>,
    pub auto_accept_permissions: bool,
    pub slash_popup_visible: bool,
    pub slash_popup_selected: usize,
    /// How many output rows the last frame had, for the limits of scrolling
    pub last_output_visible: u16,
}

#[verifier::ext_equal]
pub enum StateView {
    Idle,
    Running,
    AwaitingPermission(RequestView),
}

#[verifier::ext_equal]
pub struct SessionView {
    pub id: usize,
    pub assistant: AssistantView,
    pub session_id: Option<Seq<char>>,
    pub input_buf: Seq<char>,
    pub cursor_pos: int,
    pub output_lines: Seq<Seq<char>>,
    pub scroll_offset: u16,
    pub state: StateView,
    pub prompt_count: int,
    pub title: Seq<char>,
    pub rain_tick: u64,
    pub process_stdin: bool,
    pub process_child: bool,
    pub event_rx: bool,
    pub last_event_time: Option<u64>,
    pub queued_prompt: Option<Seq<char>>,
    pub workdir: Option<Seq<char>>,
    pub auto_accept_permissions: bool,
    pub slash_popup_visible: bool,
    pub slash_popup_selected: int,
    pub last_output_visible: u16,
}

impl DeepView for SessionState {
    type V = StateView;

    open spec fn deep_view(&self) -> StateView {
        match self {
            SessionState::Idle => StateView::Idle,
            SessionState::Running => StateView::Running,
            SessionState::AwaitingPermission(req) => StateView::AwaitingPermission(req.deep_view()),
        }
    }
}

impl View for ClaudeSession {
    type V = SessionView;

    open spec fn view(&self) -> SessionView {
        SessionView {
            id: self.id,
            assistant: self.assistant@,
            session_id: self.session_id.deep_view(),
            input_buf: self.input_buf@,
            cursor_pos: self.cursor_pos as int,
            output_lines: text::texts(self.output_lines@),
            scroll_offset: self.scroll_offset,
            state: self.state.deep_view(),
            prompt_count: self.prompt_count as int,
            title: self.title@,
            rain_tick: self.rain_tick,
            process_stdin: self.process_stdin,
            process_child: self.process_child,
            event_rx: self.event_rx,
            last_event_time: self.last_event_time,
            queued_prompt: self.queued_prompt.deep_view(),
            workdir: self.workdir.deep_view(),
            auto_accept_permissions: self.auto_accept_permissions,
            slash_popup_visible: self.slash_popup_visible,
            slash_popup_selected: self.slash_popup_selected as int,
            last_output_visible: self.last_output_visible,
        }
    }
}

/// What `StreamEvent::Done` and the other events make of a session.
#[verifier::ext_equal]
pub struct ReceivedView {
    pub session: SessionView,
    pub logs: Seq<Seq<char>>,
    pub send: Option<Seq<char>>,
    pub stop: bool,
}

pub open spec fn session_tag(id: int) -> Seq<char> {
    "[session "@ + text::decimal(id as nat) + "] "@
}

/// The lines that greet the user, in a box of forty columns.
pub open spec fn banner(assistant: Seq<char>) -> Seq<Seq<char>> {
    seq![
        "╔══════════════════════════════════════╗"@,
        "║"@ + text::pad_end("   "@ + assistant + " Session - ready"@, 38) + "║"@,
        "║   Type a prompt and press Enter      ║"@,
        "╚══════════════════════════════════════╝"@,
        Seq::empty(),
    ]
}

impl StateView {
    /// The word for a state in the messages to clients.
    pub open spec fn word(self) -> Seq<char> {
        match self {
            StateView::Idle => "idle"@,
            StateView::Running => "running"@,
            StateView::AwaitingPermission(_) => "permission"@,
        }
    }

    /// A request that asks questions carries an object to put the answers into.
    pub open spec fn wf(self) -> bool {
        match self {
            StateView::AwaitingPermission(req) => request_wf(req),
            _ => true,
        }
    }
}

pub open spec fn request_wf(req: RequestView) -> bool {
    req.questions.len() > 0 ==> req.raw_input matches Some(JsonView::Object(_))
}

pub open spec fn event_wf(event: EventView) -> bool {
    match event {
        EventView::PermissionNeeded(req) => request_wf(req),
        _ => true,
    }
}

impl SessionView {
    /// The cursor lies between two characters, and a request with questions can be answered.
    pub open spec fn wf(self) -> bool {
        cursor::on_boundary(self.input_buf, self.cursor_pos) && self.state.wf()
    }

    pub open spec fn new(id: usize, assistant: AssistantView) -> SessionView {
        SessionView {
            id,
            assistant,
            session_id: None,
            input_buf: Seq::empty(),
            cursor_pos: 0,
            output_lines: banner(assistant.name),
            scroll_offset: 0,
            state: StateView::Idle,
            prompt_count: 0,
            title: "Session "@ + text::decimal(id as nat),
            rain_tick: 0,
            process_stdin: false,
            process_child: false,
            event_rx: false,
            last_event_time: None,
            queued_prompt: None,
            workdir: None,
            auto_accept_permissions: false,
            slash_popup_visible: false,
            slash_popup_selected: 0,
            last_output_visible: 0,
        }
    }

    pub open spec fn is_running(self) -> bool {
        self.state is Running || self.state is AwaitingPermission
    }

    pub open spec fn said(self, line: Seq<char>) -> SessionView {
        SessionView { output_lines: self.output_lines.push(line), ..self }
    }

    pub open spec fn idle(self) -> SessionView {
        SessionView { state: StateView::Idle, last_event_time: None, ..self }
    }

    /// Idle, and without a process.
    pub open spec fn forced_idle(self) -> SessionView {
        SessionView {
            state: StateView::Idle,
            last_event_time: None,
            process_stdin: false,
            event_rx: false,
            process_child: false,
            ..self
        }
    }

    /// Whether there is a live process that messages can be sent to.
    pub open spec fn has_process(self) -> bool {
        self.process_stdin && self.event_rx
    }

    /// Idle again, with the process kept for the next prompt; where it is gone, nothing of it is
    /// left.
    pub open spec fn cancelled(self) -> SessionView {
        (if self.has_process() {
            self.idle()
        } else {
            self.forced_idle()
        }).said("  [cancelled by user]"@)
    }

    /// Without a process, and with no change but that.
    pub open spec fn killed(self) -> SessionView {
        SessionView {
            state: StateView::Idle,
            process_stdin: false,
            event_rx: false,
            process_child: false,
            ..self
        }
    }

    /// The session that a prompt is about to be sent from; a first prompt names the conversation.
    pub open spec fn prompted(self, prompt: Seq<char>, now: u64, fresh: Seq<char>) -> SessionView {
        SessionView {
            state: StateView::Running,
            prompt_count: self.prompt_count + 1,
            rain_tick: 0,
            last_event_time: Some(now),
            output_lines: self.output_lines.push("▸ "@ + prompt).push(Seq::empty()),
            session_id: Some(
                match self.session_id {
                    Some(sid) => sid,
                    None => fresh,
                },
            ),
            ..self
        }
    }

    /// The session after a request was answered: it runs on.
    pub open spec fn answering(self, now: u64) -> SessionView {
        SessionView { state: StateView::Running, last_event_time: Some(now), ..self }
    }

    /// What the debug log says of a text from the assistant: its tools and their results.
    pub open spec fn text_logs(self, t: Seq<char>) -> Seq<Seq<char>> {
        seqs::filter_map(text::lines(t), |line: Seq<char>| tool_log(self.id, line))
    }

    /// The output with a text from the assistant, line by line.
    pub open spec fn shown(self, t: Seq<char>) -> SessionView {
        SessionView {
            output_lines: self.output_lines + text::lines(t).map_values(
                |line: Seq<char>| "  "@ + line,
            ),
            scroll_offset: 0,
            ..self
        }
    }

    /// The session with its queued prompt on its way.
    pub open spec fn queue_sent(self, now: u64, fresh: Seq<char>) -> SessionView {
        SessionView { queued_prompt: None, ..self }.prompted(self.queued_prompt->0, now, fresh)
    }

    /// What the end of a turn makes of a session: a queued prompt follows where there is one.
    pub open spec fn turn_over(self, now: u64, fresh: Seq<char>) -> ReceivedView {
        let shown = SessionView { scroll_offset: 0, ..self.said(Seq::empty()) };
        match self.queued_prompt {
            None => ReceivedView {
                session: shown.idle(),
                logs: Seq::empty(),
                send: None,
                stop: false,
            },
            Some(queued) => {
                let log = session_tag(self.id as int) + "Sending queued prompt: "@
                    + text::first_chars(queued, 80);
                let sent = shown.queue_sent(now, fresh);
                if self.process_stdin {
                    let out = claude::prompt_sent(queued, sent.session_id);
                    ReceivedView {
                        session: sent,
                        logs: seq![log] + out.logs,
                        send: Some(out.line),
                        stop: false,
                    }
                } else {
                    ReceivedView {
                        session: sent.idle(),
                        logs: seq![log],
                        send: None,
                        stop: false,
                    }
                }
            },
        }
    }

    /// The session as an event finds it: everything but an empty error line wakes the watchdog.
    pub open spec fn woken(self, event: EventView, now: u64) -> SessionView {
        if event == EventView::Stderr(Seq::empty()) {
            self
        } else {
            SessionView { last_event_time: Some(now), ..self }
        }
    }

    /// What an event of the process makes of a session.
    pub open spec fn received(self, event: EventView, now: u64, fresh: Seq<char>) -> ReceivedView {
        let s = self.woken(event, now);
        let tag = session_tag(self.id as int);
        match event {
            EventView::Text(t) => ReceivedView {
                session: s.shown(t),
                logs: s.text_logs(t),
                send: None,
                stop: false,
            },
            EventView::SessionId(sid) => ReceivedView {
                session: SessionView { session_id: Some(sid), ..s },
                logs: seq![tag + "Got session ID: "@ + sid],
                send: None,
                stop: false,
            },
            EventView::PermissionNeeded(req) => ReceivedView {
                session: SessionView { state: StateView::AwaitingPermission(req), ..s },
                logs: seq![permission_log(self.id as int, req)],
                send: None,
                stop: false,
            },
            EventView::Done { cost } => s.turn_over(now, fresh),
            EventView::Stderr(line) => if text::trim(line).len() == 0 {
                ReceivedView { session: s, logs: Seq::empty(), send: None, stop: false }
            } else {
                ReceivedView {
                    session: s.said("  [stderr] "@ + line),
                    logs: seq![tag + "stderr: "@ + text::first_chars(line, 150)],
                    send: None,
                    stop: false,
                }
            },
            EventView::ProcessExited => ReceivedView {
                session: s.forced_idle(),
                logs: seq![tag + "Process exited"@],
                send: None,
                stop: true,
            },
        }
    }

    /// What a step of reading the events makes of a session; `got_any` says whether there was one.
    pub open spec fn drained(
        self,
        poll: PollView,
        got_any: bool,
        now: u64,
        fresh: Seq<char>,
    ) -> DrainView {
        let name = "[error] Session "@ + text::decimal(self.id as nat);
        match poll {
            PollView::Start => if self.event_rx {
                DrainView { session: self, logs: Seq::empty(), send: None, over: None }
            } else if self.state is Idle {
                DrainView { session: self, logs: Seq::empty(), send: None, over: Some(false) }
            } else {
                DrainView {
                    session: self.forced_idle().said("  [process ended unexpectedly]"@),
                    logs: seq![name + " process ended unexpectedly"@],
                    send: None,
                    over: Some(true),
                }
            },
            PollView::Event(event) => {
                let r = self.received(event, now, fresh);
                DrainView {
                    session: r.session,
                    logs: r.logs,
                    send: r.send,
                    over: if r.stop {
                        Some(true)
                    } else {
                        None
                    },
                }
            },
            PollView::SendFailed(error) => DrainView {
                session: self.said("  [error] "@ + error).idle(),
                logs: seq![session_tag(self.id as int) + "Queued send error: "@ + error],
                send: None,
                over: None,
            },
            PollView::Disconnected => DrainView {
                session: self.forced_idle(),
                logs: seq![name + " channel disconnected"@],
                send: None,
                over: Some(true),
            },
            PollView::Empty => if self.stuck(now) {
                DrainView {
                    session: self.timed_out(),
                    logs: seq![name + " timed out (2 min no events)"@],
                    send: None,
                    over: Some(true),
                }
            } else {
                DrainView { session: self, logs: Seq::empty(), send: None, over: Some(got_any) }
            },
        }
    }

    /// Whether the session has run for more than two minutes without an event.
    pub open spec fn stuck(self, now: u64) -> bool {
        self.state is Running && (self.last_event_time matches Some(last) && now - last > WATCHDOG)
    }

    /// The session that the watchdog has stopped.
    pub open spec fn timed_out(self) -> SessionView {
        self.said("  [timed out — no response for 2 min, press Esc to cancel]"@).forced_idle()
    }

    /// How a prompt gets to the assistant. A conversation that has had a prompt before is resumed.
    pub open spec fn prompt_plan(self, prompt: Seq<char>, now: u64, fresh: Seq<char>) -> PlanView {
        let after = self.prompted(prompt, now, fresh);
        let out = claude::prompt_sent(prompt, after.session_id);
        PlanView {
            spawn: if self.has_process() {
                None
            } else {
                Some(
                    SpawnView {
                        program: self.assistant.program,
                        args: claude::process_args(after.session_id->0, self.prompt_count > 0),
                        workdir: self.workdir,
                    },
                )
            },
            line: out.line,
            logs: out.logs,
        }
    }

    /// The session with a process that was started for it.
    pub open spec fn attached(self) -> SessionView {
        SessionView { process_stdin: true, process_child: true, event_rx: true, ..self }
    }

    /// The session whose prompt could not be sent.
    pub open spec fn undelivered(self, error: Seq<char>) -> SessionView {
        self.said("  [error] "@ + error).idle()
    }

    /// The session one tick later; after the last number the ticks begin anew.
    pub open spec fn ticked(self) -> SessionView {
        SessionView {
            rain_tick: ((self.rain_tick + 1) % 0x1_0000_0000_0000_0000) as u64,
            ..self
        }
    }

    /// Where the process works, given the directory of the program.
    pub open spec fn effective_cwd(self, program_dir: Seq<char>) -> Seq<char> {
        match self.workdir {
            Some(dir) => dir,
            None => program_dir,
        }
    }
}

/// What the debug log says of a line from the assistant, where it is about a tool.
pub open spec fn tool_log(id: usize, line: Seq<char>) -> Option<Seq<char>> {
    if text::starts_with(line, "[tool_use: "@) {
        Some(session_tag(id as int) + line)
    } else if text::starts_with(line, "[tool_result"@) {
        Some(session_tag(id as int) + text::first_chars(line, 120))
    } else {
        None
    }
}

pub open spec fn bool_word(b: bool) -> Seq<char> {
    if b {
        "true"@
    } else {
        "false"@
    }
}

/// What the debug log says of a request for permission.
pub open spec fn permission_log(id: int, req: RequestView) -> Seq<char> {
    (session_tag(id) + "Permission requested: "@ + req.tool_name) + (" (questions="@ + bool_word(
        req.questions.len() > 0,
    ) + ") input="@ + text::first_chars(req.input_preview, 120))
}

// ── A new conversation's name ──

pub open spec fn is_hex_lower(c: char) -> bool {
    '0' <= c <= '9' || 'a' <= c <= 'f'
}

/// A random UUID in its usual form.
pub open spec fn is_uuid_v4(s: Seq<char>) -> bool {
    &&& s.len() == 36
    &&& forall|i: int|
        0 <= i < 36 ==> if i == 8 || i == 13 || i == 18 || i == 23 {
            #[trigger] s[i] == '-'
        } else {
            is_hex_lower(s[i])
        }
    &&& s[14] == '4'
    &&& s[19] == '8' || s[19] == '9' || s[19] == 'a' || s[19] == 'b'
}

/// `uuid::Uuid::new_v4`, written out. Which UUID comes is left to chance; that it is one of
/// version 4, hyphenated and in lower case, always holds.
#[verifier::external_body]
fn new_uuid() -> (id: String)
    ensures
        is_uuid_v4(id@),
{
    uuid::Uuid::new_v4().to_string()
}

/// A name for a new conversation.
pub fn new_session_id() -> (id: String)
    ensures
        is_uuid_v4(id@),
{
    new_uuid()
}

// ── The rain ──

pub open spec fn drops() -> Seq<char> {
    "░▒▓│┃╎╏┆┇┊┋·:.⡀⠄⠂⠁⠈⠐⠠"@
}

pub open spec fn sparkles() -> Seq<char> {
    "⠁⠂⠄⡀⠈⠐⠠⢀⣀⢠⢐⢈⢁⢂⢄⣠"@
}

/// The sums in a frame of that width stay within a machine word.
pub open spec fn rain_fits(tick: u64, width: nat) -> bool {
    (tick * 7) % 0x1_0000_0000_0000_0000 + 26 + width * 31 <= u64::MAX && tick + 14 + width * 3
        <= u64::MAX
}

/// The character of the rain in a row and a column.
pub open spec fn rain_char(tick: u64, row: int, col: int) -> char {
    let hash = ((tick * 7) % 0x1_0000_0000_0000_0000 + row * 13 + col * 31) % 37;
    let phase = (tick + col * 3 + row * 7) % 20;
    if phase < 3 {
        drops()[((tick + col + row) as usize) as int % 21]
    } else if hash < 5 {
        sparkles()[((tick + col) as usize) as int % 16]
    } else {
        ' '
    }
}

pub open spec fn rain_row(tick: u64, row: int, width: nat) -> Seq<char> {
    Seq::new(width, |col: int| rain_char(tick, row, col))
}

pub open spec fn thinking(tick: u64) -> Seq<char> {
    "  ⟳ thinking"@ + text::pad_end(text::repeated('.', ((tick % 4) + 1) as nat), 4)
        + "  (Esc to cancel)"@
}

/// Three rows of rain, the message below them, and the prompt that waits.
pub open spec fn rain(tick: u64, width: nat, queued: Option<Seq<char>>) -> Seq<Seq<char>> {
    let frame = seq![
        rain_row(tick, 0, width),
        rain_row(tick, 1, width),
        rain_row(tick, 2, width),
        thinking(tick),
    ];
    match queued {
        Some(q) => frame.push("  ⏳ queued: "@ + text::first_chars(q, 40)),
        None => frame,
    }
}

fn rain_line(tick: u64, row: u64, width: usize) -> (line: String)
    requires
        row <= 2,
        rain_fits(tick, width as nat),
    ensures
        line@ == rain_row(tick, row as int, width as nat),
{
    let drops = "░▒▓│┃╎╏┆┇┊┋·:.⡀⠄⠂⠁⠈⠐⠠";
    let sparkles = "⠁⠂⠄⡀⠈⠐⠠⢀⣀⢠⢐⢈⢁⢂⢄⣠";
    proof {
        reveal_strlit("░▒▓│┃╎╏┆┇┊┋·:.⡀⠄⠂⠁⠈⠐⠠");
        reveal_strlit("⠁⠂⠄⡀⠈⠐⠠⢀⣀⢠⢐⢈⢁⢂⢄⣠");
    }
    let mut line = String::new();
    let mut c: usize = 0;
    while c < width
        invariant
            c <= width,
            row <= 2,
            rain_fits(tick, width as nat),
            drops@ == self::drops(),
            sparkles@ == self::sparkles(),
            drops@.len() == 21,
            sparkles@.len() == 16,
            line@ == rain_row(tick, row as int, c as nat),
        decreases width - c,
    {
        let col: u64 = c as u64;
        let hash: u64 = (tick.wrapping_mul(7) + row * 13 + col * 31) % 37;
        let phase: u64 = (tick + col * 3 + row * 7) % 20;
        let ch = if phase < 3 {
            let i: usize = ((tick + col + row) as usize) % 21;
            drops.get_char(i)
        } else if hash < 5 {
            let i: usize = ((tick + col) as usize) % 16;
            sparkles.get_char(i)
        } else {
            ' '
        };
        assert(ch == rain_char(tick, row as int, c as int));
        line.push(ch);
        c += 1;
    }
    line
}

impl SessionState {
    /// The word for a state in the messages to clients.
    pub fn as_str(&self) -> (r: &'static str)
        ensures
            r@ == self.deep_view().word(),
    {
        match self {
            SessionState::Idle => "idle",
            SessionState::Running => "running",
            SessionState::AwaitingPermission(_) => "permission",
        }
    }
}

pub fn tag_of(id: usize) -> (r: String)
    ensures
        r@ == session_tag(id as int),
{
    cat3("[session ", decimal_of(id as u64).as_str(), "] ")
}

/// How a prompt gets to the assistant.
pub struct PromptPlan {
    /// The process that has to be started first, where there is none.
    pub spawn: Option<Spawn>,
    pub line: String,
    pub logs: Vec<String>,
}

#[verifier::ext_equal]
pub struct PlanView {
    pub spawn: Option<SpawnView>,
    pub line: Seq<char>,
    pub logs: Seq<Seq<char>>,
}

impl DeepView for PromptPlan {
    type V = PlanView;

    open spec fn deep_view(&self) -> PlanView {
        PlanView {
            spawn: self.spawn.deep_view(),
            line: self.line@,
            logs: text::texts(self.logs@),
        }
    }
}

/// What an event leaves to do: lines for the debug log, a line for the process, and whether to
/// stop reading.
struct Received {
    pub logs: Vec<String>,
    pub send: Option<String>,
    pub stop: bool,
}

/// What reading the events of the process has come to.
pub enum Poll {
    /// The reading begins.
    Start,
    Event(StreamEvent),
    /// The line that was to be sent could not be.
    SendFailed(String),
    /// No event is waiting.
    Empty,
    /// The channel of events is gone.
    Disconnected,
}

/// What is to be done next.
pub struct DrainStep {
    /// Lines for the debug log.
    pub logs: Vec<String>,
    /// A line for the process.
    pub send: Option<String>,
    /// The reading is over; the value says whether anything happened.
    pub over: Option<bool>,
}

#[verifier::ext_equal]
pub enum PollView {
    Start,
    Event(EventView),
    SendFailed(Seq<char>),
    Empty,
    Disconnected,
}

#[verifier::ext_equal]
pub struct DrainView {
    pub session: SessionView,
    pub logs: Seq<Seq<char>>,
    pub send: Option<Seq<char>>,
    pub over: Option<bool>,
}

impl PollView {
    /// An event that was read is well formed.
    pub open spec fn wf(self) -> bool {
        self matches PollView::Event(event) ==> event_wf(event)
    }

    /// Whether a turn of the assistant is over.
    pub open spec fn ends_turn(self) -> bool {
        self matches PollView::Event(event) && event is Done
    }
}

impl DeepView for Poll {
    type V = PollView;

    open spec fn deep_view(&self) -> PollView {
        match self {
            Poll::Start => PollView::Start,
            Poll::Event(event) => PollView::Event(event.deep_view()),
            Poll::SendFailed(error) => PollView::SendFailed(error@),
            Poll::Empty => PollView::Empty,
            Poll::Disconnected => PollView::Disconnected,
        }
    }
}

/// Whether the events of the process can be read.
enum DrainStart {
    /// They can: hand them over one by one.
    Read,
    /// There is no channel, and nothing was running.
    Nothing,
    /// There is no channel although something was running; the line is for the debug log.
    Ended(String),
}

impl ClaudeSession {
    pub fn new(id: usize, assistant: Assistant) -> (r: Self)
        ensures
            r@ == SessionView::new(id, assistant@),
            r@.wf(),
    {
        let mut output_lines: Vec<String> = Vec::new();
        output_lines.push("╔══════════════════════════════════════╗".to_string());
        let ready = cat3("   ", assistant.name.as_str(), " Session - ready");
        output_lines.push(cat3("║", padded_end(ready.as_str(), 38).as_str(), "║"));
        output_lines.push("║   Type a prompt and press Enter      ║".to_string());
        output_lines.push("╚══════════════════════════════════════╝".to_string());
        output_lines.push(String::new());
        assert(text::texts(output_lines@) == banner(assistant.name@));
        let r = ClaudeSession {
            id,
            assistant,
            session_id: None,
            input_buf: String::new(),
            cursor_pos: 0,
            output_lines,
            scroll_offset: 0,
            state: SessionState::Idle,
            prompt_count: 0,
            title: cat2("Session ", decimal_of(id as u64).as_str()),
            rain_tick: 0,
            process_stdin: false,
            process_child: false,
            event_rx: false,
            last_event_time: None,
            queued_prompt: None,
            workdir: None,
            auto_accept_permissions: false,
            slash_popup_visible: false,
            slash_popup_selected: 0,
            last_output_visible: 0,
        };
        proof {
            cursor::lemma_joint_on_boundary(Seq::empty(), Seq::empty());
            assert(Seq::<char>::empty() + Seq::<char>::empty() == Seq::<char>::empty());
        }
        r
    }

    pub fn is_running(&self) -> (r: bool)
        ensures
            r == self@.is_running(),
    {
        match self.state {
            SessionState::Running => true,
            SessionState::AwaitingPermission(_) => true,
            SessionState::Idle => false,
        }
    }

    pub fn is_awaiting_permission(&self) -> (r: bool)
        ensures
            r == (self@.state is AwaitingPermission),
    {
        match self.state {
            SessionState::AwaitingPermission(_) => true,
            _ => false,
        }
    }

    /// Whether there's a live process we can send messages to
    pub fn has_process(&self) -> (r: bool)
        ensures
            r == self@.has_process(),
    {
        self.process_stdin && self.event_rx
    }

    /// Advance the rain animation by one tick
    pub fn tick_rain(&mut self)
        ensures
            final(self)@ == old(self)@.ticked(),
    {
        self.rain_tick = self.rain_tick.wrapping_add(1);
    }

    /// Generate rain animation frame for display
    pub fn rain_frame(&self, width: usize) -> (r: Vec<String>)
        requires
            rain_fits(self@.rain_tick, width as nat),
        ensures
            text::texts(r@) == rain(self@.rain_tick, width as nat, self@.queued_prompt),
    {
        let tick = self.rain_tick;
        let mut lines: Vec<String> = Vec::new();
        lines.push(rain_line(tick, 0, width));
        lines.push(rain_line(tick, 1, width));
        lines.push(rain_line(tick, 2, width));
        let dots = repeat_char('.', ((tick % 4) + 1) as usize);
        let padded = padded_end(dots.as_str(), 4);
        lines.push(cat3("  ⟳ thinking", padded.as_str(), "  (Esc to cancel)"));
        if let Some(queued) = &self.queued_prompt {
            lines.push(cat2("  ⏳ queued: ", truncate_chars(queued.as_str(), 40)));
        }
        assert(text::texts(lines@) == rain(self@.rain_tick, width as nat, self@.queued_prompt));
        lines
    }

    /// A line at the end of the output.
    pub fn say(&mut self, line: String)
        ensures
            final(self)@ == old(self)@.said(line@),
    {
        proof {
            text::lemma_texts_push(self.output_lines@, line);
        }
        self.output_lines.push(line);
    }

    /// Prepare to send a prompt: updates state and returns the session_id to use. `fresh` names the
    /// conversation where it has no name yet.
    pub fn prepare_prompt_with(&mut self, prompt: &str, now: u64, fresh: String) -> (sid: String)
        requires
            old(self)@.prompt_count < u32::MAX,
        ensures
            final(self)@ == old(self)@.prompted(prompt@, now, fresh@),
            final(self)@.session_id == Some(sid@),
    {
        self.state = SessionState::Running;
        self.prompt_count += 1;
        self.rain_tick = 0;
        self.last_event_time = Some(now);
        self.say(cat2("▸ ", prompt));
        self.say(String::new());
        let sid = match &self.session_id {
            Some(sid) => sid.clone(),
            None => fresh,
        };
        self.session_id = Some(sid.clone());
        sid
    }

    /// Prepare to send a prompt: updates state and returns the session_id to use. A conversation
    /// without a name gets a random one.
    pub fn prepare_prompt(&mut self, prompt: &str, now: u64) -> (sid: String)
        requires
            old(self)@.prompt_count < u32::MAX,
        ensures
            exists|fresh: Seq<char>| #[trigger]
                is_uuid_v4(fresh) && final(self)@ == old(self)@.prompted(prompt@, now, fresh),
            final(self)@.session_id == Some(sid@),
    {
        let fresh = new_session_id();
        self.prepare_prompt_with(prompt, now, fresh)
    }

    /// Return to idle state. Keeps the process alive so the session can be reused.
    /// Returns true if there's a queued prompt ready to send.
    pub fn go_idle(&mut self) -> (queued: bool)
        ensures
            final(self)@ == old(self)@.idle(),
            queued == (old(self)@.queued_prompt is Some),
    {
        self.state = SessionState::Idle;
        self.last_event_time = None;
        self.queued_prompt.is_some()
    }

    /// Hard reset: return to idle AND tear down the process.
    pub fn force_idle(&mut self)
        ensures
            final(self)@ == old(self)@.forced_idle(),
    {
        self.state = SessionState::Idle;
        self.last_event_time = None;
        self.process_stdin = false;
        self.event_rx = false;
        self.process_child = false;
    }

    /// Cancel a running request: go idle, keep the process alive for the next prompt. If the
    /// process is gone, do a full `force_idle`.
    pub fn cancel(&mut self)
        ensures
            final(self)@ == old(self)@.cancelled(),
    {
        if self.has_process() {
            self.go_idle();
        } else {
            self.force_idle();
        }
        self.say("  [cancelled by user]".to_string());
    }

    /// Tears the process down; the next prompt starts a new one.
    pub fn kill_process(&mut self)
        ensures
            final(self)@ == old(self)@.killed(),
    {
        self.process_child = false;
        self.process_stdin = false;
        self.event_rx = false;
        self.state = SessionState::Idle;
    }

    /// Where the process works, given the directory of the program.
    pub fn effective_cwd(&self, program_dir: &str) -> (r: String)
        ensures
            r@ == self@.effective_cwd(program_dir@),
    {
        match &self.workdir {
            Some(dir) => dir.clone(),
            None => program_dir.to_string(),
        }
    }

    /// Turns from waiting to running, where the process can still be answered.
    pub fn begin_permission_response(&mut self, now: u64) -> (can_answer: bool)
        ensures
            can_answer == old(self)@.process_stdin,
            final(self)@ == (if old(self)@.process_stdin {
                old(self)@.answering(now)
            } else {
                old(self)@
            }),
    {
        if self.process_stdin {
            self.state = SessionState::Running;
            self.last_event_time = Some(now);
            true
        } else {
            false
        }
    }

    // ── Events of the process ──

    /// Looks whether events can be read. Without a channel a running session is reset at once.
    fn start_drain(&mut self) -> (r: DrainStart)
        ensures
            old(self)@.event_rx ==> r is Read && final(self)@ == old(self)@,
            !old(self)@.event_rx && old(self)@.state is Idle ==> r is Nothing && final(self)@
                == old(self)@,
            !old(self)@.event_rx && !(old(self)@.state is Idle) ==> {
                &&& final(self)@ == old(self)@.forced_idle().said(
                    "  [process ended unexpectedly]"@,
                )
                &&& r matches DrainStart::Ended(log) && log@ == "[error] Session "@ + text::decimal(
                    old(self)@.id as nat,
                ) + " process ended unexpectedly"@
            },
    {
        if self.event_rx {
            return DrainStart::Read;
        }
        if let SessionState::Idle = self.state {
            return DrainStart::Nothing;
        }
        self.force_idle();
        self.say("  [process ended unexpectedly]".to_string());
        DrainStart::Ended(
            cat3(
                "[error] Session ",
                decimal_of(self.id as u64).as_str(),
                " process ended unexpectedly",
            ),
        )
    }

    fn show_text(&mut self, t: &str) -> (logs: Vec<String>)
        ensures
            final(self)@ == old(self)@.shown(t@),
            text::texts(logs@) == old(self)@.text_logs(t@),
    {
        let lines = lines_of(t);
        let ghost all = text::lines(t@);
        let ghost start = self@;
        let ghost f = |line: Seq<char>| tool_log(start.id, line);
        let ghost shown = all.map_values(|line: Seq<char>| "  "@ + line);
        let mut logs: Vec<String> = Vec::new();
        let mut i: usize = 0;
        assert(all.take(0) == Seq::<Seq<char>>::empty());
        assert(shown.take(0) == Seq::<Seq<char>>::empty());
        while i < lines.len()
            invariant
                i <= lines@.len(),
                text::texts(lines@) == all,
                f == (|line: Seq<char>| tool_log(start.id, line)),
                shown == all.map_values(|line: Seq<char>| "  "@ + line),
                self@ == (SessionView {
                    output_lines: start.output_lines + shown.take(i as int),
                    ..start
                }),
                text::texts(logs@) == seqs::filter_map(all.take(i as int), f),
            decreases lines@.len() - i,
        {
            let line = lines[i].as_str();
            proof {
                assert(line@ == text::texts(lines@)[i as int]);
                seqs::lemma_filter_map_step(all, i as int, f);
                assert(shown.take(i + 1) == shown.take(i as int).push("  "@ + line@));
            }
            if begins(line, "[tool_use: ") {
                let log = cat2(tag_of(self.id).as_str(), line);
                proof {
                    text::lemma_texts_push(logs@, log);
                }
                logs.push(log);
            } else if begins(line, "[tool_result") {
                let log = cat2(tag_of(self.id).as_str(), truncate_chars(line, 120));
                proof {
                    text::lemma_texts_push(logs@, log);
                }
                logs.push(log);
            }
            self.say(cat2("  ", line));
            i += 1;
        }
        assert(all.take(i as int) == all);
        assert(shown.take(i as int) == shown);
        self.scroll_offset = 0;
        logs
    }

    fn finish_turn(&mut self, now: u64, fresh: String) -> (r: Received)
        requires
            old(self)@.queued_prompt is Some ==> old(self)@.prompt_count < u32::MAX,
        ensures
            ({
                let want = old(self)@.turn_over(now, fresh@);
                final(self)@ == want.session && text::texts(r.logs@) == want.logs
                    && r.send.deep_view() == want.send && r.stop == want.stop
            }),
            r.send matches Some(line) ==> claude::line_holds(
                line@,
                claude::prompt_message(old(self)@.queued_prompt->0, final(self)@.session_id),
            ),
    {
        self.say(String::new());
        self.scroll_offset = 0;
        let mut logs: Vec<String> = Vec::new();
        let queued = match &self.queued_prompt {
            Some(queued) => queued.clone(),
            None => {
                self.go_idle();
                return Received { logs, send: None, stop: false };
            },
        };
        self.queued_prompt = None;
        logs.push(
            cat3(
                tag_of(self.id).as_str(),
                "Sending queued prompt: ",
                truncate_chars(queued.as_str(), 80),
            ),
        );
        let sid = self.prepare_prompt_with(queued.as_str(), now, fresh);
        if self.process_stdin {
            let mut out = send_prompt_to_process(queued.as_str(), Some(sid.as_str()));
            let ghost out_logs = text::texts(out.logs@);
            let ghost first = text::texts(logs@);
            logs.append(&mut out.logs);
            assert(text::texts(logs@) == first + out_logs);
            Received { logs, send: Some(out.line), stop: false }
        } else {
            self.go_idle();
            Received { logs, send: None, stop: false }
        }
    }

    /// Takes in an event of the process. `fresh` names the conversation where a queued prompt is
    /// sent and it has no name yet.
    fn receive_with(&mut self, event: StreamEvent, now: u64, fresh: String) -> (r: Received)
        requires
            event is Done && old(self)@.queued_prompt is Some ==> old(self)@.prompt_count
                < u32::MAX,
        ensures
            ({
                let want = old(self)@.received(event.deep_view(), now, fresh@);
                final(self)@ == want.session && text::texts(r.logs@) == want.logs
                    && r.send.deep_view() == want.send && r.stop == want.stop
            }),
            r.send matches Some(line) ==> claude::line_holds(
                line@,
                claude::prompt_message(old(self)@.queued_prompt->0, final(self)@.session_id),
            ),
    {
        let quiet = match &event {
            StreamEvent::Stderr(s) => s.as_str().is_empty(),
            _ => false,
        };
        if !quiet {
            self.last_event_time = Some(now);
        }
        proof {
            assert(quiet == (event.deep_view() == EventView::Stderr(Seq::empty()))) by {
                if let StreamEvent::Stderr(s) = event {
                    assert(s@.len() == 0 ==> s@ == Seq::<char>::empty());
                }
            }
            assert(self@ == old(self)@.woken(event.deep_view(), now));
        }
        let mut logs: Vec<String> = Vec::new();
        match event {
            StreamEvent::Text(t) => {
                let logs = self.show_text(t.as_str());
                Received { logs, send: None, stop: false }
            },
            StreamEvent::SessionId(sid) => {
                logs.push(cat3(tag_of(self.id).as_str(), "Got session ID: ", sid.as_str()));
                self.session_id = Some(sid);
                Received { logs, send: None, stop: false }
            },
            StreamEvent::PermissionNeeded(req) => {
                let head = cat3(
                    tag_of(self.id).as_str(),
                    "Permission requested: ",
                    req.tool_name.as_str(),
                );
                let asks = if req.questions.len() > 0 {
                    "true"
                } else {
                    "false"
                };
                let tail = cat4(
                    " (questions=",
                    asks,
                    ") input=",
                    truncate_chars(req.input_preview.as_str(), 120),
                );
                logs.push(cat2(head.as_str(), tail.as_str()));
                self.state = SessionState::AwaitingPermission(req);
                Received { logs, send: None, stop: false }
            },
            StreamEvent::Done { cost: _ } => self.finish_turn(now, fresh),
            StreamEvent::Stderr(line) => {
                if !trimmed(line.as_str()).is_empty() {
                    logs.push(
                        cat3(
                            tag_of(self.id).as_str(),
                            "stderr: ",
                            truncate_chars(line.as_str(), 150),
                        ),
                    );
                    self.say(cat2("  [stderr] ", line.as_str()));
                }
                Received { logs, send: None, stop: false }
            },
            StreamEvent::ProcessExited => {
                logs.push(cat2(tag_of(self.id).as_str(), "Process exited"));
                self.force_idle();
                Received { logs, send: None, stop: true }
            },
        }
    }

    /// The queued prompt could not be sent.
    fn queued_send_failed(&mut self, error: &str) -> (log: String)
        ensures
            final(self)@ == old(self)@.said("  [error] "@ + error@).idle(),
            log@ == session_tag(old(self)@.id as int) + "Queued send error: "@ + error@,
    {
        self.say(cat2("  [error] ", error));
        self.go_idle();
        cat3(tag_of(self.id).as_str(), "Queued send error: ", error)
    }

    /// The channel of events is gone.
    fn channel_closed(&mut self) -> (log: String)
        ensures
            final(self)@ == old(self)@.forced_idle(),
            log@ == "[error] Session "@ + text::decimal(old(self)@.id as nat)
                + " channel disconnected"@,
    {
        self.force_idle();
        cat3("[error] Session ", decimal_of(self.id as u64).as_str(), " channel disconnected")
    }

    /// Stops a session that has run for two minutes without an event.
    fn watch(&mut self, now: u64) -> (log: Option<String>)
        ensures
            old(self)@.stuck(now) ==> {
                &&& final(self)@ == old(self)@.timed_out()
                &&& log matches Some(l) && l@ == "[error] Session "@ + text::decimal(
                    old(self)@.id as nat,
                ) + " timed out (2 min no events)"@
            },
            !old(self)@.stuck(now) ==> final(self)@ == old(self)@ && log is None,
    {
        if let SessionState::Running = self.state {
            if let Some(last) = self.last_event_time {
                if now > last && now - last > WATCHDOG {
                    self.say(
                        "  [timed out — no response for 2 min, press Esc to cancel]".to_string(),
                    );
                    self.force_idle();
                    return Some(
                        cat3(
                            "[error] Session ",
                            decimal_of(self.id as u64).as_str(),
                            " timed out (2 min no events)",
                        ),
                    );
                }
            }
        }
        None
    }

    /// One step of draining the pending stream events: what was polled goes in, what to do comes
    /// out. `fresh` names the conversation where a queued prompt is sent and it has no name yet.
    pub fn drain_events_with(&mut self, poll: Poll, got_any: bool, now: u64, fresh: String) -> (r:
        DrainStep)
        requires
            poll.deep_view().ends_turn() && old(self)@.queued_prompt is Some
                ==> old(self)@.prompt_count < u32::MAX,
        ensures
            ({
                let want = old(self)@.drained(poll.deep_view(), got_any, now, fresh@);
                final(self)@ == want.session && text::texts(r.logs@) == want.logs
                    && r.send.deep_view() == want.send && r.over == want.over
            }),
            r.send matches Some(line) ==> claude::line_holds(
                line@,
                claude::prompt_message(old(self)@.queued_prompt->0, final(self)@.session_id),
            ),
            old(self)@.wf() && poll.deep_view().wf() ==> final(self)@.wf(),
    {
        let mut logs: Vec<String> = Vec::new();
        match poll {
            Poll::Start => match self.start_drain() {
                DrainStart::Read => DrainStep { logs, send: None, over: None },
                DrainStart::Nothing => DrainStep { logs, send: None, over: Some(false) },
                DrainStart::Ended(log) => {
                    logs.push(log);
                    DrainStep { logs, send: None, over: Some(true) }
                },
            },
            Poll::Event(event) => {
                let r = self.receive_with(event, now, fresh);
                let over = if r.stop {
                    Some(true)
                } else {
                    None
                };
                DrainStep { logs: r.logs, send: r.send, over }
            },
            Poll::SendFailed(error) => {
                logs.push(self.queued_send_failed(error.as_str()));
                DrainStep { logs, send: None, over: None }
            },
            Poll::Disconnected => {
                logs.push(self.channel_closed());
                DrainStep { logs, send: None, over: Some(true) }
            },
            Poll::Empty => match self.watch(now) {
                Some(log) => {
                    logs.push(log);
                    DrainStep { logs, send: None, over: Some(true) }
                },
                None => DrainStep { logs, send: None, over: Some(got_any) },
            },
        }
    }

    /// One step of draining the pending stream events: what was polled goes in, what to do comes
    /// out.
    pub fn drain_events(&mut self, poll: Poll, got_any: bool, now: u64) -> (r: DrainStep)
        requires
            poll.deep_view().ends_turn() && old(self)@.queued_prompt is Some
                ==> old(self)@.prompt_count < u32::MAX,
        ensures
            exists|fresh: Seq<char>| #[trigger]
                is_uuid_v4(fresh) && ({
                    let want = old(self)@.drained(poll.deep_view(), got_any, now, fresh);
                    final(self)@ == want.session && text::texts(r.logs@) == want.logs
                        && r.send.deep_view() == want.send && r.over == want.over
                }),
            r.send matches Some(line) ==> claude::line_holds(
                line@,
                claude::prompt_message(old(self)@.queued_prompt->0, final(self)@.session_id),
            ),
            old(self)@.wf() && poll.deep_view().wf() ==> final(self)@.wf(),
    {
        let fresh = new_session_id();
        self.drain_events_with(poll, got_any, now, fresh)
    }

    /// One step of draining, unless a prompt that waits would be sent and can no longer be counted:
    /// then nothing happens.
    pub fn try_drain_events(&mut self, poll: Poll, got_any: bool, now: u64) -> (r: Option<DrainStep>)
        ensures
            match r {
                Some(step) => exists|fresh: Seq<char>| #[trigger]
                    is_uuid_v4(fresh) && ({
                        let want = old(self)@.drained(poll.deep_view(), got_any, now, fresh);
                        final(self)@ == want.session && text::texts(step.logs@) == want.logs
                            && step.send.deep_view() == want.send && step.over == want.over
                    }),
                None => poll.deep_view().ends_turn() && old(self)@.queued_prompt is Some && old(
                    self,
                )@.prompt_count == u32::MAX && final(self)@ == old(self)@,
            },
            final(self)@.input_buf == old(self)@.input_buf,
            final(self)@.cursor_pos == old(self)@.cursor_pos,
    {
        let ends_turn = match &poll {
            Poll::Event(StreamEvent::Done { cost: _ }) => true,
            _ => false,
        };
        if ends_turn && self.queued_prompt.is_some() && self.prompt_count == u32::MAX {
            return None;
        }
        Some(self.drain_events(poll, got_any, now))
    }

    // ── Prompts ──

    /// Prepares a prompt and says how it gets to the assistant: whether a process has to be started
    /// first, and the line for it. `fresh` names the conversation where it has no name yet.
    pub fn prepare_and_send_prompt_with(&mut self, prompt: &str, now: u64, fresh: String) -> (r:
        PromptPlan)
        requires
            old(self)@.prompt_count < u32::MAX,
        ensures
            final(self)@ == old(self)@.prompted(prompt@, now, fresh@),
            r.deep_view() == old(self)@.prompt_plan(prompt@, now, fresh@),
            claude::line_holds(
                r.line@,
                claude::prompt_message(prompt@, final(self)@.session_id),
            ),
    {
        let is_resume = self.prompt_count > 0;
        let starts = !self.has_process();
        let sid = self.prepare_prompt_with(prompt, now, fresh);
        let spawn = if starts {
            let workdir = match &self.workdir {
                Some(dir) => Some(dir.clone()),
                None => None,
            };
            let program = self.assistant.program.as_str();
            Some(spawn_session_process(program, sid.as_str(), is_resume, workdir))
        } else {
            None
        };
        let out = send_prompt_to_process(prompt, Some(sid.as_str()));
        PromptPlan { spawn, line: out.line, logs: out.logs }
    }

    /// Prepares a prompt and says how it gets to the assistant.
    pub fn prepare_and_send_prompt(&mut self, prompt: &str, now: u64) -> (r: PromptPlan)
        requires
            old(self)@.prompt_count < u32::MAX,
        ensures
            exists|fresh: Seq<char>| #[trigger]
                is_uuid_v4(fresh) && final(self)@ == old(self)@.prompted(prompt@, now, fresh)
                    && r.deep_view() == old(self)@.prompt_plan(prompt@, now, fresh),
            claude::line_holds(
                r.line@,
                claude::prompt_message(prompt@, final(self)@.session_id),
            ),
    {
        let fresh = new_session_id();
        self.prepare_and_send_prompt_with(prompt, now, fresh)
    }

    /// A process was started for the session.
    pub fn attach_process(&mut self)
        ensures
            final(self)@ == old(self)@.attached(),
    {
        self.process_stdin = true;
        self.process_child = true;
        self.event_rx = true;
    }

    /// The process could not be started, or the prompt not sent.
    pub fn prompt_failed(&mut self, error: &str)
        ensures
            final(self)@ == old(self)@.undelivered(error@),
    {
        self.say(cat2("  [error] ", error));
        self.go_idle();
    }
}

// ── Laws ──

/// A hard reset leaves nothing that runs, and doing it twice is doing it once.
pub proof fn law_forced_idle(s: SessionView)
    ensures
        !s.forced_idle().is_running(),
        !s.forced_idle().process_stdin && !s.forced_idle().event_rx
            && !s.forced_idle().process_child,
        s.forced_idle().forced_idle() == s.forced_idle(),
        s.forced_idle().output_lines == s.output_lines,
        s.forced_idle().queued_prompt == s.queued_prompt,
{
}

/// Cancelling leaves a session that does not run and keeps a live process; what is left of one that
/// is gone is torn down.
pub proof fn law_cancelling_keeps_a_live_process(s: SessionView)
    ensures
        !s.cancelled().is_running(),
        s.cancelled().has_process() == s.has_process(),
        s.has_process() ==> s.cancelled().process_child == s.process_child,
        !s.has_process() ==> !s.cancelled().process_child && !s.cancelled().process_stdin
            && !s.cancelled().event_rx,
{
}

/// Any event but an empty error line keeps the watchdog away for two minutes.
pub proof fn law_events_keep_the_watchdog_away(
    s: SessionView,
    event: EventView,
    now: u64,
    fresh: Seq<char>,
    later: u64,
)
    requires
        event != EventView::Stderr(Seq::empty()),
        later - now <= WATCHDOG,
    ensures
        !s.received(event, now, fresh).session.stuck(later),
{
}

/// An empty error line changes nothing at all.
pub proof fn law_empty_line_is_silent(s: SessionView, now: u64, fresh: Seq<char>)
    ensures
        s.received(EventView::Stderr(Seq::empty()), now, fresh).session == s,
        s.received(EventView::Stderr(Seq::empty()), now, fresh).logs.len() == 0,
{
}

/// The heartbeat of a thinking assistant shows nothing but wakes the watchdog.
pub proof fn law_heartbeat(s: SessionView, now: u64, fresh: Seq<char>)
    ensures
        s.received(EventView::Stderr(" "@), now, fresh) == (ReceivedView {
            session: SessionView { last_event_time: Some(now), ..s },
            logs: Seq::empty(),
            send: None,
            stop: false,
        }),
{
    reveal_strlit(" ");
    assert(" "@.drop_first() == Seq::<char>::empty());
    assert(text::trim_start(Seq::<char>::empty()) == Seq::<char>::empty());
    assert(text::trim_start(" "@) == Seq::<char>::empty());
    assert(text::trim(" "@) == Seq::<char>::empty());
}

/// A session is never left running without an event for more than two minutes: looking at it
/// stops it. One that is idle or waits for the user is left alone.
pub proof fn law_watchdog(s: SessionView, got_any: bool, now: u64, fresh: Seq<char>)
    ensures
        !s.drained(PollView::Empty, got_any, now, fresh).session.stuck(now),
        s.stuck(now) ==> s.drained(PollView::Empty, got_any, now, fresh).session.state is Idle,
        !(s.state is Running) ==> s.drained(PollView::Empty, got_any, now, fresh).session == s,
{
}

/// A session without a channel of events is not running once it was looked at.
pub proof fn law_no_channel_no_run(s: SessionView, got_any: bool, now: u64, fresh: Seq<char>)
    requires
        !s.event_rx,
    ensures
        s.drained(PollView::Start, got_any, now, fresh).session.state is Idle,
        s.drained(PollView::Start, got_any, now, fresh).over is Some,
{
}

/// A step of draining the events: what was polled, and when.
#[verifier::ext_equal]
pub struct DrainTurn {
    pub poll: PollView,
    pub got_any: bool,
    pub now: u64,
    pub fresh: Seq<char>,
}

impl SessionView {
    /// What a step of draining makes of the session.
    #[verifier::opaque]
    pub open spec fn turned(self, turn: DrainTurn) -> DrainView {
        self.drained(turn.poll, turn.got_any, turn.now, turn.fresh)
    }

    /// The session after these steps of draining.
    pub open spec fn after_turns(self, turns: Seq<DrainTurn>) -> SessionView
        decreases turns.len(),
    {
        if turns.len() == 0 {
            self
        } else {
            self.after_turns(turns.drop_last()).turned(turns.last()).session
        }
    }

    /// Whether these are steps of one drain: it begins with the first of them, and before the last
    /// it is not over.
    pub open spec fn one_drain(self, turns: Seq<DrainTurn>) -> bool {
        &&& turns.len() > 0
        &&& turns[0].poll is Start
        &&& forall|i: int|
            0 <= i < turns.len() - 1 ==> self.after_turns(turns.take(i)).turned(
                #[trigger] turns[i],
            ).over is None
    }
}

/// Whether one of these steps has read an event.
pub open spec fn read_any(turns: Seq<DrainTurn>) -> bool {
    exists|i: int| 0 <= i < turns.len() && (#[trigger] turns[i]).poll is Event
}

impl SessionView {
    /// Whether the steps are told what has happened: the one that finds no event knows whether one
    /// was read before, and a failure to send comes where something was to be sent.
    pub open spec fn told_truly(self, turns: Seq<DrainTurn>) -> bool {
        forall|i: int| #![trigger turns[i]]
            0 <= i < turns.len() ==> {
                &&& turns[i].poll is Empty ==> turns[i].got_any == read_any(turns.take(i))
                &&& turns[i].poll is SendFailed ==> i > 0 && self.after_turns(
                    turns.take(i - 1),
                ).turned(turns[i - 1]).send is Some
            }
    }
}

/// What one step does, where there is a channel or the drain begins.
#[verifier::spinoff_prover]
proof fn lemma_turn(s: SessionView, turn: DrainTurn)
    requires
        s.event_rx || turn.poll is Start,
    ensures
        ({
            let d = s.turned(turn);
            &&& d.over is None ==> d.session.event_rx
            &&& !d.session.event_rx ==> d.session.state is Idle
            &&& d.send is Some ==> turn.poll is Event
            &&& d.over is None && turn.poll !is Event && turn.poll !is SendFailed ==> d.session
                == s
            &&& turn.poll is SendFailed ==> d.over is None
            &&& turn.poll is Event ==> d.over != Some(false)
            &&& turn.poll is Empty ==> d.over == Some(turn.got_any || d.session != s)
            &&& turn.poll !is Event && turn.poll !is Empty ==> (d.over matches Some(any) ==> any
                == (d.session != s))
            &&& turn.poll is Disconnected ==> d.over == Some(true)
            &&& turn.poll is Start && s.event_rx ==> d.over is None
        }),
{
    reveal(SessionView::turned);
}

proof fn lemma_going_on_needs_a_channel(s: SessionView, turns: Seq<DrainTurn>, n: int)
    requires
        s.one_drain(turns),
        0 < n < turns.len(),
    ensures
        s.after_turns(turns.take(n)).event_rx,
    decreases n,
{
    let before = s.after_turns(turns.take(n - 1));
    assert(turns.take(n).drop_last() == turns.take(n - 1));
    assert(before.turned(turns[n - 1]).over is None);
    if n > 1 {
        lemma_going_on_needs_a_channel(s, turns, n - 1);
    }
    lemma_turn(before, turns[n - 1]);
}

/// After a drain, whatever it has read, a session that runs or waits for an answer still has its
/// channel of events: it is never busy without one.
pub proof fn law_busy_sessions_have_a_channel(s: SessionView, turns: Seq<DrainTurn>)
    requires
        s.one_drain(turns),
    ensures
        !s.after_turns(turns).event_rx ==> s.after_turns(turns).state is Idle,
{
    let n = turns.len() - 1;
    assert(turns.drop_last() == turns.take(n));
    if n > 0 {
        lemma_going_on_needs_a_channel(s, turns, n);
    }
    lemma_turn(s.after_turns(turns.take(n)), turns[n]);
}

proof fn lemma_nothing_read_nothing_changed(s: SessionView, turns: Seq<DrainTurn>, n: int)
    requires
        s.one_drain(turns),
        s.told_truly(turns),
        0 <= n < turns.len(),
        !read_any(turns.take(n)),
    ensures
        s.after_turns(turns.take(n)) == s,
    decreases n,
{
    if n > 0 {
        let before = turns.take(n - 1);
        let turn = turns[n - 1];
        assert(turns.take(n).drop_last() == before);
        assert(turns.take(n)[n - 1] == turn);
        assert forall|i: int| 0 <= i < before.len() implies (#[trigger] before[i]).poll !is Event by {
            assert(turns.take(n)[i] == before[i]);
        }
        lemma_nothing_read_nothing_changed(s, turns, n - 1);
        if n > 1 {
            lemma_going_on_needs_a_channel(s, turns, n - 1);
        }
        lemma_turn(s, turn);
        assert(s.after_turns(before).turned(turn).over is None);
        if turn.poll is SendFailed {
            let earlier = turns[n - 2];
            if n > 2 {
                lemma_going_on_needs_a_channel(s, turns, n - 2);
            }
            lemma_turn(s.after_turns(turns.take(n - 2)), earlier);
            assert(turns.take(n)[n - 2] == earlier);
        }
    }
}

/// A whole drain tells whether anything happened: it says no just where no event was read and the
/// session is as it was.
pub proof fn law_drain_tells_whether_anything_happened(s: SessionView, turns: Seq<DrainTurn>)
    requires
        s.one_drain(turns),
        s.told_truly(turns),
    ensures
        s.after_turns(turns.drop_last()).turned(turns.last()).over matches Some(any) ==> any == (
        read_any(turns) || s.after_turns(turns) != s),
{
    let n = turns.len() - 1;
    let before = turns.take(n);
    let turn = turns[n];
    assert(turns.drop_last() == before);
    if n > 0 {
        lemma_going_on_needs_a_channel(s, turns, n);
    }
    lemma_turn(s.after_turns(before), turn);
    if read_any(before) {
        let i = choose|i: int| 0 <= i < before.len() && (#[trigger] before[i]).poll is Event;
        assert(turns[i].poll is Event);
    } else {
        lemma_nothing_read_nothing_changed(s, turns, n);
        if turn.poll !is Event {
            assert forall|i: int| 0 <= i < turns.len() implies (
            #[trigger] turns[i]).poll !is Event by {
                if i < n {
                    assert(before[i] == turns[i]);
                }
            }
        }
    }
}

/// Every step of reading events keeps the session well formed.
pub proof fn law_events_keep_wf(
    s: SessionView,
    poll: PollView,
    got_any: bool,
    now: u64,
    fresh: Seq<char>,
)
    requires
        s.wf(),
        poll.wf(),
    ensures
        s.drained(poll, got_any, now, fresh).session.wf(),
{
}

/// The events that the stream of the process gives are well formed.
pub proof fn law_stream_events_are_wf(line: Seq<char>)
    ensures
        event_wf(claude::line_event(line)),
{
    if let Ok(val) = crate::json::parsed_json(line) {
        claude::law_questions_come_with_an_object(val);
    }
}

/// Reading events only adds to the output, and leaves alone what belongs to the user.
pub proof fn law_events_only_add(
    s: SessionView,
    poll: PollView,
    got_any: bool,
    now: u64,
    fresh: Seq<char>,
)
    ensures
        ({
            let t = s.drained(poll, got_any, now, fresh).session;
            &&& s.output_lines.is_prefix_of(t.output_lines)
            &&& t.id == s.id && t.title == s.title
            &&& t.input_buf == s.input_buf && t.cursor_pos == s.cursor_pos
            &&& t.workdir == s.workdir && t.auto_accept_permissions == s.auto_accept_permissions
            &&& t.slash_popup_visible == s.slash_popup_visible && t.slash_popup_selected
                == s.slash_popup_selected
        }),
{
    let t = s.drained(poll, got_any, now, fresh).session;
    assert(s.output_lines =~= t.output_lines.take(s.output_lines.len() as int));
}

/// A queued prompt is sent when the turn is over, once.
pub proof fn law_queued_prompt_is_sent_once(
    s: SessionView,
    cost: Option<serde_json::Number>,
    now: u64,
    fresh: Seq<char>,
    later: u64,
    fresh2: Seq<char>,
)
    requires
        s.queued_prompt is Some,
        s.process_stdin,
    ensures
        ({
            let r = s.received(EventView::Done { cost }, now, fresh);
            &&& r.send == Some(claude::prompt_sent(s.queued_prompt->0, r.session.session_id).line)
            &&& r.session.state is Running
            &&& r.session.prompt_count == s.prompt_count + 1
            &&& r.session.queued_prompt is None
            &&& r.session.received(EventView::Done { cost }, later, fresh2).send is None
            &&& r.session.received(EventView::Done { cost }, later, fresh2).session.state is Idle
        }),
{
}

/// A conversation keeps its name over its prompts, and is resumed from the second one on.
pub proof fn law_conversation_keeps_its_name(
    s: SessionView,
    first: Seq<char>,
    now: u64,
    fresh: Seq<char>,
    second: Seq<char>,
    later: u64,
    fresh2: Seq<char>,
)
    requires
        s.prompt_count >= 0,
    ensures
        ({
            let t = s.prompted(first, now, fresh);
            let u = t.prompted(second, later, fresh2);
            &&& t.session_id is Some && u.session_id == t.session_id
            &&& s.session_id is Some ==> t.session_id == s.session_id
            &&& t.prompt_plan(second, later, fresh2).spawn matches Some(spawn) ==> spawn.args
                == claude::process_args(t.session_id->0, true)
        }),
{
}

/// Every row of rain fills its width.
pub proof fn law_rain_fills_the_width(tick: u64, width: nat, queued: Option<Seq<char>>)
    ensures
        rain(tick, width, queued).len() == if queued is Some {
            5int
        } else {
            4
        },
        forall|row: int| 0 <= row < 3 ==> #[trigger] rain(tick, width, queued)[row].len() == width,
{
}

/// A text from the assistant is shown line by line, each line behind two spaces, below all that
/// stood there; nothing of it is left out, and nothing else of the session changes but that the
/// end of the output is in sight and the watchdog is awake.
pub proof fn law_text_is_shown_line_by_line(
    s: SessionView,
    t: Seq<char>,
    now: u64,
    fresh: Seq<char>,
    i: int,
)
    ensures
        ({
            let r = s.received(EventView::Text(t), now, fresh);
            let before = s.output_lines;
            let after = r.session.output_lines;
            let lines = text::lines(t);
            &&& after.len() == before.len() + lines.len()
            &&& 0 <= i < before.len() ==> after[i] == before[i]
            &&& 0 <= i < lines.len() ==> after[before.len() + i] == "  "@ + lines[i]
            &&& r.session == (SessionView {
                output_lines: after,
                scroll_offset: 0,
                last_event_time: Some(now),
                ..s
            })
            &&& r.send is None
            &&& !r.stop
        }),
{
}

/// A text of a single line is shown as that line; where it names a tool or the result of one it
/// stands in the debug log too, a result with its start.
pub proof fn law_a_line_of_text(s: SessionView, line: Seq<char>, now: u64, fresh: Seq<char>)
    requires
        line.len() > 0,
        !line.contains('\n'),
    ensures
        ({
            let r = s.received(EventView::Text(line), now, fresh);
            let tag = "[session "@ + text::decimal(s.id as nat) + "] "@;
            &&& r.session.output_lines == s.output_lines.push("  "@ + line)
            &&& text::starts_with(line, "[tool_use: "@) ==> r.logs == seq![tag + line]
            &&& text::starts_with(line, "[tool_result"@) && line.len() <= 120 ==> r.logs == seq![
                tag + line,
            ]
            &&& text::starts_with(line, "[tool_result"@) && line.len() > 120 ==> r.logs == seq![
                tag + line.take(120),
            ]
            &&& !text::starts_with(line, "[tool_use: "@) && !text::starts_with(
                line,
                "[tool_result"@,
            ) ==> r.logs.len() == 0
        }),
{
    assert forall|i: int| 0 <= i < line.len() implies #[trigger] line[i] != '\n' by {
        assert(line.contains(line[i]));
    }
    text::law_lines_are_cut_at_line_feeds(line, Seq::empty());
    let f = |l: Seq<char>| tool_log(s.id, l);
    let none = Seq::<Seq<char>>::empty();
    seqs::law_filter_map_goes_part_by_part(none, none, line, f);
    lemma_tool_words_differ(line);
    let r = s.received(EventView::Text(line), now, fresh);
    assert(r.session.output_lines =~= s.output_lines.push("  "@ + line));
}

proof fn lemma_tool_words_differ(line: Seq<char>)
    ensures
        !(text::starts_with(line, "[tool_use: "@) && text::starts_with(line, "[tool_result"@)),
{
    reveal_strlit("[tool_use: ");
    reveal_strlit("[tool_result");
    if text::starts_with(line, "[tool_use: "@) && text::starts_with(line, "[tool_result"@) {
        assert(line.take(11)[6] == line[6]);
        assert(line.take(12)[6] == line[6]);
        assert("[tool_use: "@[6] == 'u');
        assert("[tool_result"@[6] == 'r');
    }
}

/// A text is logged as its lines are: first what the first line says, then what the others say.
pub proof fn law_texts_are_logged_line_by_line(
    s: SessionView,
    first: Seq<char>,
    rest: Seq<char>,
    now: u64,
    fresh: Seq<char>,
)
    requires
        first.len() > 0,
        !first.contains('\n'),
        first.last() != '\r',
    ensures
        s.received(EventView::Text(first.push('\n') + rest), now, fresh).logs == s.received(
            EventView::Text(first),
            now,
            fresh,
        ).logs + s.received(EventView::Text(rest), now, fresh).logs,
{
    assert forall|i: int| 0 <= i < first.len() implies #[trigger] first[i] != '\n' by {
        assert(first.contains(first[i]));
    }
    text::law_lines_are_cut_at_line_feeds(first, rest);
    let all = text::lines(first.push('\n') + rest);
    assert(all =~= seq![first] + text::lines(rest));
    let f = |l: Seq<char>| tool_log(s.id, l);
    seqs::law_filter_map_goes_part_by_part(seq![first], text::lines(rest), first, f);
}

/// A request is kept as it came until it is answered; the session waits for it, and nothing else
/// of it changes.
pub proof fn law_a_request_waits(s: SessionView, req: RequestView, now: u64, fresh: Seq<char>)
    ensures
        ({
            let r = s.received(EventView::PermissionNeeded(req), now, fresh);
            &&& r.session == (SessionView {
                state: StateView::AwaitingPermission(req),
                last_event_time: Some(now),
                ..s
            })
            &&& r.logs.len() == 1
            &&& text::contains(r.logs[0], "Permission requested: "@ + req.tool_name)
            &&& text::starts_with(r.logs[0], "[session "@ + text::decimal(s.id as nat) + "] "@)
            &&& req.questions.len() > 0 ==> text::contains(r.logs[0], " (questions=true) input="@)
            &&& req.questions.len() == 0 ==> text::contains(
                r.logs[0],
                " (questions=false) input="@,
            )
            &&& r.send is None
            &&& !r.stop
        }),
{
    let log = permission_log(s.id as int, req);
    let said = "Permission requested: "@ + req.tool_name;
    let tail = " (questions="@ + bool_word(req.questions.len() > 0) + ") input="@
        + text::first_chars(req.input_preview, 120);
    assert(log == session_tag(s.id as int) + said + tail);
    text::law_contains(log, session_tag(s.id as int), said, tail);
    text::law_starts_with(log, session_tag(s.id as int), said + tail);
    assert(log == session_tag(s.id as int) + (said + tail));
    reveal_strlit(" (questions=");
    reveal_strlit("true");
    reveal_strlit("false");
    reveal_strlit(") input=");
    reveal_strlit(" (questions=true) input=");
    reveal_strlit(" (questions=false) input=");
    let asks = if req.questions.len() > 0 {
        " (questions=true) input="@
    } else {
        " (questions=false) input="@
    };
    assert(" (questions="@ + bool_word(req.questions.len() > 0) + ") input="@ =~= asks);
    let head = session_tag(s.id as int) + said;
    let shown = text::first_chars(req.input_preview, 120);
    assert(log == head + asks + shown);
    text::law_contains(log, head, asks, shown);
}

/// The name of the conversation that the assistant tells is the one that goes on being used.
pub proof fn law_the_name_that_is_told(s: SessionView, sid: Seq<char>, now: u64, fresh: Seq<char>)
    ensures
        ({
            let r = s.received(EventView::SessionId(sid), now, fresh);
            &&& r.session == (SessionView {
                session_id: Some(sid),
                last_event_time: Some(now),
                ..s
            })
            &&& r.logs == seq![
                "[session "@ + text::decimal(s.id as nat) + "] "@ + "Got session ID: "@ + sid,
            ]
            &&& r.send is None
            &&& !r.stop
        }),
{
}

/// An error line is shown and logged unless it is blank; nothing else of the session changes but
/// that the watchdog is awake.
pub proof fn law_error_lines_are_shown(s: SessionView, line: Seq<char>, now: u64, fresh: Seq<char>)
    requires
        line.len() > 0,
    ensures
        ({
            let r = s.received(EventView::Stderr(line), now, fresh);
            let tag = "[session "@ + text::decimal(s.id as nat) + "] "@;
            &&& text::trim(line).len() > 0 ==> r.session.output_lines == s.output_lines.push(
                "  [stderr] "@ + line,
            )
            &&& text::trim(line).len() > 0 && line.len() <= 150 ==> r.logs == seq![
                tag + "stderr: "@ + line,
            ]
            &&& text::trim(line).len() > 0 && line.len() > 150 ==> r.logs == seq![
                tag + "stderr: "@ + line.take(150),
            ]
            &&& text::trim(line).len() == 0 ==> r.session.output_lines == s.output_lines
                && r.logs.len() == 0
            &&& r.session == (SessionView {
                output_lines: r.session.output_lines,
                last_event_time: Some(now),
                ..s
            })
            &&& r.send is None
            &&& !r.stop
        }),
{
}

/// When the process is gone the session is idle, with nothing left of the process; its output and
/// a prompt that waits stay, and reading events is over.
pub proof fn law_the_end_of_the_process(
    s: SessionView,
    got_any: bool,
    now: u64,
    fresh: Seq<char>,
)
    ensures
        ({
            let idle = SessionView {
                state: StateView::Idle,
                last_event_time: None,
                process_stdin: false,
                process_child: false,
                event_rx: false,
                ..s
            };
            let exited = s.drained(PollView::Event(EventView::ProcessExited), got_any, now, fresh);
            let closed = s.drained(PollView::Disconnected, got_any, now, fresh);
            &&& exited.session == idle
            &&& exited.over == Some(true)
            &&& exited.logs == seq![
                "[session "@ + text::decimal(s.id as nat) + "] "@ + "Process exited"@,
            ]
            &&& closed.logs == seq![
                "[error] Session "@ + text::decimal(s.id as nat) + " channel disconnected"@,
            ]
            &&& exited.send is None
            &&& closed.session == idle
            &&& closed.over == Some(true)
            &&& closed.send is None
        }),
{
}

/// At the end of a turn with no prompt waiting the session is idle, below an empty line, and keeps
/// its process; nothing is sent.
pub proof fn law_the_end_of_a_turn(
    s: SessionView,
    cost: Option<serde_json::Number>,
    now: u64,
    fresh: Seq<char>,
)
    requires
        s.queued_prompt is None,
    ensures
        ({
            let r = s.received(EventView::Done { cost }, now, fresh);
            &&& r.session == (SessionView {
                state: StateView::Idle,
                last_event_time: None,
                output_lines: s.output_lines.push(Seq::empty()),
                scroll_offset: 0,
                ..s
            })
            &&& r.send is None
            &&& !r.stop
        }),
{
}

/// At the end of a turn the prompt that waits is shown and sent, whole, to the conversation at
/// hand; it waits no more, and it counts as a prompt.
pub proof fn law_the_queued_prompt_goes_out_whole(
    s: SessionView,
    queued: Seq<char>,
    cost: Option<serde_json::Number>,
    now: u64,
    fresh: Seq<char>,
)
    requires
        s.queued_prompt == Some(queued),
    ensures
        ({
            let r = s.received(EventView::Done { cost }, now, fresh);
            let n = s.output_lines.len() as int;
            let out = r.session.output_lines;
            &&& out.len() == n + 3
            &&& out.take(n) == s.output_lines
            &&& out[n].len() == 0 && out[n + 1] == "▸ "@ + queued && out[n + 2].len() == 0
            &&& r.session.queued_prompt is None
            &&& r.session.prompt_count == s.prompt_count + 1
            &&& s.session_id is Some ==> r.session.session_id == s.session_id
            &&& s.session_id is None ==> r.session.session_id == Some(fresh)
            &&& r.logs.len() > 0 && r.logs[0] == "[session "@ + text::decimal(s.id as nat) + "] "@
                + "Sending queued prompt: "@ + text::first_chars(queued, 80)
            &&& r.send is Some <==> s.process_stdin
            &&& r.send matches Some(line) ==> claude::is_prompt_line(
                line,
                queued,
                r.session.session_id->0,
            )
            &&& s.process_stdin ==> r.session.state is Running && r.session.last_event_time == Some(
                now,
            )
            &&& !s.process_stdin ==> r.session.state is Idle && r.session.last_event_time is None
            &&& r.session == (SessionView {
                state: r.session.state,
                prompt_count: s.prompt_count + 1,
                rain_tick: 0,
                last_event_time: r.session.last_event_time,
                output_lines: out,
                session_id: r.session.session_id,
                queued_prompt: None,
                scroll_offset: 0,
                ..s
            })
            &&& !r.stop
        }),
{
    let r = s.received(EventView::Done { cost }, now, fresh);
    claude::law_prompts_are_handed_over(queued, r.session.session_id->0);
    assert(r.session.output_lines.take(s.output_lines.len() as int) =~= s.output_lines);
}

/// A prompt is shown whole behind its mark, with an empty line below it; the session runs from
/// then on, the prompt is counted, and a conversation without a name gets one. Nothing else of
/// the session changes.
pub proof fn law_a_prompt_is_shown_whole(
    s: SessionView,
    prompt: Seq<char>,
    now: u64,
    fresh: Seq<char>,
)
    ensures
        ({
            let t = s.prompted(prompt, now, fresh);
            let n = s.output_lines.len() as int;
            &&& t.output_lines.len() == n + 2
            &&& t.output_lines.take(n) == s.output_lines
            &&& t.output_lines[n] == "▸ "@ + prompt
            &&& t.output_lines[n + 1].len() == 0
            &&& s.session_id is Some ==> t.session_id == s.session_id
            &&& s.session_id is None ==> t.session_id == Some(fresh)
            &&& t == (SessionView {
                state: StateView::Running,
                prompt_count: s.prompt_count + 1,
                rain_tick: 0,
                last_event_time: Some(now),
                output_lines: t.output_lines,
                session_id: t.session_id,
                ..s
            })
        }),
{
    assert(s.prompted(prompt, now, fresh).output_lines.take(s.output_lines.len() as int)
        =~= s.output_lines);
}

/// A prompt gets to the assistant whole, on a line for the conversation of the session. A process
/// is started for it exactly where there is none to write to and to read from; it is the program
/// of the assistant, it works in the directory of the session, and from the second prompt on it
/// resumes the conversation.
pub proof fn law_a_prompt_gets_to_its_process(
    s: SessionView,
    prompt: Seq<char>,
    now: u64,
    fresh: Seq<char>,
)
    ensures
        ({
            let plan = s.prompt_plan(prompt, now, fresh);
            let name = s.prompted(prompt, now, fresh).session_id->0;
            &&& claude::is_prompt_line(plan.line, prompt, name)
            &&& plan.logs.len() == 1 && text::starts_with(plan.logs[0], "[send_prompt] "@)
            &&& plan.spawn is None <==> s.process_stdin && s.event_rx
            &&& plan.spawn matches Some(process) ==> {
                &&& process.workdir == s.workdir
                &&& process.program == s.assistant.program
                &&& process.args.len() == 10
                &&& s.prompt_count > 0 ==> process.args[8] == "--resume"@
                &&& s.prompt_count <= 0 ==> process.args[8] == "--session-id"@
                &&& process.args[9] == name
            }
        }),
{
    let name = s.prompted(prompt, now, fresh).session_id->0;
    claude::law_prompts_are_handed_over(prompt, name);
    claude::law_arguments_of_the_process(name, s.prompt_count > 0);
    let plan = s.prompt_plan(prompt, now, fresh);
    assert(plan.logs[0].take("[send_prompt] "@.len() as int) =~= "[send_prompt] "@);
}

/// A session that runs is stopped once more than two minutes have gone by since its last event,
/// and not before; then it says so, and nothing of its process is left.
pub proof fn law_silence_is_two_minutes(
    s: SessionView,
    got_any: bool,
    last: u64,
    now: u64,
    fresh: Seq<char>,
)
    requires
        s.last_event_time == Some(last),
    ensures
        ({
            let d = s.drained(PollView::Empty, got_any, now, fresh);
            let silent = now - last > 120_000_000_000;
            &&& s.state is Running && silent ==> d.session == (SessionView {
                state: StateView::Idle,
                last_event_time: None,
                process_stdin: false,
                process_child: false,
                event_rx: false,
                output_lines: s.output_lines.push(
                    "  [timed out — no response for 2 min, press Esc to cancel]"@,
                ),
                ..s
            }) && d.over == Some(true) && d.logs == seq![
                "[error] Session "@ + text::decimal(s.id as nat) + " timed out (2 min no events)"@,
            ]
            &&& !(s.state is Running) || !silent ==> d.session == s && d.over == Some(got_any)
                && d.logs.len() == 0
            &&& d.send is None
        }),
{
}

/// A running session that has never been awake is left alone.
pub proof fn law_no_event_no_watchdog(s: SessionView, got_any: bool, now: u64, fresh: Seq<char>)
    requires
        s.last_event_time is None,
    ensures
        s.drained(PollView::Empty, got_any, now, fresh).session == s,
        s.drained(PollView::Empty, got_any, now, fresh).over == Some(got_any),
{
}

/// A queued prompt that cannot be sent leaves the session idle, with the error shown and the
/// process kept; reading goes on.
pub proof fn law_a_failed_send_is_told(
    s: SessionView,
    error: Seq<char>,
    got_any: bool,
    now: u64,
    fresh: Seq<char>,
)
    ensures
        ({
            let d = s.drained(PollView::SendFailed(error), got_any, now, fresh);
            &&& d.session == (SessionView {
                state: StateView::Idle,
                last_event_time: None,
                output_lines: s.output_lines.push("  [error] "@ + error),
                ..s
            })
            &&& d.over is None
            &&& d.send is None
            &&& d.logs == seq![
                "[session "@ + text::decimal(s.id as nat) + "] "@ + "Queued send error: "@ + error,
            ]
        }),
{
}

/// Reading begins where there is a channel. Without one an idle session is left alone, and any
/// other is idle from then on and says that its process has ended.
pub proof fn law_reading_begins(s: SessionView, got_any: bool, now: u64, fresh: Seq<char>)
    ensures
        ({
            let d = s.drained(PollView::Start, got_any, now, fresh);
            &&& s.event_rx ==> d.session == s && d.over is None
            &&& !s.event_rx && s.state is Idle ==> d.session == s && d.over == Some(false)
            &&& !s.event_rx && !(s.state is Idle) ==> d.session == (SessionView {
                state: StateView::Idle,
                last_event_time: None,
                process_stdin: false,
                process_child: false,
                event_rx: false,
                output_lines: s.output_lines.push("  [process ended unexpectedly]"@),
                ..s
            }) && d.over == Some(true) && d.logs == seq![
                "[error] Session "@ + text::decimal(s.id as nat) + " process ended unexpectedly"@,
            ]
            &&& d.send is None
        }),
{
}

/// An event that is read does to the session what the event says, and reading goes on unless it
/// was the last.
pub proof fn law_reading_an_event(
    s: SessionView,
    event: EventView,
    got_any: bool,
    now: u64,
    fresh: Seq<char>,
)
    ensures
        ({
            let d = s.drained(PollView::Event(event), got_any, now, fresh);
            let r = s.received(event, now, fresh);
            &&& d.session == r.session && d.logs == r.logs && d.send == r.send
            &&& event is ProcessExited <==> d.over is Some
        }),
{
}

/// Killing the process leaves the session idle without one, and all that was said and set as it
/// was; so does cancelling where there is no live process, but that it says so.
pub proof fn law_killing_leaves_the_conversation(s: SessionView)
    ensures
        s.killed() == (SessionView {
            state: StateView::Idle,
            process_stdin: false,
            process_child: false,
            event_rx: false,
            ..s
        }),
        s.cancelled().output_lines == s.output_lines.push("  [cancelled by user]"@),
        s.cancelled().session_id == s.session_id,
        s.cancelled().prompt_count == s.prompt_count,
        s.cancelled().workdir == s.workdir,
        s.cancelled().last_event_time is None,
{
}

/// A new session is idle, empty and unnamed, and greets the user in a box with the name of the
/// assistant.
pub proof fn law_a_new_session(id: usize, assistant: AssistantView)
    ensures
        ({
            let s = SessionView::new(id, assistant);
            &&& s.wf()
            &&& s.id == id && s.assistant == assistant
            &&& s.state is Idle && s.session_id is None && s.prompt_count == 0
            &&& s.input_buf.len() == 0 && s.cursor_pos == 0
            &&& !s.process_stdin && !s.process_child && !s.event_rx
            &&& s.queued_prompt is None && s.workdir is None && s.last_event_time is None
            &&& !s.auto_accept_permissions && !s.slash_popup_visible
            &&& s.title == "Session "@ + text::decimal(id as nat)
            &&& s.output_lines.len() == 5
            &&& text::contains(s.output_lines[1], assistant.name + " Session - ready"@)
            &&& s.output_lines[4].len() == 0
        }),
{
    let s = SessionView::new(id, assistant);
    let head = "   "@ + assistant.name + " Session - ready"@;
    let said = assistant.name + " Session - ready"@;
    let padded = text::pad_end(head, 38);
    let tail = padded.skip(head.len() as int) + "║"@;
    text::law_padding(head, 38);
    assert(padded == head + padded.skip(head.len() as int));
    assert(s.output_lines[1] == ("║"@ + "   "@) + said + tail);
    text::law_contains(s.output_lines[1], "║"@ + "   "@, said, tail);
    let none = Seq::<char>::empty();
    cursor::lemma_joint_on_boundary(none, none);
    assert(none + none == none);
}

/// While the assistant thinks, the line below the rain keeps its width: its dots come and go. The
/// prompt that waits is told below it, with no more than its first forty characters.
pub proof fn law_the_thinking_line(tick: u64, width: nat, queued: Seq<char>)
    ensures
        rain(tick, width, None).len() == 4,
        rain(tick, width, None)[3].len() == "  ⟳ thinking"@.len() + 4 + "  (Esc to cancel)"@.len(),
        rain(tick, width, Some(queued)).take(4) == rain(tick, width, None),
        queued.len() <= 40 ==> rain(tick, width, Some(queued))[4] == "  ⏳ queued: "@ + queued,
        queued.len() > 40 ==> rain(tick, width, Some(queued))[4] == "  ⏳ queued: "@
            + queued.take(40),
{
    text::law_padding(text::repeated('.', ((tick % 4) + 1) as nat), 4);
    assert(rain(tick, width, Some(queued)).take(4) =~= rain(tick, width, None));
}

/// The directory of a session is its own where it has one, and that of the program else.
pub proof fn law_the_directory_of_a_session(s: SessionView, program_dir: Seq<char>)
    ensures
        s.workdir matches Some(dir) ==> s.effective_cwd(program_dir) == dir,
        s.workdir is None ==> s.effective_cwd(program_dir) == program_dir,
{
}

/// A process that was started is the one that the prompts go to from then on: none of them starts
/// another. Nothing else of the session changes.
pub proof fn law_a_started_process_is_used(
    s: SessionView,
    prompt: Seq<char>,
    now: u64,
    fresh: Seq<char>,
)
    ensures
        s.attached().has_process() && s.attached().process_child,
        s.attached().prompt_plan(prompt, now, fresh).spawn is None,
        s.attached() == (SessionView {
            process_stdin: true,
            process_child: true,
            event_rx: true,
            ..s
        }),
        s.attached().forced_idle() == s.forced_idle(),
{
}

/// A prompt that could not be sent leaves the session idle, with the error shown; what there is of
/// a process stays, and so do the prompt in the output and its count.
pub proof fn law_an_undelivered_prompt(s: SessionView, error: Seq<char>)
    ensures
        s.undelivered(error) == (SessionView {
            state: StateView::Idle,
            last_event_time: None,
            output_lines: s.output_lines.push("  [error] "@ + error),
            ..s
        }),
{
}

/// A tick moves the rain and nothing else.
pub proof fn law_a_tick_moves_the_rain(s: SessionView)
    ensures
        s.rain_tick < u64::MAX ==> s.ticked().rain_tick == s.rain_tick + 1,
        s.rain_tick == u64::MAX ==> s.ticked().rain_tick == 0,
        s.ticked() == (SessionView { rain_tick: s.ticked().rain_tick, ..s }),
{
}

/// The rain is made of drops, sparkles and gaps; drops fall where the tick, the column and the row
/// make them fall, and anywhere else there is a sparkle or nothing.
pub proof fn law_what_the_rain_is_made_of(tick: u64, row: int, col: int)
    requires
        0 <= row,
        0 <= col,
    ensures
        (tick + col * 3 + row * 7) % 20 < 3 ==> drops().contains(rain_char(tick, row, col)),
        (tick + col * 3 + row * 7) % 20 >= 3 ==> rain_char(tick, row, col) == ' '
            || sparkles().contains(rain_char(tick, row, col)),
{
    reveal_strlit("░▒▓│┃╎╏┆┇┊┋·:.⡀⠄⠂⠁⠈⠐⠠");
    reveal_strlit("⠁⠂⠄⡀⠈⠐⠠⢀⣀⢠⢐⢈⢁⢂⢄⣠");
    assert(drops().len() == 21);
    assert(sparkles().len() == 16);
    let d = ((tick + col + row) as usize) as int % 21;
    let e = ((tick + col) as usize) as int % 16;
    assert(drops().contains(drops()[d]));
    assert(sparkles().contains(sparkles()[e]));
}

/// The name of a new conversation has the usual form: hyphens part its digits into five groups.
pub proof fn law_names_of_conversations(id: Seq<char>, i: int)
    requires
        is_uuid_v4(id),
        0 <= i < 36,
    ensures
        id.len() == 36,
        i == 8 || i == 13 || i == 18 || i == 23 ==> id[i] == '-',
        i != 8 && i != 13 && i != 18 && i != 23 ==> '0' <= id[i] <= '9' || 'a' <= id[i] <= 'f',
        id[14] == '4',
        id[19] == '8' || id[19] == '9' || id[19] == 'a' || id[19] == 'b',
{
}

}
