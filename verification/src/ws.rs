//! The protocol of the WebSocket service: what the server says, what it is asked, and what it
//! does with the session of a connection.
use vstd::prelude::*;

use crate::claude;
use crate::claude::send_permission_response;
use crate::json;
use crate::json::{parse, Json, JsonView};
use crate::paths;
use crate::paths::expand_path;
use crate::registry::{Sessions, SessionsView};
use crate::session;
use crate::session::{
    new_session_id, ClaudeSession, SessionState, SessionView, StateView,
};
use crate::session_keys;
use crate::session_keys::{
    found_dir, DirProbe, KeyAction, KeyActionView, Surroundings, SurroundingsView,
};
use crate::shared::{
    debug_log, update_status, ws_log, SharedState, SharedView, WsMode, ModeView,
};
use crate::text;
use crate::text::{cat2, cat3, cat4, cat5, decimal_of, no_lines, one_line, same, truncate_chars};

verus! {

// ── What the server says ──

/// A message of that type, without anything else.
pub open spec fn tagged(kind: Seq<char>) -> JsonView {
    json::empty_object().with("type"@, JsonView::Text(kind))
}

pub open spec fn error_message(msg: Seq<char>) -> JsonView {
    tagged("error"@).with("message"@, JsonView::Text(msg))
}

pub open spec fn connected_message(session_id: usize, cwd: Seq<char>) -> JsonView {
    tagged("connected"@).with(
        "session_id"@,
        JsonView::Number(json::u64_number(session_id as u64)),
    ).with("cwd"@, JsonView::Text(cwd))
}

pub open spec fn cwd_message(path: Seq<char>) -> JsonView {
    tagged("cwd"@).with("path"@, JsonView::Text(path))
}

pub open spec fn output_message(line: Seq<char>) -> JsonView {
    tagged("output"@).with("line"@, JsonView::Text(line))
}

pub open spec fn state_message(state: Seq<char>) -> JsonView {
    tagged("state"@).with("state"@, JsonView::Text(state))
}

pub open spec fn permission_message(tool: Seq<char>, command: Seq<char>) -> JsonView {
    tagged("permission"@).with("tool"@, JsonView::Text(tool)).with(
        "command"@,
        JsonView::Text(command),
    )
}

pub open spec fn cd_message(cwd: Seq<char>) -> JsonView {
    tagged("cd"@).with("cwd"@, JsonView::Text(cwd))
}

pub open spec fn skip_permissions_message(enabled: bool) -> JsonView {
    tagged("skip_permissions"@).with("enabled"@, JsonView::Bool(enabled))
}

/// Whether a text is what a message is sent as: the message on one line, which reads as it again.
pub open spec fn sent_as(text: Seq<char>, message: JsonView) -> bool {
    text == json::compact_json(message) && json::reads_as(text, message)
}

fn tag(kind: &str) -> (m: Json)
    ensures
        m@ == tagged(kind@),
{
    Json::object().with("type", Json::text(kind))
}

pub fn ws_error(msg: &str) -> (r: String)
    ensures
        sent_as(r@, error_message(msg@)),
{
    tag("error").with("message", Json::text(msg)).to_text()
}

pub fn ws_connected(session_id: usize, cwd: &str) -> (r: String)
    ensures
        sent_as(r@, connected_message(session_id, cwd@)),
        json::number_u64(json::u64_number(session_id as u64)) == Some(session_id as u64),
{
    tag("connected").with("session_id", Json::unsigned(session_id as u64)).with(
        "cwd",
        Json::text(cwd),
    ).to_text()
}

pub fn ws_cwd(path: &str) -> (r: String)
    ensures
        sent_as(r@, cwd_message(path@)),
{
    tag("cwd").with("path", Json::text(path)).to_text()
}

pub fn ws_output(line: &str) -> (r: String)
    ensures
        sent_as(r@, output_message(line@)),
{
    tag("output").with("line", Json::text(line)).to_text()
}

pub fn ws_state(state: &str) -> (r: String)
    ensures
        sent_as(r@, state_message(state@)),
{
    tag("state").with("state", Json::text(state)).to_text()
}

pub fn ws_permission(tool: &str, command: &str) -> (r: String)
    ensures
        sent_as(r@, permission_message(tool@, command@)),
{
    tag("permission").with("tool", Json::text(tool)).with("command", Json::text(command)).to_text()
}

fn ws_cd(cwd: &str) -> (r: String)
    ensures
        sent_as(r@, cd_message(cwd@)),
{
    tag("cd").with("cwd", Json::text(cwd)).to_text()
}

fn ws_skip_permissions(enabled: bool) -> (r: String)
    ensures
        sent_as(r@, skip_permissions_message(enabled)),
{
    tag("skip_permissions").with("enabled", Json::Bool(enabled)).to_text()
}

// ── What the server is asked ──

/// What a client asks for.
pub enum Request {
    Prompt(String),
    Permission(bool),
    Cd(String),
    Kill,
    Clear,
    Resume(String),
    SkipPermissions,
    /// A message of a type that the server does not know.
    Unknown(String),
    /// No JSON; the text is the message of the error.
    Unreadable(String),
}

#[verifier::ext_equal]
pub enum AskView {
    Prompt(Seq<char>),
    Permission(bool),
    Cd(Seq<char>),
    Kill,
    Clear,
    Resume(Seq<char>),
    SkipPermissions,
    Unknown(Seq<char>),
    Unreadable(Seq<char>),
}

impl DeepView for Request {
    type V = AskView;

    open spec fn deep_view(&self) -> AskView {
        match self {
            Request::Prompt(s) => AskView::Prompt(s@),
            Request::Permission(b) => AskView::Permission(*b),
            Request::Cd(s) => AskView::Cd(s@),
            Request::Kill => AskView::Kill,
            Request::Clear => AskView::Clear,
            Request::Resume(s) => AskView::Resume(s@),
            Request::SkipPermissions => AskView::SkipPermissions,
            Request::Unknown(s) => AskView::Unknown(s@),
            Request::Unreadable(s) => AskView::Unreadable(s@),
        }
    }
}

/// What a message asks for.
pub open spec fn value_ask(msg: JsonView) -> AskView {
    let kind = msg.text_or("type"@, Seq::empty());
    if kind == "prompt"@ {
        AskView::Prompt(msg.text_or("message"@, Seq::empty()))
    } else if kind == "permission"@ {
        AskView::Permission(msg.flag_at("allow"@))
    } else if kind == "cd"@ {
        AskView::Cd(msg.text_or("path"@, Seq::empty()))
    } else if kind == "kill"@ {
        AskView::Kill
    } else if kind == "clear"@ {
        AskView::Clear
    } else if kind == "resume"@ {
        AskView::Resume(msg.text_or("session_id"@, Seq::empty()))
    } else if kind == "skip_permissions"@ {
        AskView::SkipPermissions
    } else {
        AskView::Unknown(kind)
    }
}

/// What a text asks for.
pub open spec fn text_ask(text: Seq<char>) -> AskView {
    match json::parsed_json(text) {
        Ok(msg) => value_ask(msg),
        Err(e) => AskView::Unreadable(e),
    }
}

impl AskView {
    /// The type that a message has.
    pub open spec fn kind(self) -> Seq<char> {
        match self {
            AskView::Prompt(_) => "prompt"@,
            AskView::Permission(_) => "permission"@,
            AskView::Cd(_) => "cd"@,
            AskView::Kill => "kill"@,
            AskView::Clear => "clear"@,
            AskView::Resume(_) => "resume"@,
            AskView::SkipPermissions => "skip_permissions"@,
            AskView::Unknown(kind) => kind,
            AskView::Unreadable(_) => Seq::empty(),
        }
    }

    /// What the debug log says of a message that could be read.
    pub open spec fn logs(self, client: Seq<char>) -> Seq<Seq<char>> {
        if self is Unreadable {
            Seq::empty()
        } else {
            seq!["[ws] "@ + client + " -> type="@ + self.kind()]
        }
    }

    /// Why a message cannot be followed, whatever the session; none where it can.
    pub open spec fn fault(self) -> Option<Seq<char>> {
        match self {
            AskView::Unreadable(e) => Some("Invalid JSON: "@ + e),
            AskView::Unknown(kind) => Some("Unknown message type: "@ + kind),
            AskView::Prompt(message) => if message.len() == 0 {
                Some("Empty prompt"@)
            } else {
                None
            },
            AskView::Resume(id) => if id.len() == 0 {
                Some("Usage: /resume <session-id>"@)
            } else {
                None
            },
            _ => None,
        }
    }

    /// Whether the client is told when the session cannot be had.
    pub open spec fn wants_session(self) -> bool {
        !(self is Kill) && !(self is Clear)
    }
}

fn read_request_value(msg: &Json) -> (r: Request)
    ensures
        r.deep_view() == value_ask(msg@),
{
    proof {
        reveal_strlit("");
        assert(""@ == Seq::<char>::empty());
    }
    let kind = msg.text_or("type", "");
    if same(kind, "prompt") {
        Request::Prompt(msg.text_or("message", "").to_string())
    } else if same(kind, "permission") {
        Request::Permission(msg.flag_at("allow"))
    } else if same(kind, "cd") {
        Request::Cd(msg.text_or("path", "").to_string())
    } else if same(kind, "kill") {
        Request::Kill
    } else if same(kind, "clear") {
        Request::Clear
    } else if same(kind, "resume") {
        Request::Resume(msg.text_or("session_id", "").to_string())
    } else if same(kind, "skip_permissions") {
        Request::SkipPermissions
    } else {
        Request::Unknown(kind.to_string())
    }
}

/// What a text asks for.
pub fn read_request(text: &str) -> (r: Request)
    ensures
        r.deep_view() == text_ask(text@),
{
    match parse(text) {
        Ok(msg) => read_request_value(&msg),
        Err(e) => Request::Unreadable(e),
    }
}

fn request_logs(request: &Request, client_id: &str) -> (r: Vec<String>)
    ensures
        text::texts(r@) == request.deep_view().logs(client_id@),
{
    let kind = match request {
        Request::Unreadable(_) => {
            return no_lines();
        },
        Request::Prompt(_) => "prompt",
        Request::Permission(_) => "permission",
        Request::Cd(_) => "cd",
        Request::Kill => "kill",
        Request::Clear => "clear",
        Request::Resume(_) => "resume",
        Request::SkipPermissions => "skip_permissions",
        Request::Unknown(kind) => kind.as_str(),
    };
    one_line(cat4("[ws] ", client_id, " -> type=", kind))
}

fn request_fault(request: &Request) -> (r: Option<String>)
    ensures
        r.deep_view() == request.deep_view().fault(),
{
    match request {
        Request::Unreadable(e) => Some(cat2("Invalid JSON: ", e.as_str())),
        Request::Unknown(kind) => Some(cat2("Unknown message type: ", kind.as_str())),
        Request::Prompt(message) => if message.as_str().is_empty() {
            Some("Empty prompt".to_string())
        } else {
            None
        },
        Request::Resume(id) => if id.as_str().is_empty() {
            Some("Usage: /resume <session-id>".to_string())
        } else {
            None
        },
        _ => None,
    }
}

// ── What the server does ──

/// What comes of a message.
pub struct WsReply {
    /// A message for the client.
    pub reply: Option<String>,
    /// Lines for the debug log.
    pub logs: Vec<String>,
    /// What is left to do outside the session.
    pub action: KeyAction,
}

/// A session after a message, and what the message leaves to do.
#[verifier::ext_equal]
pub struct AskStep {
    pub session: SessionView,
    pub reply: Option<JsonView>,
    pub logs: Seq<Seq<char>>,
    pub action: KeyActionView,
}

/// All sessions after a message, and what the message leaves to do.
#[verifier::ext_equal]
pub struct WsStep {
    pub sessions: SessionsView,
    pub reply: Option<JsonView>,
    pub logs: Seq<Seq<char>>,
    pub action: KeyActionView,
}

impl WsReply {
    /// Whether this is the reply, the log lines and the action.
    pub open spec fn is(
        self,
        reply: Option<JsonView>,
        logs: Seq<Seq<char>>,
        action: KeyActionView,
    ) -> bool {
        &&& text::texts(self.logs@) == logs
        &&& self.action.deep_view() == action
        &&& self.action.sends_a_line()
        &&& match (self.reply, reply) {
            (Some(text), Some(message)) => sent_as(text@, message),
            (None, None) => true,
            _ => false,
        }
    }
}

impl SessionView {
    /// A message that changes the session to this, and leaves nothing to do.
    pub open spec fn silent(self) -> AskStep {
        AskStep {
            session: self,
            reply: None,
            logs: Seq::empty(),
            action: KeyActionView::Nothing,
        }
    }

    /// A message that is answered.
    pub open spec fn replies(self, message: JsonView) -> AskStep {
        AskStep { reply: Some(message), ..self.silent() }
    }

    /// A prompt from a client: it is sent, or waits while the assistant runs.
    pub open spec fn prompt_asked(
        self,
        prompt: Seq<char>,
        around: SurroundingsView,
        fresh: Seq<char>,
    ) -> AskStep {
        if self.is_running() {
            SessionView {
                queued_prompt: Some(prompt),
                ..self.said("  [ws] queued: "@ + prompt)
            }.silent()
        } else {
            AskStep {
                session: self.prompted(prompt, around.now, fresh),
                reply: None,
                logs: seq![
                    "[ws] Sending prompt to session "@ + text::decimal(self.id as nat) + ": "@
                        + text::first_chars(prompt, 80),
                ],
                action: KeyActionView::Prompt(self.prompt_plan(prompt, around.now, fresh)),
            }
        }
    }

    /// An answer from a client to the request that waits.
    pub open spec fn permission_asked(self, allow: bool, now: u64) -> AskStep {
        match self.state {
            StateView::AwaitingPermission(req) => if self.process_stdin {
                let out = if allow {
                    claude::permission_sent(req.request_id, true, req.raw_input, None)
                } else {
                    claude::permission_sent(
                        req.request_id,
                        false,
                        None,
                        Some("User denied this action via WebSocket"@),
                    )
                };
                AskStep {
                    session: self.answering(now).said(
                        "  [ws permission: "@ + (if allow {
                            "allowed"@
                        } else {
                            "denied"@
                        }) + "]"@,
                    ),
                    reply: None,
                    logs: out.logs,
                    action: KeyActionView::Answer(out.line),
                }
            } else {
                self.forced_idle().said("  [error] process not running"@).replies(
                    error_message("Process not running"@),
                )
            },
            _ => self.replies(error_message("Session not awaiting permission"@)),
        }
    }

    /// The path that a client means; no path at all is the home directory.
    pub open spec fn cd_path(self, path: Seq<char>, around: SurroundingsView) -> Seq<char> {
        let raw = if path.len() == 0 {
            paths::home_or_tilde(around.home)
        } else {
            path
        };
        paths::expanded(raw, around.home, self.effective_cwd(around.program_dir))
    }

    /// What a message makes of the session that it is for.
    pub open spec fn asked(
        self,
        ask: AskView,
        around: SurroundingsView,
        fresh: Seq<char>,
    ) -> AskStep {
        match ask {
            AskView::Prompt(prompt) => self.prompt_asked(prompt, around, fresh),
            AskView::Permission(allow) => self.permission_asked(allow, around.now),
            AskView::Cd(path) => AskStep {
                action: KeyActionView::CheckDir(self.cd_path(path, around)),
                ..self.silent()
            },
            AskView::Kill => self.killed().said("  [kill] session process terminated"@).silent(),
            AskView::Clear => SessionView { output_lines: Seq::empty(), ..self }.silent(),
            AskView::Resume(id) => self.resumed(id).silent(),
            AskView::SkipPermissions => self.permissions_toggled().replies(
                skip_permissions_message(!self.auto_accept_permissions),
            ),
            _ => self.silent(),
        }
    }

    /// The counter of prompts has room for what a message adds to it.
    pub open spec fn room_for_ask(self, ask: AskView) -> bool {
        ask is Prompt && !self.is_running() ==> self.prompt_count < u32::MAX
    }

    /// What `cd` makes of the session once the path was looked at, and what the client is told.
    pub open spec fn cd_asked(self, path: Seq<char>, found: Option<Seq<char>>) -> AskStep {
        match found {
            None => self.replies(error_message("Not a directory: "@ + path)),
            Some(dir) => self.moved(dir, dir).replies(cd_message(dir)),
        }
    }
}

impl SessionsView {
    /// The session that a message is for, if there is one, can count the prompt that it sends.
    pub open spec fn has_room(self, ask: AskView, id: usize) -> bool {
        self.table.contains_key(id) ==> self.table[id].room_for_ask(ask)
    }

    /// What a message makes of the sessions; it is for the session `id`.
    pub open spec fn asked(
        self,
        ask: AskView,
        id: usize,
        client: Seq<char>,
        around: SurroundingsView,
        fresh: Seq<char>,
    ) -> WsStep {
        match ask.fault() {
            Some(fault) => WsStep {
                sessions: self,
                reply: Some(error_message(fault)),
                logs: ask.logs(client),
                action: KeyActionView::Nothing,
            },
            None => if self.table.contains_key(id) {
                let step = self.table[id].asked(ask, around, fresh);
                WsStep {
                    sessions: self.updated(id, step.session),
                    reply: step.reply,
                    logs: ask.logs(client) + step.logs,
                    action: step.action,
                }
            } else {
                WsStep {
                    sessions: self,
                    reply: unreachable_reply(ask, "Session not found"@),
                    logs: ask.logs(client),
                    action: KeyActionView::Nothing,
                }
            },
        }
    }
}

/// What a client is told whose session cannot be had.
pub open spec fn unreachable_reply(ask: AskView, why: Seq<char>) -> Option<JsonView> {
    match ask.fault() {
        Some(fault) => Some(error_message(fault)),
        None => if ask.wants_session() {
            Some(error_message(why))
        } else {
            None
        },
    }
}

fn done(reply: Option<String>) -> (r: WsReply)
    ensures
        r.reply == reply,
        text::texts(r.logs@) == Seq::<Seq<char>>::empty(),
        r.action is Nothing,
{
    WsReply { reply, logs: no_lines(), action: KeyAction::Nothing }
}

impl ClaudeSession {
    /// A prompt from a client.
    pub fn send_prompt_with(
        &mut self,
        prompt: &str,
        around: &Surroundings,
        fresh: String,
    ) -> (r: WsReply)
        requires
            !old(self)@.is_running() ==> old(self)@.prompt_count < u32::MAX,
        ensures
            ({
                let step = old(self)@.prompt_asked(prompt@, around@, fresh@);
                final(self)@ == step.session && r.is(step.reply, step.logs, step.action)
            }),
    {
        // If running, queue the prompt
        if self.is_running() {
            self.say(cat2("  [ws] queued: ", prompt));
            self.queued_prompt = Some(prompt.to_string());
            return done(None);
        }
        let log = cat4(
            "[ws] Sending prompt to session ",
            decimal_of(self.id as u64).as_str(),
            ": ",
            truncate_chars(prompt, 80),
        );
        let plan = self.prepare_and_send_prompt_with(prompt, around.now, fresh);
        WsReply { reply: None, logs: one_line(log), action: KeyAction::Prompt(plan) }
    }

    /// An answer from a client to the request that waits.
    pub fn handle_permission(&mut self, allow: bool, now: u64) -> (r: WsReply)
        ensures
            ({
                let step = old(self)@.permission_asked(allow, now);
                final(self)@ == step.session && r.is(step.reply, step.logs, step.action)
            }),
    {
        if !self.is_awaiting_permission() {
            return done(Some(ws_error("Session not awaiting permission")));
        }
        if !self.process_stdin {
            self.force_idle();
            self.say("  [error] process not running".to_string());
            return done(Some(ws_error("Process not running")));
        }
        let mut state = SessionState::Idle;
        core::mem::swap(&mut state, &mut self.state);
        match state {
            SessionState::AwaitingPermission(req) => {
                let _ = self.begin_permission_response(now);
                let label = if allow {
                    "allowed"
                } else {
                    "denied"
                };
                self.say(cat3("  [ws permission: ", label, "]"));
                let out = if allow {
                    send_permission_response(req.request_id.as_str(), true, req.raw_input, None)
                } else {
                    send_permission_response(
                        req.request_id.as_str(),
                        false,
                        None,
                        Some("User denied this action via WebSocket"),
                    )
                };
                WsReply { reply: None, logs: out.logs, action: KeyAction::Answer(out.line) }
            },
            _ => done(None),
        }
    }

    /// The answer of a client could not be sent to the process: the line for the debug log, and
    /// what the client is told.
    pub fn ws_answer_failed(&mut self, error: &str) -> (r: (String, String))
        ensures
            final(self)@ == old(self)@.answer_lost(error@),
            r.0@ == "[ws] Permission send error: "@ + error@,
            sent_as(r.1@, error_message(error@)),
    {
        self.force_idle();
        self.say(cat2("  [error] ", error));
        (cat2("[ws] Permission send error: ", error), ws_error(error))
    }

    /// Where a client wants the session to work: a path that has to be looked at.
    pub fn handle_cd(&self, raw_path: &str, around: &Surroundings) -> (path: String)
        ensures
            path@ == self@.cd_path(raw_path@, around@),
    {
        let home: Option<&str> = match &around.home {
            Some(h) => Some(h.as_str()),
            None => None,
        };
        let raw: String = if raw_path.is_empty() {
            match home {
                Some(h) => h.to_string(),
                None => "~".to_string(),
            }
        } else {
            raw_path.to_string()
        };
        let base = self.effective_cwd(around.program_dir.as_str());
        expand_path(raw.as_str(), home, base.as_str())
    }

    /// Ends `cd` for a client, once the path was looked at; the text is the reply.
    pub fn finish_ws_cd(&mut self, path: &str, probe: DirProbe) -> (reply: String)
        ensures
            ({
                let step = old(self)@.cd_asked(
                    path@,
                    session_keys::dir_found(path@, probe.is_dir, probe.canonical.deep_view()),
                );
                final(self)@ == step.session && sent_as(reply@, step.reply->0)
            }),
    {
        match found_dir(path, probe) {
            None => ws_error(cat2("Not a directory: ", path).as_str()),
            Some(dir) => {
                let shown = dir.clone();
                self.move_to(dir, shown.as_str());
                ws_cd(shown.as_str())
            },
        }
    }

    pub fn handle_kill(&mut self)
        ensures
            final(self)@ == old(self)@.killed().said("  [kill] session process terminated"@),
    {
        self.kill_process();
        self.say("  [kill] session process terminated".to_string());
    }

    pub fn handle_clear(&mut self)
        ensures
            final(self)@ == (SessionView { output_lines: Seq::empty(), ..old(self)@ }),
    {
        self.output_lines = Vec::new();
        assert(self@.output_lines =~= Seq::<Seq<char>>::empty());
    }

    pub fn handle_skip_permissions(&mut self) -> (reply: String)
        ensures
            final(self)@ == old(self)@.permissions_toggled(),
            sent_as(reply@, skip_permissions_message(!old(self)@.auto_accept_permissions)),
    {
        self.toggle_permissions();
        ws_skip_permissions(self.auto_accept_permissions)
    }

    fn follow(&mut self, request: Request, around: &Surroundings, fresh: String) -> (r: WsReply)
        requires
            old(self)@.room_for_ask(request.deep_view()),
        ensures
            ({
                let step = old(self)@.asked(request.deep_view(), around@, fresh@);
                final(self)@ == step.session && r.is(step.reply, step.logs, step.action)
            }),
    {
        match request {
            Request::Prompt(prompt) => self.send_prompt_with(prompt.as_str(), around, fresh),
            Request::Permission(allow) => self.handle_permission(allow, around.now),
            Request::Cd(raw_path) => {
                let path = self.handle_cd(raw_path.as_str(), around);
                WsReply { reply: None, logs: no_lines(), action: KeyAction::CheckDir(path) }
            },
            Request::Kill => {
                self.handle_kill();
                done(None)
            },
            Request::Clear => {
                self.handle_clear();
                done(None)
            },
            Request::Resume(id) => {
                self.resume(id.as_str());
                done(None)
            },
            Request::SkipPermissions => done(Some(self.handle_skip_permissions())),
            _ => done(None),
        }
    }
}

/// A message of a client whose session cannot be had for the reason given.
fn refuse(request: &Request, why: &str) -> (r: Option<String>)
    ensures
        match (r, unreachable_reply(request.deep_view(), why@)) {
            (Some(text), Some(message)) => sent_as(text@, message),
            (None, None) => true,
            _ => false,
        },
{
    match request_fault(request) {
        Some(fault) => Some(ws_error(fault.as_str())),
        None => match request {
            Request::Kill | Request::Clear => None,
            _ => Some(ws_error(why)),
        },
    }
}

/// Handle an incoming JSON message for the session-like protocol, where the sessions are in use
/// elsewhere.
pub fn handle_message_when_busy(text: &str, client_id: &str) -> (r: WsReply)
    ensures
        r.is(
            unreachable_reply(text_ask(text@), "Sessions lock busy"@),
            text_ask(text@).logs(client_id@),
            KeyActionView::Nothing,
        ),
{
    let request = read_request(text);
    let logs = request_logs(&request, client_id);
    WsReply { reply: refuse(&request, "Sessions lock busy"), logs, action: KeyAction::Nothing }
}

impl Sessions {
    /// Follows a request. `fresh` names the conversation where a prompt is sent and it has no
    /// name yet.
    pub fn handle_request_with(
        &mut self,
        request: Request,
        session_id: usize,
        client_id: &str,
        around: &Surroundings,
        fresh: String,
    ) -> (r: WsReply)
        requires
            old(self)@.has_room(request.deep_view(), session_id),
        ensures
            ({
                let step = old(self)@.asked(
                    request.deep_view(),
                    session_id,
                    client_id@,
                    around@,
                    fresh@,
                );
                final(self)@ == step.sessions && r.is(step.reply, step.logs, step.action)
            }),
    {
        let mut logs = request_logs(&request, client_id);
        if let Some(fault) = request_fault(&request) {
            return WsReply {
                reply: Some(ws_error(fault.as_str())),
                logs,
                action: KeyAction::Nothing,
            };
        }
        match self.take(session_id) {
            None => {
                let reply = refuse(&request, "Session not found");
                WsReply { reply, logs, action: KeyAction::Nothing }
            },
            Some(session) => {
                let mut session = session;
                let step = session.follow(request, around, fresh);
                let mut more = step.logs;
                let ghost first = text::texts(logs@);
                let ghost rest = text::texts(more@);
                logs.append(&mut more);
                assert(text::texts(logs@) =~= first + rest);
                self.put(session_id, session);
                assert(self@.table =~= old(self)@.updated(session_id, session@).table);
                WsReply { reply: step.reply, logs, action: step.action }
            },
        }
    }

    /// Handle an incoming JSON message for the session-like protocol. `fresh` names the
    /// conversation where a prompt is sent and it has no name yet.
    pub fn handle_message_with(
        &mut self,
        text: &str,
        session_id: usize,
        client_id: &str,
        around: &Surroundings,
        fresh: String,
    ) -> (r: WsReply)
        requires
            old(self)@.has_room(text_ask(text@), session_id),
        ensures
            ({
                let step = old(self)@.asked(
                    text_ask(text@),
                    session_id,
                    client_id@,
                    around@,
                    fresh@,
                );
                final(self)@ == step.sessions && r.is(step.reply, step.logs, step.action)
            }),
    {
        let request = read_request(text);
        self.handle_request_with(request, session_id, client_id, around, fresh)
    }

    /// Handle an incoming JSON message for the session-like protocol.
    pub fn handle_message(
        &mut self,
        text: &str,
        session_id: usize,
        client_id: &str,
        around: &Surroundings,
    ) -> (r: WsReply)
        requires
            old(self)@.has_room(text_ask(text@), session_id),
        ensures
            exists|fresh: Seq<char>| #[trigger]
                session::is_uuid_v4(fresh) && ({
                    let step = old(self)@.asked(
                        text_ask(text@),
                        session_id,
                        client_id@,
                        around@,
                        fresh,
                    );
                    final(self)@ == step.sessions && r.is(step.reply, step.logs, step.action)
                }),
    {
        let fresh = new_session_id();
        self.handle_message_with(text, session_id, client_id, around, fresh)
    }

    /// Whether a message can be handled: the session that it is for can count the prompt that it
    /// sends.
    pub fn can_handle(&self, text: &str, session_id: usize) -> (r: bool)
        ensures
            r == self@.has_room(text_ask(text@), session_id),
    {
        match self.table.get(&session_id) {
            Some(session) => match read_request(text) {
                Request::Prompt(_) => session.is_running() || session.prompt_count < u32::MAX,
                _ => true,
            },
            None => true,
        }
    }

    /// Handle an incoming JSON message for the session-like protocol, unless it is a prompt that
    /// its session cannot count any more: then nothing happens, and there is no reply.
    pub fn try_handle_message(
        &mut self,
        text: &str,
        session_id: usize,
        client_id: &str,
        around: &Surroundings,
    ) -> (r: Option<WsReply>)
        ensures
            match r {
                Some(reply) => old(self)@.has_room(text_ask(text@), session_id) && exists|
                    fresh: Seq<char>,
                | #[trigger]
                    session::is_uuid_v4(fresh) && ({
                        let step = old(self)@.asked(
                            text_ask(text@),
                            session_id,
                            client_id@,
                            around@,
                            fresh,
                        );
                        final(self)@ == step.sessions && reply.is(
                            step.reply,
                            step.logs,
                            step.action,
                        )
                    }),
                None => !old(self)@.has_room(text_ask(text@), session_id) && final(self)@ == old(
                    self,
                )@,
            },
    {
        if self.can_handle(text, session_id) {
            Some(self.handle_message(text, session_id, client_id, around))
        } else {
            None
        }
    }
}

// ── Output streaming ──

/// What a client has been told of its session so far.
pub struct OutputStreamer {
    pub last_line_count: usize,
    pub last_state: String,
    pub last_cwd: String,
}

#[verifier::ext_equal]
pub struct StreamerView {
    pub lines: int,
    pub state: Seq<char>,
    pub cwd: Seq<char>,
}

impl View for OutputStreamer {
    type V = StreamerView;

    open spec fn view(&self) -> StreamerView {
        StreamerView {
            lines: self.last_line_count as int,
            state: self.last_state@,
            cwd: self.last_cwd@,
        }
    }
}

/// Whether these texts are what these messages are sent as, one by one.
pub open spec fn all_sent_as(texts: Seq<String>, messages: Seq<JsonView>) -> bool {
    texts.len() == messages.len() && forall|i: int|
        0 <= i < texts.len() ==> sent_as(#[trigger] texts[i]@, messages[i])
}

impl StreamerView {
    /// A client that has been told nothing.
    pub open spec fn new() -> StreamerView {
        StreamerView { lines: 0, state: Seq::empty(), cwd: Seq::empty() }
    }

    /// From which line on the output is news; all of it where it got shorter.
    pub open spec fn news_from(self, count: int) -> int {
        if count < self.lines {
            0
        } else {
            self.lines
        }
    }

    pub open spec fn output_news(self, lines: Seq<Seq<char>>) -> Seq<JsonView> {
        lines.skip(self.news_from(lines.len() as int)).map_values(
            |line: Seq<char>| output_message(line),
        )
    }

    pub open spec fn state_news(self, state: StateView) -> Seq<JsonView> {
        if state.word() == self.state {
            Seq::empty()
        } else {
            match state {
                StateView::AwaitingPermission(req) => seq![
                    state_message(state.word()),
                    permission_message(req.tool_name, req.input_preview),
                ],
                _ => seq![state_message(state.word())],
            }
        }
    }

    pub open spec fn cwd_news(self, cwd: Seq<char>) -> Seq<JsonView> {
        if cwd == self.cwd {
            Seq::empty()
        } else {
            seq![cwd_message(cwd)]
        }
    }

    /// What the client is told of the session.
    pub open spec fn news(self, session: SessionView, program_dir: Seq<char>) -> Seq<JsonView> {
        self.output_news(session.output_lines) + self.state_news(session.state) + self.cwd_news(
            session.effective_cwd(program_dir),
        )
    }

    /// The client once it was told.
    pub open spec fn told(self, session: SessionView, program_dir: Seq<char>) -> StreamerView {
        StreamerView {
            lines: session.output_lines.len() as int,
            state: session.state.word(),
            cwd: session.effective_cwd(program_dir),
        }
    }
}

impl OutputStreamer {
    pub fn new() -> (r: OutputStreamer)
        ensures
            r@ == StreamerView::new(),
    {
        OutputStreamer { last_line_count: 0, last_state: String::new(), last_cwd: String::new() }
    }

    /// The new output lines, state changes and permission requests of a session, as messages for
    /// the client.
    pub fn step(&mut self, session: &ClaudeSession, program_dir: &str) -> (r: Vec<String>)
        ensures
            final(self)@ == old(self)@.told(session@, program_dir@),
            all_sent_as(r@, old(self)@.news(session@, program_dir@)),
    {
        let mut out: Vec<String> = Vec::new();
        let count: usize = session.output_lines.len();
        // Lines were cleared or trimmed: tell them from the start
        let from: usize = if count < self.last_line_count {
            0
        } else {
            self.last_line_count
        };
        let ghost news = old(self)@.output_news(session@.output_lines);
        let mut i: usize = from;
        while i < count
            invariant
                from <= i <= count,
                count == session.output_lines@.len(),
                news.len() == count - from,
                forall|k: int|
                    0 <= k < news.len() ==> #[trigger] news[k] == output_message(
                        session@.output_lines[from + k],
                    ),
                all_sent_as(out@, news.take(i - from)),
            decreases count - i,
        {
            let ghost before = out@;
            let line = session.output_lines[i].as_str();
            assert(session@.output_lines[i as int] == line@);
            out.push(ws_output(line));
            proof {
                assert(news[i - from] == output_message(line@));
                assert forall|k: int| 0 <= k < out@.len() implies sent_as(
                    #[trigger] out@[k]@,
                    news.take(i + 1 - from)[k],
                ) by {
                    if k < before.len() {
                        assert(out@[k] == before[k]);
                    }
                }
            }
            i += 1;
        }
        assert(news.take(count - from) == news);
        self.last_line_count = count;
        let state = session.state.as_str();
        if !same(state, self.last_state.as_str()) {
            out.push(ws_state(state));
            // If entering permission state, send the permission details
            if let SessionState::AwaitingPermission(req) = &session.state {
                out.push(ws_permission(req.tool_name.as_str(), req.input_preview.as_str()));
            }
            self.last_state = state.to_string();
        }
        assert(all_sent_as(out@, news + old(self)@.state_news(session@.state)));
        let cwd = session.effective_cwd(program_dir);
        if !same(cwd.as_str(), self.last_cwd.as_str()) {
            out.push(ws_cwd(cwd.as_str()));
            self.last_cwd = cwd;
        }
        out
    }
}

// ── Connections ──

impl SharedView {
    /// What opening a connection says and does.
    pub open spec fn connection_opened(self, addr: Seq<char>, id: nat, now: u64) -> SharedView {
        self.with_client(addr, now).ws_logged(now, "Client connected: "@ + addr).logged(
            now,
            "[session] Created session "@ + text::decimal(id),
        ).ws_logged(now, "Auto-created session "@ + text::decimal(id) + " for "@ + addr)
    }

    /// What closing a connection says and does.
    pub open spec fn connection_closed(self, addr: Seq<char>, now: u64) -> SharedView {
        self.without_client(addr).ws_logged(now, "Client disconnected: "@ + addr)
    }
}

/// Registers a client and creates a session for it.
pub fn open_connection(
    state: &mut SharedState,
    sessions: &mut Sessions,
    addr: &str,
    now: u64,
) -> (id: usize)
    requires
        old(sessions).next_id < usize::MAX,
    ensures
        id == old(sessions)@.next_id,
        final(sessions)@ == old(sessions)@.created(),
        final(state)@ == old(state)@.connection_opened(addr@, id as nat, now),
        old(state)@.wf() ==> final(state)@.wf(),
        old(sessions)@.wf() ==> final(sessions)@.wf(),
{
    state.add_client(addr, now);
    ws_log(state, now, cat2("Client connected: ", addr));
    let (id, log) = sessions.create_session();
    debug_log(state, now, log);
    let number = decimal_of(id as u64);
    ws_log(state, now, cat4("Auto-created session ", number.as_str(), " for ", addr));
    id
}

/// Kills and removes the session of a connection, to prevent unbounded growth, and unregisters the
/// client.
pub fn cleanup_connection(
    state: &mut SharedState,
    sessions: &mut Sessions,
    addr: &str,
    session_id: usize,
    now: u64,
)
    ensures
        final(sessions)@ == old(sessions)@.killed(session_id).removed(session_id),
        final(state)@ == old(state)@.connection_closed(addr@, now),
        old(state)@.wf() ==> final(state)@.wf(),
        old(sessions)@.wf() ==> final(sessions)@.wf(),
{
    sessions.kill_session(session_id);
    sessions.remove_session(session_id);
    state.drop_client(addr);
    ws_log(state, now, cat2("Client disconnected: ", addr));
}

/// Whether a client may come in with a key.
pub open spec fn admits(key: Option<Seq<char>>, secret: Seq<char>) -> bool {
    match key {
        Some(k) => k == secret,
        None => secret.len() == 0,
    }
}

/// Whether a client may come in: the key in its query, or no text where there is none, is that of
/// the server.
pub fn key_fits(key: Option<&str>, secret: &str) -> (r: bool)
    ensures
        r == admits(text::opt_text(key), secret@),
{
    match key {
        Some(k) => same(k, secret),
        None => secret.is_empty(),
    }
}

// ── The local server ──

impl SharedView {
    /// What is said once the local server listens.
    pub open spec fn listening(self, port: u16, now: u64) -> SharedView {
        self.ws_logged(
            now,
            "Local server listening on ws://0.0.0.0:"@ + text::decimal(port as nat),
        ).with_status("Listening"@)
    }

    /// What is said while the relay is called.
    pub open spec fn calling(self, relay_url: Seq<char>, now: u64) -> SharedView {
        self.ws_logged(now, "Connecting to relay: "@ + relay_url).with_status("Connecting..."@)
    }
}

/// The local server on the given port listens.
pub fn start_local_server(state: &mut SharedState, port: u16, now: u64)
    ensures
        final(state)@ == old(state)@.listening(port, now),
        old(state)@.wf() ==> final(state)@.wf(),
{
    let at = decimal_of(port as u64);
    ws_log(state, now, cat2("Local server listening on ws://0.0.0.0:", at.as_str()));
    update_status(state, "Listening");
}

/// The local server has stopped.
pub fn local_server_stopped(state: &mut SharedState, now: u64)
    ensures
        final(state)@ == old(state)@.ws_logged(now, "Local server stopped"@),
        old(state)@.wf() ==> final(state)@.wf(),
{
    ws_log(state, now, "Local server stopped".to_string());
}

// ── The cloud relay ──

/// What happens to the connection with the relay.
pub enum RelayEvent {
    Connected,
    /// The connection could not be made.
    Failed(String),
    Error(String),
    Closed,
    /// The user has turned the service off.
    Shutdown,
}

#[verifier::ext_equal]
pub enum RelayView {
    Connected,
    Failed(Seq<char>),
    Error(Seq<char>),
    Closed,
    Shutdown,
}

impl DeepView for RelayEvent {
    type V = RelayView;

    open spec fn deep_view(&self) -> RelayView {
        match self {
            RelayEvent::Connected => RelayView::Connected,
            RelayEvent::Failed(e) => RelayView::Failed(e@),
            RelayEvent::Error(e) => RelayView::Error(e@),
            RelayEvent::Closed => RelayView::Closed,
            RelayEvent::Shutdown => RelayView::Shutdown,
        }
    }
}

impl SharedView {
    /// What an event of the relay says and does. One that could not be reached turns the service
    /// off.
    pub open spec fn relayed(self, event: RelayView, now: u64) -> SharedView {
        match event {
            RelayView::Connected => self.ws_logged(now, "Connected to cloud relay"@).with_status(
                "Connected to relay"@,
            ),
            RelayView::Failed(e) => SharedView {
                ws_mode: ModeView::Off,
                ..self.ws_logged(now, "Failed to connect to relay: "@ + e).with_status(
                    "Connection failed"@,
                )
            },
            RelayView::Error(e) => self.ws_logged(now, "Relay error: "@ + e).with_status(
                "Relay error"@,
            ),
            RelayView::Closed => self.ws_logged(now, "Relay connection closed"@).with_status(
                "Disconnected"@,
            ),
            RelayView::Shutdown => self.ws_logged(now, "Cloud client shutting down"@),
        }
    }

    /// What the session of a relay connection says.
    pub open spec fn relay_session(self, id: nat, now: u64) -> SharedView {
        self.logged(now, "[session] Created session "@ + text::decimal(id)).ws_logged(
            now,
            "Auto-created session "@ + text::decimal(id) + " for relay client"@,
        )
    }
}

/// Where the relay takes the program as a host.
pub open spec fn host_url(relay_url: Seq<char>, room_id: Seq<char>, secret: Seq<char>) -> Seq<char> {
    relay_url + "/host?room="@ + room_id + "&key="@ + secret
}

/// Start the cloud relay client mode. Gives the address to connect to as a host.
pub fn start_cloud_client(
    state: &mut SharedState,
    relay_url: &str,
    room_id: &str,
    secret: &str,
    now: u64,
) -> (url: String)
    ensures
        url@ == host_url(relay_url@, room_id@, secret@),
        final(state)@ == old(state)@.calling(relay_url@, now),
        old(state)@.wf() ==> final(state)@.wf(),
{
    ws_log(state, now, cat2("Connecting to relay: ", relay_url));
    update_status(state, "Connecting...");
    cat5(relay_url, "/host?room=", room_id, "&key=", secret)
}

/// An event of the relay; the result says whether the connection goes on.
pub fn relay_event(state: &mut SharedState, event: RelayEvent, now: u64) -> (goes_on: bool)
    ensures
        final(state)@ == old(state)@.relayed(event.deep_view(), now),
        goes_on == (event is Connected),
        old(state)@.wf() ==> final(state)@.wf(),
{
    match event {
        RelayEvent::Connected => {
            ws_log(state, now, "Connected to cloud relay".to_string());
            update_status(state, "Connected to relay");
            true
        },
        RelayEvent::Failed(e) => {
            ws_log(state, now, cat2("Failed to connect to relay: ", e.as_str()));
            update_status(state, "Connection failed");
            // Revert to Off mode on failure
            state.ws_mode = WsMode::Off;
            false
        },
        RelayEvent::Error(e) => {
            ws_log(state, now, cat2("Relay error: ", e.as_str()));
            update_status(state, "Relay error");
            false
        },
        RelayEvent::Closed => {
            ws_log(state, now, "Relay connection closed".to_string());
            update_status(state, "Disconnected");
            false
        },
        RelayEvent::Shutdown => {
            ws_log(state, now, "Cloud client shutting down".to_string());
            false
        },
    }
}

/// Creates the session of a relay connection.
pub fn open_relay_session(state: &mut SharedState, sessions: &mut Sessions, now: u64) -> (id: usize)
    requires
        old(sessions).next_id < usize::MAX,
    ensures
        id == old(sessions)@.next_id,
        final(sessions)@ == old(sessions)@.created(),
        final(state)@ == old(state)@.relay_session(id as nat, now),
        old(state)@.wf() ==> final(state)@.wf(),
        old(sessions)@.wf() ==> final(sessions)@.wf(),
{
    let (id, log) = sessions.create_session();
    debug_log(state, now, log);
    let number = decimal_of(id as u64);
    ws_log(state, now, cat3("Auto-created session ", number.as_str(), " for relay client"));
    id
}

// ── Laws ──

/// A message that cannot be followed is answered with an error, and no session changes.
pub proof fn law_faults_are_answered(
    s: SessionsView,
    ask: AskView,
    id: usize,
    client: Seq<char>,
    around: SurroundingsView,
    fresh: Seq<char>,
)
    requires
        ask.fault() is Some,
    ensures
        s.asked(ask, id, client, around, fresh).sessions == s,
        s.asked(ask, id, client, around, fresh).reply == Some(error_message(ask.fault()->0)),
        s.asked(ask, id, client, around, fresh).action is Nothing,
{
}

/// A message reaches no session but the one of its connection, creates none and removes none.
pub proof fn law_messages_reach_one_session(
    s: SessionsView,
    ask: AskView,
    id: usize,
    client: Seq<char>,
    around: SurroundingsView,
    fresh: Seq<char>,
    other: usize,
)
    requires
        other != id,
    ensures
        ({
            let t = s.asked(ask, id, client, around, fresh).sessions;
            &&& t.table.contains_key(other) == s.table.contains_key(other)
            &&& s.table.contains_key(other) ==> t.table[other] == s.table[other]
            &&& t.table.contains_key(id) == s.table.contains_key(id)
            &&& t.next_id == s.next_id
        }),
{
}

/// Every message keeps all sessions well formed.
pub proof fn law_messages_keep_wf(
    s: SessionsView,
    ask: AskView,
    id: usize,
    client: Seq<char>,
    around: SurroundingsView,
    fresh: Seq<char>,
)
    requires
        s.wf(),
    ensures
        s.asked(ask, id, client, around, fresh).sessions.wf(),
{
    let t = s.asked(ask, id, client, around, fresh).sessions;
    assert forall|n: usize| #[trigger] t.table.contains_key(n) implies t.table[n].wf()
        && t.table[n].id == n && n < t.next_id by {
        assert(s.table.contains_key(n));
    }
}

/// A client that answers a request settles it: afterwards nothing waits, and a second answer is
/// turned down.
pub proof fn law_a_request_is_answered_once(s: SessionView, allow: bool, again: bool, now: u64)
    requires
        s.state is AwaitingPermission,
    ensures
        !(s.permission_asked(allow, now).session.state is AwaitingPermission),
        s.permission_asked(allow, now).session.permission_asked(again, now).reply == Some(
            error_message("Session not awaiting permission"@),
        ),
        s.permission_asked(allow, now).session.permission_asked(again, now).action is Nothing,
{
}

/// Asking twice to skip permissions leaves the switch as it was.
pub proof fn law_skip_permissions_twice(s: SessionView)
    ensures
        s.permissions_toggled().permissions_toggled().auto_accept_permissions
            == s.auto_accept_permissions,
{
}

/// A client that was told of a session is not told of it again until it changes.
pub proof fn law_no_old_news(st: StreamerView, s: SessionView, program_dir: Seq<char>)
    ensures
        st.told(s, program_dir).news(s, program_dir) == Seq::<JsonView>::empty(),
{
    assert(st.told(s, program_dir).news(s, program_dir) =~= Seq::<JsonView>::empty());
}

/// While the output only grows, a client is told every line of it exactly once and in order,
/// however often it is looked at.
pub proof fn law_every_line_is_told_once(
    st: StreamerView,
    s: SessionView,
    t: SessionView,
    program_dir: Seq<char>,
)
    requires
        0 <= st.lines <= s.output_lines.len(),
        s.output_lines.is_prefix_of(t.output_lines),
    ensures
        st.output_news(s.output_lines) + st.told(s, program_dir).output_news(t.output_lines)
            == st.output_news(t.output_lines),
        StreamerView::new().output_news(t.output_lines) == t.output_lines.map_values(
            |line: Seq<char>| output_message(line),
        ),
{
    let parts = st.output_news(s.output_lines) + st.told(s, program_dir).output_news(
        t.output_lines,
    );
    assert(parts =~= st.output_news(t.output_lines));
    assert(t.output_lines.skip(0) == t.output_lines);
}

/// When the output was cleared, a client is told all that stands there now.
pub proof fn law_cleared_output_is_told_anew(st: StreamerView, lines: Seq<Seq<char>>)
    requires
        lines.len() < st.lines,
    ensures
        st.output_news(lines) == lines.map_values(|line: Seq<char>| output_message(line)),
{
    assert(lines.skip(0) == lines);
}

/// A connection that is closed leaves no session and no client behind.
pub proof fn law_a_closed_connection_leaves_nothing(
    shared: SharedView,
    s: SessionsView,
    addr: Seq<char>,
    now: u64,
    later: u64,
)
    requires
        s.wf(),
        0 <= s.next_id < usize::MAX,
    ensures
        ({
            let id = s.next_id as usize;
            let opened = shared.connection_opened(addr, id as nat, now);
            &&& s.created().killed(id).removed(id).table == s.table
            &&& opened.connection_closed(addr, later).ws_connections == shared.without_client(
                addr,
            ).ws_connections
        }),
{
    let id = s.next_id as usize;
    assert(!s.table.contains_key(id));
    assert(s.created().killed(id).removed(id).table =~= s.table);
    crate::shared::law_unregistered_client_is_gone(shared, addr, now);
}

proof fn lemma_names_differ()
    ensures
        "type"@ != "message"@,
        "type"@ != "session_id"@,
        "type"@ != "cwd"@,
        "type"@ != "path"@,
        "type"@ != "line"@,
        "type"@ != "state"@,
        "type"@ != "tool"@,
        "type"@ != "command"@,
        "type"@ != "enabled"@,
        "session_id"@ != "cwd"@,
        "tool"@ != "command"@,
{
    reveal_strlit("type");
    reveal_strlit("message");
    reveal_strlit("session_id");
    reveal_strlit("cwd");
    reveal_strlit("path");
    reveal_strlit("line");
    reveal_strlit("state");
    reveal_strlit("tool");
    reveal_strlit("command");
    reveal_strlit("enabled");
    assert("type"@[0] == 't' && "type"@[1] == 'y' && "type"@.len() == 4);
    assert("path"@[0] == 'p' && "line"@[0] == 'l' && "tool"@[1] == 'o');
    assert("message"@.len() == 7 && "session_id"@.len() == 10 && "cwd"@.len() == 3);
    assert("state"@.len() == 5 && "command"@.len() == 7 && "enabled"@.len() == 7);
    assert("tool"@.len() == 4);
}

/// Every message to a client has its type and, under their names, the things that it tells.
pub proof fn law_what_messages_tell(
    t: Seq<char>,
    u: Seq<char>,
    id: usize,
    enabled: bool,
)
    ensures
        error_message(t).text_at("type"@) == Some("error"@) && error_message(t).text_at(
            "message"@,
        ) == Some(t),
        connected_message(id, t).text_at("type"@) == Some("connected"@) && connected_message(
            id,
            t,
        ).get("session_id"@) == Some(JsonView::Number(json::u64_number(id as u64)))
            && connected_message(id, t).text_at("cwd"@) == Some(t),
        cwd_message(t).text_at("type"@) == Some("cwd"@) && cwd_message(t).text_at("path"@) == Some(
            t,
        ),
        output_message(t).text_at("type"@) == Some("output"@) && output_message(t).text_at(
            "line"@,
        ) == Some(t),
        state_message(t).text_at("type"@) == Some("state"@) && state_message(t).text_at("state"@)
            == Some(t),
        permission_message(t, u).text_at("type"@) == Some("permission"@) && permission_message(
            t,
            u,
        ).text_at("tool"@) == Some(t) && permission_message(t, u).text_at("command"@) == Some(u),
        cd_message(t).text_at("type"@) == Some("cd"@) && cd_message(t).text_at("cwd"@) == Some(t),
        skip_permissions_message(enabled).text_at("type"@) == Some("skip_permissions"@)
            && skip_permissions_message(enabled).get("enabled"@) == Some(JsonView::Bool(enabled)),
{
    lemma_names_differ();
}

proof fn lemma_asks_differ()
    ensures
        "prompt"@ != "permission"@ && "prompt"@ != "cd"@ && "prompt"@ != "kill"@ && "prompt"@
            != "clear"@ && "prompt"@ != "resume"@ && "prompt"@ != "skip_permissions"@,
        "permission"@ != "cd"@ && "permission"@ != "kill"@ && "permission"@ != "clear"@
            && "permission"@ != "resume"@ && "permission"@ != "skip_permissions"@,
        "cd"@ != "kill"@ && "cd"@ != "clear"@ && "cd"@ != "resume"@ && "cd"@
            != "skip_permissions"@,
        "kill"@ != "clear"@ && "kill"@ != "resume"@ && "kill"@ != "skip_permissions"@,
        "clear"@ != "resume"@ && "clear"@ != "skip_permissions"@,
        "resume"@ != "skip_permissions"@,
        "prompt"@.len() > 0 && "permission"@.len() > 0 && "cd"@.len() > 0 && "kill"@.len() > 0,
        "clear"@.len() > 0 && "resume"@.len() > 0 && "skip_permissions"@.len() > 0,
{
    reveal_strlit("prompt");
    reveal_strlit("permission");
    reveal_strlit("cd");
    reveal_strlit("kill");
    reveal_strlit("clear");
    reveal_strlit("resume");
    reveal_strlit("skip_permissions");
    assert("prompt"@.len() == 6 && "prompt"@[0] == 'p');
    assert("permission"@.len() == 10);
    assert("cd"@.len() == 2);
    assert("kill"@.len() == 4);
    assert("clear"@.len() == 5);
    assert("resume"@.len() == 6 && "resume"@[0] == 'r');
    assert("skip_permissions"@.len() == 16);
}

/// A message asks for what its type says, with what stands under the names of its parts: a prompt
/// with the whole message, a permission with what is allowed, a directory with its path, a
/// conversation with its name. What is no JSON asks for nothing.
pub proof fn law_what_messages_ask(line: Seq<char>, msg: JsonView, t: Seq<char>, e: Seq<char>)
    ensures
        json::unreadable(line, e) ==> text_ask(line) == AskView::Unreadable(e),
        json::reads_as(line, msg) && msg.text_at("type"@) == Some("prompt"@) && msg.text_at(
            "message"@,
        ) == Some(t) ==> text_ask(line) == AskView::Prompt(t),
        json::reads_as(line, msg) && msg.text_at("type"@) == Some("permission"@) && msg.get(
            "allow"@,
        ) == Some(JsonView::Bool(true)) ==> text_ask(line) == AskView::Permission(true),
        json::reads_as(line, msg) && msg.text_at("type"@) == Some("permission"@) && msg.get(
            "allow"@,
        ) != Some(JsonView::Bool(true)) ==> text_ask(line) == AskView::Permission(false),
        json::reads_as(line, msg) && msg.text_at("type"@) == Some("cd"@) && msg.text_at("path"@)
            == Some(t) ==> text_ask(line) == AskView::Cd(t),
        json::reads_as(line, msg) && msg.text_at("type"@) == Some("cd"@) && msg.text_at(
            "path"@,
        ) is None ==> text_ask(line) == AskView::Cd(Seq::empty()),
        json::reads_as(line, msg) && msg.text_at("type"@) == Some("kill"@) ==> text_ask(line)
            == AskView::Kill,
        json::reads_as(line, msg) && msg.text_at("type"@) == Some("clear"@) ==> text_ask(line)
            == AskView::Clear,
        json::reads_as(line, msg) && msg.text_at("type"@) == Some("resume"@) && msg.text_at(
            "session_id"@,
        ) == Some(t) ==> text_ask(line) == AskView::Resume(t),
        json::reads_as(line, msg) && msg.text_at("type"@) == Some("skip_permissions"@) ==> text_ask(
            line,
        ) == AskView::SkipPermissions,
        json::reads_as(line, msg) && msg.text_at("type"@) == Some(t) && t != "prompt"@ && t
            != "permission"@ && t != "cd"@ && t != "kill"@ && t != "clear"@ && t != "resume"@ && t
            != "skip_permissions"@ ==> text_ask(line) == AskView::Unknown(t),
        json::reads_as(line, msg) && msg.text_at("type"@) is None ==> text_ask(line)
            == AskView::Unknown(Seq::empty()),
{
    lemma_asks_differ();
}

/// What cannot be followed is told to the client in words, and nothing else is: what is no JSON,
/// an unknown type, an empty prompt, and a conversation without a name.
pub proof fn law_what_cannot_be_followed(ask: AskView)
    ensures
        ask matches AskView::Unreadable(e) ==> ask.fault() == Some("Invalid JSON: "@ + e),
        ask matches AskView::Unknown(kind) ==> ask.fault() == Some(
            "Unknown message type: "@ + kind,
        ),
        ask == AskView::Prompt(Seq::empty()) ==> ask.fault() == Some("Empty prompt"@),
        ask == AskView::Resume(Seq::empty()) ==> ask.fault() == Some(
            "Usage: /resume <session-id>"@,
        ),
        ask matches AskView::Prompt(p) ==> (p.len() > 0 ==> ask.fault() is None),
        ask matches AskView::Resume(id) ==> (id.len() > 0 ==> ask.fault() is None),
        ask is Permission || ask is Cd || ask is Kill || ask is Clear || ask is SkipPermissions
            ==> ask.fault() is None,
{
    if let AskView::Prompt(p) = ask {
        assert(p.len() == 0 ==> p =~= Seq::<char>::empty());
    }
}

/// What a client answers reaches the process as the answer to the request that waits: a line in
/// the name of that request, which allows exactly where the client allowed, with the input of the
/// request, and denies else, with the reason. The session runs on then, and shows the answer;
/// nothing is sent to the client.
pub proof fn law_a_client_answers_the_request(
    s: SessionView,
    req: claude::RequestView,
    allow: bool,
    around: SurroundingsView,
    fresh: Seq<char>,
)
    requires
        s.state == StateView::AwaitingPermission(req),
        s.process_stdin,
    ensures
        ({
            let r = s.asked(AskView::Permission(allow), around, fresh);
            let input = match req.raw_input {
                Some(input) => input,
                None => JsonView::Object(Map::empty()),
            };
            let word = if allow {
                "allowed"@
            } else {
                "denied"@
            };
            &&& r.action matches KeyActionView::Answer(line) && exists|back: JsonView, why: Seq<char>|
                {
                    &&& #[trigger] claude::is_answer_line(line, req.request_id, allow, back, why)
                    &&& allow ==> back == input
                    &&& !allow ==> why == "User denied this action via WebSocket"@
                }
            &&& r.session == (SessionView {
                state: StateView::Running,
                last_event_time: Some(around.now),
                output_lines: s.output_lines.push("  [ws permission: "@ + word + "]"@),
                ..s
            })
            &&& r.reply is None
        }),
{
    claude::law_requests_are_answered(req.request_id, true, req.raw_input, None);
    claude::law_requests_are_answered(
        req.request_id,
        false,
        None,
        Some("User denied this action via WebSocket"@),
    );
    let r = s.asked(AskView::Permission(allow), around, fresh);
    if let KeyActionView::Answer(line) = r.action {
        if allow {
            let input = match req.raw_input {
                Some(input) => input,
                None => JsonView::Object(Map::empty()),
            };
            assert(claude::is_answer_line(
                line,
                req.request_id,
                allow,
                input,
                "User denied this action"@,
            ));
        } else {
            assert(claude::is_answer_line(
                line,
                req.request_id,
                allow,
                JsonView::Object(Map::empty()),
                "User denied this action via WebSocket"@,
            ));
        }
    }
}

/// An answer where nothing waits, or where there is no process to take it, is turned down with an
/// error, and nothing goes to a process.
pub proof fn law_answers_to_nothing_are_turned_down(
    s: SessionView,
    allow: bool,
    around: SurroundingsView,
    fresh: Seq<char>,
)
    requires
        !(s.state is AwaitingPermission) || !s.process_stdin,
    ensures
        ({
            let r = s.asked(AskView::Permission(allow), around, fresh);
            &&& r.action is Nothing
            &&& r.reply matches Some(m) && m.text_at("type"@) == Some("error"@)
            &&& !(s.state is AwaitingPermission) ==> r.session == s && r.reply == Some(
                error_message("Session not awaiting permission"@),
            )
            &&& s.state is AwaitingPermission ==> r.session == (SessionView {
                state: StateView::Idle,
                last_event_time: None,
                process_stdin: false,
                process_child: false,
                event_rx: false,
                output_lines: s.output_lines.push("  [error] process not running"@),
                ..s
            }) && r.reply == Some(error_message("Process not running"@))
        }),
{
    lemma_names_differ();
}

/// The prompt of a client is shown and sent whole, to the conversation of its session, and starts
/// a process in the directory of the session where there is none. While the assistant runs it
/// waits, whole, in place of any other, and nothing is sent.
pub proof fn law_a_client_prompts(
    s: SessionView,
    prompt: Seq<char>,
    around: SurroundingsView,
    fresh: Seq<char>,
)
    ensures
        ({
            let r = s.asked(AskView::Prompt(prompt), around, fresh);
            let n = s.output_lines.len() as int;
            let t = r.session;
            &&& r.reply is None
            &&& s.state is Idle ==> {
                &&& r.action matches KeyActionView::Prompt(plan) && {
                    &&& claude::is_prompt_line(plan.line, prompt, t.session_id->0)
                    &&& plan.spawn is None <==> s.process_stdin && s.event_rx
                    &&& plan.spawn matches Some(process) ==> {
                        &&& process.workdir == s.workdir
                        &&& process.program == s.assistant.program
                        &&& process.args.len() == 10
                        &&& s.prompt_count > 0 ==> process.args[8] == "--resume"@
                        &&& s.prompt_count <= 0 ==> process.args[8] == "--session-id"@
                        &&& process.args[9] == t.session_id->0
                    }
                }
                &&& r.logs == seq![
                    "[ws] Sending prompt to session "@ + text::decimal(s.id as nat) + ": "@
                        + text::first_chars(prompt, 80),
                ]
                &&& t.output_lines.len() == n + 2
                &&& t.output_lines.take(n) == s.output_lines
                &&& t.output_lines[n] == "▸ "@ + prompt
                &&& t.output_lines[n + 1].len() == 0
                &&& t.state is Running && t.prompt_count == s.prompt_count + 1
                &&& t.last_event_time == Some(around.now)
                &&& s.session_id is Some ==> t.session_id == s.session_id
                &&& s.session_id is None ==> t.session_id == Some(fresh)
                &&& t == (SessionView {
                    state: StateView::Running,
                    prompt_count: s.prompt_count + 1,
                    rain_tick: 0,
                    last_event_time: Some(around.now),
                    output_lines: t.output_lines,
                    session_id: t.session_id,
                    ..s
                })
            }
            &&& !(s.state is Idle) ==> r.action is Nothing && t == (SessionView {
                queued_prompt: Some(prompt),
                output_lines: s.output_lines.push("  [ws] queued: "@ + prompt),
                ..s
            })
        }),
{
    session::law_a_prompt_is_shown_whole(s, prompt, around.now, fresh);
    session::law_a_prompt_gets_to_its_process(s, prompt, around.now, fresh);
}

/// A client moves its session: first the path is looked at that is meant from where the session
/// works, or the home directory where no path is given; the session is left as it is until then.
/// Where the path is a directory the session works there from then on, and the next prompt that
/// starts a process starts it there; the client is told so, or that it is none.
pub proof fn law_a_client_moves_its_session(
    s: SessionView,
    path: Seq<char>,
    around: SurroundingsView,
    fresh: Seq<char>,
    found: Option<Seq<char>>,
    prompt: Seq<char>,
    now: u64,
    fresh2: Seq<char>,
)
    ensures
        ({
            let r = s.asked(AskView::Cd(path), around, fresh);
            let base = match s.workdir {
                Some(dir) => dir,
                None => around.program_dir,
            };
            let done = s.cd_asked(path, found);
            let plan = done.session.prompt_plan(prompt, now, fresh2);
            &&& r.session == s && r.reply is None
            &&& r.action matches KeyActionView::CheckDir(p) && {
                &&& text::starts_with(path, "/"@) ==> p == path
                &&& path.len() > 0 && !text::starts_with(path, "/"@) && !text::starts_with(
                    path,
                    "~"@,
                ) ==> p == base + "/"@ + path
                &&& text::starts_with(path, "~"@) ==> (around.home matches Some(home) ==> p == home
                    + path.skip(1))
                &&& path.len() == 0 ==> (around.home matches Some(home) ==> (text::starts_with(
                    home,
                    "/"@,
                ) ==> p == home))
            }
            &&& found is None ==> done.session == s && done.reply == Some(
                error_message("Not a directory: "@ + path),
            )
            &&& found matches Some(dir) ==> {
                &&& done.session.workdir == Some(dir)
                &&& done.reply matches Some(m) && m.text_at("type"@) == Some("cd"@) && m.text_at(
                    "cwd"@,
                ) == Some(dir)
                &&& plan.spawn matches Some(process) ==> process.workdir == Some(dir)
                &&& s.process_child || !(s.process_stdin && s.event_rx) ==> plan.spawn is Some
                &&& done.session.session_id == s.session_id
            }
        }),
{
    lemma_names_differ();
    reveal_strlit("/");
    reveal_strlit("~");
    let base = s.effective_cwd(around.program_dir);
    paths::law_what_a_path_means(path, around.home, base);
    if let Some(home) = around.home {
        paths::law_what_a_path_means(home, around.home, base);
    }
    if let Some(dir) = found {
        session_keys::law_a_moved_session_works_there(
            s,
            dir,
            dir,
            prompt,
            now,
            fresh2,
            around.program_dir,
        );
        law_what_messages_tell(dir, dir, 0, true);
    }
}

/// A client kills, clears or resumes: the process is gone and all else as it was; the output is
/// empty and all else as it was; or the next prompt resumes the conversation that was named.
/// Nothing is sent to a process for it, and the client is told nothing.
pub proof fn law_a_client_kills_clears_and_resumes(
    s: SessionView,
    id: Seq<char>,
    around: SurroundingsView,
    fresh: Seq<char>,
    prompt: Seq<char>,
    now: u64,
    fresh2: Seq<char>,
)
    ensures
        ({
            let killed = s.asked(AskView::Kill, around, fresh);
            let cleared = s.asked(AskView::Clear, around, fresh);
            let resumed = s.asked(AskView::Resume(id), around, fresh);
            let plan = resumed.session.prompt_plan(prompt, now, fresh2);
            &&& killed.session == (SessionView {
                state: StateView::Idle,
                process_stdin: false,
                process_child: false,
                event_rx: false,
                output_lines: s.output_lines.push("  [kill] session process terminated"@),
                ..s
            })
            &&& cleared.session == (SessionView { output_lines: Seq::empty(), ..s })
            &&& resumed.session == (SessionView {
                session_id: Some(id),
                prompt_count: 1,
                state: StateView::Idle,
                process_stdin: false,
                process_child: false,
                event_rx: false,
                output_lines: resumed.session.output_lines,
                ..s
            })
            &&& resumed.session.output_lines.len() == s.output_lines.len() + 2
            &&& resumed.session.output_lines[s.output_lines.len() as int]
                == "  [resume] session set to "@ + id
            &&& s.output_lines.is_prefix_of(resumed.session.output_lines)
            &&& claude::is_prompt_line(plan.line, prompt, id)
            &&& plan.spawn matches Some(process) && process.args[8] == "--resume"@
                && process.args[9] == id && process.workdir == s.workdir
            &&& killed.action is Nothing && cleared.action is Nothing && resumed.action is Nothing
            &&& killed.reply is None && cleared.reply is None && resumed.reply is None
        }),
{
    let t = s.asked(AskView::Resume(id), around, fresh).session;
    session::law_a_prompt_gets_to_its_process(t, prompt, now, fresh2);
    assert(s.output_lines =~= t.output_lines.take(s.output_lines.len() as int));
}

/// A client turns the asking for permission off, or on again; it is told which, and so is the
/// output.
pub proof fn law_a_client_turns_permissions(
    s: SessionView,
    around: SurroundingsView,
    fresh: Seq<char>,
)
    ensures
        ({
            let r = s.asked(AskView::SkipPermissions, around, fresh);
            &&& r.session.auto_accept_permissions == !s.auto_accept_permissions
            &&& r.session.output_lines.len() == s.output_lines.len() + 1
            &&& r.session == (SessionView {
                auto_accept_permissions: !s.auto_accept_permissions,
                output_lines: r.session.output_lines,
                ..s
            })
            &&& r.reply matches Some(m) && m.get("enabled"@) == Some(
                JsonView::Bool(!s.auto_accept_permissions),
            ) && m.text_at("type"@) == Some("skip_permissions"@)
            &&& r.action is Nothing
        }),
{
    law_what_messages_tell(Seq::empty(), Seq::empty(), 0, !s.auto_accept_permissions);
}

/// A message that can be followed does to the session of its connection what it asks, and the
/// reply, the log and the action are those of that session; the log names the client and the type
/// first. Without the session the client is told so, unless it asked to kill or to clear.
pub proof fn law_messages_reach_their_session(
    s: SessionsView,
    ask: AskView,
    id: usize,
    client: Seq<char>,
    around: SurroundingsView,
    fresh: Seq<char>,
)
    requires
        ask.fault() is None,
    ensures
        ({
            let r = s.asked(ask, id, client, around, fresh);
            let step = s.table[id].asked(ask, around, fresh);
            &&& s.table.contains_key(id) ==> r.sessions.table.contains_key(id)
                && r.sessions.table[id] == step.session && r.reply == step.reply && r.action
                == step.action && step.logs.is_suffix_of(r.logs)
            &&& !s.table.contains_key(id) ==> r.sessions == s && r.action is Nothing
            &&& !s.table.contains_key(id) && !(ask is Kill) && !(ask is Clear) ==> r.reply == Some(
                error_message("Session not found"@),
            )
            &&& !s.table.contains_key(id) && (ask is Kill || ask is Clear) ==> r.reply is None
            &&& r.logs.len() > 0 && text::starts_with(r.logs[0], "[ws] "@ + client + " -> type="@)
        }),
{
    let r = s.asked(ask, id, client, around, fresh);
    let head = "[ws] "@ + client + " -> type="@;
    text::law_starts_with(r.logs[0], head, ask.kind());
    let step = s.table[id].asked(ask, around, fresh);
    if s.table.contains_key(id) {
        assert(step.logs =~= r.logs.skip(r.logs.len() - step.logs.len()));
    }
}

/// A client is told of every new line of the output, of a new state, with the tool and its input
/// where permission is asked, and of a new directory; in that order, and of nothing else.
pub proof fn law_what_clients_are_told(
    st: StreamerView,
    s: SessionView,
    program_dir: Seq<char>,
    i: int,
)
    requires
        0 <= st.lines <= s.output_lines.len(),
    ensures
        ({
            let news = st.news(s, program_dir);
            let fresh = s.output_lines.len() - st.lines;
            let word = if s.state is Idle {
                "idle"@
            } else if s.state is Running {
                "running"@
            } else {
                "permission"@
            };
            let cwd = match s.workdir {
                Some(dir) => dir,
                None => program_dir,
            };
            let states: int = if st.state == word {
                0
            } else if s.state is AwaitingPermission {
                2
            } else {
                1
            };
            let dirs: int = if st.cwd == cwd {
                0
            } else {
                1
            };
            &&& news.len() == fresh + states + dirs
            &&& 0 <= i < fresh ==> news[i].text_at("type"@) == Some("output"@) && news[i].text_at(
                "line"@,
            ) == Some(s.output_lines[st.lines + i])
            &&& states > 0 ==> news[fresh].text_at("type"@) == Some("state"@)
                && news[fresh].text_at("state"@) == Some(word)
            &&& states == 2 ==> news[fresh + 1].text_at("type"@) == Some("permission"@)
                && news[fresh + 1].text_at("tool"@) == Some(
                s.state->AwaitingPermission_0.tool_name,
            ) && news[fresh + 1].text_at("command"@) == Some(
                s.state->AwaitingPermission_0.input_preview,
            )
            &&& dirs == 1 ==> news.last().text_at("type"@) == Some("cwd"@) && news.last().text_at(
                "path"@,
            ) == Some(cwd)
            &&& st.told(s, program_dir) == (StreamerView {
                lines: s.output_lines.len() as int,
                state: word,
                cwd,
            })
        }),
{
    lemma_names_differ();
}

/// Opening a connection lists the client and tells both logs of it and of its session; closing it
/// takes the client off the list, and tells both logs. Neither touches the key, the mode or the
/// status of the service.
pub proof fn law_connections_come_and_go(s: SharedView, addr: Seq<char>, id: nat, now: u64)
    requires
        s.wf(),
    ensures
        ({
            let open = s.connection_opened(addr, id, now);
            let closed = s.connection_closed(addr, now);
            &&& open.ws_connections == s.ws_connections.push(
                crate::shared::ClientView { addr, connected_at: now },
            )
            &&& open.ws_log.last() == "Auto-created session "@ + text::decimal(id) + " for "@ + addr
            &&& open.debug_log.len() >= 3 && open.debug_log[open.debug_log.len() - 2] == (
                now,
                "[session] Created session "@ + text::decimal(id),
            )
            &&& open.ws_log.len() >= 2 && open.ws_log[open.ws_log.len() - 2]
                == "Client connected: "@ + addr
            &&& open.ws_secret == s.ws_secret && open.ws_mode == s.ws_mode && open.ws_status
                == s.ws_status
            &&& forall|c: crate::shared::ClientView| #[trigger]
                closed.ws_connections.contains(c) <==> s.ws_connections.contains(c) && c.addr
                    != addr
            &&& closed.ws_log.last() == "Client disconnected: "@ + addr
            &&& closed.ws_secret == s.ws_secret && closed.ws_mode == s.ws_mode && closed.ws_status
                == s.ws_status
        }),
{
    crate::shared::law_unregistered_client_is_gone(s, addr, now);
}

/// What happens to the connection with the relay is told in both logs and in the status, but for
/// the end that the user wanted; only a relay that could not be reached turns the service off.
pub proof fn law_the_relay_is_told_of(s: SharedView, event: RelayView, now: u64)
    requires
        s.wf(),
    ensures
        ({
            let t = s.relayed(event, now);
            &&& event is Connected ==> t.ws_status == "Connected to relay"@ && t.ws_log.last()
                == "Connected to cloud relay"@
            &&& event matches RelayView::Failed(e) ==> t.ws_status == "Connection failed"@
                && t.ws_log.last() == "Failed to connect to relay: "@ + e
            &&& event matches RelayView::Error(e) ==> t.ws_status == "Relay error"@
                && t.ws_log.last() == "Relay error: "@ + e
            &&& event is Closed ==> t.ws_status == "Disconnected"@ && t.ws_log.last()
                == "Relay connection closed"@
            &&& event is Shutdown ==> t.ws_status == s.ws_status && t.ws_log.last()
                == "Cloud client shutting down"@
            &&& event is Failed ==> t.ws_mode is Off
            &&& !(event is Failed) ==> t.ws_mode == s.ws_mode
            &&& t.ws_connections == s.ws_connections && t.ws_secret == s.ws_secret
            &&& t.debug_log.last() == (now, "[ws] "@ + t.ws_log.last())
        }),
{
}

/// With the key of the server a client comes in, and with any other it does not; without a key it
/// comes in only where the server has none.
pub proof fn law_only_the_key_opens(key: Seq<char>, secret: Seq<char>)
    ensures
        admits(Some(secret), secret),
        key != secret ==> !admits(Some(key), secret),
        secret.len() > 0 ==> !admits(None, secret),
        crate::shared::is_secret(secret) ==> !admits(None, secret),
{
}

/// A server that listens and a relay that is called are told in both logs and in the status, and
/// nothing else changes.
pub proof fn law_the_service_starts(s: SharedView, port: u16, relay_url: Seq<char>, now: u64)
    requires
        s.wf(),
    ensures
        ({
            let t = s.listening(port, now);
            let u = s.calling(relay_url, now);
            &&& t.ws_status == "Listening"@
            &&& t.ws_log.last() == "Local server listening on ws://0.0.0.0:"@ + text::decimal(
                port as nat,
            )
            &&& t.debug_log.last() == (now, "[ws] "@ + t.ws_log.last())
            &&& u.ws_status == "Connecting..."@
            &&& u.ws_log.last() == "Connecting to relay: "@ + relay_url
            &&& u.debug_log.last() == (now, "[ws] "@ + u.ws_log.last())
            &&& t.ws_mode == s.ws_mode && t.ws_secret == s.ws_secret && t.ws_connections
                == s.ws_connections
            &&& u.ws_mode == s.ws_mode && u.ws_secret == s.ws_secret && u.ws_connections
                == s.ws_connections
        }),
{
}

/// The program and its clients meet at the relay: the address of the host and that of the clients
/// name the same relay, the same room and the same key.
pub proof fn law_host_and_clients_meet(s: SharedView, relay_url: Seq<char>, room_id: Seq<char>)
    requires
        s.ws_mode == (ModeView::Cloud { relay_url, room_id }),
    ensures
        ({
            let place = "?room="@ + room_id + "&key="@ + s.ws_secret;
            &&& host_url(relay_url, room_id, s.ws_secret) == relay_url + "/host"@ + place
            &&& s.url() == relay_url + "/join"@ + place
        }),
{
    let place = "?room="@ + room_id + "&key="@ + s.ws_secret;
    reveal_strlit("/host");
    reveal_strlit("/join");
    reveal_strlit("?room=");
    reveal_strlit("/host?room=");
    reveal_strlit("/join?room=");
    assert("/host"@ + "?room="@ =~= "/host?room="@);
    assert("/join"@ + "?room="@ =~= "/join?room="@);
    assert(host_url(relay_url, room_id, s.ws_secret) =~= relay_url + ("/host"@ + "?room="@)
        + room_id + "&key="@ + s.ws_secret);
    assert(s.url() =~= relay_url + ("/join"@ + "?room="@) + room_id + "&key="@ + s.ws_secret);
    assert(relay_url + ("/host"@ + "?room="@) + room_id + "&key="@ + s.ws_secret =~= relay_url
        + "/host"@ + place);
    assert(relay_url + ("/join"@ + "?room="@) + room_id + "&key="@ + s.ws_secret =~= relay_url
        + "/join"@ + place);
}

/// There is room for every message as long as its session can count one prompt more.
pub proof fn law_there_is_room_for_messages(s: SessionsView, ask: AskView, id: usize)
    requires
        s.table.contains_key(id) ==> s.table[id].prompt_count < u32::MAX,
    ensures
        s.has_room(ask, id),
{
}

/// The session of a relay connection is told of in both logs, and changes nothing else.
pub proof fn law_a_relay_session_is_told_of(s: SharedView, id: nat, now: u64)
    requires
        s.wf(),
    ensures
        ({
            let t = s.relay_session(id, now);
            &&& t.ws_log.last() == "Auto-created session "@ + text::decimal(id)
                + " for relay client"@
            &&& t.debug_log.len() >= 2 && t.debug_log[t.debug_log.len() - 2] == (
                now,
                "[session] Created session "@ + text::decimal(id),
            )
            &&& t.ws_connections == s.ws_connections && t.ws_mode == s.ws_mode && t.ws_status
                == s.ws_status && t.ws_secret == s.ws_secret
        }),
{
}

/// A message that can be read is logged with its client and its type, whatever it asks; one that
/// cannot is not logged.
pub proof fn law_messages_are_logged(line: Seq<char>, msg: JsonView, client: Seq<char>)
    ensures
        json::reads_as(line, msg) ==> text_ask(line).logs(client) == seq![
            "[ws] "@ + client + " -> type="@ + msg.text_or("type"@, Seq::empty()),
        ],
        json::parsed_json(line) is Err ==> text_ask(line).logs(client).len() == 0,
{
    lemma_asks_differ();
}

/// A client whose session cannot be had is told why, unless it asked to kill or to clear; and what
/// could not be followed anyway is told first.
pub proof fn law_clients_without_a_session(ask: AskView, why: Seq<char>)
    ensures
        ask.fault() matches Some(fault) ==> unreachable_reply(ask, why) == Some(
            error_message(fault),
        ),
        ask is Kill || ask is Clear ==> unreachable_reply(ask, why) is None,
        ask.fault() is None && !(ask is Kill) && !(ask is Clear) ==> unreachable_reply(ask, why)
            == Some(error_message(why)),
{
}

/// What comes of a message is told in full: a reply fits one message for the client, one log and
/// one thing that is left to do.
pub proof fn law_a_reply_to_a_message_tells_all(
    r: WsReply,
    reply: Option<JsonView>,
    logs: Seq<Seq<char>>,
    action: KeyActionView,
    reply2: Option<JsonView>,
    logs2: Seq<Seq<char>>,
    action2: KeyActionView,
)
    requires
        r.is(reply, logs, action),
        r.is(reply2, logs2, action2),
    ensures
        reply == reply2 && logs == logs2 && action == action2,
        r.reply is Some <==> reply is Some,
        r.reply matches Some(text) ==> json::reads_as(text@, reply->0),
{
}

/// Texts that are sent are their messages, one by one and in their order.
pub proof fn law_texts_are_their_messages(texts: Seq<String>, messages: Seq<JsonView>, i: int)
    requires
        all_sent_as(texts, messages),
    ensures
        texts.len() == messages.len(),
        0 <= i < texts.len() ==> json::reads_as(texts[i]@, messages[i]),
{
}

}
