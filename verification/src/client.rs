//! The client of the WebSocket service on a terminal: what a typed line sends, and what a message
//! of the server shows.
use vstd::prelude::*;

use crate::json;
use crate::json::{number_as_u64, parse, Json, JsonView};
use crate::paths;
use crate::paths::shorten_path_with;
use crate::session_keys;
use crate::session_keys::on_off_word;
use crate::text;
use crate::text::{begins, cat2, cat3, decimal_of, same, trimmed};
use crate::ws;

verus! {

/// What the client takes its session to do.
#[derive(Clone, Copy, PartialEq, Eq, Structural)]
pub enum ClientState {
    Idle,
    Running,
    AwaitingPermission,
}

/// What the client knows of its session.
pub struct Client {
    pub state: ClientState,
    pub cwd: String,
}

/// A piece of text for the terminal.
pub enum Output {
    /// A line on the standard output.
    Line(String),
    /// A line on the standard error output.
    ErrorLine(String),
    /// A text on the standard output, with no end of line after it.
    Raw(String),
}

#[verifier::ext_equal]
pub struct ClientView {
    pub state: ClientState,
    pub cwd: Seq<char>,
}

#[verifier::ext_equal]
pub enum OutView {
    Line(Seq<char>),
    ErrorLine(Seq<char>),
    Raw(Seq<char>),
}

impl View for Client {
    type V = ClientView;

    open spec fn view(&self) -> ClientView {
        ClientView { state: self.state, cwd: self.cwd@ }
    }
}

impl DeepView for Output {
    type V = OutView;

    open spec fn deep_view(&self) -> OutView {
        match self {
            Output::Line(s) => OutView::Line(s@),
            Output::ErrorLine(s) => OutView::ErrorLine(s@),
            Output::Raw(s) => OutView::Raw(s@),
        }
    }
}

/// What is to come of a line that was typed.
pub struct LineStep {
    /// A message for the server. It goes out before anything else happens; if that fails, nothing
    /// else does.
    pub send: Option<String>,
    /// What is shown then.
    pub outputs: Vec<Output>,
    /// What the session is taken to do then.
    pub state: ClientState,
    /// Whether the connection is to be closed.
    pub quit: bool,
}

/// What has come of a line that was typed.
pub struct LineEnd {
    pub outputs: Vec<Output>,
    /// Whether the connection goes on.
    pub goes_on: bool,
}

/// The client after a line that was typed, once its message has gone out, and what the line leaves
/// to do.
#[verifier::ext_equal]
pub struct TypedView {
    pub client: ClientView,
    pub send: Option<JsonView>,
    pub outputs: Seq<OutView>,
    pub quit: bool,
}

/// The client after a line that was typed, whether or not its message has gone out.
#[verifier::ext_equal]
pub struct EndView {
    pub client: ClientView,
    pub outputs: Seq<OutView>,
    pub goes_on: bool,
}

/// The client after a message of the server, and what is shown.
#[verifier::ext_equal]
pub struct ShownView {
    pub client: ClientView,
    pub outputs: Seq<OutView>,
}

impl LineStep {
    /// Whether this is what `typed` says of the client `before`.
    pub open spec fn is(self, before: ClientView, typed: TypedView) -> bool {
        &&& before.now(self.state) == typed.client
        &&& self.outputs.deep_view() == typed.outputs
        &&& self.quit == typed.quit
        &&& match (self.send, typed.send) {
            (Some(text), Some(message)) => ws::sent_as(text@, message),
            (None, None) => true,
            _ => false,
        }
    }
}

impl TypedView {
    /// What comes of a line in the end. A message that could not be sent, with an error, leaves the
    /// client as it was before and closes the connection; where nothing had to be sent, nothing
    /// can fail.
    pub open spec fn ended(self, before: ClientView, failure: Option<Seq<char>>) -> EndView {
        match failure {
            Some(error) if self.send is Some => EndView {
                client: before,
                outputs: seq![OutView::ErrorLine("Send error: "@ + error)],
                goes_on: false,
            },
            _ => EndView { client: self.client, outputs: self.outputs, goes_on: !self.quit },
        }
    }
}

// ── What the client sends ──

pub open spec fn ask_prompt(line: Seq<char>) -> JsonView {
    ws::tagged("prompt"@).with("message"@, JsonView::Text(line))
}

pub open spec fn ask_permission(allow: bool) -> JsonView {
    ws::tagged("permission"@).with("allow"@, JsonView::Bool(allow))
}

pub open spec fn ask_cd(path: Seq<char>) -> JsonView {
    ws::tagged("cd"@).with("path"@, JsonView::Text(path))
}

pub open spec fn ask_resume(id: Seq<char>) -> JsonView {
    ws::tagged("resume"@).with("session_id"@, JsonView::Text(id))
}

/// Whether an answer means yes.
pub open spec fn says_yes(line: Seq<char>) -> bool {
    line == "y"@ || line == "Y"@ || line == "yes"@ || line == "Yes"@
}

/// Whether a line is none of the commands.
pub open spec fn is_prompt(line: Seq<char>) -> bool {
    &&& line != "/quit"@ && line != "/exit"@ && line != "/kill"@ && line != "/clear"@
    &&& line != "/dangerously-skip-permissions"@
    &&& line != "/cd"@ && !text::starts_with(line, "/cd "@)
    &&& line != "/resume"@ && !text::starts_with(line, "/resume "@)
}

impl ClientView {
    pub open spec fn new() -> ClientView {
        ClientView { state: ClientState::Idle, cwd: Seq::empty() }
    }

    pub open spec fn now(self, state: ClientState) -> ClientView {
        ClientView { state, ..self }
    }

    pub open spec fn at(self, cwd: Seq<char>) -> ClientView {
        ClientView { cwd, ..self }
    }

    /// The prompt; a running session has none.
    pub open spec fn prompt(self, home: Option<Seq<char>>) -> Seq<OutView> {
        match self.state {
            ClientState::Idle => seq![OutView::Raw(paths::shortened(self.cwd, home) + "> "@)],
            ClientState::AwaitingPermission => seq![OutView::Raw("[y/n]> "@)],
            ClientState::Running => Seq::empty(),
        }
    }

    /// A line that shows something and sends nothing.
    pub open spec fn shows(self, outputs: Seq<OutView>) -> TypedView {
        TypedView { client: self, send: None, outputs, quit: false }
    }

    /// A line that sends something and shows nothing.
    pub open spec fn sends(self, message: JsonView) -> TypedView {
        TypedView { client: self, send: Some(message), outputs: Seq::empty(), quit: false }
    }

    /// What a command makes of the client; anything that is none is a prompt.
    pub open spec fn commanded(self, line: Seq<char>, home: Option<Seq<char>>) -> TypedView {
        if line == "/quit"@ || line == "/exit"@ {
            TypedView { quit: true, ..self.shows(seq![OutView::Line("Disconnecting..."@)]) }
        } else if line == "/kill"@ {
            let idle = self.now(ClientState::Idle);
            TypedView {
                outputs: seq![OutView::Line("Kill sent."@)] + idle.prompt(home),
                ..idle.sends(ws::tagged("kill"@))
            }
        } else if line == "/clear"@ {
            self.shows(seq![OutView::Raw("\x1b[2J\x1b[H"@)] + self.prompt(home))
        } else if line == "/dangerously-skip-permissions"@ {
            self.sends(ws::tagged("skip_permissions"@))
        } else if line == "/cd"@ || text::starts_with(line, "/cd "@) {
            self.sends(
                ask_cd(
                    if line == "/cd"@ {
                        Seq::empty()
                    } else {
                        text::trim(line.skip(4))
                    },
                ),
            )
        } else if line == "/resume"@ || text::starts_with(line, "/resume "@) {
            let id = if line == "/resume"@ {
                Seq::empty()
            } else {
                text::trim(line.skip(8))
            };
            if id.len() == 0 {
                self.shows(
                    seq![OutView::Line("Usage: /resume <session-id>"@)] + self.prompt(home),
                )
            } else {
                self.sends(ask_resume(id))
            }
        } else {
            self.now(ClientState::Running).sends(ask_prompt(line))
        }
    }

    /// What a typed line makes of the client.
    pub open spec fn typed(self, input: Seq<char>, home: Option<Seq<char>>) -> TypedView {
        let line = text::trim(input);
        if line.len() == 0 {
            self.shows(self.prompt(home))
        } else if self.state is AwaitingPermission {
            self.now(ClientState::Running).sends(ask_permission(says_yes(line)))
        } else {
            self.commanded(line, home)
        }
    }

    // ── What the client is told ──

    /// A message that shows this, and then the prompt.
    pub open spec fn told(self, outputs: Seq<OutView>, home: Option<Seq<char>>) -> ShownView {
        ShownView { client: self, outputs: outputs + self.prompt(home) }
    }

    pub open spec fn told_connected(self, val: JsonView, home: Option<Seq<char>>) -> ShownView {
        let id: nat = match val.get("session_id"@) {
            Some(JsonView::Number(n)) => match json::number_u64(n) {
                Some(id) => id as nat,
                None => 0,
            },
            _ => 0,
        };
        let there = match val.text_at("cwd"@) {
            Some(cwd) => self.at(cwd),
            None => self,
        };
        there.now(ClientState::Idle).told(
            seq![
                OutView::Line("Connected! Session #"@ + text::decimal(id) + " created."@),
                OutView::Line("Type a prompt to start, /quit to exit.\n"@),
            ],
            home,
        )
    }

    pub open spec fn told_state(self, word: Seq<char>, home: Option<Seq<char>>) -> ShownView {
        if word == "idle"@ {
            self.now(ClientState::Idle).told(seq![OutView::Line(Seq::empty())], home)
        } else if word == "running"@ {
            ShownView { client: self.now(ClientState::Running), outputs: Seq::empty() }
        } else if word == "permission"@ {
            ShownView { client: self.now(ClientState::AwaitingPermission), outputs: Seq::empty() }
        } else {
            ShownView { client: self, outputs: Seq::empty() }
        }
    }

    pub open spec fn told_permission(
        self,
        tool: Seq<char>,
        command: Seq<char>,
        home: Option<Seq<char>>,
    ) -> ShownView {
        let head = seq![
            OutView::Line("\n--- Permission Request ---"@),
            OutView::Line("Tool: "@ + tool),
        ];
        let body = if command.len() > 0 {
            head.push(OutView::Line(command))
        } else {
            head
        };
        self.now(ClientState::AwaitingPermission).told(
            body.push(OutView::Line("--------------------------"@)),
            home,
        )
    }

    /// What a message of the server makes of the client, and what is shown.
    pub open spec fn told_value(self, val: JsonView, home: Option<Seq<char>>) -> ShownView {
        let kind = val.text_at("type"@);
        if kind == Some("connected"@) {
            self.told_connected(val, home)
        } else if kind == Some("output"@) {
            ShownView {
                client: self,
                outputs: seq![OutView::Line(val.text_or("line"@, Seq::empty()))],
            }
        } else if kind == Some("state"@) {
            self.told_state(val.text_or("state"@, Seq::empty()), home)
        } else if kind == Some("permission"@) {
            self.told_permission(
                val.text_or("tool"@, "unknown"@),
                val.text_or("command"@, Seq::empty()),
                home,
            )
        } else if kind == Some("cd"@) {
            match val.text_at("cwd"@) {
                Some(cwd) => self.at(cwd).told(
                    seq![OutView::Line("  [cd] -> "@ + paths::shortened(cwd, home))],
                    home,
                ),
                None => self.told(Seq::empty(), home),
            }
        } else if kind == Some("cwd"@) {
            ShownView {
                client: match val.text_at("path"@) {
                    Some(cwd) => self.at(cwd),
                    None => self,
                },
                outputs: Seq::empty(),
            }
        } else if kind == Some("skip_permissions"@) {
            self.told(
                seq![
                    OutView::Line(
                        "  [permissions] auto-accept is now "@ + session_keys::on_off(
                            val.flag_at("enabled"@),
                        ),
                    ),
                ],
                home,
            )
        } else if kind == Some("error"@) {
            self.told(
                seq![OutView::ErrorLine("Error: "@ + val.text_or("message"@, "unknown error"@))],
                home,
            )
        } else {
            ShownView { client: self, outputs: seq![OutView::Line(json::pretty_json(val))] }
        }
    }

    /// What a text from the server makes of the client; one that is no JSON is shown as it is.
    pub open spec fn told_text(self, text: Seq<char>, home: Option<Seq<char>>) -> ShownView {
        match json::parsed_json(text) {
            Ok(val) => self.told_value(val, home),
            Err(_) => ShownView { client: self, outputs: seq![OutView::Line(text)] },
        }
    }
}

// ── The operations ──

fn show(outputs: &mut Vec<Output>, output: Output)
    ensures
        final(outputs).deep_view() == old(outputs).deep_view().push(output.deep_view()),
{
    outputs.push(output);
    assert(outputs.deep_view() =~= old(outputs).deep_view().push(output.deep_view()));
}

fn nothing() -> (r: Vec<Output>)
    ensures
        r.deep_view() == Seq::<OutView>::empty(),
{
    let r: Vec<Output> = Vec::new();
    assert(r.deep_view() =~= Seq::<OutView>::empty());
    r
}

impl Client {
    /// A client that has not been told anything.
    pub fn new() -> (r: Client)
        ensures
            r@ == ClientView::new(),
    {
        Client { state: ClientState::Idle, cwd: String::new() }
    }

    fn show_prompt(&self, home: Option<&str>, outputs: &mut Vec<Output>)
        ensures
            final(outputs).deep_view() == old(outputs).deep_view() + self@.prompt(
                text::opt_text(home),
            ),
    {
        match self.state {
            ClientState::Idle => {
                let display = shorten_path_with(self.cwd.as_str(), home);
                show(outputs, Output::Raw(cat2(display.as_str(), "> ")));
            },
            ClientState::AwaitingPermission => {
                show(outputs, Output::Raw("[y/n]> ".to_string()));
            },
            ClientState::Running => {},
        }
        assert(outputs.deep_view() =~= old(outputs).deep_view() + self@.prompt(
            text::opt_text(home),
        ));
    }

    /// The prompt for the terminal; none while the session runs.
    pub fn print_prompt(&self, home: Option<&str>) -> (outputs: Vec<Output>)
        ensures
            outputs.deep_view() == self@.prompt(text::opt_text(home)),
    {
        let mut outputs = nothing();
        self.show_prompt(home, &mut outputs);
        assert(outputs.deep_view() =~= self@.prompt(text::opt_text(home)));
        outputs
    }

    /// Handle slash commands. Anything that is none is a prompt.
    pub fn handle_command(&self, line: &str, home: Option<&str>) -> (r: LineStep)
        ensures
            r.is(self@, self@.commanded(line@, text::opt_text(home))),
    {
        let state = self.state;
        let mut outputs = nothing();
        let n: usize = line.unicode_len();
        if same(line, "/quit") || same(line, "/exit") {
            show(&mut outputs, Output::Line("Disconnecting...".to_string()));
            return LineStep { send: None, outputs, state, quit: true };
        }
        if same(line, "/kill") {
            let msg = Json::object().with("type", Json::text("kill"));
            show(&mut outputs, Output::Line("Kill sent.".to_string()));
            let idle = Client { state: ClientState::Idle, cwd: self.cwd.clone() };
            idle.show_prompt(home, &mut outputs);
            return LineStep {
                send: Some(msg.to_text()),
                outputs,
                state: ClientState::Idle,
                quit: false,
            };
        }
        if same(line, "/clear") {
            // Clear terminal with ANSI escape codes
            show(&mut outputs, Output::Raw("\x1b[2J\x1b[H".to_string()));
            self.show_prompt(home, &mut outputs);
            return LineStep { send: None, outputs, state, quit: false };
        }
        if same(line, "/dangerously-skip-permissions") {
            let msg = Json::object().with("type", Json::text("skip_permissions"));
            return LineStep { send: Some(msg.to_text()), outputs, state, quit: false };
        }
        if same(line, "/cd") || begins(line, "/cd ") {
            let path: String = if same(line, "/cd") {
                String::new()
            } else {
                proof {
                    reveal_strlit("/cd ");
                    assert(line@.skip(4) == line@.subrange(4, n as int));
                }
                trimmed(line.substring_char(4, n)).to_string()
            };
            let msg = Json::object().with("type", Json::text("cd")).with(
                "path",
                Json::text(path.as_str()),
            );
            return LineStep { send: Some(msg.to_text()), outputs, state, quit: false };
        }
        if same(line, "/resume") || begins(line, "/resume ") {
            let sid: String = if same(line, "/resume") {
                String::new()
            } else {
                proof {
                    reveal_strlit("/resume ");
                    assert(line@.skip(8) == line@.subrange(8, n as int));
                }
                trimmed(line.substring_char(8, n)).to_string()
            };
            if sid.as_str().is_empty() {
                show(&mut outputs, Output::Line("Usage: /resume <session-id>".to_string()));
                self.show_prompt(home, &mut outputs);
                return LineStep { send: None, outputs, state, quit: false };
            }
            let msg = Json::object().with("type", Json::text("resume")).with(
                "session_id",
                Json::text(sid.as_str()),
            );
            return LineStep { send: Some(msg.to_text()), outputs, state, quit: false };
        }
        // Send as prompt (includes /btw and anything else)
        let msg = Json::object().with("type", Json::text("prompt")).with(
            "message",
            Json::text(line),
        );
        LineStep { send: Some(msg.to_text()), outputs, state: ClientState::Running, quit: false }
    }

    /// Takes a line that was typed: what is to be sent, and what comes of it then.
    pub fn handle_line(&self, input: &str, home: Option<&str>) -> (r: LineStep)
        ensures
            r.is(self@, self@.typed(input@, text::opt_text(home))),
    {
        let line = trimmed(input);
        if line.is_empty() {
            return LineStep {
                send: None,
                outputs: self.print_prompt(home),
                state: self.state,
                quit: false,
            };
        }
        match self.state {
            ClientState::AwaitingPermission => {
                let allow = same(line, "y") || same(line, "Y") || same(line, "yes") || same(
                    line,
                    "Yes",
                );
                let msg = Json::object().with("type", Json::text("permission")).with(
                    "allow",
                    Json::Bool(allow),
                );
                LineStep {
                    send: Some(msg.to_text()),
                    outputs: nothing(),
                    state: ClientState::Running,
                    quit: false,
                }
            },
            _ => self.handle_command(line, home),
        }
    }

    /// Ends a line that was typed, once its message has gone out or, with this error, has not.
    pub fn end_line(&mut self, step: LineStep, failure: Option<&str>) -> (r: LineEnd)
        ensures
            forall|typed: TypedView| #[trigger]
                step.is(old(self)@, typed) ==> (EndView {
                    client: final(self)@,
                    outputs: r.outputs.deep_view(),
                    goes_on: r.goes_on,
                }) == typed.ended(old(self)@, text::opt_text(failure)),
            step.send is Some && failure is Some ==> final(self)@ == old(self)@ && !r.goes_on
                && r.outputs.deep_view() == seq![
                OutView::ErrorLine("Send error: "@ + failure->0@),
            ],
            !(step.send is Some && failure is Some) ==> final(self)@ == old(self)@.now(step.state)
                && r.goes_on == !step.quit && r.outputs.deep_view() == step.outputs.deep_view(),
    {
        if step.send.is_some() {
            if let Some(error) = failure {
                let mut outputs = nothing();
                show(&mut outputs, Output::ErrorLine(cat2("Send error: ", error)));
                return LineEnd { outputs, goes_on: false };
            }
        }
        self.state = step.state;
        LineEnd { outputs: step.outputs, goes_on: !step.quit }
    }

    fn show_connected(&mut self, val: &Json, home: Option<&str>) -> (outputs: Vec<Output>)
        ensures
            (ShownView { client: final(self)@, outputs: outputs.deep_view() }) == old(
                self,
            )@.told_connected(val@, text::opt_text(home)),
    {
        let mut outputs = nothing();
        let id: u64 = match val.get("session_id") {
            Some(Json::Number(n)) => match number_as_u64(n) {
                Some(id) => id,
                None => 0,
            },
            _ => 0,
        };
        if let Some(c) = val.text_at("cwd") {
            self.cwd = c.to_string();
        }
        let number = decimal_of(id);
        show(&mut outputs, Output::Line(cat3("Connected! Session #", number.as_str(), " created.")));
        show(&mut outputs, Output::Line("Type a prompt to start, /quit to exit.\n".to_string()));
        self.state = ClientState::Idle;
        self.show_prompt(home, &mut outputs);
        assert(outputs.deep_view() =~= old(self)@.told_connected(
            val@,
            text::opt_text(home),
        ).outputs);
        outputs
    }

    fn show_state(&mut self, word: &str, home: Option<&str>) -> (outputs: Vec<Output>)
        ensures
            (ShownView { client: final(self)@, outputs: outputs.deep_view() }) == old(
                self,
            )@.told_state(word@, text::opt_text(home)),
    {
        let mut outputs = nothing();
        if same(word, "idle") {
            self.state = ClientState::Idle;
            show(&mut outputs, Output::Line(String::new()));
            self.show_prompt(home, &mut outputs);
        } else if same(word, "running") {
            self.state = ClientState::Running;
        } else if same(word, "permission") {
            self.state = ClientState::AwaitingPermission;
        }
        assert(outputs.deep_view() =~= old(self)@.told_state(word@, text::opt_text(home)).outputs);
        outputs
    }

    fn show_permission(
        &mut self,
        tool: &str,
        command: &str,
        home: Option<&str>,
    ) -> (outputs: Vec<Output>)
        ensures
            (ShownView { client: final(self)@, outputs: outputs.deep_view() }) == old(
                self,
            )@.told_permission(tool@, command@, text::opt_text(home)),
    {
        let mut outputs = nothing();
        show(&mut outputs, Output::Line("\n--- Permission Request ---".to_string()));
        show(&mut outputs, Output::Line(cat2("Tool: ", tool)));
        if !command.is_empty() {
            show(&mut outputs, Output::Line(command.to_string()));
        }
        show(&mut outputs, Output::Line("--------------------------".to_string()));
        self.state = ClientState::AwaitingPermission;
        self.show_prompt(home, &mut outputs);
        assert(outputs.deep_view() =~= old(self)@.told_permission(
            tool@,
            command@,
            text::opt_text(home),
        ).outputs);
        outputs
    }

    /// Takes a message of the server.
    pub fn handle_server_message(&mut self, val: &Json, home: Option<&str>) -> (outputs: Vec<
        Output,
    >)
        ensures
            (ShownView { client: final(self)@, outputs: outputs.deep_view() }) == old(
                self,
            )@.told_value(val@, text::opt_text(home)),
    {
        proof {
            reveal_strlit("");
            assert(""@ == Seq::<char>::empty());
        }
        let ghost want = self@.told_value(val@, text::opt_text(home));
        let mut outputs = nothing();
        let kind = match val.text_at("type") {
            Some(kind) => kind,
            None => {
                show(&mut outputs, Output::Line(val.to_pretty_text()));
                assert(outputs.deep_view() =~= want.outputs);
                return outputs;
            },
        };
        if same(kind, "connected") {
            return self.show_connected(val, home);
        }
        if same(kind, "output") {
            show(&mut outputs, Output::Line(val.text_or("line", "").to_string()));
            assert(outputs.deep_view() =~= want.outputs);
            return outputs;
        }
        if same(kind, "state") {
            return self.show_state(val.text_or("state", ""), home);
        }
        if same(kind, "permission") {
            return self.show_permission(
                val.text_or("tool", "unknown"),
                val.text_or("command", ""),
                home,
            );
        }
        if same(kind, "cd") {
            if let Some(c) = val.text_at("cwd") {
                self.cwd = c.to_string();
                let shown = shorten_path_with(c, home);
                show(&mut outputs, Output::Line(cat2("  [cd] -> ", shown.as_str())));
            }
            self.show_prompt(home, &mut outputs);
        } else if same(kind, "cwd") {
            if let Some(c) = val.text_at("path") {
                self.cwd = c.to_string();
            }
        } else if same(kind, "skip_permissions") {
            let status = on_off_word(val.flag_at("enabled"));
            show(
                &mut outputs,
                Output::Line(cat2("  [permissions] auto-accept is now ", status)),
            );
            self.show_prompt(home, &mut outputs);
        } else if same(kind, "error") {
            let msg = val.text_or("message", "unknown error");
            show(&mut outputs, Output::ErrorLine(cat2("Error: ", msg)));
            self.show_prompt(home, &mut outputs);
        } else {
            show(&mut outputs, Output::Line(val.to_pretty_text()));
        }
        assert(outputs.deep_view() =~= want.outputs);
        outputs
    }

    /// Takes a text from the server. One that is no JSON is shown as it is.
    pub fn handle_server_text(&mut self, text: &str, home: Option<&str>) -> (outputs: Vec<Output>)
        ensures
            (ShownView { client: final(self)@, outputs: outputs.deep_view() }) == old(
                self,
            )@.told_text(text@, text::opt_text(home)),
    {
        match parse(text) {
            Ok(val) => self.handle_server_message(&val, home),
            Err(_) => {
                let mut outputs = nothing();
                show(&mut outputs, Output::Line(text.to_string()));
                assert(outputs.deep_view() =~= seq![OutView::Line(text@)]);
                outputs
            },
        }
    }
}

// ── Laws ──

/// The server understands every message that the client sends for what it was meant.
pub proof fn law_server_understands_the_client(text: Seq<char>)
    ensures
        forall|line: Seq<char>|
            json::reads_as(text, #[trigger] ask_prompt(line)) ==> ws::AskView::Prompt(line)
                == ws::text_ask(text),
        forall|allow: bool|
            json::reads_as(text, #[trigger] ask_permission(allow)) ==> ws::AskView::Permission(
                allow,
            ) == ws::text_ask(text),
        forall|path: Seq<char>|
            json::reads_as(text, #[trigger] ask_cd(path)) ==> ws::AskView::Cd(path)
                == ws::text_ask(text),
        forall|id: Seq<char>|
            json::reads_as(text, #[trigger] ask_resume(id)) ==> ws::AskView::Resume(id)
                == ws::text_ask(text),
        json::reads_as(text, ws::tagged("kill"@)) ==> ws::text_ask(text) is Kill,
        json::reads_as(text, ws::tagged("skip_permissions"@)) ==> ws::text_ask(
            text,
        ) is SkipPermissions,
{
    lemma_words_differ();
}

/// The names of the messages and of their fields are all different.
proof fn lemma_words_differ()
    ensures
        "type"@ != "message"@ && "type"@ != "allow"@ && "type"@ != "path"@ && "type"@
            != "session_id"@ && "type"@ != "line"@ && "type"@ != "state"@ && "type"@ != "tool"@
            && "type"@ != "command"@ && "type"@ != "cwd"@ && "type"@ != "enabled"@,
        "tool"@ != "command"@ && "session_id"@ != "cwd"@,
        "prompt"@ != "permission"@ && "prompt"@ != "cd"@ && "prompt"@ != "kill"@ && "prompt"@
            != "clear"@ && "prompt"@ != "resume"@ && "prompt"@ != "skip_permissions"@,
        "permission"@ != "cd"@ && "permission"@ != "kill"@ && "permission"@ != "clear"@
            && "permission"@ != "resume"@ && "permission"@ != "skip_permissions"@,
        "cd"@ != "kill"@ && "cd"@ != "clear"@ && "cd"@ != "resume"@ && "cd"@
            != "skip_permissions"@,
        "kill"@ != "clear"@ && "kill"@ != "resume"@ && "kill"@ != "skip_permissions"@,
        "clear"@ != "resume"@ && "clear"@ != "skip_permissions"@,
        "resume"@ != "skip_permissions"@,
        "connected"@ != "output"@ && "connected"@ != "state"@ && "connected"@ != "permission"@
            && "connected"@ != "cd"@ && "connected"@ != "cwd"@ && "connected"@
            != "skip_permissions"@ && "connected"@ != "error"@,
        "output"@ != "state"@ && "output"@ != "permission"@ && "output"@ != "cd"@ && "output"@
            != "cwd"@ && "output"@ != "skip_permissions"@ && "output"@ != "error"@,
        "state"@ != "permission"@ && "state"@ != "cd"@ && "state"@ != "cwd"@ && "state"@
            != "skip_permissions"@ && "state"@ != "error"@,
        "permission"@ != "cwd"@ && "permission"@ != "error"@,
        "cd"@ != "cwd"@ && "cd"@ != "error"@,
        "cwd"@ != "skip_permissions"@ && "cwd"@ != "error"@,
        "skip_permissions"@ != "error"@,
        "idle"@ != "running"@ && "idle"@ != "permission"@ && "running"@ != "permission"@,
{
    reveal_strlit("type");
    reveal_strlit("message");
    reveal_strlit("allow");
    reveal_strlit("path");
    reveal_strlit("session_id");
    reveal_strlit("line");
    reveal_strlit("state");
    reveal_strlit("tool");
    reveal_strlit("command");
    reveal_strlit("cwd");
    reveal_strlit("enabled");
    reveal_strlit("prompt");
    reveal_strlit("permission");
    reveal_strlit("cd");
    reveal_strlit("kill");
    reveal_strlit("clear");
    reveal_strlit("resume");
    reveal_strlit("skip_permissions");
    reveal_strlit("connected");
    reveal_strlit("output");
    reveal_strlit("error");
    reveal_strlit("idle");
    reveal_strlit("running");
    assert("type"@[0] == 't' && "tool"@[1] == 'o' && "type"@[1] == 'y');
    assert("prompt"@[0] == 'p' && "prompt"@[1] == 'r');
    assert("connected"@[0] == 'c' && "cwd"@[1] == 'w' && "cd"@[1] == 'd');
    assert("output"@[0] == 'o' && "state"@[0] == 's' && "error"@[0] == 'e' && "clear"@[0] == 'c');
    assert("kill"@[0] == 'k' && "idle"@[0] == 'i' && "path"@[0] == 'p' && "line"@[0] == 'l');
    assert("resume"@[0] == 'r' && "message"@[0] == 'm' && "command"@[0] == 'c');
    assert("skip_permissions"@.len() == 16 && "session_id"@.len() == 10);
    assert("permission"@[0] == 'p' && "running"@[0] == 'r' && "enabled"@.len() == 7);
    assert("prompt"@.len() == 6 && "resume"@.len() == 6 && "output"@.len() == 6);
}

/// A line sends at most one message. The connection ends with it just where that message could not
/// be sent, or the user quits; a message that could not be sent changes nothing. A sent prompt
/// makes the session run, a sent `/kill` makes it idle, no other command changes its state, and
/// none changes the directory.
pub proof fn law_commands_that_cannot_be_sent(
    c: ClientView,
    line: Seq<char>,
    home: Option<Seq<char>>,
    failure: Option<Seq<char>>,
)
    ensures
        ({
            let typed = c.commanded(line, home);
            let end = typed.ended(c, failure);
            let quits = line == "/quit"@ || line == "/exit"@;
            let fails = typed.send is Some && failure is Some;
            &&& !end.goes_on <==> quits || fails
            &&& fails ==> end.client == c
            &&& end.client.cwd == c.cwd
            &&& quits || line == "/clear"@ || line == "/resume"@ ==> typed.send is None
            &&& !fails && line == "/kill"@ ==> end.client.state is Idle
            &&& is_prompt(line) ==> typed.send == Some(ask_prompt(line))
            &&& !fails && is_prompt(line) ==> end.client.state is Running
            &&& !is_prompt(line) && line != "/kill"@ ==> end.client == c
        }),
{
    reveal_strlit("/quit");
    reveal_strlit("/exit");
    reveal_strlit("/kill");
    reveal_strlit("/clear");
    reveal_strlit("/resume");
    reveal_strlit("/cd");
    reveal_strlit("/cd ");
    reveal_strlit("/resume ");
    reveal_strlit("/dangerously-skip-permissions");
    assert("/quit"@[1] == 'q' && "/exit"@[1] == 'e' && "/kill"@[1] == 'k' && "/clear"@[2] == 'l');
    assert("/resume"@[1] == 'r' && "/cd"@.len() == 3 && "/dangerously-skip-permissions"@[1] == 'd');
    assert("/cd "@[2] == 'd' && "/clear"@[1] == 'c' && "/cd "@[1] == 'c');
    assert(!text::starts_with("/clear"@, "/cd "@)) by {
        assert("/clear"@.take(4)[2] == 'l');
    }
    assert(!text::starts_with("/resume"@, "/cd "@)) by {
        assert("/resume"@.take(4)[1] == 'r');
    }
    assert(!text::starts_with("/kill"@, "/cd "@)) by {
        assert("/kill"@.take(4)[1] == 'k');
    }
}

/// The client shows every line of output that the server sends, and nothing else with it.
pub proof fn law_client_shows_the_output(
    c: ClientView,
    line: Seq<char>,
    text: Seq<char>,
    home: Option<Seq<char>>,
)
    requires
        json::reads_as(text, ws::output_message(line)),
    ensures
        c.told_text(text, home) == (ShownView { client: c, outputs: seq![OutView::Line(line)] }),
{
    lemma_words_differ();
}

/// The client follows the state that the server tells it of.
pub proof fn law_client_follows_the_state(
    c: ClientView,
    state: crate::session::StateView,
    text: Seq<char>,
    home: Option<Seq<char>>,
)
    requires
        json::reads_as(text, ws::state_message(state.word())),
    ensures
        ({
            let after = c.told_text(text, home).client;
            &&& after.cwd == c.cwd
            &&& match state {
                crate::session::StateView::Idle => after.state is Idle,
                crate::session::StateView::Running => after.state is Running,
                crate::session::StateView::AwaitingPermission(_) => after.state
                    is AwaitingPermission,
            }
        }),
{
    lemma_words_differ();
}

/// The client follows the directory that the server tells it of.
pub proof fn law_client_follows_the_directory(
    c: ClientView,
    dir: Seq<char>,
    text: Seq<char>,
    home: Option<Seq<char>>,
)
    ensures
        json::reads_as(text, ws::cwd_message(dir)) ==> c.told_text(text, home).client == c.at(dir),
        json::reads_as(text, ws::cd_message(dir)) ==> c.told_text(text, home).client == c.at(dir),
{
    lemma_words_differ();
}

/// A request for permission makes the client ask; what is typed then answers it, and the server
/// takes the answer for what it says.
pub proof fn law_client_asks_for_permission(
    c: ClientView,
    tool: Seq<char>,
    command: Seq<char>,
    text: Seq<char>,
    answer: Seq<char>,
    home: Option<Seq<char>>,
)
    requires
        json::reads_as(text, ws::permission_message(tool, command)),
        text::trim(answer).len() > 0,
    ensures
        c.told_text(text, home) == c.told_permission(tool, command, home),
        c.told_text(text, home).client.typed(answer, home).send == Some(
            ask_permission(says_yes(text::trim(answer))),
        ),
        ws::value_ask(ask_permission(says_yes(text::trim(answer)))) == ws::AskView::Permission(
            says_yes(text::trim(answer)),
        ),
{
    lemma_words_differ();
}

/// An error of the server is shown as an error, and the state of the client stays.
pub proof fn law_client_shows_errors(
    c: ClientView,
    msg: Seq<char>,
    text: Seq<char>,
    home: Option<Seq<char>>,
)
    requires
        json::reads_as(text, ws::error_message(msg)),
    ensures
        c.told_text(text, home).client == c,
        c.told_text(text, home).outputs == seq![OutView::ErrorLine("Error: "@ + msg)] + c.prompt(
            home,
        ),
{
    lemma_words_differ();
}

proof fn lemma_commands_differ()
    ensures
        "/quit"@.len() > 0 && "/exit"@.len() > 0 && "/kill"@.len() > 0 && "/clear"@.len() > 0,
        "/quit"@ != "/kill"@ && "/quit"@ != "/clear"@ && "/exit"@ != "/kill"@ && "/exit"@
            != "/clear"@ && "/kill"@ != "/clear"@,
        forall|line: Seq<char>|
            line == "/dangerously-skip-permissions"@ || line == "/cd"@ || #[trigger] text::starts_with(
                line,
                "/cd "@,
            ) || line == "/resume"@ || text::starts_with(line, "/resume "@) ==> line.len() > 0
                && line != "/quit"@ && line != "/exit"@ && line != "/kill"@ && line != "/clear"@,
        forall|line: Seq<char>|
            line == "/cd"@ || #[trigger] text::starts_with(line, "/cd "@) || line == "/resume"@
                || text::starts_with(line, "/resume "@) ==> line
                != "/dangerously-skip-permissions"@,
        forall|line: Seq<char>|
            line == "/resume"@ || #[trigger] text::starts_with(line, "/resume "@) ==> line
                != "/cd"@ && !text::starts_with(line, "/cd "@),
        forall|line: Seq<char>| #[trigger] text::starts_with(line, "/resume "@) ==> line
            != "/resume"@,
        forall|line: Seq<char>| #[trigger] text::starts_with(line, "/cd "@) ==> line != "/cd"@,
{
    reveal_strlit("/quit");
    reveal_strlit("/exit");
    reveal_strlit("/kill");
    reveal_strlit("/clear");
    reveal_strlit("/resume");
    reveal_strlit("/cd");
    reveal_strlit("/cd ");
    reveal_strlit("/resume ");
    reveal_strlit("/dangerously-skip-permissions");
    assert("/quit"@[1] == 'q' && "/exit"@[1] == 'e' && "/kill"@[1] == 'k');
    assert("/clear"@[1] == 'c' && "/clear"@[2] == 'l');
    assert("/resume"@[1] == 'r' && "/resume"@.len() == 7);
    assert("/cd"@[1] == 'c' && "/cd"@[2] == 'd' && "/cd"@.len() == 3);
    assert("/dangerously-skip-permissions"@[1] == 'd');
    assert("/cd "@[1] == 'c' && "/cd "@[2] == 'd' && "/resume "@[1] == 'r');
    assert forall|line: Seq<char>| #[trigger] text::starts_with(line, "/cd "@) implies line.len()
        >= 4 && line[1] == 'c' && line[2] == 'd' by {
        assert(line.take(4)[1] == line[1]);
        assert(line.take(4)[2] == line[2]);
    }
    assert forall|line: Seq<char>| #[trigger] text::starts_with(line, "/resume "@) implies line.len()
        >= 8 && line[1] == 'r' by {
        assert(line.take(8)[1] == line[1]);
    }
}

/// What is typed goes to the server as what it is: a prompt whole, a path, the name of a
/// conversation, or that the process is to be killed or not to ask; while permission is asked for,
/// a yes allows and anything else denies. A blank line sends nothing and shows the prompt again.
pub proof fn law_what_is_typed_is_sent(
    c: ClientView,
    input: Seq<char>,
    home: Option<Seq<char>>,
    rest: Seq<char>,
)
    ensures
        ({
            let line = text::trim(input);
            let typed = c.typed(input, home);
            let asks = c.state is AwaitingPermission;
            let yes = line == "y"@ || line == "Y"@ || line == "yes"@ || line == "Yes"@;
            &&& line.len() == 0 ==> typed == (TypedView {
                client: c,
                send: None,
                outputs: c.prompt(home),
                quit: false,
            })
            &&& line.len() > 0 && asks ==> {
                &&& typed.send matches Some(m) && m.text_at("type"@) == Some("permission"@)
                    && m.get("allow"@) == Some(JsonView::Bool(yes))
                &&& typed.client == (ClientView { state: ClientState::Running, ..c })
                &&& typed.outputs.len() == 0 && !typed.quit
            }
            &&& line.len() > 0 && !asks && is_prompt(line) ==> {
                &&& typed.send matches Some(m) && m.text_at("type"@) == Some("prompt"@)
                    && m.text_at("message"@) == Some(line)
                &&& typed.client == (ClientView { state: ClientState::Running, ..c })
                &&& typed.outputs.len() == 0 && !typed.quit
            }
            &&& !asks && (line == "/cd "@ + rest || line == "/cd"@) ==> {
                &&& typed.send matches Some(m) && m.text_at("type"@) == Some("cd"@) && m.text_at(
                    "path"@,
                ) == Some(
                    if line == "/cd"@ {
                        Seq::empty()
                    } else {
                        text::trim(rest)
                    },
                )
                &&& typed.client == c && !typed.quit
            }
            &&& !asks && line == "/resume "@ + rest && text::trim(rest).len() > 0 ==> {
                &&& typed.send matches Some(m) && m.text_at("type"@) == Some("resume"@)
                    && m.text_at("session_id"@) == Some(text::trim(rest))
                &&& typed.client == c && !typed.quit
            }
            &&& !asks && (line == "/resume"@ || line == "/resume "@ + rest && text::trim(rest).len()
                == 0) ==> typed.send is None && typed.client == c && typed.outputs == seq![
                OutView::Line("Usage: /resume <session-id>"@),
            ] + c.prompt(home) && !typed.quit
            &&& !asks && line == "/kill"@ ==> {
                &&& typed.send matches Some(m) && m.text_at("type"@) == Some("kill"@)
                &&& typed.client == (ClientView { state: ClientState::Idle, ..c })
                &&& typed.outputs == seq![OutView::Line("Kill sent."@)] + (ClientView {
                    state: ClientState::Idle,
                    ..c
                }).prompt(home)
                &&& !typed.quit
            }
            &&& !asks && line == "/dangerously-skip-permissions"@ ==> {
                &&& typed.send matches Some(m) && m.text_at("type"@) == Some("skip_permissions"@)
                &&& typed.client == c && !typed.quit
            }
            &&& !asks && line == "/clear"@ ==> typed.send is None && typed.client == c
                && !typed.quit && typed.outputs == seq![OutView::Raw("\x1b[2J\x1b[H"@)] + c.prompt(
                home,
            )
            &&& !asks && (line == "/quit"@ || line == "/exit"@) ==> typed.quit && typed.send is None
                && typed.outputs == seq![OutView::Line("Disconnecting..."@)]
        }),
{
    lemma_words_differ();
    lemma_commands_differ();
    let line = text::trim(input);
    reveal_strlit("/cd ");
    reveal_strlit("/resume ");
    text::law_starts_with(line, "/cd "@, rest);
    text::law_starts_with(line, "/resume "@, rest);
    assert(("/cd "@ + rest).skip(4) =~= rest);
    assert(("/resume "@ + rest).skip(8) =~= rest);
    assert(text::starts_with("/cd "@ + rest, "/cd "@));
    assert(text::starts_with("/resume "@ + rest, "/resume "@));
    assert(!text::starts_with("/cd"@, "/cd "@) && !text::starts_with("/resume"@, "/resume "@));
}

/// The prompt shows where the client works while nothing runs, asks for an answer while permission
/// is asked for, and is not there while the assistant runs.
pub proof fn law_the_prompt_of_the_client(c: ClientView, home: Option<Seq<char>>)
    ensures
        c.state is Idle ==> c.prompt(home) == seq![
            OutView::Raw(paths::shortened(c.cwd, home) + "> "@),
        ],
        c.state is AwaitingPermission ==> c.prompt(home) == seq![OutView::Raw("[y/n]> "@)],
        c.state is Running ==> c.prompt(home).len() == 0,
{
}

/// A client that is connected is idle in the directory of its session, and shows its number.
pub proof fn law_client_is_connected(
    c: ClientView,
    id: usize,
    cwd: Seq<char>,
    text: Seq<char>,
    home: Option<Seq<char>>,
)
    requires
        json::reads_as(text, ws::connected_message(id, cwd)),
        json::number_u64(json::u64_number(id as u64)) == Some(id as u64),
    ensures
        c.told_text(text, home).client == (ClientView { state: ClientState::Idle, cwd }),
        c.told_text(text, home).outputs.len() == 3,
        c.told_text(text, home).outputs[0] == OutView::Line(
            "Connected! Session #"@ + text::decimal(id as nat) + " created."@,
        ),
        c.told_text(text, home).outputs[2] == OutView::Raw(paths::shortened(cwd, home) + "> "@),
{
    lemma_words_differ();
}

/// A request for permission shows its tool and its input, and then asks.
pub proof fn law_client_shows_the_request(
    c: ClientView,
    tool: Seq<char>,
    command: Seq<char>,
    text: Seq<char>,
    home: Option<Seq<char>>,
)
    requires
        json::reads_as(text, ws::permission_message(tool, command)),
    ensures
        ({
            let r = c.told_text(text, home);
            &&& r.client == (ClientView { state: ClientState::AwaitingPermission, ..c })
            &&& r.outputs[1] == OutView::Line("Tool: "@ + tool)
            &&& command.len() > 0 ==> r.outputs.len() == 5 && r.outputs[2] == OutView::Line(command)
            &&& command.len() == 0 ==> r.outputs.len() == 4
            &&& r.outputs.last() == OutView::Raw("[y/n]> "@)
        }),
{
    lemma_words_differ();
}

/// The directory that a client moved to is shown as the user writes it; that nothing is asked any
/// more, or is asked again, is shown in a word.
pub proof fn law_client_shows_what_was_set(
    c: ClientView,
    dir: Seq<char>,
    on: bool,
    text: Seq<char>,
    home: Option<Seq<char>>,
)
    ensures
        json::reads_as(text, ws::cd_message(dir)) ==> c.told_text(text, home).outputs == seq![
            OutView::Line("  [cd] -> "@ + paths::shortened(dir, home)),
        ] + (ClientView { cwd: dir, ..c }).prompt(home),
        json::reads_as(text, ws::cwd_message(dir)) ==> c.told_text(text, home).outputs.len() == 0,
        json::reads_as(text, ws::skip_permissions_message(on)) ==> c.told_text(text, home)
            == (ShownView {
            client: c,
            outputs: seq![
                OutView::Line(
                    "  [permissions] auto-accept is now "@ + (if on {
                        "ON"@
                    } else {
                        "OFF"@
                    }),
                ),
            ] + c.prompt(home),
        }),
{
    lemma_words_differ();
}

/// What the client does not know it shows as it came, and stays as it is.
pub proof fn law_client_shows_what_it_does_not_know(
    c: ClientView,
    val: JsonView,
    text: Seq<char>,
    home: Option<Seq<char>>,
)
    ensures
        json::parsed_json(text) is Err ==> c.told_text(text, home) == (ShownView {
            client: c,
            outputs: seq![OutView::Line(text)],
        }),
        json::reads_as(text, val) && val.text_at("type"@) is None ==> c.told_text(text, home) == (
        ShownView { client: c, outputs: seq![OutView::Line(json::pretty_json(val))] }),
        json::reads_as(text, val) && (val.text_at("type"@) matches Some(k) && k != "connected"@ && k
            != "output"@ && k != "state"@ && k != "permission"@ && k != "cd"@ && k != "cwd"@ && k
            != "skip_permissions"@ && k != "error"@) ==> c.told_text(text, home) == (ShownView {
            client: c,
            outputs: seq![OutView::Line(json::pretty_json(val))],
        }),
{
}

/// An end of a turn shows an empty line and the prompt; the beginning of one shows nothing.
pub proof fn law_client_shows_the_state(c: ClientView, text: Seq<char>, home: Option<Seq<char>>)
    ensures
        json::reads_as(text, ws::state_message("idle"@)) ==> c.told_text(text, home).outputs
            == seq![OutView::Line(Seq::empty()), OutView::Raw(paths::shortened(c.cwd, home) + "> "@)],
        json::reads_as(text, ws::state_message("running"@)) ==> c.told_text(text, home).outputs.len()
            == 0,
        json::reads_as(text, ws::state_message("permission"@)) ==> c.told_text(
            text,
            home,
        ).outputs.len() == 0,
{
    lemma_words_differ();
    if json::reads_as(text, ws::state_message("idle"@)) {
        assert(c.told_text(text, home).outputs =~= seq![
            OutView::Line(Seq::empty()),
            OutView::Raw(paths::shortened(c.cwd, home) + "> "@),
        ]);
    }
}

/// A message that could not be sent leaves the client as it was, shows why and closes the
/// connection; else the line does what it is for, and the connection goes on unless the user
/// quits.
pub proof fn law_how_a_line_ends(
    c: ClientView,
    input: Seq<char>,
    home: Option<Seq<char>>,
    error: Seq<char>,
)
    ensures
        ({
            let typed = c.typed(input, home);
            let went = EndView {
                client: typed.client,
                outputs: typed.outputs,
                goes_on: !typed.quit,
            };
            &&& typed.send is Some ==> typed.ended(c, Some(error)) == (EndView {
                client: c,
                outputs: seq![OutView::ErrorLine("Send error: "@ + error)],
                goes_on: false,
            })
            &&& typed.send is None ==> typed.ended(c, Some(error)) == went
            &&& typed.ended(c, None) == went
        }),
{
}

/// What is to come of a line is told in full: a step fits one outcome only.
pub proof fn law_a_step_tells_all(
    step: LineStep,
    before: ClientView,
    a: TypedView,
    b: TypedView,
)
    requires
        step.is(before, a),
        step.is(before, b),
    ensures
        a == b,
        step.send matches Some(text) ==> (a.send matches Some(m) && json::reads_as(text@, m)),
        step.send is None ==> a.send is None,
{
}

}
