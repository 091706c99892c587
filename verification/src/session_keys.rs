//! The keys of a session tile: answering the assistant, choosing a command, scrolling and typing.
use vstd::prelude::*;

use crate::claude;
use crate::claude::{send_permission_response, PermissionRequest, QuestionView, RequestView, UserQuestion};
use crate::cursor;
use crate::cursor::{bytes_in, split};
use crate::json;
use crate::json::{Json, JsonView};
use crate::paths;
use crate::paths::{expand_path, home_dir, shorten_path_with};
use crate::seqs;
use crate::session;
use crate::session::{
    new_session_id, tag_of, ClaudeSession, PlanView, PromptPlan, SessionState, SessionView,
    StateView,
};
use crate::slash;
use crate::slash::{filtered_slash_commands, update_slash_popup};
use crate::text;
use crate::text::{begins, cat2, cat3, no_lines, one_line, same, trimmed, truncate_chars, word};

verus! {

/// A key, as far as the tiles tell them apart.
#[derive(Clone, Copy)]
pub enum Key {
    Char(char),
    Enter,
    Escape,
    Backspace,
    Delete,
    Left,
    Right,
    Up,
    Down,
    Home,
    End,
    PageUp,
    PageDown,
    Tab,
    Other,
}

/// What a key is pressed amid: the moment, the home directory and the directory of the program.
pub struct Surroundings {
    pub now: u64,
    pub home: Option<String>,
    pub program_dir: String,
}

#[verifier::ext_equal]
pub struct SurroundingsView {
    pub now: u64,
    pub home: Option<Seq<char>>,
    pub program_dir: Seq<char>,
}

impl View for Surroundings {
    type V = SurroundingsView;

    open spec fn view(&self) -> SurroundingsView {
        SurroundingsView {
            now: self.now,
            home: self.home.deep_view(),
            program_dir: self.program_dir@,
        }
    }
}

impl Surroundings {
    /// What is around at a moment; the home directory is that of the machine.
    pub fn here(now: u64, program_dir: String) -> (r: Surroundings)
        ensures
            r@.now == now,
            r@.program_dir == program_dir@,
    {
        Surroundings { now, home: home_dir(), program_dir }
    }
}

/// What a key leaves to do outside the session.
pub enum KeyAction {
    Nothing,
    /// Send this line to the process: it answers a request.
    Answer(String),
    /// Look whether this path is a directory.
    CheckDir(String),
    /// Send a prompt.
    Prompt(PromptPlan),
}

/// What comes of a key.
pub struct KeyReply {
    /// Whether the tile has used the key.
    pub consumed: bool,
    /// Lines for the debug log.
    pub logs: Vec<String>,
    pub action: KeyAction,
}

#[verifier::ext_equal]
pub enum KeyActionView {
    Nothing,
    Answer(Seq<char>),
    CheckDir(Seq<char>),
    Prompt(PlanView),
}

/// A session after a key, and what the key leaves to do.
#[verifier::ext_equal]
pub struct KeyStep {
    pub session: SessionView,
    pub consumed: bool,
    pub logs: Seq<Seq<char>>,
    pub action: KeyActionView,
}

impl DeepView for KeyAction {
    type V = KeyActionView;

    open spec fn deep_view(&self) -> KeyActionView {
        match self {
            KeyAction::Nothing => KeyActionView::Nothing,
            KeyAction::Answer(line) => KeyActionView::Answer(line@),
            KeyAction::CheckDir(path) => KeyActionView::CheckDir(path@),
            KeyAction::Prompt(plan) => KeyActionView::Prompt(plan.deep_view()),
        }
    }
}

impl KeyAction {
    /// Whether what goes to the process, if anything does, is one line.
    pub open spec fn sends_a_line(self) -> bool {
        match self {
            KeyAction::Answer(line) => claude::is_line(line@),
            KeyAction::Prompt(plan) => claude::is_line(plan.line@),
            _ => true,
        }
    }
}

impl KeyReply {
    /// Whether this is what `step` says, next to the session `after`. What goes to the process is
    /// one line.
    pub open spec fn is(self, after: SessionView, step: KeyStep) -> bool {
        &&& after == step.session
        &&& self.consumed == step.consumed
        &&& text::texts(self.logs@) == step.logs
        &&& self.action.deep_view() == step.action
        &&& self.action.sends_a_line()
    }
}

/// What was found where a path leads.
pub struct DirProbe {
    pub is_dir: bool,
    /// The path without links and dots, where it could be had.
    pub canonical: Option<String>,
}

/// The directory that a path leads to, if any.
pub open spec fn dir_found(
    path: Seq<char>,
    is_dir: bool,
    canonical: Option<Seq<char>>,
) -> Option<Seq<char>> {
    if is_dir {
        Some(
            match canonical {
                Some(dir) => dir,
                None => path,
            },
        )
    } else {
        None
    }
}

// ── Answering ──

/// The option at `idx` as the answer to each question that has so many.
pub open spec fn chosen_answers(questions: Seq<QuestionView>, idx: int) -> JsonView
    decreases questions.len(),
{
    if questions.len() == 0 {
        json::empty_object()
    } else {
        let before = chosen_answers(questions.drop_last(), idx);
        let q = questions.last();
        if idx < q.options.len() {
            before.with(q.question, JsonView::Text(q.options[idx].label))
        } else {
            before
        }
    }
}

/// What the output says of an answer.
pub open spec fn chosen_line(q: QuestionView, idx: int) -> Option<Seq<char>> {
    if idx < q.options.len() {
        Some("  [answered: "@ + q.options[idx].label + "]"@)
    } else {
        None
    }
}

pub open spec fn chosen_lines(questions: Seq<QuestionView>, idx: int) -> Seq<Seq<char>> {
    seqs::filter_map(questions, |q: QuestionView| chosen_line(q, idx))
}

/// "Other" as the answer to each question.
pub open spec fn other_answers(questions: Seq<QuestionView>) -> JsonView
    decreases questions.len(),
{
    if questions.len() == 0 {
        json::empty_object()
    } else {
        other_answers(questions.drop_last()).with(
            questions.last().question,
            JsonView::Text("Other"@),
        )
    }
}

/// The input of a request with the answers in it.
pub open spec fn answered_input(req: RequestView, answers: JsonView) -> Option<JsonView> {
    match req.raw_input {
        Some(input) => Some(input.with("answers"@, answers)),
        None => None,
    }
}

impl SessionView {
    pub open spec fn said_all(self, lines: Seq<Seq<char>>) -> SessionView {
        SessionView { output_lines: self.output_lines + lines, ..self }
    }

    /// A key that is used up in the tile, and leaves nothing to do.
    pub open spec fn step(self) -> KeyStep {
        KeyStep {
            session: self,
            consumed: true,
            logs: Seq::empty(),
            action: KeyActionView::Nothing,
        }
    }

    /// The answer to a request is on its way, where there is a process to take it.
    pub open spec fn answer_step(
        self,
        request_id: Seq<char>,
        allow: bool,
        updated_input: Option<JsonView>,
        deny_message: Option<Seq<char>>,
        now: u64,
    ) -> KeyStep {
        if self.process_stdin {
            let out = claude::permission_sent(request_id, allow, updated_input, deny_message);
            KeyStep {
                session: self.answering(now),
                consumed: true,
                logs: out.logs,
                action: KeyActionView::Answer(out.line),
            }
        } else {
            self.forced_idle().said("  [error] process not running"@).step()
        }
    }

    /// The answer could not be sent: nothing of the process is left.
    pub open spec fn answer_lost(self, error: Seq<char>) -> SessionView {
        self.forced_idle().said("  [error] "@ + error)
    }

    /// A key while the assistant asks for permission, or asks a question.
    pub open spec fn permission_step(self, req: RequestView, key: Key, now: u64) -> KeyStep {
        if req.questions.len() > 0 {
            match key {
                Key::Char(c) => if '1' <= c <= '9' {
                    let idx = c as int - '1' as int;
                    self.said_all(chosen_lines(req.questions, idx)).answer_step(
                        req.request_id,
                        true,
                        answered_input(req, chosen_answers(req.questions, idx)),
                        None,
                        now,
                    )
                } else if c == 'o' {
                    self.said("  [answered: Other]"@).answer_step(
                        req.request_id,
                        true,
                        answered_input(req, other_answers(req.questions)),
                        None,
                        now,
                    )
                } else if c == 'n' {
                    self.dismiss_step(req, now)
                } else {
                    self.step()
                },
                Key::Escape => self.dismiss_step(req, now),
                _ => self.step(),
            }
        } else {
            match key {
                Key::Char(c) => if c == 'y' {
                    self.allow_step(req, now)
                } else if c == 'n' {
                    self.dismiss_step(req, now)
                } else {
                    self.step()
                },
                Key::Enter => self.allow_step(req, now),
                Key::Escape => self.dismiss_step(req, now),
                _ => self.step(),
            }
        }
    }

    pub open spec fn allow_step(self, req: RequestView, now: u64) -> KeyStep {
        self.said("  [permission: allowed]"@).answer_step(
            req.request_id,
            true,
            req.raw_input,
            None,
            now,
        )
    }

    /// A request is turned down; a question is dismissed.
    pub open spec fn dismiss_step(self, req: RequestView, now: u64) -> KeyStep {
        if req.questions.len() > 0 {
            self.said("  [question: dismissed]"@).answer_step(
                req.request_id,
                false,
                None,
                Some("User dismissed the question"@),
                now,
            )
        } else {
            self.said("  [permission: denied]"@).answer_step(
                req.request_id,
                false,
                None,
                Some("User denied this action"@),
                now,
            )
        }
    }

    // ── Choosing a command ──

    /// The input replaced, with the cursor at its end.
    pub open spec fn input_set(self, input: Seq<char>) -> SessionView {
        SessionView { input_buf: input, cursor_pos: cursor::byte_len(input) as int, ..self }
    }

    /// A key of the popup, where it is one.
    pub open spec fn popup_step(self, key: Key) -> Option<KeyStep> {
        let offers = slash::matching(text::first_word(self.input_buf), self.assistant.name);
        match key {
            Key::Up => Some(
                SessionView {
                    slash_popup_selected: if self.slash_popup_selected > 0 {
                        self.slash_popup_selected - 1
                    } else if offers.len() > 0 {
                        offers.len() - 1
                    } else {
                        0
                    },
                    ..self
                }.step(),
            ),
            Key::Down => Some(
                SessionView {
                    slash_popup_selected: if self.slash_popup_selected + 1 < offers.len() {
                        self.slash_popup_selected + 1
                    } else {
                        0
                    },
                    ..self
                }.step(),
            ),
            Key::Tab | Key::Enter => Some(
                (if self.slash_popup_selected < offers.len() {
                    self.input_set(offers[self.slash_popup_selected].0 + " "@)
                } else {
                    self
                }).popup_hidden().step(),
            ),
            Key::Escape => Some(self.popup_hidden().step()),
            _ => None,
        }
    }

    // ── Scrolling ──

    /// How far the output can be scrolled up.
    pub open spec fn max_scroll(self) -> int {
        if self.output_lines.len() >= self.last_output_visible {
            self.output_lines.len() - self.last_output_visible
        } else {
            0
        }
    }

    pub open spec fn scrolled_up(self, by: int) -> SessionView {
        let limit = (self.max_scroll() as usize) as u16;
        let target = self.scroll_offset + by;
        SessionView {
            scroll_offset: if target <= limit {
                target as u16
            } else {
                limit
            },
            ..self
        }
    }

    pub open spec fn scrolled_down(self, by: int) -> SessionView {
        SessionView {
            scroll_offset: if self.scroll_offset >= by {
                (self.scroll_offset - by) as u16
            } else {
                0
            },
            ..self
        }
    }

    /// A key that works while the assistant runs, where it is one: scrolling, and cancelling.
    pub open spec fn running_step(self, key: Key) -> Option<KeyStep> {
        match key {
            Key::PageUp => Some(self.scrolled_up(10).step()),
            Key::Up => Some(self.scrolled_up(3).step()),
            Key::PageDown => Some(self.scrolled_down(10).step()),
            Key::Down => Some(self.scrolled_down(3).step()),
            Key::Escape => if self.is_running() {
                Some(
                    KeyStep {
                        logs: seq![
                            session::session_tag(self.id as int) + "User cancelled via Escape"@,
                        ],
                        ..SessionView { queued_prompt: None, ..self }.cancelled().step()
                    },
                )
            } else {
                None
            },
            _ => None,
        }
    }

    // ── Typing ──

    pub open spec fn before_cursor(self) -> Seq<char> {
        cursor::text_before(self.input_buf, self.cursor_pos)
    }

    pub open spec fn after_cursor(self) -> Seq<char> {
        cursor::text_after(self.input_buf, self.cursor_pos)
    }

    /// The input with the cursor between two parts.
    pub open spec fn typed(self, before: Seq<char>, after: Seq<char>) -> SessionView {
        SessionView {
            input_buf: before + after,
            cursor_pos: cursor::byte_len(before) as int,
            ..self
        }
    }

    pub open spec fn input_cleared(self) -> SessionView {
        SessionView { input_buf: Seq::empty(), cursor_pos: 0, ..self }
    }

    /// A key that edits the input. Only the keys that change it move the popup.
    pub open spec fn edit_step(self, key: Key) -> KeyStep {
        let b = self.before_cursor();
        let a = self.after_cursor();
        match key {
            Key::Char(c) => self.typed(b.push(c), a).popup_updated().step(),
            Key::Backspace => (if b.len() > 0 {
                self.typed(b.drop_last(), a)
            } else {
                self
            }).popup_updated().step(),
            Key::Delete => (if a.len() > 0 {
                self.typed(b, a.drop_first())
            } else {
                self
            }).popup_updated().step(),
            Key::Left => (if b.len() > 0 {
                self.typed(b.drop_last(), seq![b.last()] + a)
            } else {
                self
            }).step(),
            Key::Right => (if a.len() > 0 {
                self.typed(b.push(a[0]), a.drop_first())
            } else {
                self
            }).step(),
            Key::Home => self.typed(Seq::empty(), b + a).step(),
            Key::End => self.typed(b + a, Seq::empty()).step(),
            _ => KeyStep { consumed: false, ..self.step() },
        }
    }

    // ── Entering a line ──

    pub open spec fn permissions_toggled(self) -> SessionView {
        let on = !self.auto_accept_permissions;
        SessionView { auto_accept_permissions: on, ..self }.said(
            "  [permissions] auto-accept is now "@ + on_off(on),
        )
    }

    /// The process is gone, and the next prompt goes on with the conversation of that name.
    pub open spec fn resumed(self, id: Seq<char>) -> SessionView {
        SessionView { session_id: Some(id), prompt_count: 1, ..self.killed() }.said(
            "  [resume] session set to "@ + id,
        ).said("  [resume] type your next prompt to resume the conversation"@)
    }

    /// The session works in another directory, which is shown as `shown`.
    pub open spec fn moved(self, dir: Seq<char>, shown: Seq<char>) -> SessionView {
        let there = SessionView { workdir: Some(dir), ..self }.said(
            "  [cd] working directory -> "@ + shown,
        );
        if self.process_child {
            there.killed().said(
                "  [cd] session will resume in new directory on next prompt"@,
            )
        } else {
            there
        }
    }

    /// What `/cd` makes of the session once the path was looked at.
    pub open spec fn cd_done(
        self,
        path: Seq<char>,
        found: Option<Seq<char>>,
        home: Option<Seq<char>>,
    ) -> SessionView {
        match found {
            None => self.said("  [cd] not a directory: "@ + path),
            Some(dir) => self.moved(dir, paths::shortened(dir, home)),
        }
    }

    /// A prompt that waits until the assistant is done.
    pub open spec fn prompt_queued(self, prompt: Seq<char>) -> SessionView {
        let s = if self.queued_prompt is Some {
            self.said("  [replaced queued message]"@)
        } else {
            self
        };
        SessionView { queued_prompt: Some(prompt), ..s.said("  ⏳ queued: "@ + prompt) }
    }

    /// Whether the input is one of the commands that the tile carries out itself.
    pub open spec fn is_tile_command(line: Seq<char>) -> bool {
        line == "/clear"@ || line == "/kill"@ || line == "/dangerously-skip-permissions"@ || line
            == "/cd"@ || text::starts_with(line, "/cd "@) || line == "/resume"@
            || text::starts_with(line, "/resume "@)
    }

    /// What the input is when it is entered: a command of the tile, or a prompt for the assistant.
    pub open spec fn enter_step(self, around: SurroundingsView, fresh: Seq<char>) -> KeyStep {
        let line = text::trim(self.input_buf);
        let s = self.popup_hidden().input_cleared();
        if line.len() == 0 {
            self.step()
        } else if line == "/clear"@ {
            SessionView { output_lines: Seq::empty(), scroll_offset: 0, ..s }.step()
        } else if line == "/kill"@ {
            s.killed().said("  [kill] session process terminated"@).step()
        } else if line == "/dangerously-skip-permissions"@ {
            s.permissions_toggled().step()
        } else if line == "/cd"@ || text::starts_with(line, "/cd "@) {
            let raw = if line == "/cd"@ {
                paths::home_or_tilde(around.home)
            } else {
                text::trim(line.skip(4))
            };
            KeyStep {
                action: KeyActionView::CheckDir(
                    paths::expanded(raw, around.home, self.effective_cwd(around.program_dir)),
                ),
                ..s.step()
            }
        } else if line == "/resume"@ || text::starts_with(line, "/resume "@) {
            let id = if line == "/resume"@ {
                Seq::empty()
            } else {
                text::trim(line.skip(8))
            };
            if id.len() == 0 {
                s.said("  [resume] usage: /resume <session-id>"@).step()
            } else {
                s.resumed(id).step()
            }
        } else if self.is_running() {
            s.prompt_queued(self.input_buf).step()
        } else {
            let plan = s.prompt_plan(self.input_buf, around.now, fresh);
            KeyStep {
                session: s.prompted(self.input_buf, around.now, fresh),
                consumed: true,
                logs: seq![
                    session::session_tag(self.id as int) + "Sending prompt: "@ + text::first_chars(
                        self.input_buf,
                        80,
                    ),
                ],
                action: KeyActionView::Prompt(plan),
            }
        }
    }

    /// What a key makes of a session.
    pub open spec fn key_step(
        self,
        key: Key,
        around: SurroundingsView,
        fresh: Seq<char>,
    ) -> KeyStep {
        match self.state {
            StateView::AwaitingPermission(req) => self.permission_step(req, key, around.now),
            _ => match self.popup_step(key) {
                Some(step) if self.slash_popup_visible => step,
                _ => match self.running_step(key) {
                    Some(step) => step,
                    None => if key is Enter {
                        self.enter_step(around, fresh)
                    } else {
                        self.edit_step(key)
                    },
                },
            },
        }
    }

    /// Whether a key scrolls up by `by` lines.
    pub open spec fn scrolls_up(self, key: Key, by: int) -> bool {
        !(self.state is AwaitingPermission) && ((key is PageUp && by == 10) || (key is Up && by == 3
            && !self.slash_popup_visible))
    }

    /// Whether a key sends a prompt to the assistant.
    pub open spec fn sends_prompt(self, key: Key) -> bool {
        self.state is Idle && key is Enter && !self.slash_popup_visible && text::trim(
            self.input_buf,
        ).len() > 0 && !SessionView::is_tile_command(text::trim(self.input_buf))
    }

    /// The counters have room for what a key adds to them.
    pub open spec fn room_for(self, key: Key) -> bool {
        &&& self.scrolls_up(key, 10) ==> self.scroll_offset + 10 <= u16::MAX
        &&& self.scrolls_up(key, 3) ==> self.scroll_offset + 3 <= u16::MAX
        &&& self.sends_prompt(key) ==> self.prompt_count < u32::MAX
    }
}

pub open spec fn on_off(on: bool) -> Seq<char> {
    if on {
        "ON"@
    } else {
        "OFF"@
    }
}

/// The word for a switch that is on or off.
pub fn on_off_word(on: bool) -> (r: &'static str)
    ensures
        r@ == on_off(on),
{
    if on {
        "ON"
    } else {
        "OFF"
    }
}

/// The directory that a path leads to, if any.
pub fn found_dir(path: &str, probe: DirProbe) -> (r: Option<String>)
    ensures
        r.deep_view() == dir_found(path@, probe.is_dir, probe.canonical.deep_view()),
{
    if probe.is_dir {
        match probe.canonical {
            Some(dir) => Some(dir),
            None => Some(path.to_string()),
        }
    } else {
        None
    }
}

fn build_chosen(questions: &Vec<UserQuestion>, idx: usize) -> (r: (Json, Vec<String>))
    ensures
        r.0@ == chosen_answers(questions.deep_view(), idx as int),
        text::texts(r.1@) == chosen_lines(questions.deep_view(), idx as int),
{
    let mut answers = Json::object();
    let mut lines: Vec<String> = Vec::new();
    let ghost all = questions.deep_view();
    let ghost f = |q: QuestionView| chosen_line(q, idx as int);
    let mut i: usize = 0;
    assert(all.take(0) == Seq::<QuestionView>::empty());
    while i < questions.len()
        invariant
            i <= questions@.len(),
            all == questions.deep_view(),
            f == (|q: QuestionView| chosen_line(q, idx as int)),
            answers@ == chosen_answers(all.take(i as int), idx as int),
            text::texts(lines@) == seqs::filter_map(all.take(i as int), f),
        decreases questions@.len() - i,
    {
        let q = &questions[i];
        proof {
            seqs::lemma_filter_map_step(all, i as int, f);
            assert(all.take(i + 1).drop_last() == all.take(i as int));
            assert(all[i as int] == q.deep_view());
        }
        if idx < q.options.len() {
            let label = q.options[idx].label.as_str();
            assert(q.deep_view().options[idx as int].label == label@);
            answers = answers.with(q.question.as_str(), Json::text(label));
            let line = cat3("  [answered: ", label, "]");
            proof {
                text::lemma_texts_push(lines@, line);
            }
            lines.push(line);
        }
        i += 1;
    }
    assert(all.take(i as int) == all);
    (answers, lines)
}

fn build_other(questions: &Vec<UserQuestion>) -> (answers: Json)
    ensures
        answers@ == other_answers(questions.deep_view()),
{
    let mut answers = Json::object();
    let ghost all = questions.deep_view();
    let mut i: usize = 0;
    assert(all.take(0) == Seq::<QuestionView>::empty());
    while i < questions.len()
        invariant
            i <= questions@.len(),
            all == questions.deep_view(),
            answers@ == other_answers(all.take(i as int)),
        decreases questions@.len() - i,
    {
        assert(all.take(i + 1).drop_last() == all.take(i as int));
        assert(all[i as int] == questions@[i as int].deep_view());
        answers = answers.with(questions[i].question.as_str(), Json::text("Other"));
        i += 1;
    }
    assert(all.take(i as int) == all);
    answers
}

fn put_answers(raw_input: Option<Json>, answers: Json) -> (r: Option<Json>)
    ensures
        r.deep_view() == (match raw_input.deep_view() {
            Some(input) => Some(input.with("answers"@, answers@)),
            None => None,
        }),
{
    match raw_input {
        Some(input) => Some(input.with("answers", answers)),
        None => None,
    }
}

/// What a key means while the assistant waits for an answer.
enum Verdict {
    Option(usize),
    Other,
    Allow,
    Refuse,
    Nothing,
}

fn verdict(asks: bool, key: Key) -> (v: Verdict)
    ensures
        match key {
            Key::Char(c) => if asks && '1' <= c <= '9' {
                v == Verdict::Option((c as int - '1' as int) as usize)
            } else if asks && c == 'o' {
                v is Other
            } else if c == 'n' {
                v is Refuse
            } else if !asks && c == 'y' {
                v is Allow
            } else {
                v is Nothing
            },
            Key::Enter => if asks {
                v is Nothing
            } else {
                v is Allow
            },
            Key::Escape => v is Refuse,
            _ => v is Nothing,
        },
{
    match key {
        Key::Char(c) => if asks && '1' <= c && c <= '9' {
            Verdict::Option((c as u32 - '1' as u32) as usize)
        } else if asks && c == 'o' {
            Verdict::Other
        } else if c == 'n' {
            Verdict::Refuse
        } else if !asks && c == 'y' {
            Verdict::Allow
        } else {
            Verdict::Nothing
        },
        Key::Enter => if asks {
            Verdict::Nothing
        } else {
            Verdict::Allow
        },
        Key::Escape => Verdict::Refuse,
        _ => Verdict::Nothing,
    }
}

fn used() -> (r: KeyReply)
    ensures
        r.consumed,
        text::texts(r.logs@) == Seq::<Seq<char>>::empty(),
        r.action is Nothing,
{
    KeyReply { consumed: true, logs: no_lines(), action: KeyAction::Nothing }
}

impl ClaudeSession {
    fn say_all(&mut self, lines: Vec<String>)
        ensures
            final(self)@ == old(self)@.said_all(text::texts(lines@)),
    {
        let mut lines = lines;
        let ghost start = text::texts(self.output_lines@);
        let ghost more = text::texts(lines@);
        self.output_lines.append(&mut lines);
        assert(text::texts(self.output_lines@) == start + more);
    }

    fn answer(
        &mut self,
        request_id: &str,
        allow: bool,
        updated_input: Option<Json>,
        deny_message: Option<&str>,
        now: u64,
    ) -> (r: KeyReply)
        ensures
            r.is(
                final(self)@,
                old(self)@.answer_step(
                    request_id@,
                    allow,
                    updated_input.deep_view(),
                    match deny_message {
                        Some(reason) => Some(reason@),
                        None => None,
                    },
                    now,
                ),
            ),
    {
        if self.begin_permission_response(now) {
            let out = send_permission_response(request_id, allow, updated_input, deny_message);
            KeyReply { consumed: true, logs: out.logs, action: KeyAction::Answer(out.line) }
        } else {
            self.force_idle();
            self.say("  [error] process not running".to_string());
            used()
        }
    }

    fn refuse(&mut self, req: PermissionRequest, now: u64) -> (r: KeyReply)
        ensures
            r.is(final(self)@, old(self)@.dismiss_step(req.deep_view(), now)),
    {
        if req.questions.len() > 0 {
            self.say("  [question: dismissed]".to_string());
            self.answer(
                req.request_id.as_str(),
                false,
                None,
                Some("User dismissed the question"),
                now,
            )
        } else {
            self.say("  [permission: denied]".to_string());
            self.answer(
                req.request_id.as_str(),
                false,
                None,
                Some("User denied this action"),
                now,
            )
        }
    }

    fn permission_key(&mut self, key: Key, now: u64) -> (r: KeyReply)
        requires
            old(self)@.state is AwaitingPermission,
        ensures
            r.is(
                final(self)@,
                old(self)@.permission_step(old(self)@.state->AwaitingPermission_0, key, now),
            ),
    {
        let asks = match &self.state {
            SessionState::AwaitingPermission(req) => req.questions.len() > 0,
            _ => false,
        };
        let what = verdict(asks, key);
        if let Verdict::Nothing = what {
            return used();
        }
        let mut state = SessionState::Idle;
        core::mem::swap(&mut state, &mut self.state);
        match state {
            SessionState::AwaitingPermission(req) => match what {
                Verdict::Option(idx) => {
                    let (answers, lines) = build_chosen(&req.questions, idx);
                    self.say_all(lines);
                    let updated = put_answers(req.raw_input, answers);
                    self.answer(req.request_id.as_str(), true, updated, None, now)
                },
                Verdict::Other => {
                    let answers = build_other(&req.questions);
                    self.say("  [answered: Other]".to_string());
                    let updated = put_answers(req.raw_input, answers);
                    self.answer(req.request_id.as_str(), true, updated, None, now)
                },
                Verdict::Allow => {
                    self.say("  [permission: allowed]".to_string());
                    self.answer(req.request_id.as_str(), true, req.raw_input, None, now)
                },
                _ => self.refuse(req, now),
            },
            _ => used(),
        }
    }

    /// The answer could not be sent to the process.
    pub fn answer_failed(&mut self, error: &str) -> (log: String)
        ensures
            final(self)@ == old(self)@.answer_lost(error@),
            log@ == session::session_tag(old(self)@.id as int) + "Send error: "@ + error@,
    {
        self.force_idle();
        self.say(cat2("  [error] ", error));
        cat3(tag_of(self.id).as_str(), "Send error: ", error)
    }

    /// Turns a waiting request down, as the Escape key does.
    pub fn dismiss_permission(&mut self, now: u64) -> (r: KeyReply)
        requires
            old(self)@.state is AwaitingPermission,
        ensures
            r.is(
                final(self)@,
                old(self)@.dismiss_step(old(self)@.state->AwaitingPermission_0, now),
            ),
    {
        self.permission_key(Key::Escape, now)
    }

    fn popup_key(&mut self, key: Key) -> (r: Option<KeyReply>)
        ensures
            match old(self)@.popup_step(key) {
                Some(step) => r is Some && r->0.is(final(self)@, step),
                None => r is None && final(self)@ == old(self)@,
            },
    {
        let offers = filtered_slash_commands(
            word(self.input_buf.as_str()),
            self.assistant.name.as_str(),
        );
        let ghost want = slash::matching(text::first_word(self.input_buf@), self.assistant.name@);
        assert(offers@.len() == want.len());
        match key {
            Key::Up => {
                if self.slash_popup_selected > 0 {
                    self.slash_popup_selected -= 1;
                } else {
                    self.slash_popup_selected = offers.len().saturating_sub(1);
                }
                Some(used())
            },
            Key::Down => {
                if self.slash_popup_selected < offers.len() && self.slash_popup_selected + 1
                    < offers.len() {
                    self.slash_popup_selected += 1;
                } else {
                    self.slash_popup_selected = 0;
                }
                Some(used())
            },
            Key::Tab | Key::Enter => {
                if self.slash_popup_selected < offers.len() {
                    let name = offers[self.slash_popup_selected].0;
                    proof {
                        assert(name@ == want[self.slash_popup_selected as int].0) by {
                            assert(slash::commands_view(offers@)[self.slash_popup_selected as int]
                                == want[self.slash_popup_selected as int]);
                        }
                    }
                    self.input_buf = cat2(name, " ");
                    self.cursor_pos = bytes_in(self.input_buf.as_str());
                }
                self.slash_popup_visible = false;
                self.slash_popup_selected = 0;
                Some(used())
            },
            Key::Escape => {
                self.slash_popup_visible = false;
                self.slash_popup_selected = 0;
                Some(used())
            },
            _ => None,
        }
    }

    fn scroll_up(&mut self, by: u16)
        requires
            old(self)@.scroll_offset + by <= u16::MAX,
        ensures
            final(self)@ == old(self)@.scrolled_up(by as int),
    {
        let max_scroll: usize = self.output_lines.len().saturating_sub(
            self.last_output_visible as usize,
        );
        let limit: u16 = max_scroll as u16;
        let target: u16 = self.scroll_offset + by;
        self.scroll_offset = if target <= limit {
            target
        } else {
            limit
        };
    }

    fn scroll_down(&mut self, by: u16)
        ensures
            final(self)@ == old(self)@.scrolled_down(by as int),
    {
        self.scroll_offset = self.scroll_offset.saturating_sub(by);
    }

    fn running_key(&mut self, key: Key) -> (r: Option<KeyReply>)
        requires
            key is PageUp ==> old(self)@.scroll_offset + 10 <= u16::MAX,
            key is Up ==> old(self)@.scroll_offset + 3 <= u16::MAX,
        ensures
            match old(self)@.running_step(key) {
                Some(step) => r is Some && r->0.is(final(self)@, step),
                None => r is None && final(self)@ == old(self)@,
            },
    {
        match key {
            Key::PageUp => {
                self.scroll_up(10);
                Some(used())
            },
            Key::Up => {
                self.scroll_up(3);
                Some(used())
            },
            Key::PageDown => {
                self.scroll_down(10);
                Some(used())
            },
            Key::Down => {
                self.scroll_down(3);
                Some(used())
            },
            Key::Escape => if self.is_running() {
                self.queued_prompt = None;
                self.cancel();
                let logs = one_line(cat2(tag_of(self.id).as_str(), "User cancelled via Escape"));
                Some(KeyReply { consumed: true, logs, action: KeyAction::Nothing })
            } else {
                None
            },
            _ => None,
        }
    }

    /// Puts the input together from what stands before and after the cursor.
    fn set_input(&mut self, before: String, after: &str)
        ensures
            final(self)@ == old(self)@.typed(before@, after@),
    {
        self.cursor_pos = bytes_in(before.as_str());
        self.input_buf = before.concat(after);
    }

    fn edit_key(&mut self, key: Key) -> (r: KeyReply)
        requires
            old(self)@.wf(),
        ensures
            r.is(final(self)@, old(self)@.edit_step(key)),
    {
        let input = self.input_buf.clone();
        let (before, after) = split(input.as_str(), self.cursor_pos);
        proof {
            cursor::lemma_split(self.input_buf@, self.cursor_pos as int);
        }
        let nb: usize = before.unicode_len();
        let na: usize = after.unicode_len();
        match key {
            Key::Char(c) => {
                let mut b = before.to_string();
                b.push(c);
                self.set_input(b, after);
                update_slash_popup(self);
                used()
            },
            Key::Backspace => {
                if nb > 0 {
                    let b = before.substring_char(0, nb - 1);
                    assert(b@ == before@.drop_last());
                    self.set_input(b.to_string(), after);
                }
                update_slash_popup(self);
                used()
            },
            Key::Delete => {
                if na > 0 {
                    let a = after.substring_char(1, na);
                    assert(a@ == after@.drop_first());
                    self.set_input(before.to_string(), a);
                }
                update_slash_popup(self);
                used()
            },
            Key::Left => {
                if nb > 0 {
                    let b = before.substring_char(0, nb - 1);
                    let moved = before.substring_char(nb - 1, nb);
                    let a = cat2(moved, after);
                    assert(b@ == before@.drop_last());
                    assert(a@ == seq![before@.last()] + after@);
                    self.set_input(b.to_string(), a.as_str());
                }
                used()
            },
            Key::Right => {
                if na > 0 {
                    let b = cat2(before, after.substring_char(0, 1));
                    let a = after.substring_char(1, na);
                    assert(b@ == before@.push(after@[0]));
                    assert(a@ == after@.drop_first());
                    self.set_input(b, a);
                }
                used()
            },
            Key::Home => {
                let a = cat2(before, after);
                self.set_input(String::new(), a.as_str());
                used()
            },
            Key::End => {
                let b = cat2(before, after);
                proof {
                    reveal_strlit("");
                    assert(""@ == Seq::<char>::empty());
                }
                self.set_input(b, "");
                used()
            },
            _ => {
                KeyReply { consumed: false, logs: no_lines(), action: KeyAction::Nothing }
            },
        }
    }

    fn clear_input(&mut self)
        ensures
            final(self)@ == old(self)@.input_cleared(),
    {
        self.input_buf = String::new();
        self.cursor_pos = 0;
    }

    /// Switches accepting permissions without asking.
    pub fn toggle_permissions(&mut self)
        ensures
            final(self)@ == old(self)@.permissions_toggled(),
    {
        self.auto_accept_permissions = !self.auto_accept_permissions;
        self.say(
            cat2(
                "  [permissions] auto-accept is now ",
                on_off_word(self.auto_accept_permissions),
            ),
        );
    }

    /// The next prompt goes on with the conversation of that name.
    pub fn resume(&mut self, id: &str)
        ensures
            final(self)@ == old(self)@.resumed(id@),
    {
        self.kill_process();
        self.session_id = Some(id.to_string());
        self.prompt_count = 1;
        self.say(cat2("  [resume] session set to ", id));
        self.say("  [resume] type your next prompt to resume the conversation".to_string());
    }

    /// The session works in another directory from now on.
    pub fn move_to(&mut self, dir: String, shown: &str)
        ensures
            final(self)@ == old(self)@.moved(dir@, shown@),
    {
        self.workdir = Some(dir);
        self.say(cat2("  [cd] working directory -> ", shown));
        if self.process_child {
            self.kill_process();
            self.say("  [cd] session will resume in new directory on next prompt".to_string());
        }
    }

    /// Ends `/cd`, once the path was looked at.
    pub fn finish_cd(&mut self, path: &str, probe: DirProbe, home: Option<&str>)
        ensures
            final(self)@ == old(self)@.cd_done(
                path@,
                dir_found(path@, probe.is_dir, probe.canonical.deep_view()),
                match home {
                    Some(h) => Some(h@),
                    None => None,
                },
            ),
    {
        match found_dir(path, probe) {
            None => {
                self.say(cat2("  [cd] not a directory: ", path));
            },
            Some(dir) => {
                let shown = shorten_path_with(dir.as_str(), home);
                self.move_to(dir, shown.as_str());
            },
        }
    }

    fn enter_key(&mut self, around: &Surroundings, fresh: String) -> (r: KeyReply)
        requires
            old(self)@.wf(),
            text::trim(old(self)@.input_buf).len() > 0 && !SessionView::is_tile_command(
                text::trim(old(self)@.input_buf),
            ) && !old(self)@.is_running() ==> old(self)@.prompt_count < u32::MAX,
        ensures
            r.is(final(self)@, old(self)@.enter_step(around@, fresh@)),
    {
        let input = self.input_buf.clone();
        let line = trimmed(input.as_str());
        if line.is_empty() {
            return used();
        }
        self.slash_popup_visible = false;
        self.slash_popup_selected = 0;
        self.clear_input();
        let home: Option<&str> = match &around.home {
            Some(h) => Some(h.as_str()),
            None => None,
        };
        if same(line, "/clear") {
            self.output_lines = Vec::new();
            self.scroll_offset = 0;
            assert(self@.output_lines =~= Seq::<Seq<char>>::empty());
            return used();
        }
        if same(line, "/kill") {
            self.kill_process();
            self.say("  [kill] session process terminated".to_string());
            return used();
        }
        if same(line, "/dangerously-skip-permissions") {
            self.toggle_permissions();
            return used();
        }
        if same(line, "/cd") || begins(line, "/cd ") {
            let n: usize = line.unicode_len();
            let raw: String = if same(line, "/cd") {
                match home {
                    Some(h) => h.to_string(),
                    None => "~".to_string(),
                }
            } else {
                proof {
                    reveal_strlit("/cd ");
                    assert(line@.skip(4) == line@.subrange(4, n as int));
                }
                trimmed(line.substring_char(4, n)).to_string()
            };
            let base = self.effective_cwd(around.program_dir.as_str());
            let path = expand_path(raw.as_str(), home, base.as_str());
            return KeyReply { consumed: true, logs: no_lines(), action: KeyAction::CheckDir(path) };
        }
        if same(line, "/resume") || begins(line, "/resume ") {
            let n: usize = line.unicode_len();
            let id: String = if same(line, "/resume") {
                String::new()
            } else {
                proof {
                    reveal_strlit("/resume ");
                    assert(line@.skip(8) == line@.subrange(8, n as int));
                }
                trimmed(line.substring_char(8, n)).to_string()
            };
            if id.as_str().is_empty() {
                self.say("  [resume] usage: /resume <session-id>".to_string());
            } else {
                self.resume(id.as_str());
            }
            return used();
        }
        if self.is_running() {
            if self.queued_prompt.is_some() {
                self.say("  [replaced queued message]".to_string());
            }
            self.say(cat2("  ⏳ queued: ", input.as_str()));
            self.queued_prompt = Some(input);
            return used();
        }
        let logs = one_line(
            cat3(tag_of(self.id).as_str(), "Sending prompt: ", truncate_chars(input.as_str(), 80)),
        );
        let plan = self.prepare_and_send_prompt_with(input.as_str(), around.now, fresh);
        KeyReply { consumed: true, logs, action: KeyAction::Prompt(plan) }
    }

    /// Takes a key. `fresh` names the conversation where a prompt is sent and it has no name yet.
    pub fn on_key_with(&mut self, key: Key, around: &Surroundings, fresh: String) -> (r: KeyReply)
        requires
            old(self)@.wf(),
            old(self)@.room_for(key),
        ensures
            r.is(final(self)@, old(self)@.key_step(key, around@, fresh@)),
            final(self)@.wf(),
    {
        proof {
            law_keys_keep_wf(self@, key, around@, fresh@);
        }
        if self.is_awaiting_permission() {
            return self.permission_key(key, around.now);
        }
        if self.slash_popup_visible {
            if let Some(reply) = self.popup_key(key) {
                return reply;
            }
        }
        if let Some(reply) = self.running_key(key) {
            return reply;
        }
        match key {
            Key::Enter => self.enter_key(around, fresh),
            _ => self.edit_key(key),
        }
    }

    /// Whether a key sends a prompt to the assistant.
    pub fn would_send_prompt(&self, key: Key) -> (r: bool)
        ensures
            r == self@.sends_prompt(key),
    {
        let line = trimmed(self.input_buf.as_str());
        let idle = match self.state {
            SessionState::Idle => true,
            _ => false,
        };
        let enters = match key {
            Key::Enter => true,
            _ => false,
        };
        let commands = same(line, "/clear") || same(line, "/kill") || same(
            line,
            "/dangerously-skip-permissions",
        ) || same(line, "/cd") || begins(line, "/cd ") || same(line, "/resume") || begins(
            line,
            "/resume ",
        );
        idle && enters && !self.slash_popup_visible && !line.is_empty() && !commands
    }

    /// Whether the counters have room for what a key adds to them.
    pub fn has_room_for(&self, key: Key) -> (r: bool)
        ensures
            r == self@.room_for(key),
    {
        let scrolls = match self.state {
            SessionState::AwaitingPermission(_) => false,
            _ => true,
        };
        let by: u16 = match key {
            Key::PageUp if scrolls => 10,
            Key::Up if scrolls && !self.slash_popup_visible => 3,
            _ => 0,
        };
        self.scroll_offset <= u16::MAX - by && (!self.would_send_prompt(key) || self.prompt_count
            < u32::MAX)
    }

    /// Takes a key.
    pub fn on_key(&mut self, key: Key, around: &Surroundings) -> (r: KeyReply)
        requires
            old(self)@.wf(),
            old(self)@.room_for(key),
        ensures
            exists|fresh: Seq<char>| #[trigger]
                session::is_uuid_v4(fresh) && r.is(
                    final(self)@,
                    old(self)@.key_step(key, around@, fresh),
                ),
            final(self)@.wf(),
    {
        let fresh = new_session_id();
        self.on_key_with(key, around, fresh)
    }

    /// Whether a request that waits, if there is one, can be answered: one that asks questions
    /// carries an object to put the answers into.
    fn can_be_answered(&self) -> (r: bool)
        ensures
            r == self@.state.wf(),
    {
        match &self.state {
            SessionState::AwaitingPermission(req) => req.questions.len() == 0 || (match &req.raw_input {
                Some(Json::Object(_)) => true,
                _ => false,
            }),
            _ => true,
        }
    }

    /// Takes a key, unless a counter has no room for what it adds, or a request waits that cannot be
    /// answered: then nothing happens.
    pub fn try_on_key(&mut self, key: Key, around: &Surroundings) -> (r: Option<KeyReply>)
        requires
            cursor::on_boundary(old(self)@.input_buf, old(self)@.cursor_pos),
        ensures
            match r {
                Some(reply) => old(self)@.wf() && old(self)@.room_for(key) && exists|
                    fresh: Seq<char>,
                | #[trigger]
                    session::is_uuid_v4(fresh) && reply.is(
                        final(self)@,
                        old(self)@.key_step(key, around@, fresh),
                    ),
                None => !(old(self)@.wf() && old(self)@.room_for(key)) && final(self)@ == old(
                    self,
                )@,
            },
            cursor::on_boundary(final(self)@.input_buf, final(self)@.cursor_pos),
    {
        if self.can_be_answered() && self.has_room_for(key) {
            Some(self.on_key(key, around))
        } else {
            None
        }
    }
}

// ── Laws ──

/// Every key keeps the session well formed.
pub proof fn law_keys_keep_wf(
    s: SessionView,
    key: Key,
    around: SurroundingsView,
    fresh: Seq<char>,
)
    requires
        s.wf(),
    ensures
        s.key_step(key, around, fresh).session.wf(),
{
    let b = s.before_cursor();
    let a = s.after_cursor();
    cursor::lemma_split(s.input_buf, s.cursor_pos);
    if let Key::Char(c) = key {
        cursor::lemma_joint_on_boundary(b.push(c), a);
    }
    if b.len() > 0 {
        cursor::lemma_joint_on_boundary(b.drop_last(), a);
        cursor::lemma_joint_on_boundary(b.drop_last(), seq![b.last()] + a);
    }
    if a.len() > 0 {
        cursor::lemma_joint_on_boundary(b, a.drop_first());
        cursor::lemma_joint_on_boundary(b.push(a[0]), a.drop_first());
    }
    cursor::lemma_joint_on_boundary(Seq::empty(), b + a);
    cursor::lemma_byte_len_zero(Seq::empty());
    cursor::lemma_joint_on_boundary(b + a, Seq::empty());
    cursor::lemma_joint_on_boundary(Seq::empty(), Seq::empty());
    assert(Seq::<char>::empty() + Seq::<char>::empty() == Seq::<char>::empty());
    let offers = slash::matching(text::first_word(s.input_buf), s.assistant.name);
    if s.slash_popup_selected < offers.len() {
        let whole = offers[s.slash_popup_selected].0 + " "@;
        cursor::lemma_joint_on_boundary(whole, Seq::empty());
        assert(whole + Seq::<char>::empty() == whole);
    }
}

/// The cursor lies between two characters of the input, or at an end of it, and whatever happens in
/// the tile leaves it there: a key, events of the process, or a tick.
pub proof fn law_cursor_stays_between_characters(
    s: SessionView,
    key: Key,
    around: SurroundingsView,
    turn: session::DrainTurn,
    tick: u64,
    fresh: Seq<char>,
)
    requires
        cursor::on_boundary(s.input_buf, s.cursor_pos),
    ensures
        ({
            let t = s.key_step(key, around, fresh).session;
            cursor::on_boundary(t.input_buf, t.cursor_pos)
        }),
        ({
            let t = s.turned(turn).session;
            cursor::on_boundary(t.input_buf, t.cursor_pos)
        }),
        ({
            let t = SessionView { rain_tick: tick, ..s };
            cursor::on_boundary(t.input_buf, t.cursor_pos)
        }),
{
    reveal(SessionView::turned);
    if s.state.wf() {
        law_keys_keep_wf(s, key, around, fresh);
    }
}

/// Moving the cursor left and then right brings it back, and changes nothing else.
pub proof fn law_left_then_right(s: SessionView, around: SurroundingsView, fresh: Seq<char>)
    requires
        s.wf(),
        !(s.state is AwaitingPermission),
        s.cursor_pos > 0,
    ensures
        s.key_step(Key::Left, around, fresh).session.key_step(Key::Right, around, fresh).session
            == s,
        s.key_step(Key::Left, around, fresh).session.cursor_pos < s.cursor_pos,
{
    let b = s.before_cursor();
    let a = s.after_cursor();
    cursor::lemma_split(s.input_buf, s.cursor_pos);
    let moved = seq![b.last()] + a;
    let t = s.typed(b.drop_last(), moved);
    cursor::lemma_joint_on_boundary(b.drop_last(), moved);
    assert(s.edit_step(Key::Left).session == t);
    assert(t.before_cursor() == b.drop_last() && t.after_cursor() == moved);
    assert(b.drop_last().push(moved[0]) == b);
    assert(moved.drop_first() == a);
    assert(t.edit_step(Key::Right).session == t.typed(b, a));
    cursor::lemma_encode_concat(b.drop_last(), seq![b.last()]);
    assert(b.drop_last() + seq![b.last()] == b);
    cursor::lemma_byte_len_zero(seq![b.last()]);
}

/// Typing a character and deleting it gives back the input and the cursor.
pub proof fn law_type_then_backspace(
    s: SessionView,
    c: char,
    around: SurroundingsView,
    fresh: Seq<char>,
)
    requires
        s.wf(),
        !(s.state is AwaitingPermission),
    ensures
        ({
            let typed = s.key_step(Key::Char(c), around, fresh).session;
            let t = typed.key_step(Key::Backspace, around, fresh).session;
            &&& typed.input_buf == s.before_cursor().push(c) + s.after_cursor()
            &&& t.input_buf == s.input_buf && t.cursor_pos == s.cursor_pos
        }),
{
    let b = s.before_cursor();
    let a = s.after_cursor();
    cursor::lemma_split(s.input_buf, s.cursor_pos);
    cursor::lemma_joint_on_boundary(b.push(c), a);
    let typed = s.typed(b.push(c), a).popup_updated();
    assert(typed.before_cursor() == b.push(c) && typed.after_cursor() == a);
    assert(b.push(c).drop_last() == b);
}

/// No key changes the input while the assistant waits for an answer. A key that answers leaves
/// nothing to be answered, and any other key leaves the session as it is.
pub proof fn law_a_request_takes_the_keys(
    s: SessionView,
    key: Key,
    around: SurroundingsView,
    fresh: Seq<char>,
)
    requires
        s.state is AwaitingPermission,
    ensures
        ({
            let r = s.key_step(key, around, fresh);
            &&& r.consumed
            &&& r.session.input_buf == s.input_buf && r.session.cursor_pos == s.cursor_pos
            &&& r.session.queued_prompt == s.queued_prompt
            &&& s.output_lines.is_prefix_of(r.session.output_lines)
            &&& r.session == s || !(r.session.state is AwaitingPermission)
        }),
{
    let r = s.key_step(key, around, fresh);
    assert(s.output_lines =~= r.session.output_lines.take(s.output_lines.len() as int));
}

/// Escape turns down every request that waits, in the name of that request; where there is no
/// process to tell, the session is idle.
pub proof fn law_escape_dismisses(s: SessionView, around: SurroundingsView, fresh: Seq<char>)
    requires
        s.state is AwaitingPermission,
    ensures
        ({
            let req = s.state->AwaitingPermission_0;
            let r = s.key_step(Key::Escape, around, fresh);
            let reason = if req.questions.len() > 0 {
                "User dismissed the question"@
            } else {
                "User denied this action"@
            };
            if s.process_stdin {
                r.session.state is Running && r.action == KeyActionView::Answer(
                    claude::permission_sent(req.request_id, false, None, Some(reason)).line,
                )
            } else {
                r.session.state is Idle && r.action is Nothing
            }
        }),
{
}

/// Escape makes a running session idle and drops the prompt that waits; a live process stays, and
/// so does what is on the screen.
pub proof fn law_escape_cancels(s: SessionView, around: SurroundingsView, fresh: Seq<char>)
    requires
        s.state is Running,
        !s.slash_popup_visible,
    ensures
        ({
            let t = s.key_step(Key::Escape, around, fresh).session;
            &&& t.state is Idle
            &&& t.has_process() == s.has_process()
            &&& t.queued_prompt is None
            &&& t.input_buf == s.input_buf
            &&& t.output_lines == s.output_lines.push("  [cancelled by user]"@)
        }),
{
}

/// A prompt that is entered while the assistant runs waits in place of one that waited before, and
/// is not sent.
pub proof fn law_last_queued_prompt_waits(
    s: SessionView,
    around: SurroundingsView,
    fresh: Seq<char>,
)
    requires
        s.state is Running,
        !s.slash_popup_visible,
        text::trim(s.input_buf).len() > 0,
        !SessionView::is_tile_command(text::trim(s.input_buf)),
    ensures
        ({
            let r = s.key_step(Key::Enter, around, fresh);
            &&& r.session.queued_prompt == Some(s.input_buf)
            &&& r.session.input_buf.len() == 0
            &&& r.session.state == s.state
            &&& r.action is Nothing
        }),
{
}

/// Scrolling up stops where the output begins.
pub proof fn law_scrolling_stops_at_the_top(
    s: SessionView,
    around: SurroundingsView,
    fresh: Seq<char>,
)
    requires
        !(s.state is AwaitingPermission),
        s.max_scroll() <= u16::MAX,
        s.scroll_offset + 10 <= u16::MAX,
    ensures
        s.key_step(Key::PageUp, around, fresh).session.scroll_offset <= s.max_scroll(),
        s.key_step(Key::PageDown, around, fresh).session.scroll_offset <= s.scroll_offset,
{
}

/// Whether a line is meant for the assistant: it is not blank, and none of the commands that the
/// tile carries out itself.
pub open spec fn is_prompt(line: Seq<char>) -> bool {
    let words = text::trim(line);
    &&& words.len() > 0
    &&& words != "/clear"@
    &&& words != "/kill"@
    &&& words != "/dangerously-skip-permissions"@
    &&& words != "/cd"@ && !text::starts_with(words, "/cd "@)
    &&& words != "/resume"@ && !text::starts_with(words, "/resume "@)
}

/// Enter in an idle session sends the input, all of it, as one prompt to the conversation of the
/// session, and shows all of it; the input is empty then, and the session runs.
pub proof fn law_enter_sends_the_input(
    s: SessionView,
    around: SurroundingsView,
    fresh: Seq<char>,
)
    requires
        s.state is Idle,
        !s.slash_popup_visible,
        is_prompt(s.input_buf),
    ensures
        ({
            let r = s.key_step(Key::Enter, around, fresh);
            let t = r.session;
            let n = s.output_lines.len() as int;
            &&& r.consumed
            &&& r.action matches KeyActionView::Prompt(plan) && {
                &&& claude::is_prompt_line(plan.line, s.input_buf, t.session_id->0)
                &&& plan.spawn is None <==> s.process_stdin && s.event_rx
                &&& plan.spawn matches Some(process) ==> {
                    &&& process.workdir == s.workdir
                    &&& process.program == s.assistant.program
                    &&& process.args.len() == 10
                    &&& s.prompt_count > 0 ==> process.args[8] == "--resume"@
                    &&& s.prompt_count <= 0 ==> process.args[8] == "--session-id"@
                    &&& process.args[9] == t.session_id->0
                }
            }
            &&& r.logs == seq![
                "[session "@ + text::decimal(s.id as nat) + "] "@ + "Sending prompt: "@
                    + text::first_chars(s.input_buf, 80),
            ]
            &&& t.output_lines.len() == n + 2
            &&& t.output_lines.take(n) == s.output_lines
            &&& t.output_lines[n] == "▸ "@ + s.input_buf
            &&& t.output_lines[n + 1].len() == 0
            &&& t.input_buf.len() == 0 && t.cursor_pos == 0
            &&& t.state is Running
            &&& t.prompt_count == s.prompt_count + 1
            &&& t.last_event_time == Some(around.now)
            &&& s.session_id is Some ==> t.session_id == s.session_id
            &&& s.session_id is None ==> t.session_id == Some(fresh)
            &&& t == (SessionView {
                input_buf: Seq::empty(),
                cursor_pos: 0,
                slash_popup_visible: false,
                slash_popup_selected: 0,
                state: StateView::Running,
                prompt_count: s.prompt_count + 1,
                rain_tick: 0,
                last_event_time: Some(around.now),
                output_lines: t.output_lines,
                session_id: t.session_id,
                ..s
            })
        }),
{
    let hidden = s.popup_hidden().input_cleared();
    session::law_a_prompt_is_shown_whole(hidden, s.input_buf, around.now, fresh);
    session::law_a_prompt_gets_to_its_process(hidden, s.input_buf, around.now, fresh);
}

/// Enter while the assistant runs keeps the input, all of it, as the prompt that waits, in place of
/// any other; it is shown, nothing is sent, and the input is empty then.
pub proof fn law_enter_queues_the_input(
    s: SessionView,
    around: SurroundingsView,
    fresh: Seq<char>,
)
    requires
        s.state is Running,
        !s.slash_popup_visible,
        is_prompt(s.input_buf),
    ensures
        ({
            let r = s.key_step(Key::Enter, around, fresh);
            let shown = "  ⏳ queued: "@ + s.input_buf;
            &&& r.consumed && r.action is Nothing && r.logs.len() == 0
            &&& s.queued_prompt is None ==> r.session.output_lines == s.output_lines.push(shown)
            &&& s.queued_prompt is Some ==> r.session.output_lines == s.output_lines.push(
                "  [replaced queued message]"@,
            ).push(shown)
            &&& r.session == (SessionView {
                queued_prompt: Some(s.input_buf),
                input_buf: Seq::empty(),
                cursor_pos: 0,
                output_lines: r.session.output_lines,
                slash_popup_visible: false,
                slash_popup_selected: 0,
                ..s
            })
        }),
{
}

/// What waits while the assistant runs is what is sent when its turn is over: the very input that
/// was entered.
pub proof fn law_what_is_queued_is_sent(
    s: SessionView,
    around: SurroundingsView,
    fresh: Seq<char>,
    cost: Option<serde_json::Number>,
    later: u64,
    fresh2: Seq<char>,
)
    requires
        s.state is Running,
        s.process_stdin,
        !s.slash_popup_visible,
        is_prompt(s.input_buf),
    ensures
        ({
            let t = s.key_step(Key::Enter, around, fresh).session;
            let r = t.received(claude::EventView::Done { cost }, later, fresh2);
            r.send matches Some(line) && claude::is_prompt_line(
                line,
                s.input_buf,
                r.session.session_id->0,
            )
        }),
{
    let t = s.key_step(Key::Enter, around, fresh).session;
    session::law_the_queued_prompt_goes_out_whole(t, s.input_buf, cost, later, fresh2);
}

/// Enter on a blank input does nothing.
pub proof fn law_enter_on_a_blank_input(s: SessionView, around: SurroundingsView, fresh: Seq<char>)
    requires
        !(s.state is AwaitingPermission),
        !s.slash_popup_visible,
        text::trim(s.input_buf).len() == 0,
    ensures
        s.key_step(Key::Enter, around, fresh).session == s,
        s.key_step(Key::Enter, around, fresh).action is Nothing,
        s.key_step(Key::Enter, around, fresh).consumed,
{
}

proof fn lemma_commands_differ()
    ensures
        "/clear"@.len() > 0 && "/kill"@.len() > 0 && "/dangerously-skip-permissions"@.len() > 0,
        "/cd"@.len() > 0 && "/cd "@.len() > 0 && "/resume"@.len() > 0 && "/resume "@.len() > 0,
        "/clear"@ != "/kill"@,
        "/clear"@ != "/dangerously-skip-permissions"@,
        "/kill"@ != "/dangerously-skip-permissions"@,
        "/cd"@ != "/clear"@ && "/cd"@ != "/kill"@ && "/cd"@ != "/dangerously-skip-permissions"@,
        "/resume"@ != "/clear"@ && "/resume"@ != "/kill"@ && "/resume"@
            != "/dangerously-skip-permissions"@ && "/resume"@ != "/cd"@,
        !text::starts_with("/resume"@, "/cd "@),
        forall|line: Seq<char>| #[trigger]
            text::starts_with(line, "/cd "@) ==> line != "/clear"@ && line != "/kill"@ && line
                != "/dangerously-skip-permissions"@ && line != "/cd"@ && line != "/resume"@,
        forall|line: Seq<char>| #[trigger]
            text::starts_with(line, "/resume "@) ==> line != "/clear"@ && line != "/kill"@ && line
                != "/dangerously-skip-permissions"@ && line != "/cd"@ && line != "/resume"@
                && !text::starts_with(line, "/cd "@),
{
    reveal_strlit("/clear");
    reveal_strlit("/kill");
    reveal_strlit("/dangerously-skip-permissions");
    reveal_strlit("/cd");
    reveal_strlit("/cd ");
    reveal_strlit("/resume");
    reveal_strlit("/resume ");
    assert("/clear"@.len() == 6);
    assert("/kill"@.len() == 5);
    assert("/dangerously-skip-permissions"@.len() == 29);
    assert("/cd"@.len() == 3);
    assert("/resume"@.len() == 7);
    assert("/clear"@[1] == 'c' && "/clear"@[2] == 'l');
    assert("/kill"@[1] == 'k');
    assert("/dangerously-skip-permissions"@[1] == 'd');
    assert("/resume"@[1] == 'r');
    assert forall|line: Seq<char>| #[trigger] text::starts_with(line, "/cd "@) implies line
        != "/clear"@ && line != "/kill"@ && line != "/dangerously-skip-permissions"@ && line
        != "/cd"@ && line != "/resume"@ by {
        assert(line.take(4)[1] == line[1]);
        assert(line.take(4)[2] == line[2]);
        assert("/cd "@[1] == 'c');
        assert("/cd "@[2] == 'd');
    }
    assert forall|line: Seq<char>| #[trigger] text::starts_with(line, "/resume "@) implies line
        != "/clear"@ && line != "/kill"@ && line != "/dangerously-skip-permissions"@ && line
        != "/cd"@ && line != "/resume"@ && !text::starts_with(line, "/cd "@) by {
        assert(line.take(8)[1] == line[1]);
        assert("/resume "@[1] == 'r');
        if text::starts_with(line, "/cd "@) {
            assert(line.take(4)[1] == line[1]);
            assert("/cd "@[1] == 'c');
        }
    }
    if text::starts_with("/resume"@, "/cd "@) {
        assert("/resume"@.take(4)[1] == "/resume"@[1]);
        assert("/cd "@[1] == 'c');
    }
}

/// The commands of the tile do what they are named for and send nothing: one empties the output,
/// one kills the process, one turns the asking for permission off or on again. The input is empty
/// then, and nothing else of the session changes.
pub proof fn law_commands_of_the_tile(s: SessionView, around: SurroundingsView, fresh: Seq<char>)
    requires
        !(s.state is AwaitingPermission),
        !s.slash_popup_visible,
    ensures
        ({
            let line = text::trim(s.input_buf);
            let r = s.key_step(Key::Enter, around, fresh);
            let bare = SessionView {
                input_buf: Seq::empty(),
                cursor_pos: 0,
                slash_popup_visible: false,
                slash_popup_selected: 0,
                ..s
            };
            let turned = if s.auto_accept_permissions {
                "OFF"@
            } else {
                "ON"@
            };
            &&& line == "/clear"@ ==> r.session == (SessionView {
                output_lines: Seq::empty(),
                scroll_offset: 0,
                ..bare
            })
            &&& line == "/kill"@ ==> r.session == (SessionView {
                output_lines: s.output_lines.push("  [kill] session process terminated"@),
                state: StateView::Idle,
                process_stdin: false,
                process_child: false,
                event_rx: false,
                ..bare
            })
            &&& line == "/dangerously-skip-permissions"@ ==> r.session == (SessionView {
                auto_accept_permissions: !s.auto_accept_permissions,
                output_lines: s.output_lines.push(
                    "  [permissions] auto-accept is now "@ + turned,
                ),
                ..bare
            })
            &&& line == "/clear"@ || line == "/kill"@ || line == "/dangerously-skip-permissions"@
                ==> r.action is Nothing && r.consumed && r.logs.len() == 0
        }),
{
    lemma_commands_differ();
}

/// `/cd` asks whether the path is a directory that the line names, as it is meant from where the
/// session works; without a path it is the home directory. Until then nothing is changed but the
/// input, which is empty.
pub proof fn law_cd_asks_for_the_path(
    s: SessionView,
    around: SurroundingsView,
    fresh: Seq<char>,
    rest: Seq<char>,
)
    requires
        !(s.state is AwaitingPermission),
        !s.slash_popup_visible,
    ensures
        ({
            let line = text::trim(s.input_buf);
            let r = s.key_step(Key::Enter, around, fresh);
            let base = match s.workdir {
                Some(dir) => dir,
                None => around.program_dir,
            };
            let path = text::trim(rest);
            &&& line == "/cd "@ + rest ==> (r.action matches KeyActionView::CheckDir(p) && {
                &&& text::starts_with(path, "/"@) ==> p == path
                &&& !text::starts_with(path, "/"@) && !text::starts_with(path, "~"@) ==> p == base
                    + "/"@ + path
                &&& text::starts_with(path, "~"@) ==> (around.home matches Some(home) ==> p == home
                    + path.skip(1))
                &&& text::starts_with(path, "~"@) && around.home is None ==> p == path
            })
            &&& line == "/cd"@ ==> (around.home matches Some(home) ==> (text::starts_with(
                home,
                "/"@,
            ) ==> r.action == KeyActionView::CheckDir(home)))
            &&& line == "/cd "@ + rest || line == "/cd"@ ==> r.session == (SessionView {
                input_buf: Seq::empty(),
                cursor_pos: 0,
                slash_popup_visible: false,
                slash_popup_selected: 0,
                ..s
            })
        }),
{
    lemma_commands_differ();
    let line = text::trim(s.input_buf);
    reveal_strlit("/cd ");
    reveal_strlit("~");
    if line == "/cd "@ + rest {
        text::law_starts_with(line, "/cd "@, rest);
        assert(line.skip(4) == rest);
        if text::starts_with(text::trim(rest), "/"@) {
            paths::law_absolute_path_stands(
                text::trim(rest),
                around.home,
                s.effective_cwd(around.program_dir),
            );
        }
    }
    if let Some(home) = around.home {
        if text::starts_with(home, "/"@) {
            paths::law_absolute_path_stands(
                home,
                around.home,
                s.effective_cwd(around.program_dir),
            );
        }
    }
}

/// `/resume` with a name goes on with that conversation: the process is gone, and the next prompt
/// resumes the conversation of that name. Without a name nothing is changed, and the use of the
/// command is shown.
pub proof fn law_resume_names_the_conversation(
    s: SessionView,
    around: SurroundingsView,
    fresh: Seq<char>,
    rest: Seq<char>,
    prompt: Seq<char>,
    now: u64,
    fresh2: Seq<char>,
)
    requires
        !(s.state is AwaitingPermission),
        !s.slash_popup_visible,
    ensures
        ({
            let line = text::trim(s.input_buf);
            let r = s.key_step(Key::Enter, around, fresh);
            let id = text::trim(rest);
            let plan = r.session.prompt_plan(prompt, now, fresh2);
            let bare = SessionView {
                input_buf: Seq::empty(),
                cursor_pos: 0,
                slash_popup_visible: false,
                slash_popup_selected: 0,
                ..s
            };
            &&& line == "/resume "@ + rest && id.len() > 0 ==> {
                &&& r.session.session_id == Some(id)
                &&& r.session.state is Idle
                &&& claude::is_prompt_line(plan.line, prompt, id)
                &&& plan.spawn matches Some(process) && process.args[8] == "--resume"@
                    && process.args[9] == id && process.workdir == s.workdir
                &&& r.session.output_lines.len() == s.output_lines.len() + 2
                &&& r.session.output_lines[s.output_lines.len() as int]
                    == "  [resume] session set to "@ + id
                &&& r.session == (SessionView {
                    session_id: Some(id),
                    prompt_count: 1,
                    state: StateView::Idle,
                    process_stdin: false,
                    process_child: false,
                    event_rx: false,
                    output_lines: r.session.output_lines,
                    ..bare
                })
            }
            &&& line == "/resume "@ + rest && id.len() == 0 || line == "/resume"@ ==> r.session == (
            SessionView {
                output_lines: s.output_lines.push("  [resume] usage: /resume <session-id>"@),
                ..bare
            })
            &&& line == "/resume "@ + rest || line == "/resume"@ ==> r.action is Nothing
        }),
{
    lemma_commands_differ();
    let line = text::trim(s.input_buf);
    reveal_strlit("/resume ");
    if line == "/resume "@ + rest {
        text::law_starts_with(line, "/resume "@, rest);
        assert(line.skip(8) == rest);
    }
    let t = s.key_step(Key::Enter, around, fresh).session;
    session::law_a_prompt_gets_to_its_process(t, prompt, now, fresh2);
}

/// Once a path was found to be a directory the session works there: a prompt that starts a process
/// starts it there, be the conversation new or resumed. A process that ran elsewhere is gone, so
/// that the next prompt starts one; what was said, and the name of the conversation, stay.
pub proof fn law_a_moved_session_works_there(
    s: SessionView,
    dir: Seq<char>,
    shown: Seq<char>,
    prompt: Seq<char>,
    now: u64,
    fresh: Seq<char>,
    program_dir: Seq<char>,
)
    ensures
        ({
            let t = s.moved(dir, shown);
            let plan = t.prompt_plan(prompt, now, fresh);
            let said = s.output_lines.push("  [cd] working directory -> "@ + shown);
            &&& t.workdir == Some(dir)
            &&& t.effective_cwd(program_dir) == dir
            &&& plan.spawn matches Some(process) ==> process.workdir == Some(dir)
            &&& plan.spawn matches Some(process) ==> process.args[8] == (if s.prompt_count > 0 {
                "--resume"@
            } else {
                "--session-id"@
            })
            &&& s.process_child ==> plan.spawn is Some && t.state is Idle
            &&& !(s.process_stdin && s.event_rx) ==> plan.spawn is Some
            &&& s.process_child ==> t.output_lines == said.push(
                "  [cd] session will resume in new directory on next prompt"@,
            )
            &&& !s.process_child ==> t.output_lines == said && t.state == s.state
            &&& !s.process_child ==> t == (SessionView {
                workdir: Some(dir),
                output_lines: t.output_lines,
                ..s
            })
            &&& s.process_child ==> t == (SessionView {
                workdir: Some(dir),
                output_lines: t.output_lines,
                state: StateView::Idle,
                process_stdin: false,
                process_child: false,
                event_rx: false,
                ..s
            })
        }),
{
    let t = s.moved(dir, shown);
    session::law_a_prompt_gets_to_its_process(t, prompt, now, fresh);
}

/// What `/cd` comes to: a path that is no directory changes nothing but that it is told; a
/// directory is where the session works from then on, and is told as the user writes it.
pub proof fn law_cd_is_done(
    s: SessionView,
    path: Seq<char>,
    is_dir: bool,
    canonical: Option<Seq<char>>,
    home: Option<Seq<char>>,
)
    ensures
        ({
            let found = dir_found(path, is_dir, canonical);
            let t = s.cd_done(path, found, home);
            &&& !is_dir ==> t == (SessionView {
                output_lines: s.output_lines.push("  [cd] not a directory: "@ + path),
                ..s
            })
            &&& is_dir ==> (canonical matches Some(dir) ==> t.workdir == Some(dir))
            &&& is_dir && canonical is None ==> t.workdir == Some(path)
            &&& is_dir ==> t.output_lines.len() > s.output_lines.len()
                && t.output_lines[s.output_lines.len() as int] == "  [cd] working directory -> "@
                + paths::shortened(t.workdir->0, home)
        }),
{
}

/// A request that is allowed with a key is answered in its name, with its input; one that is
/// denied is answered in its name, with the reason. Without a process nothing is answered, and the
/// session is idle.
pub proof fn law_keys_answer_the_request(
    s: SessionView,
    req: RequestView,
    around: SurroundingsView,
    fresh: Seq<char>,
    key: Key,
)
    requires
        s.state == StateView::AwaitingPermission(req),
        req.questions.len() == 0,
    ensures
        ({
            let r = s.key_step(key, around, fresh);
            let allows = key == Key::Char('y') || key is Enter;
            let denies = key == Key::Char('n') || key is Escape;
            let input = match req.raw_input {
                Some(input) => input,
                None => JsonView::Object(Map::empty()),
            };
            let said = if allows {
                "  [permission: allowed]"@
            } else {
                "  [permission: denied]"@
            };
            &&& (allows || denies) && s.process_stdin ==> {
                &&& r.action matches KeyActionView::Answer(line) && claude::is_answer_line(
                    line,
                    req.request_id,
                    allows,
                    input,
                    "User denied this action"@,
                )
                &&& r.session == (SessionView {
                    state: StateView::Running,
                    last_event_time: Some(around.now),
                    output_lines: s.output_lines.push(said),
                    ..s
                })
            }
            &&& (allows || denies) && !s.process_stdin ==> {
                &&& r.action is Nothing
                &&& r.session == (SessionView {
                    state: StateView::Idle,
                    last_event_time: None,
                    process_stdin: false,
                    process_child: false,
                    event_rx: false,
                    output_lines: s.output_lines.push(said).push("  [error] process not running"@),
                    ..s
                })
            }
            &&& !allows && !denies ==> r.session == s && r.action is Nothing
            &&& r.consumed
        }),
{
    claude::law_requests_are_answered(req.request_id, true, req.raw_input, None);
    claude::law_requests_are_answered(
        req.request_id,
        false,
        None,
        Some("User denied this action"@),
    );
    let r = s.key_step(key, around, fresh);
    if let KeyActionView::Answer(line) = r.action {
        let input = match req.raw_input {
            Some(input) => input,
            None => JsonView::Object(Map::empty()),
        };
        if key == Key::Char('y') || key is Enter {
            lemma_same_answer(line, req.request_id, true, input, "User denied this action"@, input);
        } else {
            lemma_same_answer(
                line,
                req.request_id,
                false,
                JsonView::Object(Map::empty()),
                "User denied this action"@,
                input,
            );
        }
    }
}

/// The reason means nothing where a request is allowed, and the input nothing where it is denied.
proof fn lemma_same_answer(
    line: Seq<char>,
    request_id: Seq<char>,
    allow: bool,
    input: JsonView,
    reason: Seq<char>,
    other_input: JsonView,
)
    requires
        claude::is_answer_line(line, request_id, allow, input, reason),
    ensures
        allow ==> forall|other: Seq<char>| #[trigger]
            claude::is_answer_line(line, request_id, allow, input, other),
        !allow ==> claude::is_answer_line(line, request_id, allow, other_input, reason),
{
    let m = choose|m: JsonView|
        line == json::compact_json(m).push('\n') && #[trigger] claude::answers(
            m,
            request_id,
            allow,
            input,
            reason,
        );
    if allow {
        assert forall|other: Seq<char>| #[trigger]
            claude::is_answer_line(line, request_id, allow, input, other) by {
            assert(claude::answers(m, request_id, allow, input, other));
        }
    } else {
        assert(claude::answers(m, request_id, allow, other_input, reason));
    }
}

/// Whether these are answers to some questions: each question that has an option at that place is
/// answered with the label of that option, and no other is answered. Of two questions of the same
/// text the later one counts.
pub open spec fn answers_with(answers: JsonView, questions: Seq<QuestionView>, idx: int) -> bool {
    &&& answers is Object
    &&& forall|i: int|
        0 <= i < questions.len() && idx < (#[trigger] questions[i]).options.len() && (forall|j: int|
            i < j < questions.len() && idx < (#[trigger] questions[j]).options.len()
                ==> questions[j].question != questions[i].question) ==> answers.text_at(
            questions[i].question,
        ) == Some(questions[i].options[idx].label)
    &&& forall|name: Seq<char>|
        (#[trigger] answers.get(name)) is Some ==> exists|i: int|
            0 <= i < questions.len() && idx < (#[trigger] questions[i]).options.len()
                && questions[i].question == name
}

/// Choosing the option at a place chooses it for every question that has it.
pub proof fn law_every_question_is_answered(questions: Seq<QuestionView>, idx: int)
    ensures
        answers_with(chosen_answers(questions, idx), questions, idx),
    decreases questions.len(),
{
    if questions.len() > 0 {
        let init = questions.drop_last();
        law_every_question_is_answered(init, idx);
        let before = chosen_answers(init, idx);
        let all = chosen_answers(questions, idx);
        let last = questions.last();
        let n = questions.len() - 1;
        assert forall|i: int|
            0 <= i < questions.len() && idx < (#[trigger] questions[i]).options.len() && (forall|
                j: int,
            |
                i < j < questions.len() && idx < (#[trigger] questions[j]).options.len()
                    ==> questions[j].question != questions[i].question) implies all.text_at(
            questions[i].question,
        ) == Some(questions[i].options[idx].label) by {
            if i < n {
                assert(init[i] == questions[i]);
                assert forall|j: int|
                    i < j < init.len() && idx < (#[trigger] init[j]).options.len() implies
                    init[j].question != init[i].question by {
                    assert(questions[j] == init[j]);
                }
                assert(before.text_at(init[i].question) == Some(init[i].options[idx].label));
                if idx < last.options.len() {
                    assert(questions[n].question != questions[i].question);
                }
            }
        }
        assert forall|name: Seq<char>| (#[trigger] all.get(name)) is Some implies exists|i: int|
            0 <= i < questions.len() && idx < (#[trigger] questions[i]).options.len()
                && questions[i].question == name by {
            if idx < last.options.len() && name == last.question {
                assert(questions[n].question == name);
            } else {
                assert(before.get(name) is Some);
                let i = choose|i: int|
                    0 <= i < init.len() && idx < (#[trigger] init[i]).options.len()
                        && init[i].question == name;
                assert(questions[i].question == name);
            }
        }
    }
}

/// "Other" is the answer to every question.
pub proof fn law_other_answers_every_question(
    questions: Seq<QuestionView>,
    i: int,
    name: Seq<char>,
)
    requires
        0 <= i < questions.len(),
    ensures
        other_answers(questions) is Object,
        other_answers(questions).text_at(questions[i].question) == Some("Other"@),
        other_answers(questions).get(name) is Some ==> exists|k: int|
            0 <= k < questions.len() && (#[trigger] questions[k]).question == name,
    decreases questions.len(),
{
    let init = questions.drop_last();
    let n = questions.len() - 1;
    if init.len() > 0 {
        law_other_answers_every_question(
            init,
            if i < n {
                i
            } else {
                0
            },
            name,
        );
        if other_answers(init).get(name) is Some {
            let k = choose|k: int| 0 <= k < init.len() && (#[trigger] init[k]).question == name;
            assert(questions[k].question == name);
        }
    } else {
        assert(other_answers(init) == json::empty_object());
    }
    if name == questions.last().question {
        assert(questions[n].question == name);
    }
}

/// A question is answered in the name of its request: the input goes back as it came, with the
/// answers in it. A digit chooses the option of that number for every question that has so many,
/// and `o` says "Other" to each.
pub proof fn law_questions_are_answered(
    s: SessionView,
    req: RequestView,
    input: JsonView,
    around: SurroundingsView,
    fresh: Seq<char>,
    c: char,
    field: Seq<char>,
)
    requires
        s.state == StateView::AwaitingPermission(req),
        req.questions.len() > 0,
        req.raw_input == Some(input),
        input is Object,
        s.process_stdin,
        '1' <= c <= '9' || c == 'o',
    ensures
        ({
            let r = s.key_step(Key::Char(c), around, fresh);
            &&& r.action matches KeyActionView::Answer(line) && exists|back: JsonView, none: Seq<char>|
                #[trigger] claude::is_answer_line(line, req.request_id, true, back, none)
                    && back.get("answers"@) == Some(
                    if c == 'o' {
                        other_answers(req.questions)
                    } else {
                        chosen_answers(req.questions, c as int - '1' as int)
                    },
                ) && (field != "answers"@ ==> back.get(field) == input.get(field))
            &&& r.session.state is Running
            &&& r.session.last_event_time == Some(around.now)
            &&& s.output_lines.is_prefix_of(r.session.output_lines)
            &&& c == 'o' ==> r.session.output_lines == s.output_lines.push("  [answered: Other]"@)
            &&& c != 'o' ==> r.session.output_lines == s.output_lines + chosen_lines(
                req.questions,
                c as int - '1' as int,
            )
            &&& r.session == (SessionView {
                state: StateView::Running,
                last_event_time: Some(around.now),
                output_lines: r.session.output_lines,
                ..s
            })
        }),
{
    let answers = if c == 'o' {
        other_answers(req.questions)
    } else {
        chosen_answers(req.questions, c as int - '1' as int)
    };
    let back = input.with("answers"@, answers);
    claude::law_requests_are_answered(req.request_id, true, Some(back), None);
    json::law_field_is_found(input, "answers"@, answers, field);
    let r = s.key_step(Key::Char(c), around, fresh);
    assert(claude::is_answer_line(
        r.action->Answer_0,
        req.request_id,
        true,
        back,
        "User denied this action"@,
    ));
    assert(s.output_lines =~= r.session.output_lines.take(s.output_lines.len() as int));
}

/// What was chosen is shown, question by question.
pub proof fn law_what_was_chosen_is_shown(
    a: Seq<QuestionView>,
    b: Seq<QuestionView>,
    q: QuestionView,
    idx: int,
)
    ensures
        chosen_lines(a + b, idx) == chosen_lines(a, idx) + chosen_lines(b, idx),
        idx < q.options.len() ==> chosen_lines(seq![q], idx) == seq![
            "  [answered: "@ + q.options[idx].label + "]"@,
        ],
        idx >= q.options.len() ==> chosen_lines(seq![q], idx).len() == 0,
{
    let f = |x: QuestionView| chosen_line(x, idx);
    seqs::law_filter_map_goes_part_by_part(a, b, q, f);
}

/// A question is dismissed with a key in the name of its request, and the assistant is told so.
pub proof fn law_questions_are_dismissed(
    s: SessionView,
    req: RequestView,
    around: SurroundingsView,
    fresh: Seq<char>,
    key: Key,
)
    requires
        s.state == StateView::AwaitingPermission(req),
        req.questions.len() > 0,
        s.process_stdin,
        key == Key::Char('n') || key is Escape,
    ensures
        ({
            let r = s.key_step(key, around, fresh);
            &&& r.action matches KeyActionView::Answer(line) && claude::is_answer_line(
                line,
                req.request_id,
                false,
                JsonView::Object(Map::empty()),
                "User dismissed the question"@,
            )
            &&& r.session == (SessionView {
                state: StateView::Running,
                last_event_time: Some(around.now),
                output_lines: s.output_lines.push("  [question: dismissed]"@),
                ..s
            })
        }),
{
    claude::law_requests_are_answered(
        req.request_id,
        false,
        None,
        Some("User dismissed the question"@),
    );
}

/// Whether two sessions differ in no more than the input, the cursor and the popup.
pub open spec fn same_but_input(s: SessionView, t: SessionView) -> bool {
    t == (SessionView {
        input_buf: t.input_buf,
        cursor_pos: t.cursor_pos,
        slash_popup_visible: t.slash_popup_visible,
        slash_popup_selected: t.slash_popup_selected,
        ..s
    })
}

/// Whether the cursor of a session stands between these two parts of its input.
pub open spec fn stands_between(s: SessionView, before: Seq<char>, after: Seq<char>) -> bool {
    s.input_buf == before + after && s.cursor_pos == cursor::byte_len(before)
}

/// The keys edit the input at the cursor: a character is put in before it, backspace takes the one
/// before it away and delete the one behind it; the arrows move the cursor by one character, and
/// the ends of the line are one key away. Nothing else of the session changes, and nothing is
/// sent.
pub proof fn law_editing(
    s: SessionView,
    before: Seq<char>,
    after: Seq<char>,
    c: char,
    around: SurroundingsView,
    fresh: Seq<char>,
)
    requires
        !(s.state is AwaitingPermission),
        stands_between(s, before, after),
    ensures
        ({
            let typed = s.key_step(Key::Char(c), around, fresh);
            let erased = s.key_step(Key::Backspace, around, fresh);
            let deleted = s.key_step(Key::Delete, around, fresh);
            let left = s.key_step(Key::Left, around, fresh);
            let right = s.key_step(Key::Right, around, fresh);
            let home = s.key_step(Key::Home, around, fresh);
            let end = s.key_step(Key::End, around, fresh);
            &&& stands_between(typed.session, before.push(c), after)
            &&& before.len() > 0 ==> stands_between(erased.session, before.drop_last(), after)
            &&& before.len() == 0 ==> stands_between(erased.session, before, after)
            &&& after.len() > 0 ==> stands_between(deleted.session, before, after.drop_first())
            &&& after.len() == 0 ==> stands_between(deleted.session, before, after)
            &&& before.len() > 0 ==> stands_between(
                left.session,
                before.drop_last(),
                seq![before.last()] + after,
            )
            &&& before.len() == 0 ==> left.session == s
            &&& after.len() > 0 ==> stands_between(
                right.session,
                before.push(after[0]),
                after.drop_first(),
            )
            &&& after.len() == 0 ==> right.session == s
            &&& stands_between(home.session, Seq::empty(), before + after)
            &&& stands_between(end.session, before + after, Seq::empty())
            &&& forall|key: Key|
                key is Backspace || key is Delete || key is Left || key is Right || key is Home
                    || key is End || key == Key::Char(c) ==> {
                    let r = #[trigger] s.key_step(key, around, fresh);
                    same_but_input(s, r.session) && r.consumed && r.action is Nothing
                        && r.logs.len() == 0
                }
        }),
{
    cursor::lemma_joint_on_boundary(before, after);
    cursor::lemma_byte_len_zero(Seq::empty());
    assert(s.before_cursor() == before);
    assert(s.after_cursor() == after);
}

/// A key that the tile has no use for is left to others, and changes nothing.
pub proof fn law_other_keys_are_left(
    s: SessionView,
    key: Key,
    around: SurroundingsView,
    fresh: Seq<char>,
)
    requires
        !(s.state is AwaitingPermission),
        !s.slash_popup_visible,
        key is Tab || key is Other || (key is Escape && s.state is Idle),
    ensures
        s.key_step(key, around, fresh).session == s,
        !s.key_step(key, around, fresh).consumed,
        s.key_step(key, around, fresh).action is Nothing,
{
}

/// A page is ten lines and an arrow three: up until the output begins, and down until its end.
/// Nothing else of the session changes.
pub proof fn law_scrolling(s: SessionView, around: SurroundingsView, fresh: Seq<char>)
    requires
        !(s.state is AwaitingPermission),
        s.output_lines.len() - s.last_output_visible <= u16::MAX,
    ensures
        ({
            let top = if s.output_lines.len() >= s.last_output_visible {
                s.output_lines.len() - s.last_output_visible
            } else {
                0
            };
            let page_up = s.key_step(Key::PageUp, around, fresh).session;
            let page_down = s.key_step(Key::PageDown, around, fresh).session;
            let up = s.key_step(Key::Up, around, fresh).session;
            let down = s.key_step(Key::Down, around, fresh).session;
            &&& s.scroll_offset + 10 <= top ==> page_up.scroll_offset == s.scroll_offset + 10
            &&& s.scroll_offset + 10 >= top ==> page_up.scroll_offset == top
            &&& s.scroll_offset >= 10 ==> page_down.scroll_offset == s.scroll_offset - 10
            &&& s.scroll_offset <= 10 ==> page_down.scroll_offset == 0
            &&& page_up == (SessionView { scroll_offset: page_up.scroll_offset, ..s })
            &&& page_down == (SessionView { scroll_offset: page_down.scroll_offset, ..s })
            &&& !s.slash_popup_visible ==> {
                &&& s.scroll_offset + 3 <= top ==> up.scroll_offset == s.scroll_offset + 3
                &&& s.scroll_offset + 3 >= top ==> up.scroll_offset == top
                &&& s.scroll_offset >= 3 ==> down.scroll_offset == s.scroll_offset - 3
                &&& s.scroll_offset <= 3 ==> down.scroll_offset == 0
                &&& up == (SessionView { scroll_offset: up.scroll_offset, ..s })
                &&& down == (SessionView { scroll_offset: down.scroll_offset, ..s })
            }
        }),
{
}

/// The arrows go round the commands that the popup offers, one by one; choosing one puts its name
/// and a space into the input, with the cursor behind it, and hides the popup, as leaving it does.
pub proof fn law_the_popup_goes_round(
    s: SessionView,
    around: SurroundingsView,
    fresh: Seq<char>,
)
    requires
        !(s.state is AwaitingPermission),
        s.slash_popup_visible,
    ensures
        ({
            let offers = slash::matching(text::first_word(s.input_buf), s.assistant.name);
            let n = offers.len() as int;
            let at = s.slash_popup_selected;
            let up = s.key_step(Key::Up, around, fresh).session;
            let down = s.key_step(Key::Down, around, fresh).session;
            let left = s.key_step(Key::Escape, around, fresh).session;
            &&& 0 <= at < n ==> down.slash_popup_selected == (at + 1) % n
            &&& 0 <= at < n ==> up.slash_popup_selected == (at + n - 1) % n
            &&& up == (SessionView { slash_popup_selected: up.slash_popup_selected, ..s })
            &&& down == (SessionView { slash_popup_selected: down.slash_popup_selected, ..s })
            &&& left == (SessionView { slash_popup_visible: false, slash_popup_selected: 0, ..s })
            &&& forall|key: Key|
                (key is Tab || key is Enter) && 0 <= at < n ==> {
                    let r = #[trigger] s.key_step(key, around, fresh);
                    &&& stands_between(r.session, offers[at].0 + " "@, Seq::empty())
                    &&& !r.session.slash_popup_visible
                    &&& same_but_input(s, r.session)
                    &&& r.action is Nothing && r.consumed
                }
        }),
{
    let offers = slash::matching(text::first_word(s.input_buf), s.assistant.name);
    let n = offers.len() as int;
    let at = s.slash_popup_selected;
    if 0 <= at < n {
        let whole = offers[at].0 + " "@;
        assert(whole + Seq::<char>::empty() == whole);
        if at + 1 < n {
            assert((at + 1) % n == at + 1) by (nonlinear_arith)
                requires
                    0 <= at,
                    at + 1 < n,
            ;
        } else {
            assert((at + 1) % n == 0) by (nonlinear_arith)
                requires
                    at + 1 == n,
                    n > 0,
            ;
        }
        if at > 0 {
            assert((at + n - 1) % n == at - 1) by (nonlinear_arith)
                requires
                    0 < at < n,
            ;
        } else {
            assert((at + n - 1) % n == n - 1) by (nonlinear_arith)
                requires
                    at == 0,
                    n > 0,
            ;
        }
    }
}

/// A prompt goes out with exactly the keys that are said to send one.
pub proof fn law_what_sends_a_prompt(
    s: SessionView,
    key: Key,
    around: SurroundingsView,
    fresh: Seq<char>,
)
    ensures
        s.sends_prompt(key) <==> s.key_step(key, around, fresh).action is Prompt,
        s.key_step(key, around, fresh).session.prompt_count > s.prompt_count && s.prompt_count > 0
            ==> s.sends_prompt(key),
{
}

/// An answer that could not be sent leaves the session idle without a process, with the error
/// shown; the conversation goes on with the next prompt, which starts a process.
pub proof fn law_a_lost_answer(
    s: SessionView,
    error: Seq<char>,
    prompt: Seq<char>,
    now: u64,
    fresh: Seq<char>,
)
    ensures
        s.answer_lost(error) == (SessionView {
            state: StateView::Idle,
            last_event_time: None,
            process_stdin: false,
            process_child: false,
            event_rx: false,
            output_lines: s.output_lines.push("  [error] "@ + error),
            ..s
        }),
        s.answer_lost(error).prompt_plan(prompt, now, fresh).spawn is Some,
{
}

/// There is room for every key as long as the counters are not at their ends.
pub proof fn law_there_is_room_for_keys(s: SessionView, key: Key)
    requires
        s.prompt_count < u32::MAX,
        s.scroll_offset + 10 <= u16::MAX,
    ensures
        s.room_for(key),
{
}

/// A question is answered with no other keys than these: any other leaves it waiting. Without a
/// process no answer is sent, and the session is idle.
pub proof fn law_what_answers_a_question(
    s: SessionView,
    req: RequestView,
    around: SurroundingsView,
    fresh: Seq<char>,
    key: Key,
)
    requires
        s.state == StateView::AwaitingPermission(req),
        req.questions.len() > 0,
    ensures
        ({
            let r = s.key_step(key, around, fresh);
            let answers = key matches Key::Char(c) && ('1' <= c <= '9' || c == 'o' || c == 'n')
                || key is Escape;
            &&& !answers ==> r.session == s && r.action is Nothing && r.consumed
            &&& answers && s.process_stdin ==> r.action is Answer && r.session.state is Running
            &&& answers && !s.process_stdin ==> r.action is Nothing && r.session.state is Idle
                && r.session.output_lines.last() == "  [error] process not running"@
        }),
{
}

/// What comes of a key is told in full: a reply fits one step only, with its session, its log and
/// what is left to do, and what goes to the process is one line.
pub proof fn law_a_reply_tells_all(
    r: KeyReply,
    after: SessionView,
    a: KeyStep,
    other: SessionView,
    b: KeyStep,
)
    requires
        r.is(after, a),
    ensures
        after == a.session,
        r.is(other, b) && a.session == b.session ==> a == b,
        a.action matches KeyActionView::Answer(line) ==> claude::is_line(line),
        a.action matches KeyActionView::Prompt(plan) ==> claude::is_line(plan.line),
{
}

}
