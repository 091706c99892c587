//! The keys of a session tile.
use commander::claude::{Assistant, PermissionRequest, QuestionOption, UserQuestion};
use commander::json::{parse, Json};
use commander::paths::{expand_path, shorten_path, shorten_path_with};
use commander::session::{ClaudeSession, SessionState};
use commander::session_keys::{DirProbe, Key, KeyAction, KeyReply, Surroundings};
use commander::slash::{filtered_slash_commands, slash_commands, update_slash_popup};

fn helper() -> Assistant {
    Assistant { name: "Helper".to_string(), program: "helper".to_string() }
}

fn around() -> Surroundings {
    Surroundings {
        now: 100,
        home: Some("/home/u".to_string()),
        program_dir: "/prog".to_string(),
    }
}

fn press(s: &mut ClaudeSession, key: Key) -> KeyReply {
    s.on_key_with(key, &around(), "fresh".to_string())
}

fn type_text(s: &mut ClaudeSession, text: &str) {
    for c in text.chars() {
        let _ = press(s, Key::Char(c));
    }
}

fn enter(s: &mut ClaudeSession, line: &str) -> KeyReply {
    s.input_buf = line.to_string();
    s.cursor_pos = line.len();
    s.slash_popup_visible = false;
    press(s, Key::Enter)
}

fn question(text: &str, labels: &[&str]) -> UserQuestion {
    UserQuestion {
        question: text.to_string(),
        header: String::new(),
        options: labels
            .iter()
            .map(|l| QuestionOption { label: l.to_string(), description: String::new() })
            .collect(),
        multi_select: false,
    }
}

fn waiting(questions: Vec<UserQuestion>) -> ClaudeSession {
    let mut s = ClaudeSession::new(2, helper());
    s.attach_process();
    s.state = SessionState::AwaitingPermission(PermissionRequest {
        request_id: "rq".to_string(),
        tool_name: "Bash".to_string(),
        input_preview: String::new(),
        questions,
        raw_input: Some(Json::object().with("command", Json::text("ls"))),
    });
    s
}

fn answer_of(reply: KeyReply) -> Json {
    match reply.action {
        KeyAction::Answer(line) => {
            let val = parse(line.trim_end()).unwrap();
            let response = val.get("response").unwrap();
            assert_eq!(response.text_at("request_id"), Some("rq"));
            response.get("response").unwrap().copy()
        }
        _ => panic!("no answer"),
    }
}

#[test]
fn typing_moves_the_cursor_by_bytes() {
    let mut s = ClaudeSession::new(1, helper());
    type_text(&mut s, "aé");
    assert_eq!(s.input_buf, "aé");
    assert_eq!(s.cursor_pos, 3);
    let _ = press(&mut s, Key::Left);
    assert_eq!(s.cursor_pos, 1);
    type_text(&mut s, "x");
    assert_eq!(s.input_buf, "axé");
    let _ = press(&mut s, Key::Right);
    assert_eq!(s.cursor_pos, 4);
    let _ = press(&mut s, Key::Right);
    assert_eq!(s.cursor_pos, 4);
    let _ = press(&mut s, Key::Home);
    assert_eq!(s.cursor_pos, 0);
    let _ = press(&mut s, Key::Left);
    assert_eq!(s.cursor_pos, 0);
    let _ = press(&mut s, Key::End);
    assert_eq!(s.cursor_pos, 4);
}

#[test]
fn deleting_before_and_behind_the_cursor() {
    let mut s = ClaudeSession::new(1, helper());
    type_text(&mut s, "aéb");
    let _ = press(&mut s, Key::Left);
    let _ = press(&mut s, Key::Backspace);
    assert_eq!(s.input_buf, "ab");
    assert_eq!(s.cursor_pos, 1);
    let _ = press(&mut s, Key::Delete);
    assert_eq!(s.input_buf, "a");
    let _ = press(&mut s, Key::Delete);
    let _ = press(&mut s, Key::Backspace);
    let _ = press(&mut s, Key::Backspace);
    assert_eq!(s.input_buf, "");
    assert_eq!(s.cursor_pos, 0);
}

#[test]
fn keys_that_mean_nothing_are_left() {
    let mut s = ClaudeSession::new(1, helper());
    assert!(!press(&mut s, Key::Tab).consumed);
    assert!(!press(&mut s, Key::Other).consumed);
    assert!(!press(&mut s, Key::Escape).consumed);
    assert!(press(&mut s, Key::Enter).consumed);
}

#[test]
fn the_popup_follows_the_input() {
    let mut s = ClaudeSession::new(1, helper());
    type_text(&mut s, "/c");
    assert!(s.slash_popup_visible);
    let _ = press(&mut s, Key::Down);
    assert_eq!(s.slash_popup_selected, 1);
    let _ = press(&mut s, Key::Down);
    assert_eq!(s.slash_popup_selected, 0);
    let _ = press(&mut s, Key::Up);
    assert_eq!(s.slash_popup_selected, 1);
    let _ = press(&mut s, Key::Tab);
    assert_eq!(s.input_buf, "/clear ");
    assert_eq!(s.cursor_pos, 7);
    assert!(!s.slash_popup_visible);
    type_text(&mut s, "x");
    assert!(!s.slash_popup_visible);
}

#[test]
fn escape_closes_the_popup_first() {
    let mut s = ClaudeSession::new(1, helper());
    s.attach_process();
    s.state = SessionState::Running;
    type_text(&mut s, "/");
    let _ = press(&mut s, Key::Escape);
    assert!(!s.slash_popup_visible);
    assert!(s.is_running());
    let reply = press(&mut s, Key::Escape);
    assert!(!s.is_running());
    assert_eq!(reply.logs, vec!["[session 1] User cancelled via Escape"]);
}

#[test]
fn commands_that_begin_with_a_prefix() {
    assert_eq!(slash_commands("Helper").len(), 6);
    assert_eq!(slash_commands("Helper")[0].1, "Send /btw to Helper session");
    assert_eq!(filtered_slash_commands("/r", "Helper")[0].1, "Resume a Helper session by ID");
    let all = filtered_slash_commands("/c", "Helper");
    let names: Vec<&str> = all.iter().map(|c| c.0).collect();
    assert_eq!(names, ["/cd", "/clear"]);
    assert!(filtered_slash_commands("/x", "Helper").is_empty());
    assert_eq!(filtered_slash_commands("", "Helper").len(), 6);
    let mut s = ClaudeSession::new(1, helper());
    s.input_buf = "  /re".to_string();
    s.slash_popup_selected = 5;
    update_slash_popup(&mut s);
    assert!(s.slash_popup_visible);
    assert_eq!(s.slash_popup_selected, 0);
    s.input_buf = "/resume".to_string();
    update_slash_popup(&mut s);
    assert!(!s.slash_popup_visible);
    s.input_buf = "/zzz".to_string();
    update_slash_popup(&mut s);
    assert!(!s.slash_popup_visible);
}

#[test]
fn scrolling_is_limited() {
    let mut s = ClaudeSession::new(1, helper());
    for i in 0..20 {
        s.output_lines.push(format!("{i}"));
    }
    s.last_output_visible = 10;
    let _ = press(&mut s, Key::PageUp);
    assert_eq!(s.scroll_offset, 10);
    let _ = press(&mut s, Key::Up);
    assert_eq!(s.scroll_offset, 13);
    let _ = press(&mut s, Key::Up);
    assert_eq!(s.scroll_offset, 15);
    let _ = press(&mut s, Key::Down);
    assert_eq!(s.scroll_offset, 12);
    let _ = press(&mut s, Key::PageDown);
    let _ = press(&mut s, Key::PageDown);
    assert_eq!(s.scroll_offset, 0);
}

#[test]
fn allowing_a_tool() {
    let mut s = waiting(vec![]);
    let reply = press(&mut s, Key::Char('y'));
    assert_eq!(s.output_lines.last().unwrap(), "  [permission: allowed]");
    assert!(s.is_running() && !s.is_awaiting_permission());
    assert_eq!(s.last_event_time, Some(100));
    let a = answer_of(reply);
    assert_eq!(a.text_at("behavior"), Some("allow"));
    assert_eq!(a.get("updatedInput").unwrap().text_at("command"), Some("ls"));
    let mut s = waiting(vec![]);
    assert_eq!(answer_of(press(&mut s, Key::Enter)).text_at("behavior"), Some("allow"));
}

#[test]
fn denying_a_tool() {
    let mut s = waiting(vec![]);
    let reply = press(&mut s, Key::Escape);
    assert_eq!(s.output_lines.last().unwrap(), "  [permission: denied]");
    let a = answer_of(reply);
    assert_eq!(a.text_at("message"), Some("User denied this action"));
    let mut s = waiting(vec![]);
    assert_eq!(answer_of(press(&mut s, Key::Char('n'))).text_at("behavior"), Some("deny"));
}

#[test]
fn other_keys_wait_with_the_request() {
    let mut s = waiting(vec![]);
    let reply = press(&mut s, Key::Char('q'));
    assert!(reply.consumed);
    assert!(matches!(reply.action, KeyAction::Nothing));
    assert!(s.is_awaiting_permission());
    assert_eq!(s.input_buf, "");
}

#[test]
fn choosing_an_option_answers_each_question() {
    let mut s = waiting(vec![question("A?", &["a1", "a2"]), question("B?", &["b1"])]);
    let n = s.output_lines.len();
    let reply = press(&mut s, Key::Char('2'));
    assert_eq!(s.output_lines[n..], ["  [answered: a2]"]);
    let a = answer_of(reply);
    let input = a.get("updatedInput").unwrap();
    assert_eq!(input.text_at("command"), Some("ls"));
    let answers = input.get("answers").unwrap();
    assert_eq!(answers.text_at("A?"), Some("a2"));
    assert_eq!(answers.text_at("B?"), None);
}

#[test]
fn another_answer_and_none() {
    let mut s = waiting(vec![question("A?", &["a1"])]);
    let reply = press(&mut s, Key::Char('o'));
    assert_eq!(s.output_lines.last().unwrap(), "  [answered: Other]");
    let a = answer_of(reply);
    let answers = a.get_in("updatedInput", "answers").unwrap();
    assert_eq!(answers.text_at("A?"), Some("Other"));
    let mut s = waiting(vec![question("A?", &["a1"])]);
    let reply = press(&mut s, Key::Char('n'));
    assert_eq!(s.output_lines.last().unwrap(), "  [question: dismissed]");
    assert_eq!(answer_of(reply).text_at("message"), Some("User dismissed the question"));
    let mut s = waiting(vec![question("A?", &["a1"])]);
    assert!(matches!(press(&mut s, Key::Enter).action, KeyAction::Nothing));
}

#[test]
fn an_answer_without_a_process() {
    let mut s = waiting(vec![]);
    s.process_stdin = false;
    let reply = press(&mut s, Key::Char('y'));
    assert!(matches!(reply.action, KeyAction::Nothing));
    assert!(!s.is_running());
    assert_eq!(s.output_lines.last().unwrap(), "  [error] process not running");
}

#[test]
fn an_answer_that_cannot_be_sent() {
    let mut s = waiting(vec![]);
    let _ = press(&mut s, Key::Char('y'));
    let log = s.answer_failed("pipe");
    assert_eq!(log, "[session 2] Send error: pipe");
    assert!(!s.is_running() && !s.process_child);
    assert_eq!(s.output_lines.last().unwrap(), "  [error] pipe");
}

#[test]
fn a_prompt_is_sent_or_waits() {
    let mut s = ClaudeSession::new(1, helper());
    let reply = enter(&mut s, "hello");
    assert_eq!(reply.logs, vec!["[session 1] Sending prompt: hello"]);
    assert!(matches!(reply.action, KeyAction::Prompt(ref p) if p.spawn.is_some()));
    assert_eq!(s.session_id, Some("fresh".to_string()));
    assert_eq!(s.input_buf, "");
    s.attach_process();
    let _ = enter(&mut s, "second");
    assert_eq!(s.queued_prompt, Some("second".to_string()));
    assert_eq!(s.output_lines.last().unwrap(), "  ⏳ queued: second");
    let n = s.output_lines.len();
    let _ = enter(&mut s, "third");
    assert_eq!(s.queued_prompt, Some("third".to_string()));
    assert_eq!(s.output_lines[n..], ["  [replaced queued message]", "  ⏳ queued: third"]);
}

#[test]
fn a_random_name_for_a_first_prompt() {
    let mut s = ClaudeSession::new(1, helper());
    s.input_buf = "x".to_string();
    s.cursor_pos = 1;
    let _ = s.on_key(Key::Enter, &around());
    assert_eq!(s.session_id.unwrap().len(), 36);
}

#[test]
fn commands_of_the_tile() {
    let mut s = ClaudeSession::new(1, helper());
    s.scroll_offset = 3;
    let _ = enter(&mut s, " /clear ");
    assert!(s.output_lines.is_empty());
    assert_eq!(s.scroll_offset, 0);
    s.attach_process();
    let _ = enter(&mut s, "/kill");
    assert!(!s.has_process());
    assert_eq!(s.output_lines.last().unwrap(), "  [kill] session process terminated");
    let _ = enter(&mut s, "/dangerously-skip-permissions");
    assert!(s.auto_accept_permissions);
    assert_eq!(s.output_lines.last().unwrap(), "  [permissions] auto-accept is now ON");
    let _ = enter(&mut s, "/dangerously-skip-permissions");
    assert_eq!(s.output_lines.last().unwrap(), "  [permissions] auto-accept is now OFF");
}

#[test]
fn resuming_a_conversation() {
    let mut s = ClaudeSession::new(1, helper());
    let _ = enter(&mut s, "/resume");
    assert_eq!(s.output_lines.last().unwrap(), "  [resume] usage: /resume <session-id>");
    s.attach_process();
    let _ = enter(&mut s, "/resume  abc ");
    assert_eq!(s.session_id, Some("abc".to_string()));
    assert_eq!(s.prompt_count, 1);
    assert!(!s.has_process());
    let reply = enter(&mut s, "go on");
    match reply.action {
        KeyAction::Prompt(plan) => assert_eq!(plan.spawn.unwrap().args[8], "--resume"),
        _ => panic!("no prompt"),
    }
}

#[test]
fn changing_the_directory() {
    let mut s = ClaudeSession::new(1, helper());
    let path = |reply: KeyReply| match reply.action {
        KeyAction::CheckDir(p) => p,
        _ => panic!("no path"),
    };
    assert_eq!(path(enter(&mut s, "/cd")), "/home/u");
    assert_eq!(path(enter(&mut s, "/cd sub")), "/prog/sub");
    assert_eq!(path(enter(&mut s, "/cd ~/x")), "/home/u/x");
    assert_eq!(path(enter(&mut s, "/cd /abs")), "/abs");
    s.attach_process();
    s.finish_cd("/nope", DirProbe { is_dir: false, canonical: None }, Some("/home/u"));
    assert_eq!(s.output_lines.last().unwrap(), "  [cd] not a directory: /nope");
    assert!(s.workdir.is_none());
    let probe = DirProbe { is_dir: true, canonical: Some("/home/u/x".to_string()) };
    s.finish_cd("/home/u/./x", probe, Some("/home/u"));
    assert_eq!(s.workdir, Some("/home/u/x".to_string()));
    let n = s.output_lines.len();
    assert_eq!(
        s.output_lines[n - 2..],
        [
            "  [cd] working directory -> ~/x",
            "  [cd] session will resume in new directory on next prompt"
        ]
    );
    assert!(!s.has_process());
    s.finish_cd("/raw", DirProbe { is_dir: true, canonical: None }, None);
    assert_eq!(s.output_lines.last().unwrap(), "  [cd] working directory -> /raw");
    assert_eq!(path(enter(&mut s, "/cd y")), "/raw/y");
}

#[test]
fn paths_are_shortened_and_expanded() {
    assert_eq!(shorten_path_with("/home/u/a", Some("/home/u")), "~/a");
    assert_eq!(shorten_path_with("/etc", Some("/home/u")), "/etc");
    assert_eq!(shorten_path_with("/etc", None), "/etc");
    assert_eq!(expand_path("~/a", Some("/home/u"), "/b"), "/home/u/a");
    assert_eq!(expand_path("~/a", None, "/b"), "~/a");
    assert_eq!(expand_path("a", None, "/b"), "/b/a");
    assert_eq!(expand_path("/a", None, "/b"), "/a");
    let there = shorten_path("/no/such/home/anywhere");
    assert!(there == "/no/such/home/anywhere" || there.starts_with('~'));
}

#[test]
fn what_is_around_here() {
    let here = Surroundings::here(5, "/p".to_string());
    assert_eq!(here.now, 5);
    assert_eq!(here.program_dir, "/p");
}
