//! What holds across functions, on concrete values.
use commander::claude::{
    send_permission_response, send_prompt_to_process, Assistant, StreamEvent,
};
use commander::client::{Client, Output};
use commander::json::{parse, Json};
use commander::registry::{sessions, Sessions};
use commander::session::{ClaudeSession, Poll, SessionState};
use commander::session_keys::{Key, KeyAction, Surroundings};
use commander::ws::{read_request, ws_output, ws_state, OutputStreamer, Request};

fn helper() -> Assistant {
    Assistant { name: "Helper".to_string(), program: "helper".to_string() }
}

fn around() -> Surroundings {
    Surroundings { now: 7, home: Some("/home/u".to_string()), program_dir: "/work".to_string() }
}

fn press(s: &mut ClaudeSession, key: Key) {
    let _ = s.on_key_with(key, &around(), "fresh".to_string());
}

fn typed(text: &str) -> ClaudeSession {
    let mut s = ClaudeSession::new(1, helper());
    for c in text.chars() {
        press(&mut s, Key::Char(c));
    }
    s
}

fn two_sessions() -> Sessions {
    let mut all = sessions(helper());
    let _ = all.create_session();
    let _ = all.create_session();
    all
}

#[test]
fn the_server_understands_what_the_client_sends() {
    let client = Client::new();
    let sent = |line: &str| read_request(&client.handle_line(line, None).send.unwrap());
    assert!(matches!(sent("/kill"), Request::Kill));
    assert!(matches!(sent("/cd x y"), Request::Cd(ref p) if p == "x y"));
    assert!(matches!(sent("/resume abc"), Request::Resume(ref id) if id == "abc"));
    assert!(matches!(sent("/dangerously-skip-permissions"), Request::SkipPermissions));
    assert!(matches!(sent(" say \"hi\" é "), Request::Prompt(ref p) if p == "say \"hi\" é"));
}

#[test]
fn the_client_shows_what_the_server_sends() {
    let mut client = Client::new();
    let shown = client.handle_server_text(&ws_output("  a \"line\""), None);
    assert!(matches!(shown[0], Output::Line(ref l) if l == "  a \"line\""));
    let _ = client.handle_server_text(&ws_state("permission"), None);
    let answer = |line: &str| read_request(&client.handle_line(line, None).send.unwrap());
    assert!(matches!(answer("y"), Request::Permission(true)));
}

#[test]
fn a_step_and_back() {
    let mut s = typed("aé");
    press(&mut s, Key::Left);
    assert_eq!(s.cursor_pos, 1);
    press(&mut s, Key::Right);
    assert_eq!(s.cursor_pos, 3);
    press(&mut s, Key::Char('世'));
    press(&mut s, Key::Backspace);
    assert_eq!((s.input_buf.as_str(), s.cursor_pos), ("aé", 3));
}

#[test]
fn drawing_again_shows_the_same() {
    let mut s = typed("abc");
    let mut draw = || s.render(12, 4, 10, true, false, "0", "/", None);
    let (one, two) = (draw(), draw());
    let texts = |f: &commander::session_view::SessionFrame| {
        f.lines.iter().flatten().map(|p| p.text.clone()).collect::<Vec<_>>()
    };
    assert_eq!(texts(&one), texts(&two));
    assert_eq!(one.title, two.title);
}

#[test]
fn one_message_reaches_one_session() {
    let mut all = two_sessions();
    let lines = all.table[&2].output_lines.clone();
    let _ = all.handle_message(r#"{"type":"kill"}"#, 1, "c", &around());
    assert_eq!(all.table[&2].output_lines, lines);
    assert_ne!(all.table[&1].output_lines, lines);
    all.kill_session(1);
    assert_eq!(all.table[&2].output_lines, lines);
    let (id, _) = all.create_session();
    assert_eq!(id, 3);
    all.remove_session(3);
    assert_eq!(all.session_ids(), vec![1, 2]);
}

#[test]
fn a_switch_pressed_twice() {
    let mut s = ClaudeSession::new(1, helper());
    let on = s.handle_skip_permissions();
    assert!(s.auto_accept_permissions && on.contains("true"));
    let off = s.handle_skip_permissions();
    assert!(!s.auto_accept_permissions && off.contains("false"));
}

#[test]
fn every_line_is_told_once() {
    let mut s = ClaudeSession::new(1, helper());
    let mut streamer = OutputStreamer::new();
    assert_eq!(streamer.step(&s, "/w").len(), 5 + 1 + 1);
    assert!(streamer.step(&s, "/w").is_empty());
    s.handle_clear();
    s.say("new".to_string());
    assert_eq!(streamer.step(&s, "/w"), vec![ws_output("new")]);
}

#[test]
fn a_request_is_answered_once() {
    let mut s = ClaudeSession::new(1, helper());
    s.attach_process();
    s.state = SessionState::AwaitingPermission(commander::claude::PermissionRequest {
        request_id: "r".to_string(),
        tool_name: "Bash".to_string(),
        input_preview: String::new(),
        questions: vec![],
        raw_input: None,
    });
    assert!(matches!(s.handle_permission(true, 7).action, KeyAction::Answer(_)));
    let again = s.handle_permission(true, 8);
    assert!(matches!(again.action, KeyAction::Nothing));
    assert!(again.reply.unwrap().contains("Session not awaiting permission"));
}

#[test]
fn what_is_written_to_the_process_is_one_line() {
    let written = send_prompt_to_process("a\nb\r\n\u{2028}", Some("id")).line;
    assert_eq!(written.matches('\n').count(), 1);
    let read = parse(written.strip_suffix('\n').unwrap()).unwrap();
    assert_eq!(read.get_in("message", "content").unwrap().to_text(), "\"a\\nb\\r\\n\u{2028}\"");
    let input = Json::object().with("k\n", Json::Array(vec![Json::text("v\n")]));
    let written = send_permission_response("r\n", true, Some(input), None).line;
    assert_eq!(written.matches('\n').count(), 1);
    assert!(parse(written.strip_suffix('\n').unwrap()).is_ok());
}

/// Arrays inside one another.
fn nested(levels: usize) -> Json {
    (0..levels).fold(Json::Null, |inner, _| Json::Array(vec![inner]))
}

#[test]
fn how_deep_values_are_read() {
    assert_eq!(parse(&nested(127).to_text()).unwrap().to_text(), nested(127).to_text());
    assert!(parse(&nested(128).to_text()).is_err());
}

#[test]
fn a_later_field_counts() {
    let twice = Json::object().with("k", Json::text("a")).with("k", Json::text("b"));
    assert_eq!(twice.to_text(), r#"{"k":"b"}"#);
    assert_eq!(twice.text_at("k"), Some("b"));
}

#[test]
fn prompts_that_cannot_be_counted() {
    let mut all = two_sessions();
    all.table.get_mut(&1).unwrap().prompt_count = u32::MAX;
    let prompt = r#"{"type":"prompt","message":"m"}"#;
    let before = all.table[&1].output_lines.clone();
    assert!(!all.can_handle(prompt, 1) && all.can_handle(prompt, 2));
    assert!(all.try_handle_message(prompt, 1, "c", &around()).is_none());
    assert_eq!(all.table[&1].output_lines, before);
    assert!(all.try_handle_message(r#"{"type":"clear"}"#, 1, "c", &around()).is_some());
    assert!(all.table[&1].output_lines.is_empty());
    let s = all.table.get_mut(&1).unwrap();
    s.input_buf = "hi".to_string();
    assert!(!s.has_room_for(Key::Enter) && s.would_send_prompt(Key::Enter));
    s.input_buf = "/clear".to_string();
    assert!(s.has_room_for(Key::Enter) && !s.would_send_prompt(Key::Enter));
    assert!(s.try_on_key(Key::Enter, &around()).is_some());
    s.input_buf = "hi".to_string();
    assert!(s.try_on_key(Key::Enter, &around()).is_none());
    assert_eq!(s.input_buf, "hi");
    s.attach_process();
    s.queued_prompt = Some("later".to_string());
    let done = || Poll::Event(StreamEvent::Done { cost: None });
    assert!(s.try_drain_events(done(), true, 1).is_none());
    assert_eq!(s.queued_prompt.as_deref(), Some("later"));
    s.prompt_count = 1;
    assert!(s.try_drain_events(done(), true, 1).unwrap().send.is_some());
    s.scroll_offset = u16::MAX - 3;
    assert!(s.has_room_for(Key::Up) && !s.has_room_for(Key::PageUp));
}

/// Drains a session of these events, as long as it goes on; says whether anything happened.
fn drain(s: &mut ClaudeSession, events: Vec<StreamEvent>, now: u64) -> bool {
    let mut step = s.drain_events(Poll::Start, false, now);
    let mut got_any = false;
    let mut events = events.into_iter();
    while step.over.is_none() {
        let poll = events.next().map_or(Poll::Empty, Poll::Event);
        got_any = got_any || matches!(poll, Poll::Event(_));
        step = s.drain_events(poll, got_any, now);
    }
    step.over.unwrap()
}

#[test]
fn a_drain_tells_whether_anything_happened() {
    let mut s = ClaudeSession::new(1, helper());
    assert!(!drain(&mut s, vec![], 0));
    s.state = SessionState::Running;
    // busy without a channel: it is made idle
    assert!(drain(&mut s, vec![], 0));
    assert!(!s.is_running());
    s.attach_process();
    s.state = SessionState::Running;
    s.last_event_time = Some(0);
    let lines = s.output_lines.len();
    assert!(!drain(&mut s, vec![], 1));
    assert_eq!(s.output_lines.len(), lines);
    // the heartbeat shows nothing, but counts
    assert!(drain(&mut s, vec![StreamEvent::Stderr(" ".to_string())], 2));
    assert_eq!((s.output_lines.len(), s.last_event_time), (lines, Some(2)));
    assert!(drain(&mut s, vec![], 200_000_000_000));
    assert!(!s.is_running() && !s.event_rx);
}
