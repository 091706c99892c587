//! A session and the events of its process.
use commander::claude::{Assistant, PermissionRequest, StreamEvent, parse_stream_line};
use commander::session::{new_session_id, ClaudeSession, Poll, SessionState, WATCHDOG};

fn helper() -> Assistant {
    Assistant { name: "Helper".to_string(), program: "helper".to_string() }
}

fn request(id: &str) -> PermissionRequest {
    PermissionRequest {
        request_id: id.to_string(),
        tool_name: "Bash".to_string(),
        input_preview: "{}".to_string(),
        questions: vec![],
        raw_input: None,
    }
}

fn running() -> ClaudeSession {
    let mut s = ClaudeSession::new(3, helper());
    s.attach_process();
    let _ = s.prepare_prompt_with("go", 10, "u".to_string());
    s
}

fn event(s: &mut ClaudeSession, event: StreamEvent, now: u64) -> commander::session::DrainStep {
    s.drain_events_with(Poll::Event(event), true, now, "fresh".to_string())
}

#[test]
fn a_new_session_is_idle() {
    let s = ClaudeSession::new(7, helper());
    assert_eq!(s.title, "Session 7");
    assert_eq!(s.output_lines.len(), 5);
    assert_eq!(s.output_lines[1], "║   Helper Session - ready             ║");
    assert!(!s.is_running() && !s.has_process() && !s.is_awaiting_permission());
    assert_eq!(s.state.as_str(), "idle");
    assert_eq!(s.prompt_count, 0);
}

#[test]
fn words_for_states() {
    assert_eq!(SessionState::Running.as_str(), "running");
    assert_eq!(SessionState::AwaitingPermission(request("r")).as_str(), "permission");
}

#[test]
fn new_names_are_random_uuids() {
    let a = new_session_id();
    let b = new_session_id();
    assert_ne!(a, b);
    assert_eq!(a.len(), 36);
    assert_eq!(&a[14..15], "4");
    assert_eq!(a.matches('-').count(), 4);
}

#[test]
fn a_prompt_starts_a_turn_and_names_the_conversation() {
    let mut s = ClaudeSession::new(1, helper());
    s.rain_tick = 9;
    let sid = s.prepare_prompt_with("hello", 5, "name".to_string());
    assert_eq!(sid, "name");
    assert!(s.is_running());
    assert_eq!(s.prompt_count, 1);
    assert_eq!(s.rain_tick, 0);
    assert_eq!(s.last_event_time, Some(5));
    assert_eq!(s.output_lines[5..], ["▸ hello".to_string(), String::new()]);
    let again = s.prepare_prompt_with("more", 6, "other".to_string());
    assert_eq!(again, "name");
    let mut t = ClaudeSession::new(2, helper());
    let fresh = t.prepare_prompt("x", 1);
    assert_eq!(t.session_id, Some(fresh.clone()));
    assert_eq!(fresh.len(), 36);
}

#[test]
fn a_plan_starts_a_process_only_where_there_is_none() {
    let mut s = ClaudeSession::new(1, helper());
    s.workdir = Some("/w".to_string());
    let plan = s.prepare_and_send_prompt_with("one", 1, "id".to_string());
    let spawn = plan.spawn.unwrap();
    assert_eq!(spawn.args[8..], ["--session-id".to_string(), "id".to_string()]);
    assert_eq!(spawn.workdir, Some("/w".to_string()));
    assert_eq!(spawn.program, "helper");
    assert_eq!(spawn.failed("not found"), "Failed to spawn helper: not found");
    assert!(plan.line.contains("\"one\""));
    s.attach_process();
    s.go_idle();
    let plan = s.prepare_and_send_prompt("two", 2);
    assert!(plan.spawn.is_none());
    s.kill_process();
    let plan = s.prepare_and_send_prompt("three", 3);
    assert_eq!(plan.spawn.unwrap().args[8], "--resume");
}

#[test]
fn text_is_shown_and_tools_are_logged() {
    let mut s = running();
    s.scroll_offset = 4;
    let n = s.output_lines.len();
    let text = "one\n[tool_use: Bash]\n[tool_result] two";
    let step = event(&mut s, StreamEvent::Text(text.to_string()), 20);
    assert_eq!(s.output_lines[n..], ["  one", "  [tool_use: Bash]", "  [tool_result] two"]);
    assert_eq!(
        step.logs,
        vec!["[session 3] [tool_use: Bash]", "[session 3] [tool_result] two"]
    );
    assert_eq!(s.scroll_offset, 0);
    assert_eq!(s.last_event_time, Some(20));
    assert_eq!(step.over, None);
}

#[test]
fn a_session_id_is_kept() {
    let mut s = running();
    let step = event(&mut s, StreamEvent::SessionId("given".to_string()), 20);
    assert_eq!(s.session_id, Some("given".to_string()));
    assert_eq!(step.logs, vec!["[session 3] Got session ID: given"]);
}

#[test]
fn a_request_makes_the_session_wait() {
    let mut s = running();
    let step = event(&mut s, StreamEvent::PermissionNeeded(request("r")), 20);
    assert!(s.is_awaiting_permission() && s.is_running());
    assert_eq!(
        step.logs,
        vec!["[session 3] Permission requested: Bash (questions=false) input={}"]
    );
}

#[test]
fn the_end_of_a_turn_is_idle() {
    let mut s = running();
    let step = event(&mut s, StreamEvent::Done { cost: None }, 20);
    assert!(!s.is_running());
    assert_eq!(s.last_event_time, None);
    assert!(s.has_process());
    assert_eq!(s.output_lines.last().unwrap(), "");
    assert!(step.send.is_none());
}

#[test]
fn a_queued_prompt_follows_the_end_of_a_turn() {
    let mut s = running();
    s.queued_prompt = Some("next".to_string());
    let step = event(&mut s, StreamEvent::Done { cost: None }, 30);
    assert!(s.is_running());
    assert!(s.queued_prompt.is_none());
    assert_eq!(s.prompt_count, 2);
    assert!(step.send.unwrap().contains("\"next\""));
    assert_eq!(step.logs[0], "[session 3] Sending queued prompt: next");
    // the line could not be sent
    let step = s.drain_events_with(
        Poll::SendFailed("broken pipe".to_string()),
        true,
        31,
        String::new(),
    );
    assert!(!s.is_running());
    assert_eq!(s.output_lines.last().unwrap(), "  [error] broken pipe");
    assert_eq!(step.logs, vec!["[session 3] Queued send error: broken pipe"]);
}

#[test]
fn a_queued_prompt_without_a_process_is_dropped() {
    let mut s = running();
    s.process_stdin = false;
    s.queued_prompt = Some("next".to_string());
    let step = event(&mut s, StreamEvent::Done { cost: None }, 30);
    assert!(!s.is_running());
    assert!(step.send.is_none());
    assert!(s.queued_prompt.is_none());
}

#[test]
fn errors_of_the_process_are_shown_unless_blank() {
    let mut s = running();
    let n = s.output_lines.len();
    let step = event(&mut s, StreamEvent::Stderr("oops".to_string()), 20);
    assert_eq!(s.output_lines[n..], ["  [stderr] oops"]);
    assert_eq!(step.logs, vec!["[session 3] stderr: oops"]);
    // a heartbeat wakes the watchdog and shows nothing
    let _ = event(&mut s, parse_stream_line(r#"{"type":"stream_event"}"#), 50);
    assert_eq!(s.last_event_time, Some(50));
    assert_eq!(s.output_lines.len(), n + 1);
    // an empty line does not even do that
    let _ = event(&mut s, StreamEvent::Stderr(String::new()), 60);
    assert_eq!(s.last_event_time, Some(50));
}

#[test]
fn the_end_of_the_process_is_idle() {
    let mut s = running();
    let step = event(&mut s, StreamEvent::ProcessExited, 20);
    assert_eq!(step.over, Some(true));
    assert!(!s.is_running() && !s.process_child && !s.process_stdin && !s.event_rx);
    assert_eq!(step.logs, vec!["[session 3] Process exited"]);
}

#[test]
fn reading_begins_where_there_is_a_channel() {
    let mut s = running();
    let step = s.drain_events(Poll::Start, false, 11);
    assert_eq!(step.over, None);
    s.event_rx = false;
    let step = s.drain_events(Poll::Start, false, 12);
    assert_eq!(step.over, Some(true));
    assert_eq!(step.logs, vec!["[error] Session 3 process ended unexpectedly"]);
    assert_eq!(s.output_lines.last().unwrap(), "  [process ended unexpectedly]");
    let step = s.drain_events(Poll::Start, false, 13);
    assert_eq!(step.over, Some(false));
}

#[test]
fn a_closed_channel_ends_the_run() {
    let mut s = running();
    let step = s.drain_events(Poll::Disconnected, true, 11);
    assert_eq!(step.over, Some(true));
    assert_eq!(step.logs, vec!["[error] Session 3 channel disconnected"]);
    assert!(!s.is_running());
}

#[test]
fn the_watchdog_stops_a_silent_run() {
    let mut s = running();
    let step = s.drain_events(Poll::Empty, true, 10 + WATCHDOG);
    assert_eq!(step.over, Some(true));
    assert!(s.is_running());
    let step = s.drain_events(Poll::Empty, false, 11 + WATCHDOG);
    assert_eq!(step.over, Some(true));
    assert_eq!(step.logs, vec!["[error] Session 3 timed out (2 min no events)"]);
    assert!(!s.is_running());
    assert_eq!(
        s.output_lines.last().unwrap(),
        "  [timed out — no response for 2 min, press Esc to cancel]"
    );
}

#[test]
fn the_watchdog_leaves_a_waiting_session_alone() {
    let mut s = running();
    let _ = event(&mut s, StreamEvent::PermissionNeeded(request("r")), 20);
    let step = s.drain_events(Poll::Empty, false, 20 + 10 * WATCHDOG);
    assert_eq!(step.over, Some(false));
    assert!(s.is_awaiting_permission());
}

#[test]
fn cancelling_keeps_the_process() {
    let mut s = running();
    s.cancel();
    assert!(!s.is_running() && s.has_process() && s.process_child);
    assert_eq!(s.output_lines.last().unwrap(), "  [cancelled by user]");
    s.state = SessionState::Running;
    s.event_rx = false;
    s.cancel();
    assert!(!s.is_running() && !s.process_stdin && !s.process_child);
    s.prompt_failed("not found");
    assert_eq!(s.output_lines.last().unwrap(), "  [error] not found");
}

#[test]
fn going_idle_tells_of_a_queued_prompt() {
    let mut s = running();
    assert!(!s.go_idle());
    s.queued_prompt = Some("x".to_string());
    assert!(s.go_idle());
    assert!(s.has_process());
}

#[test]
fn the_rain_has_three_rows_and_a_message() {
    let mut s = ClaudeSession::new(1, helper());
    let frame = s.rain_frame(12);
    assert_eq!(frame.len(), 4);
    assert_eq!(frame[3], "  ⟳ thinking.     (Esc to cancel)");
    assert_eq!(frame[0], "░     ⠠┆    ");
    assert_eq!(frame[1], "  ⠄  ╏  ⣀  :");
    assert_eq!(frame[2], "  ┃ ⠈    ·⢐ ");
    s.queued_prompt = Some("q".repeat(50));
    s.tick_rain();
    let frame = s.rain_frame(0);
    assert_eq!(frame[0], "");
    assert_eq!(frame[3], "  ⟳ thinking..    (Esc to cancel)");
    assert_eq!(frame[4], format!("  ⏳ queued: {}", "q".repeat(40)));
}

#[test]
fn the_rain_ticks_round() {
    let mut s = ClaudeSession::new(1, helper());
    s.rain_tick = u64::MAX;
    s.tick_rain();
    assert_eq!(s.rain_tick, 0);
}

#[test]
fn a_directory_of_its_own() {
    let mut s = ClaudeSession::new(1, helper());
    assert_eq!(s.effective_cwd("/here"), "/here");
    s.workdir = Some("/there".to_string());
    assert_eq!(s.effective_cwd("/here"), "/there");
}
