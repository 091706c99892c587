//! The WebSocket service: its messages, its sessions and its connections.
use commander::claude::{Assistant, PermissionRequest};
use commander::json::{parse, Json};
use commander::registry::{sessions, Sessions};
use commander::session::{ClaudeSession, SessionState};
use commander::session_keys::{DirProbe, KeyAction, Surroundings};
use commander::shared::{
    client_label, debug_log, generate_secret_key, new_client_label, secret_of, SharedState, WsMode,
};
use commander::ws::{
    cleanup_connection, handle_message_when_busy, key_fits, local_server_stopped, open_connection,
    open_relay_session, read_request, relay_event, start_cloud_client, start_local_server,
    ws_connected, ws_cwd, ws_error, ws_output, ws_permission, ws_state, OutputStreamer, RelayEvent,
    Request, WsReply,
};

fn helper() -> Assistant {
    Assistant { name: "Helper".to_string(), program: "helper".to_string() }
}

fn around() -> Surroundings {
    Surroundings {
        now: 7,
        home: Some("/home/u".to_string()),
        program_dir: "/prog".to_string(),
    }
}

fn shared() -> SharedState {
    SharedState::new(secret_of(&vec![0xab; 16]), 0, "Helper")
}

fn with_session() -> Sessions {
    let mut all = sessions(helper());
    let _ = all.create_session();
    all
}

fn ask(all: &mut Sessions, text: &str) -> WsReply {
    all.handle_message_with(text, 1, "c", &around(), "fresh".to_string())
}

fn message(text: &Option<String>) -> Json {
    parse(text.as_ref().unwrap()).unwrap()
}

fn error_of(reply: &WsReply) -> String {
    let m = message(&reply.reply);
    assert_eq!(m.text_at("type"), Some("error"));
    m.text_at("message").unwrap().to_string()
}

fn wait(all: &mut Sessions) {
    let s = all.table.get_mut(&1).unwrap();
    s.attach_process();
    s.state = SessionState::AwaitingPermission(PermissionRequest {
        request_id: "rq".to_string(),
        tool_name: "Bash".to_string(),
        input_preview: "ls".to_string(),
        questions: vec![],
        raw_input: Some(Json::object().with("a", Json::text("b"))),
    });
}

#[test]
fn messages_of_the_server() {
    let m = parse(&ws_error("a \"b\"")).unwrap();
    assert_eq!((m.text_at("type"), m.text_at("message")), (Some("error"), Some("a \"b\"")));
    assert_eq!(ws_connected(3, "/w"), r#"{"cwd":"/w","session_id":3,"type":"connected"}"#);
    assert_eq!(ws_cwd("/w"), r#"{"path":"/w","type":"cwd"}"#);
    assert_eq!(ws_output("x\n"), r#"{"line":"x\n","type":"output"}"#);
    assert_eq!(ws_state("idle"), r#"{"state":"idle","type":"state"}"#);
    assert_eq!(
        ws_permission("Bash", "ls"),
        r#"{"command":"ls","tool":"Bash","type":"permission"}"#
    );
}

#[test]
fn requests_are_read() {
    let read = |t: &str| read_request(t);
    assert!(matches!(read(r#"{"type":"prompt","message":"m"}"#), Request::Prompt(ref m) if m == "m"));
    assert!(matches!(read(r#"{"type":"prompt","message":1}"#), Request::Prompt(ref m) if m.is_empty()));
    assert!(matches!(read(r#"{"type":"permission","allow":true}"#), Request::Permission(true)));
    assert!(matches!(read(r#"{"type":"permission"}"#), Request::Permission(false)));
    assert!(matches!(read(r#"{"type":"cd","path":"p"}"#), Request::Cd(ref p) if p == "p"));
    assert!(matches!(read(r#"{"type":"kill"}"#), Request::Kill));
    assert!(matches!(read(r#"{"type":"clear"}"#), Request::Clear));
    assert!(matches!(read(r#"{"type":"resume","session_id":"s"}"#), Request::Resume(ref s) if s == "s"));
    assert!(matches!(read(r#"{"type":"skip_permissions"}"#), Request::SkipPermissions));
    assert!(matches!(read(r#"{"type":"other"}"#), Request::Unknown(ref k) if k == "other"));
    assert!(matches!(read("{}"), Request::Unknown(ref k) if k.is_empty()));
    assert!(matches!(read("{"), Request::Unreadable(_)));
}

#[test]
fn requests_that_cannot_be_followed() {
    let mut all = with_session();
    let reply = ask(&mut all, "nonsense");
    assert!(error_of(&reply).starts_with("Invalid JSON: "));
    assert!(reply.logs.is_empty());
    let reply = ask(&mut all, r#"{"type":"dance"}"#);
    assert_eq!(error_of(&reply), "Unknown message type: dance");
    assert_eq!(reply.logs, vec!["[ws] c -> type=dance"]);
    let reply = ask(&mut all, r#"{"type":"prompt"}"#);
    assert_eq!(error_of(&reply), "Empty prompt");
    let reply = ask(&mut all, r#"{"type":"resume"}"#);
    assert_eq!(error_of(&reply), "Usage: /resume <session-id>");
    let reply = ask(&mut all, r#"{"type":"permission","allow":true}"#);
    assert_eq!(error_of(&reply), "Session not awaiting permission");
}

#[test]
fn a_session_that_is_gone_or_busy() {
    let mut none = sessions(helper());
    let reply = ask(&mut none, r#"{"type":"prompt","message":"m"}"#);
    assert_eq!(error_of(&reply), "Session not found");
    assert!(ask(&mut none, r#"{"type":"kill"}"#).reply.is_none());
    assert!(ask(&mut none, r#"{"type":"clear"}"#).reply.is_none());
    let reply = handle_message_when_busy(r#"{"type":"cd","path":"x"}"#, "c");
    assert_eq!(error_of(&reply), "Sessions lock busy");
    assert_eq!(reply.logs, vec!["[ws] c -> type=cd"]);
    let reply = handle_message_when_busy(r#"{"type":"resume"}"#, "c");
    assert_eq!(error_of(&reply), "Usage: /resume <session-id>");
    assert!(handle_message_when_busy(r#"{"type":"kill"}"#, "c").reply.is_none());
}

#[test]
fn a_prompt_of_a_client() {
    let mut all = with_session();
    let reply = ask(&mut all, r#"{"type":"prompt","message":"hello"}"#);
    assert!(reply.reply.is_none());
    assert_eq!(
        reply.logs,
        vec!["[ws] c -> type=prompt", "[ws] Sending prompt to session 1: hello"]
    );
    assert!(matches!(reply.action, KeyAction::Prompt(_)));
    assert!(all.table[&1].is_running());
    assert_eq!(all.table[&1].session_id, Some("fresh".to_string()));
    let reply = ask(&mut all, r#"{"type":"prompt","message":"more"}"#);
    assert!(matches!(reply.action, KeyAction::Nothing));
    assert_eq!(all.table[&1].queued_prompt, Some("more".to_string()));
    assert_eq!(all.table[&1].output_lines.last().unwrap(), "  [ws] queued: more");
    let mut other = with_session();
    let _ = other.handle_message(r#"{"type":"prompt","message":"x"}"#, 1, "c", &around());
    assert_eq!(other.table[&1].session_id.as_ref().unwrap().len(), 36);
}

#[test]
fn an_answer_of_a_client() {
    let mut all = with_session();
    wait(&mut all);
    let reply = ask(&mut all, r#"{"type":"permission","allow":true}"#);
    assert!(reply.reply.is_none());
    match reply.action {
        KeyAction::Answer(line) => {
            let val = parse(line.trim_end()).unwrap();
            let inner = val.get_in("response", "response").unwrap();
            assert_eq!(inner.text_at("behavior"), Some("allow"));
            assert_eq!(inner.get("updatedInput").unwrap().text_at("a"), Some("b"));
        }
        _ => panic!("no answer"),
    }
    assert_eq!(all.table[&1].output_lines.last().unwrap(), "  [ws permission: allowed]");
    assert!(!all.table[&1].is_awaiting_permission());

    wait(&mut all);
    let reply = ask(&mut all, r#"{"type":"permission","allow":false}"#);
    match reply.action {
        KeyAction::Answer(line) => {
            assert!(line.contains("User denied this action via WebSocket"));
        }
        _ => panic!("no answer"),
    }
    assert_eq!(all.table[&1].output_lines.last().unwrap(), "  [ws permission: denied]");

    wait(&mut all);
    all.table.get_mut(&1).unwrap().process_stdin = false;
    let reply = ask(&mut all, r#"{"type":"permission","allow":true}"#);
    assert_eq!(error_of(&reply), "Process not running");
    assert!(!all.table[&1].is_running());
    let (log, reply) = all.table.get_mut(&1).unwrap().ws_answer_failed("pipe");
    assert_eq!(log, "[ws] Permission send error: pipe");
    assert_eq!(parse(&reply).unwrap().text_at("message"), Some("pipe"));
}

#[test]
fn a_client_changes_the_directory() {
    let mut all = with_session();
    let path = |reply: WsReply| match reply.action {
        KeyAction::CheckDir(p) => p,
        _ => panic!("no path"),
    };
    assert_eq!(path(ask(&mut all, r#"{"type":"cd"}"#)), "/home/u");
    assert_eq!(path(ask(&mut all, r#"{"type":"cd","path":"x"}"#)), "/prog/x");
    let s = all.table.get_mut(&1).unwrap();
    let reply = s.finish_ws_cd("/no", DirProbe { is_dir: false, canonical: None });
    assert_eq!(parse(&reply).unwrap().text_at("message"), Some("Not a directory: /no"));
    let probe = DirProbe { is_dir: true, canonical: Some("/real".to_string()) };
    let reply = s.finish_ws_cd("/link", probe);
    assert_eq!(reply, r#"{"cwd":"/real","type":"cd"}"#);
    assert_eq!(s.workdir, Some("/real".to_string()));
    assert_eq!(s.output_lines.last().unwrap(), "  [cd] working directory -> /real");
}

#[test]
fn the_other_requests_of_a_client() {
    let mut all = with_session();
    let reply = ask(&mut all, r#"{"type":"skip_permissions"}"#);
    assert_eq!(reply.reply.unwrap(), r#"{"enabled":true,"type":"skip_permissions"}"#);
    let reply = ask(&mut all, r#"{"type":"skip_permissions"}"#);
    assert_eq!(reply.reply.unwrap(), r#"{"enabled":false,"type":"skip_permissions"}"#);
    let _ = ask(&mut all, r#"{"type":"resume","session_id":"abc"}"#);
    assert_eq!(all.table[&1].session_id, Some("abc".to_string()));
    assert_eq!(all.table[&1].prompt_count, 1);
    all.table.get_mut(&1).unwrap().attach_process();
    let _ = ask(&mut all, r#"{"type":"kill"}"#);
    assert!(!all.table[&1].has_process());
    all.table.get_mut(&1).unwrap().scroll_offset = 2;
    let _ = ask(&mut all, r#"{"type":"clear"}"#);
    assert!(all.table[&1].output_lines.is_empty());
    assert_eq!(all.table[&1].scroll_offset, 2);
}

#[test]
fn sessions_have_numbers() {
    let mut all = sessions(helper());
    let (one, log) = all.create_session();
    assert_eq!((one, log.as_str()), (1, "[session] Created session 1"));
    let (two, _) = all.create_session();
    let (three, _) = all.create_session();
    assert_eq!(all.session_ids(), vec![1, 2, 3]);
    all.remove_session(two);
    assert_eq!(all.session_ids(), vec![one, three]);
    let (four, _) = all.create_session();
    assert_eq!(four, 4);
    all.table.get_mut(&4).unwrap().state = SessionState::Running;
    all.kill_session(4);
    assert!(!all.table[&4].is_running());
    assert_eq!(all.table[&4].output_lines.last().unwrap(), "  [ws] session killed");
    all.kill_session(99);
    let taken: ClaudeSession = all.take(4).unwrap();
    assert!(all.take(4).is_none());
    all.put(4, taken);
    assert_eq!(all.session_ids(), vec![1, 3, 4]);
}

#[test]
fn a_request_that_waits_is_dismissed() {
    let mut all = with_session();
    assert!(all.dismiss_any_awaiting_permission(9).is_none());
    wait(&mut all);
    let (id, reply) = all.dismiss_any_awaiting_permission(9).unwrap();
    assert_eq!(id, 1);
    assert!(matches!(reply.action, KeyAction::Answer(ref l) if l.contains("User denied this action")));
    assert!(all.dismiss_any_awaiting_permission(9).is_none());
}

#[test]
fn a_client_is_told_what_is_new() {
    let mut s = ClaudeSession::new(1, helper());
    s.output_lines = vec!["a".to_string(), "b".to_string()];
    let mut st = OutputStreamer::new();
    let out = st.step(&s, "/p");
    assert_eq!(
        out,
        vec![ws_output("a"), ws_output("b"), ws_state("idle"), ws_cwd("/p")]
    );
    assert!(st.step(&s, "/p").is_empty());
    s.output_lines.push("c".to_string());
    assert_eq!(st.step(&s, "/p"), vec![ws_output("c")]);
    s.output_lines = vec!["new".to_string()];
    assert_eq!(st.step(&s, "/p"), vec![ws_output("new")]);
    s.state = SessionState::AwaitingPermission(PermissionRequest {
        request_id: String::new(),
        tool_name: "Bash".to_string(),
        input_preview: "ls".to_string(),
        questions: vec![],
        raw_input: None,
    });
    s.workdir = Some("/w".to_string());
    assert_eq!(
        st.step(&s, "/p"),
        vec![ws_state("permission"), ws_permission("Bash", "ls"), ws_cwd("/w")]
    );
}

#[test]
fn a_connection_comes_and_goes() {
    let mut state = shared();
    let mut all = sessions(helper());
    let id = open_connection(&mut state, &mut all, "ws-client-5", 3);
    assert_eq!(id, 1);
    assert_eq!(state.ws_connections.len(), 1);
    assert_eq!(state.ws_connections[0].connected_at, 3);
    assert_eq!(
        state.ws_log,
        vec!["Client connected: ws-client-5", "Auto-created session 1 for ws-client-5"]
    );
    assert_eq!(state.debug_log.last().unwrap().1, "[ws] Auto-created session 1 for ws-client-5");
    let _ = open_connection(&mut state, &mut all, "other", 4);
    cleanup_connection(&mut state, &mut all, "ws-client-5", id, 9);
    assert_eq!(all.session_ids(), vec![2]);
    assert_eq!(state.ws_connections.len(), 1);
    assert_eq!(state.ws_connections[0].addr, "other");
    assert_eq!(state.ws_log.last().unwrap(), "Client disconnected: ws-client-5");
}

#[test]
fn the_key_of_the_server() {
    assert!(key_fits(Some("k"), "k"));
    assert!(!key_fits(Some("x"), "k"));
    assert!(!key_fits(None, "k"));
    assert!(key_fits(None, ""));
}

#[test]
fn the_local_server_and_the_relay() {
    let mut state = shared();
    start_local_server(&mut state, 9753, 1);
    assert_eq!(state.ws_status, "Listening");
    assert_eq!(state.ws_log[0], "Local server listening on ws://0.0.0.0:9753");
    local_server_stopped(&mut state, 2);
    assert_eq!(state.ws_log[1], "Local server stopped");
    let url = start_cloud_client(&mut state, "wss://r", "room", "key", 3);
    assert_eq!(url, "wss://r/host?room=room&key=key");
    assert_eq!(state.ws_status, "Connecting...");
    assert!(relay_event(&mut state, RelayEvent::Connected, 4));
    assert_eq!(state.ws_status, "Connected to relay");
    let mut all = sessions(helper());
    assert_eq!(open_relay_session(&mut state, &mut all, 5), 1);
    assert_eq!(state.ws_log.last().unwrap(), "Auto-created session 1 for relay client");
    assert!(!relay_event(&mut state, RelayEvent::Error("e".to_string()), 6));
    assert_eq!(state.ws_status, "Relay error");
    assert!(!relay_event(&mut state, RelayEvent::Closed, 7));
    assert_eq!(state.ws_status, "Disconnected");
    assert!(!relay_event(&mut state, RelayEvent::Shutdown, 8));
    assert_eq!(state.ws_log.last().unwrap(), "Cloud client shutting down");
    state.ws_mode = WsMode::Local { port: 1 };
    assert!(!relay_event(&mut state, RelayEvent::Failed("f".to_string()), 9));
    assert_eq!(state.ws_log.last().unwrap(), "Failed to connect to relay: f");
    assert!(matches!(state.ws_mode, WsMode::Off));
}

#[test]
fn logs_keep_what_is_newest() {
    let mut state = shared();
    assert_eq!(state.debug_log[0].1, "Helper Commander started");
    for i in 0..600 {
        debug_log(&mut state, i, format!("{i}"));
    }
    assert_eq!(state.debug_log.len(), 500);
    assert_eq!(state.debug_log[0], (100, "100".to_string()));
    assert_eq!(state.debug_log[499], (599, "599".to_string()));
    for i in 0..150 {
        commander::shared::ws_log(&mut state, i, format!("w{i}"));
    }
    assert_eq!(state.ws_log.len(), 100);
    assert_eq!(state.ws_log[0], "w50");
}

#[test]
fn keys_and_names_by_chance() {
    assert_eq!(secret_of(&vec![0, 1, 0xff, 0x1a, 0, 0, 0, 0, 0, 0, 0, 0, 0, 0, 0, 9]),
        "0001ff1a000000000000000000000009");
    let a = generate_secret_key();
    let b = generate_secret_key();
    assert_ne!(a, b);
    assert_eq!(a.len(), 32);
    assert!(a.chars().all(|c| c.is_ascii_hexdigit() && !c.is_ascii_uppercase()));
    assert_eq!(client_label(7), "ws-client-7");
    assert!(new_client_label().starts_with("ws-client-"));
}
