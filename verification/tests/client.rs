//! The client on a terminal.
use commander::client::{Client, ClientState, LineStep, Output};
use commander::json::parse;
use commander::ws::{ws_connected, ws_cwd, ws_error, ws_output, ws_permission, ws_state};

const HOME: Option<&str> = Some("/home/u");

fn at(state: ClientState) -> Client {
    Client { state, cwd: "/home/u/p".to_string() }
}

fn shown(outputs: &[Output]) -> Vec<String> {
    outputs
        .iter()
        .map(|o| match o {
            Output::Line(t) => format!("{t}\n"),
            Output::ErrorLine(t) => format!("!{t}\n"),
            Output::Raw(t) => t.clone(),
        })
        .collect()
}

fn sent(step: &LineStep, field: &str) -> (String, String) {
    let m = parse(step.send.as_ref().unwrap()).unwrap();
    (
        m.text_at("type").unwrap().to_string(),
        m.text_or(field, "").to_string(),
    )
}

fn told(c: &mut Client, text: &str) -> Vec<String> {
    shown(&c.handle_server_text(text, HOME))
}

#[test]
fn prompts_of_the_client() {
    assert_eq!(shown(&at(ClientState::Idle).print_prompt(HOME)), ["~/p> "]);
    assert_eq!(shown(&at(ClientState::Idle).print_prompt(None)), ["/home/u/p> "]);
    assert_eq!(shown(&at(ClientState::AwaitingPermission).print_prompt(HOME)), ["[y/n]> "]);
    assert!(at(ClientState::Running).print_prompt(HOME).is_empty());
}

#[test]
fn an_empty_line_shows_the_prompt() {
    let c = at(ClientState::Idle);
    let step = c.handle_line("   ", HOME);
    assert!(step.send.is_none() && !step.quit);
    assert_eq!(shown(&step.outputs), ["~/p> "]);
}

#[test]
fn answers_to_a_request() {
    for (line, allow) in [("y", true), ("Y", true), ("yes", true), ("Yes", true), ("no", false), ("YES", false)] {
        let mut c = at(ClientState::AwaitingPermission);
        let step = c.handle_line(line, HOME);
        let m = parse(step.send.as_ref().unwrap()).unwrap();
        assert_eq!(m.text_at("type"), Some("permission"));
        assert_eq!(m.flag_at("allow"), allow);
        assert!(c.end_line(step, None).goes_on);
        assert!(matches!(c.state, ClientState::Running));
    }
}

#[test]
fn commands_of_the_client() {
    let c = at(ClientState::Idle);
    let step = c.handle_line("/quit", HOME);
    assert!(step.quit);
    assert_eq!(shown(&step.outputs), ["Disconnecting...\n"]);
    assert!(c.handle_line("/exit", HOME).quit);

    let mut c = at(ClientState::Running);
    let step = c.handle_line("/kill", HOME);
    assert_eq!(sent(&step, "x").0, "kill");
    let end = c.end_line(step, None);
    assert_eq!(shown(&end.outputs), ["Kill sent.\n", "~/p> "]);
    assert!(end.goes_on && matches!(c.state, ClientState::Idle));

    let step = c.handle_line("/clear", HOME);
    assert!(step.send.is_none());
    assert_eq!(shown(&step.outputs), ["\u{1b}[2J\u{1b}[H", "~/p> "]);

    let step = c.handle_line("/dangerously-skip-permissions", HOME);
    assert_eq!(sent(&step, "x").0, "skip_permissions");
    assert_eq!(sent(&c.handle_line("/cd", HOME), "path"), ("cd".to_string(), String::new()));
    assert_eq!(
        sent(&c.handle_line("/cd  /x ", HOME), "path"),
        ("cd".to_string(), "/x".to_string())
    );
    assert_eq!(
        sent(&c.handle_line("/resume id", HOME), "session_id"),
        ("resume".to_string(), "id".to_string())
    );
    let step = c.handle_line("/resume", HOME);
    assert!(step.send.is_none());
    assert_eq!(shown(&step.outputs), ["Usage: /resume <session-id>\n", "~/p> "]);
}

#[test]
fn anything_else_is_a_prompt() {
    let mut c = at(ClientState::Idle);
    let step = c.handle_line(" /btw hi ", HOME);
    assert_eq!(sent(&step, "message"), ("prompt".to_string(), "/btw hi".to_string()));
    assert!(c.end_line(step, None).goes_on);
    assert!(matches!(c.state, ClientState::Running));
}

#[test]
fn a_message_that_cannot_be_sent_changes_nothing() {
    for line in ["hello", "/kill", "/cd", "/resume id", "/dangerously-skip-permissions"] {
        let mut c = at(ClientState::Idle);
        let step = c.handle_line(line, HOME);
        let end = c.end_line(step, Some("gone"));
        assert!(!end.goes_on);
        assert_eq!(shown(&end.outputs), ["!Send error: gone\n"]);
        assert!(matches!(c.state, ClientState::Idle));
    }
    let mut c = at(ClientState::AwaitingPermission);
    let step = c.handle_line("y", HOME);
    assert!(!c.end_line(step, Some("gone")).goes_on);
    assert!(matches!(c.state, ClientState::AwaitingPermission));
    // nothing had to be sent
    let step = c.handle_line("", HOME);
    assert!(c.end_line(step, Some("gone")).goes_on);
    let quit = at(ClientState::Idle).handle_line("/quit", HOME);
    assert!(!c.end_line(quit, None).goes_on);
}

#[test]
fn messages_of_the_server_are_shown() {
    let mut c = Client::new();
    assert_eq!(
        told(&mut c, &ws_connected(4, "/home/u")),
        [
            "Connected! Session #4 created.\n",
            "Type a prompt to start, /quit to exit.\n\n",
            "~> "
        ]
    );
    assert_eq!(c.cwd, "/home/u");
    assert_eq!(told(&mut c, &ws_output("line")), ["line\n"]);
    assert!(told(&mut c, &ws_state("running")).is_empty());
    assert!(matches!(c.state, ClientState::Running));
    assert!(told(&mut c, &ws_state("permission")).is_empty());
    assert!(matches!(c.state, ClientState::AwaitingPermission));
    assert_eq!(
        told(&mut c, &ws_permission("Bash", "ls")),
        [
            "\n--- Permission Request ---\n",
            "Tool: Bash\n",
            "ls\n",
            "--------------------------\n",
            "[y/n]> "
        ]
    );
    assert_eq!(told(&mut c, &ws_state("idle")), ["\n", "~> "]);
    assert!(told(&mut c, &ws_cwd("/x")).is_empty());
    assert_eq!(c.cwd, "/x");
    assert_eq!(told(&mut c, r#"{"type":"cd","cwd":"/home/u/q"}"#), ["  [cd] -> ~/q\n", "~/q> "]);
    assert_eq!(
        told(&mut c, r#"{"type":"skip_permissions","enabled":true}"#),
        ["  [permissions] auto-accept is now ON\n", "~/q> "]
    );
    assert_eq!(told(&mut c, &ws_error("bad")), ["!Error: bad\n", "~/q> "]);
}

#[test]
fn odd_messages_are_shown_too() {
    let mut c = at(ClientState::Running);
    assert_eq!(told(&mut c, "plain"), ["plain\n"]);
    assert_eq!(told(&mut c, r#"{"a":1}"#), ["{\n  \"a\": 1\n}\n"]);
    assert_eq!(told(&mut c, r#"{"type":"what"}"#), ["{\n  \"type\": \"what\"\n}\n"]);
    assert!(told(&mut c, r#"{"type":"state","state":"odd"}"#).is_empty());
    assert_eq!(told(&mut c, r#"{"type":"error"}"#), ["!Error: unknown error\n"]);
    assert_eq!(
        told(&mut c, r#"{"type":"connected"}"#)[0],
        "Connected! Session #0 created.\n"
    );
}
