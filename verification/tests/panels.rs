//! The other panels: sessions, themes, the service and the usage.
use commander::claude::Assistant;
use commander::lists::{
    make_tile_block, render_footer, render_tabs, SessionListPlugin, ThemeMenuPlugin,
};
use commander::registry::sessions;
use commander::screen::{Hue, Rect, Role, Span, Stroke};
use commander::session::SessionState;
use commander::session_keys::Key;
use commander::shared::{secret_of, SharedState, WsMode};
use commander::usage::{
    access_token, fmt_tok, render_daily_bars, render_models, token_of_value, top_models,
    usage_request, DailyActivity, Figures, ModelUsage, StatsCache, TokenCount,
};
use commander::ws_panel::{WebSocketPlugin, WsKeyAction};

fn helper() -> Assistant {
    Assistant { name: "Helper".to_string(), program: "helper".to_string() }
}

fn joined(line: &[Span]) -> String {
    line.iter().map(|s| s.text.as_str()).collect()
}

#[test]
fn borders_of_tiles() {
    let b = make_tile_block(Role::Cyan, true);
    assert!(b.thick && b.border.fg == Some(Role::BorderFocused) && b.title.fg == Some(Role::Cyan));
    let b = make_tile_block(Role::Cyan, false);
    assert!(!b.thick && b.title.fg == Some(Role::TextSecondary) && !b.title.bold);
}

#[test]
fn the_list_of_sessions() {
    let mut all = sessions(helper());
    let (panel, log) = SessionListPlugin::new();
    assert_eq!(log, "[debug] Session list panel opened");
    assert_eq!(SessionListPlugin::title(2), "  Sessions (2)  ");
    let lines = panel.render(&all, &vec![], true, 20);
    assert_eq!(lines.len(), 5);
    assert_eq!(joined(&lines[2]), "   No active sessions");
    let _ = all.create_session();
    let _ = all.create_session();
    all.table.get_mut(&2).unwrap().state = SessionState::Running;
    all.table.get_mut(&2).unwrap().session_id = Some("0123456789abcdef".to_string());
    let costs = vec!["0.0000".to_string(), "1.2500".to_string()];
    let lines = panel.render(&all, &costs, true, 5);
    assert_eq!(
        joined(&lines[0]),
        "  ID  Title                    Status   Prompts  Cost     Session ID"
    );
    assert_eq!(joined(&lines[1]), " ───");
    assert_eq!(
        joined(&lines[2]),
        " ▸ 1   Session 1                ● idle     0        $0.0000  (new)"
    );
    assert_eq!(
        joined(&lines[3]),
        "   2   Session 2                ⟳ running  0        $1.2500  0123456789ab"
    );
    assert!(lines[2][0].style.bg == Some(Role::BgSecondary));
    assert_eq!(joined(&lines[5]), "  j/k:navigate  ");
}

#[test]
fn choosing_from_a_list() {
    let (mut p, _) = SessionListPlugin::new();
    assert!(p.on_key(Key::Char('j'), 2));
    assert_eq!(p.selected, 1);
    assert!(p.on_key(Key::Char('j'), 2));
    assert_eq!(p.selected, 1);
    assert!(p.on_key(Key::Char('k'), 2));
    assert!(p.on_key(Key::Char('k'), 2));
    assert_eq!(p.selected, 0);
    assert!(!p.on_key(Key::Enter, 2));
    assert!(p.on_key(Key::Char('j'), 0));
    assert_eq!(p.selected, 0);
}

#[test]
fn the_list_of_themes() {
    let names: Vec<String> = ["a", "b", "c", "d"].iter().map(|s| s.to_string()).collect();
    let mut p = ThemeMenuPlugin::new(2);
    assert_eq!(ThemeMenuPlugin::title(4), "  Themes (4)  ");
    let lines = p.render(&names, 2, true, 6, 7);
    // a heading of two lines, two themes, and two lines below
    assert_eq!(lines.len(), 6);
    assert_eq!(joined(&lines[3][..2]), format!(" ▸●{:<26}", "c"));
    assert_eq!(joined(&lines[2][..2]), format!("   {:<26}", "b"));
    assert!(lines[3][2].style.fg == Some(Role::Swatch(2, Hue::Blue)));
    let _ = p.on_key(Key::Char('j'), &names);
    let reply = p.on_key(Key::Enter, &names);
    assert_eq!(
        reply.apply,
        Some((3, "[theme] Switched to: d (saved)".to_string()))
    );
    assert!(!p.on_key(Key::Tab, &names).consumed);
}

#[test]
fn tabs_and_footer() {
    let tabs = render_tabs(&vec![("one".to_string(), false), ("two".to_string(), true)]);
    assert_eq!(joined(&tabs), " one   two ");
    assert!(tabs[2].style.bg == Some(Role::Cyan) && tabs[2].style.bold);
    let foot = render_footer();
    assert!(joined(&foot).starts_with("  s/v:split  d:close  hjkl:nav  "));
    assert_eq!(foot.len(), 18);
}

fn shared() -> SharedState {
    SharedState::new(secret_of(&vec![0xab; 16]), 0, "Helper")
}

#[test]
fn modes_of_the_service() {
    let mut state = shared();
    let (mut p, log) = WebSocketPlugin::new();
    assert_eq!(log, "[ws] WebSocket panel opened");
    let key = "ab".repeat(16);
    match p.on_key(Key::Char('1'), &mut state).action {
        WsKeyAction::StartLocal { port, secret } => assert_eq!((port, secret), (9753, key.clone())),
        _ => panic!("no server"),
    }
    assert_eq!(state.ws_status, "Starting...");
    assert!(matches!(p.on_key(Key::Char('1'), &mut state).action, WsKeyAction::Nothing));
    match p.on_key(Key::Char('u'), &mut state).action {
        WsKeyAction::CopyUrl(url) => assert_eq!(url, format!("ws://127.0.0.1:9753/ws?key={key}")),
        _ => panic!("no address"),
    }
    state.add_client("c", 1);
    match p.on_key(Key::Char('2'), &mut state).action {
        WsKeyAction::StartCloud { relay_url, room_id, secret } => {
            assert_eq!(relay_url, "wss://relay.example.com");
            assert_eq!(room_id, "abababababab");
            assert_eq!(secret, key);
        }
        _ => panic!("no relay"),
    }
    assert!(state.ws_connections.is_empty());
    match p.on_key(Key::Char('u'), &mut state).action {
        WsKeyAction::CopyUrl(url) => assert_eq!(
            url,
            format!("wss://relay.example.com/join?room=abababababab&key={key}")
        ),
        _ => panic!("no address"),
    }
    assert!(matches!(p.on_key(Key::Char('3'), &mut state).action, WsKeyAction::Stop));
    assert!(matches!(state.ws_mode, WsMode::Off));
    match p.on_key(Key::Char('u'), &mut state).action {
        WsKeyAction::CopyUrl(url) => assert_eq!(url, "WebSocket is off"),
        _ => panic!("no address"),
    }
    assert!(matches!(p.on_key(Key::Char('c'), &mut state).action, WsKeyAction::CopyKey(ref k) if *k == key));
    let _ = p.on_key(Key::Char('k'), &mut state);
    assert_eq!(p.log_scroll, 1);
    let _ = p.on_key(Key::Char('j'), &mut state);
    let _ = p.on_key(Key::Char('j'), &mut state);
    assert_eq!(p.log_scroll, 0);
    assert!(!p.on_key(Key::Enter, &mut state).consumed);
    assert!(!p.on_key(Key::Char('x'), &mut state).consumed);
}

#[test]
fn the_picture_of_the_service() {
    let mut state = shared();
    let (mut p, _) = WebSocketPlugin::new();
    for i in 0..5 {
        state.add_client(&format!("c{i}"), 1_000_000_000);
    }
    state.ws_log = vec!["Client connected: x".to_string(), "it failed".to_string(), "z".to_string()];
    let frame = p.render(&state, 4_500_000_000, true, 3);
    assert_eq!(frame.title, "  WebSocket [Off]  ");
    assert_eq!(joined(&frame.mode), "  Mode:  [1] Local    [2] Cloud    [3] Off ");
    assert!(frame.mode[5].style.bg == Some(Role::Red));
    assert_eq!(joined(&frame.info), "  WebSocket server is off");
    assert_eq!(joined(&frame.key), "  Key: abababababababab...  (c:copy key, u:copy URL)");
    assert_eq!(frame.clients.len(), 4);
    assert_eq!(joined(&frame.clients[0]), "  Clients: 5");
    assert_eq!(joined(&frame.clients[1]), "    c0 (3s ago)");
    assert_eq!(frame.log.len(), 2);
    assert_eq!(joined(&frame.log[0]), "  it failed");
    assert!(frame.log[0][0].style.fg == Some(Role::Red));
    assert!(frame.help.is_some());
    p.log_scroll = 2;
    let frame = p.render(&state, 0, false, 3);
    assert_eq!(joined(&frame.log[0]), "  Client connected: x");
    assert!(frame.log[0][0].style.fg == Some(Role::Green));
    assert!(frame.help.is_none());
    state.ws_mode = WsMode::Local { port: 80 };
    assert_eq!(joined(&p.render(&state, 0, false, 0).info), "  Listening on ws://0.0.0.0:80");
}

#[test]
fn a_key_is_cut_by_bytes() {
    let (p, _) = WebSocketPlugin::new();
    let mut state = shared();
    state.ws_secret = "é".repeat(10);
    let shown = joined(&p.render(&state, 0, false, 3).key);
    assert!(shown.starts_with("  Key: éééééééé...  "));
    state.ws_secret = "é".repeat(8);
    let shown = joined(&p.render(&state, 0, false, 3).key);
    assert!(shown.starts_with("  Key: éééééééé  "));
}

#[test]
fn old_days_are_not_looked_at() {
    let area = Rect { x: 0, y: 0, width: 28, height: 5 };
    let mut days = vec![day("ééééé12345", u64::MAX)];
    days.extend((0..14).map(|_| day("2025-01-02", 1)));
    let strokes = render_daily_bars(area, &stats(days)).unwrap();
    assert_eq!(picture(&strokes, 28, 5)[4], "01".repeat(14));
}

#[test]
fn a_copy_is_shown_for_a_while() {
    let state = shared();
    let (mut p, _) = WebSocketPlugin::new();
    assert!(!p.flash_active(5));
    assert_eq!(p.key_copied(1_000_000_000), "[ws] Secret key copied to clipboard");
    let at = |ms: u64| 1_000_000_000 + ms * 1_000_000;
    assert_eq!(
        joined(&p.render(&state, at(0), false, 3).key),
        "  >>> COPIED Key >>> ============"
    );
    assert!(p.on_tick(at(10)));
    assert_eq!(
        joined(&p.render(&state, at(750), false, 3).key),
        "  >>> COPIED Key >>> ==="
    );
    p.flash_tick = 2;
    assert_eq!(joined(&p.render(&state, at(999), false, 3).key), "  >>  COPIED Key >>  ");
    assert_eq!(
        joined(&p.render(&state, at(1000), false, 3).key),
        "  Key: abababababababab...  [Key] copied"
    );
    assert!(p.flash_active(at(1999)) && !p.flash_active(at(2000)));
    assert!(!p.on_tick(at(2000)));
    let url = "u".repeat(70);
    assert_eq!(p.url_copied(&url, 5), format!("[ws] URL copied: {}", "u".repeat(60)));
    assert_eq!(p.flash_tick, 0);
}

#[test]
fn asking_for_the_usage() {
    let creds = r#"{"claudeAiOauth":{"accessToken":"tok"}}"#;
    assert_eq!(access_token(creds), "tok");
    assert_eq!(access_token("{}"), "");
    assert_eq!(access_token("no json"), "");
    assert_eq!(token_of_value(&commander::json::parse(creds).unwrap()), "tok");
    assert!(usage_request("").is_none());
    let args = usage_request("tok").unwrap();
    assert_eq!(args.len(), 8);
    assert_eq!(args[4], "Authorization: Bearer tok");
    assert_eq!(args[7], "https://api.anthropic.com/api/oauth/usage");
}

fn usage(input: u64, output: u64) -> ModelUsage {
    ModelUsage {
        input_tokens: input,
        output_tokens: output,
        cache_read_input_tokens: 0,
        cache_creation_input_tokens: 0,
    }
}

#[test]
fn the_models_with_the_most_tokens() {
    let models = vec![
        ("a".to_string(), usage(1, 1)),
        ("x/b".to_string(), usage(5, 5)),
        ("c".to_string(), usage(0, 10)),
        ("d".to_string(), usage(7, 0)),
        ("e".to_string(), usage(100, 0)),
    ];
    let rows = top_models(&models);
    let names: Vec<&str> = rows.iter().map(|r| r.name.as_str()).collect();
    assert_eq!(names, ["e", "b", "c", "d"]);
    assert_eq!(rows[1].total, 10);
    let figures: Vec<Figures> = rows
        .iter()
        .map(|r| Figures {
            input: r.input.to_string(),
            output: r.output.to_string(),
            total: r.total.to_string(),
        })
        .collect();
    let lines = render_models(&rows, &figures);
    assert_eq!(lines.len(), 5);
    assert_eq!(
        joined(&lines[2]),
        format!("   ● {:<25} in:{:>8}  out:{:>8}  total:{:>9}", "b", 5, 5, 10)
    );
    assert!(lines[2][0].style.fg == Some(Role::Bar(1)));
    let none = render_models(&vec![], &vec![]);
    assert_eq!(joined(&none[1]), "   No model usage data");
}

#[test]
fn numbers_of_tokens() {
    assert!(matches!(fmt_tok(999), TokenCount::Plain(ref t) if t == "999"));
    assert!(matches!(fmt_tok(1_000), TokenCount::Thousands(1_000)));
    assert!(matches!(fmt_tok(999_999), TokenCount::Thousands(999_999)));
    assert!(matches!(fmt_tok(1_000_000), TokenCount::Millions(1_000_000)));
}

fn day(date: &str, messages: u64) -> DailyActivity {
    DailyActivity {
        date: date.to_string(),
        message_count: messages,
        session_count: 0,
        tool_call_count: 0,
    }
}

fn stats(days: Vec<DailyActivity>) -> StatsCache {
    StatsCache {
        daily_activity: days,
        model_usage: vec![],
        last_computed_date: String::new(),
        total_sessions: 0,
        total_messages: 0,
    }
}

fn picture(strokes: &[Stroke], width: u16, height: u16) -> Vec<String> {
    (0..height)
        .map(|y| {
            (0..width)
                .map(|x| {
                    strokes
                        .iter()
                        .rev()
                        .find_map(|s| if s.x == x && s.y == y { s.ch } else { None })
                        .unwrap_or('.')
                })
                .collect()
        })
        .collect()
}

#[test]
fn the_days_as_bars() {
    let area = Rect { x: 1, y: 0, width: 14, height: 6 };
    assert!(render_daily_bars(area, &stats(vec![])).is_none());
    let days = vec![day("2025-01-02", 4), day("short", 2)];
    let strokes = render_daily_bars(area, &stats(days)).unwrap();
    assert_eq!(
        picture(&strokes, 16, 6),
        [
            "................",
            ".███....   .....",
            ".███....   .....",
            ".███....███.....",
            ".███....███.....",
            ".01-02..short...",
        ]
    );
    assert!(strokes.iter().any(|s| s.fg == Some(Role::Bar(1))));
    // of twenty days fourteen are shown, one column each
    let many: Vec<DailyActivity> = (0..20).map(|i| day("abc", i)).collect();
    let strokes = render_daily_bars(area, &stats(many)).unwrap();
    assert_eq!(picture(&strokes, 16, 6)[5], ".aaaaaaaaaaaaaa.");
    assert_eq!(picture(&strokes, 16, 6)[4], "................");
}
