//! The panel of the debug log.
use commander::debug_panel::{
    copied_entry_log, cut, exported_log, DebugAction, DebugPlugin, DebugReply, LogCategory,
};
use commander::screen::Role;
use commander::session_keys::Key;

fn log() -> Vec<(u64, String)> {
    [
        (1_000_000_000, "[error] One"),
        (1_500_000_000, "[session] two"),
        (2_000_000_000, "[usage] three"),
        (3_250_000_000, "[debug] ONE more"),
        (9_999_999_999, "plain"),
    ]
    .iter()
    .map(|(t, m)| (*t, m.to_string()))
    .collect()
}

fn panel() -> DebugPlugin {
    DebugPlugin::new().0
}

fn press(p: &mut DebugPlugin, c: char) -> DebugReply {
    p.on_key(Key::Char(c), false, &log())
}

#[test]
fn categories_by_their_tags() {
    let c = |m: &str| LogCategory::classify(m);
    assert!(c("x [stderr] y") == LogCategory::Error);
    assert!(c("[session][error]") == LogCategory::Error);
    assert!(c("[usage][session]") == LogCategory::Session);
    assert!(c("[session 3] x") == LogCategory::Other);
    assert_eq!(LogCategory::Debug.badge(), "DBG");
    assert!(LogCategory::Usage.color() == Role::Green);
    assert_eq!(LogCategory::Other.index(), 4);
}

#[test]
fn filters_choose_the_entries() {
    let mut p = panel();
    assert_eq!(p.filtered_indices(&log()), vec![0, 1, 2, 3, 4]);
    let _ = press(&mut p, '1');
    assert_eq!(p.filtered_indices(&log()), vec![1, 2, 3, 4]);
    let _ = press(&mut p, '5');
    assert_eq!(p.filtered_indices(&log()), vec![1, 2, 3]);
    let _ = press(&mut p, '0');
    assert_eq!(p.filtered_indices(&log()).len(), 5);
    let _ = press(&mut p, 'f');
    assert_eq!(p.filtered_indices(&log()), vec![0]);
    let _ = press(&mut p, 'f');
    assert_eq!(p.filtered_indices(&log()), vec![1]);
    let _ = press(&mut p, 'f');
    assert_eq!(p.filtered_indices(&log()).len(), 5);
}

#[test]
fn searching_ignores_case() {
    let mut p = panel();
    let _ = press(&mut p, '/');
    for c in "onex".chars() {
        let _ = press(&mut p, c);
    }
    assert!(p.search_matches.is_empty());
    let _ = p.on_key(Key::Backspace, false, &log());
    assert_eq!(p.search_query, "one");
    assert_eq!(p.search_matches, vec![0, 3]);
    assert_eq!(p.filtered_indices(&log()), vec![0, 3]);
    let _ = p.on_key(Key::Enter, false, &log());
    assert!(!p.search_active);
    assert_eq!(p.filtered_indices(&log()).len(), 5);
    let _ = press(&mut p, 'n');
    assert_eq!((p.search_cursor, p.scroll_offset), (1, 1));
    let _ = press(&mut p, 'n');
    assert_eq!((p.search_cursor, p.scroll_offset), (0, 4));
    let _ = press(&mut p, 'N');
    assert_eq!((p.search_cursor, p.scroll_offset), (1, 1));
    assert!(!p.auto_scroll);
}

#[test]
fn an_empty_search_is_forgotten() {
    let mut p = panel();
    let _ = press(&mut p, '/');
    let _ = p.on_key(Key::Backspace, false, &log());
    assert!(p.on_key(Key::Left, false, &log()).consumed);
    let _ = p.on_key(Key::Escape, false, &log());
    assert!(!p.search_active && p.search_matches.is_empty());
    let _ = press(&mut p, 'n');
    let _ = press(&mut p, 'N');
    assert_eq!(p.search_cursor, 0);
}

#[test]
fn scrolling_the_log() {
    let mut p = panel();
    let _ = press(&mut p, 'k');
    let _ = press(&mut p, 'k');
    assert_eq!(p.scroll_offset, 2);
    let _ = press(&mut p, 'j');
    assert_eq!(p.scroll_offset, 1);
    let _ = p.on_key(Key::Char('u'), true, &log());
    assert_eq!(p.scroll_offset, 11);
    let _ = p.on_key(Key::Char('d'), true, &log());
    let _ = p.on_key(Key::Char('d'), true, &log());
    assert_eq!(p.scroll_offset, 0);
    assert!(!p.on_key(Key::Char('d'), false, &log()).consumed);
    let _ = press(&mut p, 'g');
    assert!(p.pending_g);
    let _ = press(&mut p, 'g');
    assert_eq!(p.scroll_offset, 4);
    let _ = press(&mut p, 'G');
    assert!(p.auto_scroll && p.scroll_offset == 0);
    let _ = press(&mut p, 'g');
    let _ = press(&mut p, 'k');
    assert!(!p.pending_g && p.scroll_offset == 1);
    let _ = press(&mut p, 'F');
    assert!(p.auto_scroll && p.scroll_offset == 0);
    let _ = press(&mut p, 'F');
    assert!(!p.auto_scroll);
}

#[test]
fn copying_and_exporting() {
    let mut p = panel();
    p.last_visible_height = 2;
    match press(&mut p, 'y').action {
        DebugAction::Copy(t) => assert_eq!(t, "[debug] ONE more"),
        _ => panic!("nothing copied"),
    }
    assert_eq!(
        copied_entry_log("x"),
        "[debug] Copied log entry to clipboard: x"
    );
    let _ = press(&mut p, 'f');
    match press(&mut p, 's').action {
        DebugAction::Export(t, n) => {
            assert_eq!(n, 1);
            assert_eq!(t, "   0.000 [ERR] [error] One\n");
        }
        _ => panic!("nothing exported"),
    }
    let _ = press(&mut p, '0');
    match press(&mut p, 's').action {
        DebugAction::Export(t, n) => {
            assert_eq!(n, 5);
            assert!(t.ends_with("   2.250 [DBG] [debug] ONE more\n   8.999 [---] plain\n"));
        }
        _ => panic!("nothing exported"),
    }
    assert_eq!(exported_log(3, "/tmp/x", None), "[debug] Exported 3 entries to /tmp/x");
    assert_eq!(exported_log(3, "/tmp/x", Some("e")), "[error] Failed to export logs: e");
    let mut empty = panel();
    assert!(matches!(
        empty.on_key(Key::Char('y'), false, &vec![]).action,
        DebugAction::Nothing
    ));
}

#[test]
fn other_keys_of_the_log() {
    let mut p = panel();
    let _ = press(&mut p, 'w');
    assert!(!p.wrap_enabled);
    let _ = press(&mut p, '?');
    assert!(p.show_help);
    assert!(!press(&mut p, 'x').consumed);
    assert!(!p.on_key(Key::Enter, false, &log()).consumed);
}

#[test]
fn the_picture_of_the_log() {
    let mut p = panel();
    let frame = p.render(&log(), 3, true);
    assert_eq!(frame.title, "  Debug Log (5/5)  [tail] ");
    assert_eq!(frame.lines.len(), 2);
    assert_eq!(frame.help, Some("j/k:scroll /:search F:tail ?:help"));
    let first: Vec<&str> = frame.lines[0].iter().map(|s| s.text.as_str()).collect();
    assert_eq!(first, ["    2.250 ", "DBG ", "[debug] ONE more"]);
    assert!(frame.lines[0][1].style.bg == Some(Role::Orange));
    let frame = p.render(&log(), 1, true);
    assert!(frame.help.is_none() && frame.lines.is_empty());
    p.wrap_enabled = false;
    let _ = press(&mut p, 'k');
    let frame = p.render(&log(), 2, false);
    assert_eq!(frame.title, "  Debug Log (5/5)  [nowrap] ");
    assert_eq!(frame.lines.len(), 2);
    assert_eq!(frame.lines[1][2].text, "[debug] ONE more");
    assert!(frame.help.is_none());
}

#[test]
fn hits_are_marked() {
    let mut p = panel();
    let _ = press(&mut p, '/');
    for c in "one".chars() {
        let _ = press(&mut p, c);
    }
    let frame = p.render(&log(), 10, true);
    assert_eq!(frame.title, "  Debug Log (2/5)  [/one] [tail] ");
    let parts: Vec<&str> = frame.lines[1][2..].iter().map(|s| s.text.as_str()).collect();
    assert_eq!(parts, ["[debug] ", "ONE", " more"]);
    assert!(frame.lines[1][3].style.bg == Some(Role::PlainYellow));
    assert_eq!(
        frame.help,
        Some("type to search | Enter/Esc:exit search | n/N:next/prev match")
    );
}

#[test]
fn cutting_where_the_query_stands() {
    let parts = |m: &str, l: &str, q: &str| {
        cut(m, l, q).map(|v| v.iter().map(|s| (s.text.clone(), s.hit)).collect::<Vec<_>>())
    };
    assert_eq!(
        parts("aXbX", "axbx", "x"),
        Some(vec![
            ("a".to_string(), false),
            ("X".to_string(), true),
            ("b".to_string(), false),
            ("X".to_string(), true)
        ])
    );
    assert_eq!(parts("", "", "x"), Some(vec![]));
    assert_eq!(parts("abc", "abc", "x"), Some(vec![("abc".to_string(), false)]));
    // a cut inside a character of the entry
    assert_eq!(parts("é", "ax", "x"), None);
}

#[test]
fn an_entry_that_cannot_be_cut_is_shown_whole() {
    let mut p = panel();
    p.search_active = true;
    p.search_query = "x".to_string();
    // the capital takes two bytes, its lower case three
    let odd = vec![(0, "\u{130}x".to_string())];
    let frame = p.render(&odd, 5, false);
    assert_eq!(frame.lines[0][2].text, "\u{130}x");
    assert_eq!(frame.lines[0].len(), 3);
}
