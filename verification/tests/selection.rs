//! Selecting text, and the keys of the program.
use commander::screen::Rect;
use commander::selection::{
    copied_log, copy_key_when_busy, pane_at, poll_timeout, tick_due, Chord, CopyAction, CopyKey,
    Route, TextSelection, TICK_RATE,
};
use commander::session_keys::Key;

fn rect(x: u16, y: u16, width: u16, height: u16) -> Rect {
    Rect { x, y, width, height }
}

fn grid(rows: &[&str]) -> Vec<Vec<String>> {
    rows.iter().map(|r| r.chars().map(|c| c.to_string()).collect()).collect()
}

fn from_to(start: (u16, u16), end: (u16, u16)) -> TextSelection {
    let mut s = TextSelection::none();
    s.press(start.0, start.1, None);
    s.drag(end.0, end.1);
    s
}

#[test]
fn cells_between_the_ends_are_selected() {
    for s in [from_to((3, 1), (2, 3)), from_to((2, 3), (3, 1))] {
        assert_eq!(s.ordered(), ((3, 1), (2, 3)));
        assert!(s.has_selection());
        assert!(!s.is_cell_selected(2, 1) && s.is_cell_selected(3, 1));
        assert!(s.is_cell_selected(0, 2) && s.is_cell_selected(99, 2));
        assert!(s.is_cell_selected(2, 3) && !s.is_cell_selected(3, 3));
        assert!(!s.is_cell_selected(5, 0) && !s.is_cell_selected(0, 4));
    }
    assert!(!TextSelection::none().is_cell_selected(0, 0));
    let one = from_to((2, 1), (4, 1));
    assert!(one.is_cell_selected(4, 1) && !one.is_cell_selected(5, 1));
}

#[test]
fn a_drag_stays_in_its_pane() {
    let mut s = TextSelection::none();
    s.press(5, 5, Some(rect(4, 4, 3, 3)));
    s.drag(99, 0);
    assert_eq!(s.end, (6, 4));
    s.drag(0, 99);
    assert_eq!(s.end, (4, 6));
    s.release(50, 50);
    assert_eq!(s.end, (50, 50));
    assert!(!s.active);
    s.drag(1, 1);
    assert_eq!(s.end, (50, 50));
}

#[test]
fn a_click_selects_nothing() {
    let mut s = TextSelection::none();
    s.press(5, 5, None);
    s.selected_text = "x".to_string();
    s.release(5, 5);
    assert!(!s.has_selection());
}

#[test]
fn the_text_is_taken_row_by_row() {
    let g = grid(&["hello   ", "world   ", "again   "]);
    let s = from_to((1, 0), (2, 2));
    assert_eq!(s.extract(&g, rect(0, 0, 8, 3)), "ello\nworld\naga");
    assert_eq!(s.extract(&g, rect(2, 1, 2, 2)), "rl\na");
    let blank_first = from_to((5, 0), (1, 1));
    assert_eq!(blank_first.extract(&g, rect(0, 0, 8, 3)), "wo");
    let beyond = from_to((6, 2), (20, 9));
    assert_eq!(beyond.extract(&g, rect(0, 0, 30, 30)), "\n\n\n\n\n\n".trim_start_matches('\n'));
    assert_eq!(s.row_columns(1, rect(2, 1, 2, 2)), (2, 4));
}

#[test]
fn the_text_that_is_kept() {
    let mut s = from_to((0, 0), (1, 0));
    s.keep_text("abc".to_string());
    assert_eq!(s.selected_text, "abc");
    s.keep_text(String::new());
    assert_eq!(s.selected_text, "abc");
}

#[test]
fn the_pane_that_was_clicked() {
    let panes = vec![rect(0, 0, 5, 5), rect(4, 0, 5, 5)];
    assert_eq!(pane_at(&panes, 4, 2), Some(0));
    assert_eq!(pane_at(&panes, 5, 2), Some(1));
    assert_eq!(pane_at(&panes, 9, 2), None);
}

fn chord(key: Key, ctrl: bool, shift: bool) -> Chord {
    Chord { key, ctrl, shift, other: false }
}

#[test]
fn where_keys_go() {
    let r = |key, ctrl, shift, in_tile| chord(key, ctrl, shift).route(in_tile);
    assert!(r(Key::Char('c'), true, false, false) == Route::Copy(CopyKey::CtrlC));
    assert!(r(Key::Char('c'), true, true, false) == Route::Copy(CopyKey::CtrlShiftC));
    assert!(r(Key::Char('C'), true, false, true) == Route::Copy(CopyKey::CtrlShiftC));
    assert!(r(Key::Char('c'), false, false, false) == Route::Tiles);
    assert!(r(Key::Escape, false, false, true) == Route::Dismiss);
    assert!(r(Key::Escape, false, false, false) == Route::Tiles);
    assert!(r(Key::Char('t'), false, false, false) == Route::Themes);
    assert!(r(Key::Char('t'), false, false, true) == Route::Tiles);
    assert!(r(Key::Char('t'), true, false, false) == Route::Tiles);
    let alt = Chord { key: Key::Char('c'), ctrl: true, shift: false, other: true };
    assert!(alt.route(false) == Route::Tiles);
}

#[test]
fn keys_that_copy() {
    let mut s = from_to((0, 0), (1, 0));
    s.selected_text = "abc".to_string();
    assert!(matches!(s.copy_key(CopyKey::CtrlC, false), CopyAction::Copy(ref t) if t == "abc"));
    assert!(!s.has_selection());
    assert!(matches!(s.copy_key(CopyKey::CtrlC, false), CopyAction::Quit));
    assert!(matches!(s.copy_key(CopyKey::CtrlC, true), CopyAction::LeaveTile));
    assert!(matches!(s.copy_key(CopyKey::CtrlShiftC, true), CopyAction::Note(_)));
    assert!(matches!(copy_key_when_busy(CopyKey::CtrlC), CopyAction::Quit));
    assert!(matches!(copy_key_when_busy(CopyKey::CtrlShiftC), CopyAction::Nothing));
    assert_eq!(copied_log("é", CopyKey::CtrlC), "[copy] 2 chars via Ctrl+C");
    assert_eq!(copied_log("a", CopyKey::CtrlShiftC), "[copy] 1 chars via Ctrl+Shift+C");
}

#[test]
fn the_clock_of_the_program() {
    assert_eq!(poll_timeout(None, 50_000_000), 150_000_000);
    assert_eq!(poll_timeout(Some(1), 50_000_000), 1);
    assert_eq!(poll_timeout(Some(TICK_RATE), 300_000_000), 0);
    assert!(tick_due(TICK_RATE) && !tick_due(TICK_RATE - 1));
}
