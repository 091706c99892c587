//! The tile of a session, and the boxes over it.
use commander::claude::{Assistant, PermissionRequest, QuestionOption, UserQuestion};
use commander::overlay::{
    popup_has_room, render_permission_overlay, render_slash_popup, request_has_room,
};
use commander::screen::{Rect, Role, Stroke};
use commander::session::{ClaudeSession, SessionState};
use commander::session_view::{fit_lines, skip_count, skip_display_cols, SessionFrame};

fn helper() -> Assistant {
    Assistant { name: "Helper".to_string(), program: "helper".to_string() }
}

fn draw(s: &mut ClaudeSession, width: u16, height: u16, focused: bool) -> SessionFrame {
    s.render(width, height, 10, focused, false, "0.0000", "/home/u/p", Some("/home/u"))
}

fn texts(frame: &SessionFrame) -> Vec<&str> {
    frame.lines.iter().map(|l| l[0].text.as_str()).collect()
}

fn with_lines(lines: &[&str]) -> ClaudeSession {
    let mut s = ClaudeSession::new(1, helper());
    s.output_lines = lines.iter().map(|l| l.to_string()).collect();
    s
}

#[test]
fn lines_that_fit_when_wrapped() {
    assert_eq!(fit_lines(&vec![5, 5, 25, 1], 10, 4), 2);
    assert_eq!(fit_lines(&vec![5, 5, 25, 1], 10, 5), 3);
    assert_eq!(fit_lines(&vec![95], 10, 2), 1);
    assert_eq!(fit_lines(&vec![0, 0, 0], 10, 2), 2);
    assert_eq!(fit_lines(&vec![], 10, 2), 0);
}

#[test]
fn columns_are_skipped() {
    assert_eq!(skip_count(&vec![1, 2, 1], 2), 2);
    assert_eq!(skip_count(&vec![1, 2, 1], 0), 0);
    assert_eq!(skip_count(&vec![1], 5), 1);
    assert_eq!(skip_display_cols("abc", 1), "bc");
    // wide characters take two columns
    assert_eq!(skip_display_cols("世界x", 2), "界x");
    assert_eq!(skip_display_cols("世界x", 3), "x");
    assert_eq!(skip_display_cols("ab", 9), "");
}

#[test]
fn the_title_of_a_tile() {
    let mut s = ClaudeSession::new(2, helper());
    let frame = draw(&mut s, 20, 5, true);
    assert_eq!(frame.title, " Session 2 │ prompts:0 │ $0.0000  ");
    assert!(frame.thick);
    assert!(frame.border.fg == Some(Role::BorderFocused) && frame.border.bold);
    s.state = SessionState::Running;
    let frame = draw(&mut s, 20, 5, false);
    assert_eq!(frame.title, " Session 2 │ prompts:0 │ $0.0000 ⟳ ");
    assert!(!frame.thick && frame.border.fg == Some(Role::BorderNormal));
    s.state = SessionState::AwaitingPermission(request(vec![]));
    let frame = s.render(20, 5, 10, true, true, "1.5000", "/", None);
    assert_eq!(frame.title, " Session 2 │ prompts:0 │ $1.5000 ⚠ PERMISSION ");
    assert!(frame.border.fg == Some(Role::Yellow) && frame.bg == Role::BgPrimary);
    s.state = SessionState::Idle;
    let frame = s.render(20, 5, 10, true, true, "0", "/", None);
    assert!(frame.bg == Role::BgInputActive && frame.title_style.fg == Some(Role::Green));
}

#[test]
fn output_is_shown_from_the_bottom() {
    let mut s = with_lines(&["one", "two", "▸ three", "  [error] four"]);
    let frame = draw(&mut s, 20, 3, false);
    assert_eq!(texts(&frame), ["two", "▸ three", "  [error] four"]);
    assert!(frame.lines[1][0].style.fg == Some(Role::Cyan) && frame.lines[1][0].style.bold);
    assert!(frame.lines[2][0].style.fg == Some(Role::Red));
    assert_eq!(s.last_output_visible, 3);
    s.scroll_offset = 9;
    let frame = draw(&mut s, 20, 3, false);
    assert_eq!(texts(&frame), ["one", "two", "▸ three", " [1 more lines below] "]);
}

#[test]
fn long_lines_take_more_rows() {
    let mut s = with_lines(&["a", "b", "123456789012345678901", "c"]);
    let frame = draw(&mut s, 10, 4, false);
    assert_eq!(texts(&frame), ["123456789012345678901", "c"]);
    let mut wide = with_lines(&["a", "世界世界世界", "c"]);
    let frame = draw(&mut wide, 10, 3, false);
    assert_eq!(texts(&frame), ["世界世界世界", "c"]);
}

#[test]
fn the_rain_falls_below_the_output() {
    let mut s = with_lines(&["one", "two", "three"]);
    s.state = SessionState::Running;
    let frame = draw(&mut s, 13, 6, false);
    assert_eq!(frame.lines.len(), 6);
    assert_eq!(frame.lines[0][0].text, "two");
    assert_eq!(frame.lines[2][0].text.chars().count(), 12);
    assert!(frame.lines[2][0].style.fg == Some(Role::Blue));
    assert!(frame.lines[5][0].style.fg == Some(Role::Green));
    assert_eq!(s.last_output_visible, 2);
}

#[test]
fn the_input_of_a_tile() {
    let mut s = ClaudeSession::new(1, helper());
    s.input_buf = "abcdefghijklmno".to_string();
    s.cursor_pos = 15;
    let frame = draw(&mut s, 20, 5, true);
    assert_eq!(frame.input_title, " ~/p ▸ ");
    let parts: Vec<&str> = frame.input.iter().map(|p| p.text.as_str()).collect();
    assert_eq!(parts, ["ghijklmno", "█", ""]);
    s.rain_tick = 3;
    s.cursor_pos = 2;
    let frame = draw(&mut s, 20, 5, true);
    let parts: Vec<&str> = frame.input.iter().map(|p| p.text.as_str()).collect();
    assert_eq!(parts, ["ab", " ", "cdefghijklmno"]);
    s.auto_accept_permissions = true;
    s.workdir = Some("/etc".to_string());
    let frame = draw(&mut s, 20, 5, false);
    assert_eq!(frame.input_title, " ☠ /etc ");
    assert!(frame.input_border == Role::Red);
    assert_eq!(frame.input[0].text, "fghijklmno");
}

#[test]
fn a_tick_that_matters() {
    let mut s = ClaudeSession::new(1, helper());
    assert!(!s.tick_used(false) && s.tick_used(true));
    s.state = SessionState::Running;
    assert!(s.tick_used(false));
}

/// What strokes make of the rows of a screen, `.` where nothing is drawn.
fn screen(strokes: &[Stroke], width: u16, height: u16) -> Vec<String> {
    (0..height)
        .map(|y| {
            (0..width)
                .map(|x| {
                    strokes
                        .iter()
                        .rev()
                        .find_map(|s| if s.x == x && s.y == y { s.ch } else { None })
                        .unwrap_or('.')
                })
                .collect()
        })
        .collect()
}

#[test]
fn the_popup_of_commands() {
    let mut s = ClaudeSession::new(1, helper());
    s.input_buf = "/c".to_string();
    s.slash_popup_selected = 1;
    let input = Rect { x: 1, y: 5, width: 24, height: 3 };
    let strokes = render_slash_popup(input, &s).unwrap();
    assert_eq!(
        screen(&strokes, 27, 6),
        [
            "...........................",
            ".┏━━━━━━━━━━━━━━━━━━━━━━┓..",
            ".┃ /cd Change working d ┃..",
            ".┃ /clear Clear output  ┃..",
            ".┗━━━━━━━━━━━━━━━━━━━━━━┛..",
            "...........................",
        ]
    );
    let bg = |x: u16, y: u16| {
        strokes.iter().rev().find_map(|s| if s.x == x && s.y == y { s.bg } else { None })
    };
    assert!(bg(2, 3) == Some(Role::BgPrimary));
    assert!(bg(3, 3) == Some(Role::BgSecondary));
    assert!(bg(2, 2) == Some(Role::BgSecondary));
    s.input_buf = "/zz".to_string();
    assert!(render_slash_popup(input, &s).is_none());
    s.input_buf = "/".to_string();
    assert!(render_slash_popup(Rect { y: 2, ..input }, &s).is_none());
    let low = render_slash_popup(Rect { y: 4, ..input }, &s).unwrap();
    assert_eq!(screen(&low, 27, 4)[2], ".┃ /cd Change working d ┃..");
}

fn request(questions: Vec<UserQuestion>) -> PermissionRequest {
    PermissionRequest {
        request_id: "r".to_string(),
        tool_name: "Bash".to_string(),
        input_preview: "one\ntwo".to_string(),
        questions,
        raw_input: None,
    }
}

#[test]
fn the_box_of_a_request() {
    let area = Rect { x: 0, y: 0, width: 34, height: 10 };
    let strokes = render_permission_overlay(area, &request(vec![]), "Helper");
    assert_eq!(
        screen(&strokes, 34, 10),
        [
            "..................................",
            "┏━━━━━ Permission Required ━━━━━━┓",
            "┃ Tool: Bash                     ┃",
            "┃ Input:                         ┃",
            "┃   one                          ┃",
            "┃   two                          ┃",
            "┃                                ┃",
            "┃ [y/Enter] Allow   [n/Esc] Deny ┃",
            "┗━━━━━━━━━━━━━━━━━━━━━━━━━━━━━━━━┛",
            "..................................",
        ]
    );
}

#[test]
fn boxes_at_the_edge_of_the_coordinates() {
    let mut s = ClaudeSession::new(1, helper());
    s.input_buf = "/".to_string();
    let input = |x: u16, width: u16| Rect { x, y: 20, width, height: 3 };
    assert!(popup_has_room(input(u16::MAX - 20, 20), &s));
    assert!(!popup_has_room(input(u16::MAX - 19, 19), &s));
    let strokes = render_slash_popup(input(u16::MAX - 20, 20), &s).unwrap();
    assert!(strokes.iter().all(|stroke| stroke.x < u16::MAX));
    s.input_buf = "/zz".to_string();
    assert!(popup_has_room(input(u16::MAX, 0), &s));

    let req = request(vec![]);
    let area = |x: u16, y: u16| Rect { x, y, width: 30, height: 8 };
    assert!(request_has_room(area(u16::MAX - 30, u16::MAX - 8), &req, "Helper"));
    assert!(!request_has_room(area(u16::MAX - 29, 0), &req, "Helper"));
    let strokes = render_permission_overlay(area(u16::MAX - 30, u16::MAX - 8), &req, "Helper");
    assert!(strokes.iter().all(|stroke| stroke.x < u16::MAX && stroke.y < u16::MAX));
    let flat = Rect { x: 0, y: 0, width: 30, height: 1 };
    assert!(!request_has_room(flat, &req, "Helper"));
    assert!(request_has_room(Rect { y: 1, ..flat }, &req, "Helper"));
}

#[test]
fn the_box_of_a_question() {
    let option = |l: &str, d: &str| QuestionOption { label: l.to_string(), description: d.to_string() };
    let q = UserQuestion {
        question: "Which way?".to_string(),
        header: String::new(),
        options: vec![option("Left", ""), option("Right", "the other"), option("Up", "")],
        multi_select: false,
    };
    let area = Rect { x: 0, y: 0, width: 20, height: 8 };
    let strokes = render_permission_overlay(area, &request(vec![q]), "Helper");
    assert_eq!(
        screen(&strokes, 30, 8),
        [
            "┏━━━━━━━ Helper asks ━━━━━━━━┓",
            "┃ Which way?                 ┃",
            "┃                            ┃",
            "┃ [1] Left                   ┃",
            "┃ [2] Right                  ┃",
            "┃     the other              ┃",
            "┃ 1-9:choose [o]other [n/Esc ┃",
            "┗━━━━━━━━━━━━━━━━━━━━━━━━━━━━┛",
        ]
    );
    let number = strokes.iter().find(|s| s.ch == Some('2')).unwrap();
    assert!(number.fg == Some(Role::Green));
}
