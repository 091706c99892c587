//! What the lines of the process mean, and what is written to it.
use commander::claude::{
    parse_stream_line, read_error_line, read_output_line, send_permission_response,
    send_prompt_to_process, spawn_session_process, PermissionRequest, StreamEvent,
};
use commander::json::{parse, Json};

fn text_of(event: StreamEvent) -> String {
    match event {
        StreamEvent::Text(t) => t,
        _ => panic!("no text"),
    }
}

fn stderr_of(event: StreamEvent) -> String {
    match event {
        StreamEvent::Stderr(t) => t,
        _ => panic!("no stderr"),
    }
}

fn request_of(event: StreamEvent) -> PermissionRequest {
    match event {
        StreamEvent::PermissionNeeded(req) => req,
        _ => panic!("no request"),
    }
}

#[test]
fn init_gives_the_session_id() {
    let event = parse_stream_line(r#"{"type":"system","subtype":"init","session_id":"abc-1"}"#);
    assert!(matches!(event, StreamEvent::SessionId(ref s) if s == "abc-1"));
}

#[test]
fn other_system_messages_are_shown() {
    let line = r#"{"type":"system","subtype":"api_retry"}"#;
    assert_eq!(stderr_of(parse_stream_line(line)), "[system/api_retry]");
    let no_id = r#"{"type":"system","subtype":"init"}"#;
    assert_eq!(stderr_of(parse_stream_line(no_id)), "[system/init]");
}

#[test]
fn what_is_no_json_is_shown_raw() {
    assert_eq!(stderr_of(parse_stream_line("hello")), "[raw] hello");
    let long = "x".repeat(300);
    assert_eq!(stderr_of(parse_stream_line(&long)), format!("[raw] {}", "x".repeat(200)));
}

#[test]
fn a_value_without_a_type_is_shown() {
    assert_eq!(stderr_of(parse_stream_line("{}")), "[no type field] {}");
    assert_eq!(stderr_of(parse_stream_line("[1]")), "[no type field] [1]");
}

#[test]
fn assistant_blocks_are_joined() {
    let line = r#"{"type":"assistant","message":{"content":[
        {"type":"text","text":"Hi"},
        {"type":"thinking","thinking":"..."},
        {"type":"tool_use","name":"Bash","input":{"command":"ls"}},
        {"type":"tool_result","content":"ok"}]}}"#;
    assert_eq!(
        text_of(parse_stream_line(line)),
        "Hi\n[tool_use: Bash]\n{\n  \"command\": \"ls\"\n}\n[tool_result] ok"
    );
}

#[test]
fn thinking_alone_is_silent() {
    let line = r#"{"type":"assistant","message":{"content":[{"type":"thinking"}]}}"#;
    assert_eq!(stderr_of(parse_stream_line(line)), "");
    let none = r#"{"type":"assistant","message":{}}"#;
    assert_eq!(stderr_of(parse_stream_line(none)), "[assistant message with no content]");
}

#[test]
fn tool_results_stream_events_and_the_rest() {
    let content = r#"{"type":"tool_result","content":"done"}"#;
    assert_eq!(text_of(parse_stream_line(content)), "[tool_result] done");
    let output = r#"{"type":"tool_result","output":"out"}"#;
    assert_eq!(text_of(parse_stream_line(output)), "[tool_result] out");
    assert_eq!(
        stderr_of(parse_stream_line(r#"{"type":"tool_result"}"#)),
        "[tool_result: empty]"
    );
    assert_eq!(stderr_of(parse_stream_line(r#"{"type":"stream_event"}"#)), " ");
    assert_eq!(stderr_of(parse_stream_line(r#"{"type":"user"}"#)), "");
    assert_eq!(stderr_of(parse_stream_line(r#"{"type":"rate_limit_event"}"#)), "");
    assert_eq!(stderr_of(parse_stream_line(r#"{"type":"new"}"#)), "[unhandled: new]");
}

#[test]
fn a_result_carries_its_cost() {
    let cost = |line: &str| match parse_stream_line(line) {
        StreamEvent::Done { cost } => cost.and_then(|n| n.as_f64()),
        _ => panic!("no end of a turn"),
    };
    assert_eq!(cost(r#"{"type":"result","total_cost_usd":0.25}"#), Some(0.25));
    assert_eq!(cost(r#"{"type":"result","cost_usd":0.5}"#), Some(0.5));
    assert_eq!(cost(r#"{"type":"result","total_cost_usd":1.5,"cost_usd":0.5}"#), Some(1.5));
    assert_eq!(cost(r#"{"type":"result"}"#), None);
    assert_eq!(cost(r#"{"type":"result","total_cost_usd":"x","cost_usd":0.5}"#), None);
}

#[test]
fn a_request_for_permission_is_read() {
    let line = r#"{"type":"control_request","request_id":"r1",
        "request":{"tool_name":"Bash","input":{"command":"ls"}}}"#;
    let req = request_of(parse_stream_line(line));
    assert_eq!(req.request_id, "r1");
    assert_eq!(req.tool_name, "Bash");
    assert_eq!(req.input_preview, "{\n  \"command\": \"ls\"\n}");
    assert!(req.questions.is_empty());
    assert_eq!(req.raw_input.unwrap().text_at("command"), Some("ls"));
}

#[test]
fn a_request_may_name_its_tool_inside() {
    let line = r#"{"type":"control_request","request":{"tool":{"name":"Edit","input":{"a":1}}}}"#;
    let req = request_of(parse_stream_line(line));
    assert_eq!(req.request_id, "");
    assert_eq!(req.tool_name, "Edit");
    assert!(req.raw_input.is_some());
    let bare = request_of(parse_stream_line(r#"{"type":"control_request"}"#));
    assert_eq!(bare.tool_name, "unknown");
    assert_eq!(bare.input_preview, "");
    assert!(bare.raw_input.is_none());
}

#[test]
fn questions_are_read_with_their_options() {
    let line = r#"{"type":"control_request","request_id":"q","request":{
        "tool_name":"AskUserQuestion","input":{"questions":[
          {"question":"Which?","header":"H","multiSelect":true,"options":[
             {"label":"A","description":"first"},{"label":"B"},{"description":"no label"}]},
          {"header":"no question"}]}}}"#;
    let req = request_of(parse_stream_line(line));
    assert_eq!(req.questions.len(), 1);
    let q = &req.questions[0];
    assert_eq!(q.question, "Which?");
    assert_eq!(q.header, "H");
    assert!(q.multi_select);
    assert_eq!(q.options.len(), 2);
    assert_eq!(q.options[0].description, "first");
    assert_eq!(q.options[1].label, "B");
    assert_eq!(q.options[1].description, "");
}

#[test]
fn a_prompt_is_one_line_of_json() {
    let out = send_prompt_to_process("say \"hi\"\nplease", Some("sid"));
    assert!(out.line.ends_with('\n'));
    assert_eq!(out.line.matches('\n').count(), 1);
    let val = parse(out.line.trim_end()).unwrap();
    assert_eq!(val.text_at("type"), Some("user"));
    assert_eq!(val.text_at("session_id"), Some("sid"));
    assert!(matches!(val.get("parent_tool_use_id"), Some(Json::Null)));
    let message = val.get("message").unwrap();
    assert_eq!(message.text_at("role"), Some("user"));
    assert_eq!(message.text_at("content"), Some("say \"hi\"\nplease"));
    assert_eq!(out.logs.len(), 1);
    assert!(out.logs[0].starts_with("[send_prompt] {"));
}

#[test]
fn a_prompt_without_a_session_has_the_default_one() {
    let out = send_prompt_to_process("x", None);
    let val = parse(out.line.trim_end()).unwrap();
    assert_eq!(val.text_at("session_id"), Some("default"));
}

fn answer(out: &str) -> Json {
    let val = parse(out.trim_end()).unwrap();
    assert_eq!(val.text_at("type"), Some("control_response"));
    let response = val.get("response").unwrap();
    assert_eq!(response.text_at("subtype"), Some("success"));
    assert_eq!(response.text_at("request_id"), Some("r9"));
    response.get("response").unwrap().copy()
}

#[test]
fn allowing_always_carries_an_input() {
    let input = Json::object().with("command", Json::text("ls"));
    let out = send_permission_response("r9", true, Some(input), None);
    let a = answer(&out.line);
    assert_eq!(a.text_at("behavior"), Some("allow"));
    assert_eq!(a.get("updatedInput").unwrap().text_at("command"), Some("ls"));
    assert!(matches!(a.get("updatedPermissions"), Some(Json::Array(v)) if v.is_empty()));
    assert_eq!(out.logs.len(), 1);

    let out = send_permission_response("r9", true, None, None);
    let a = answer(&out.line);
    assert!(matches!(a.get("updatedInput"), Some(Json::Object(v)) if v.is_empty()));
    assert_eq!(
        out.logs[0],
        "[ctrl_resp] WARNING: no updatedInput for allow, using empty object"
    );
}

#[test]
fn denying_carries_a_reason() {
    let out = send_permission_response("r9", false, None, Some("no"));
    let a = answer(&out.line);
    assert_eq!(a.text_at("behavior"), Some("deny"));
    assert_eq!(a.text_at("message"), Some("no"));
    let out = send_permission_response("r9", false, None, None);
    assert_eq!(answer(&out.line).text_at("message"), Some("User denied this action"));
}

#[test]
fn the_arguments_of_the_process() {
    let spawn = spawn_session_process("helper", "id-1", false, Some("/w".to_string()));
    assert_eq!((spawn.program.as_str(), spawn.workdir), ("helper", Some("/w".to_string())));
    let args = spawn.args;
    assert_eq!(
        args,
        vec![
            "-p", "--output-format", "stream-json", "--input-format", "stream-json", "--verbose",
            "--permission-prompt-tool", "stdio", "--session-id", "id-1",
        ]
    );
    let args = spawn_session_process("helper", "id-1", true, None).args;
    assert_eq!(args[8..], ["--resume".to_string(), "id-1".to_string()]);
}

#[test]
fn output_lines_are_logged_and_blank_ones_skipped() {
    assert!(read_output_line("  ").is_none());
    let line = r#"{"type":"system","subtype":"x"}"#;
    let out = read_output_line(line).unwrap();
    assert_eq!(out.log.unwrap(), format!("[stream] type=system sub=x | {}", line));
    let out = read_output_line("{}").unwrap();
    assert_eq!(out.log.unwrap(), "[stream] type=? sub= | {}");
    let out = read_output_line("plain").unwrap();
    assert!(out.log.is_none());
    assert_eq!(stderr_of(out.event), "[raw] plain");
    assert!(read_error_line(String::new()).is_none());
    assert_eq!(stderr_of(read_error_line(" x".to_string()).unwrap()), " x");
}
