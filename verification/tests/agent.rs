//! The command line agent.

use imagent::gemini::{MAX_PROMPT_BYTES, parse_line, pick_approval, run_arguments, GeminiBackend, ParsedEvent, PermissionCapability};

#[test]
fn approval_plan_read_only_by_default() {
    assert_eq!(pick_approval(&[]), ("auto_edit", false));
    assert_eq!(pick_approval(&["*".into()]), ("auto_edit", false));
    assert_eq!(
        pick_approval(&["Read".into(), "Grep".into()]),
        ("plan", true)
    );
}

#[test]
fn approval_auto_edit_when_edit_present() {
    assert_eq!(
        pick_approval(&["Read".into(), "Edit".into()]),
        ("auto_edit", false)
    );
    assert_eq!(pick_approval(&["Bash".into()]), ("auto_edit", false));
    assert_eq!(pick_approval(&["MultiEdit".into()]), ("auto_edit", false));
}

#[test]
fn permission_capability_is_native_only() {
    assert_eq!(
        GeminiBackend::new().permission_capability(),
        PermissionCapability::NativeOnly
    );
}

#[test]
fn never_yolo() {
    let (mode, _) = pick_approval(&["Edit".into(), "Write".into(), "Bash".into()]);
    assert_ne!(mode, "yolo");
}

#[test]
fn name_is_gemini() {
    assert_eq!(GeminiBackend::new().name(), "gemini");
}

#[test]
fn oversized_prompt_rejected_before_spawn() {
    let long = "x".repeat(MAX_PROMPT_BYTES + 1);
    let err = run_arguments(&long, None, &[]).unwrap_err();
    let msg = err.message().to_string();
    assert!(msg.contains("prompt 过长"), "msg={msg}");
    assert!(msg.contains("stdin"), "msg={msg}");
}

#[test]
fn threshold_is_max_prompt_bytes() {
    assert_eq!(MAX_PROMPT_BYTES, 64 * 1024);
}

#[test]
fn empty_line_is_skip() {
    assert_eq!(parse_line(""), ParsedEvent::Skip);
    assert_eq!(parse_line("   \n"), ParsedEvent::Skip);
}

#[test]
fn non_json_is_skip() {
    assert_eq!(parse_line("not json at all"), ParsedEvent::Skip);
    assert_eq!(parse_line("{ broken"), ParsedEvent::Skip);
}

#[test]
fn init_with_model() {
    let line = r#"{"type":"init","session_id":"abc123def","model":"gemini-2.5-pro","timestamp":"..."}"#;
    assert_eq!(
        parse_line(line),
        ParsedEvent::Init {
            session_id: "abc123def".into(),
            model: Some("gemini-2.5-pro".into()),
        }
    );
}

#[test]
fn init_without_model() {
    let line = r#"{"type":"init","session_id":"abc123def"}"#;
    assert_eq!(
        parse_line(line),
        ParsedEvent::Init {
            session_id: "abc123def".into(),
            model: None,
        }
    );
}

#[test]
fn init_missing_session_id() {
    let line = r#"{"type":"init"}"#;
    assert_eq!(
        parse_line(line),
        ParsedEvent::Init {
            session_id: "".into(),
            model: None,
        }
    );
}

#[test]
fn assistant_message() {
    let line = r#"{"type":"message","role":"assistant","content":"The output `hello`.","timestamp":"..."}"#;
    assert_eq!(
        parse_line(line),
        ParsedEvent::AssistantMessage {
            text: "The output `hello`.".into()
        }
    );
}

#[test]
fn assistant_message_with_delta() {
    let line = r#"{"type":"message","role":"assistant","content":"partial","delta":true}"#;
    assert_eq!(
        parse_line(line),
        ParsedEvent::AssistantMessage {
            text: "partial".into()
        }
    );
}

#[test]
fn user_message_is_other() {
    let line = r#"{"type":"message","role":"user","content":"do something"}"#;
    assert_eq!(parse_line(line), ParsedEvent::Other);
}

#[test]
fn tool_use() {
    let line = r#"{"type":"tool_use","tool_name":"read_file","tool_id":"tool_1","parameters":{"file_path":"x"},"timestamp":"..."}"#;
    assert_eq!(
        parse_line(line),
        ParsedEvent::ToolUse {
            tool: "read_file".into(),
            input: r#"{"file_path":"x"}"#.into()
        }
    );
}

#[test]
fn tool_use_missing_parameters() {
    let line = r#"{"type":"tool_use","tool_name":"list_dir","tool_id":"t2"}"#;
    assert_eq!(
        parse_line(line),
        ParsedEvent::ToolUse {
            tool: "list_dir".into(),
            input: "".into()
        }
    );
}

#[test]
fn tool_result_success_with_tool_name() {
    let line = r#"{"type":"tool_result","tool_id":"tool_1","tool_name":"read_file","status":"success","output":"hello","timestamp":"..."}"#;
    assert_eq!(
        parse_line(line),
        ParsedEvent::ToolResult {
            tool: "read_file".into(),
            output: "hello".into()
        }
    );
}

#[test]
fn tool_result_without_tool_name() {
    let line =
        r#"{"type":"tool_result","tool_id":"tool_1","status":"success","output":"hello"}"#;
    assert_eq!(
        parse_line(line),
        ParsedEvent::ToolResult {
            tool: "tool_1".into(),
            output: "hello".into()
        }
    );
}

#[test]
fn tool_result_non_success_status() {
    let line = r#"{"type":"tool_result","tool_id":"tool_2","tool_name":"run_cmd","status":"error","output":"command failed"}"#;
    assert_eq!(
        parse_line(line),
        ParsedEvent::ToolResult {
            tool: "run_cmd".into(),
            output: "command failed\n[status: error]".into()
        }
    );
}

#[test]
fn tool_result_non_success_empty_output() {
    let line = r#"{"type":"tool_result","tool_id":"tool_3","status":"error"}"#;
    assert_eq!(
        parse_line(line),
        ParsedEvent::ToolResult {
            tool: "tool_3".into(),
            output: "[status: error]".into()
        }
    );
}

#[test]
fn tool_result_falls_back_to_default() {
    let line = r#"{"type":"tool_result","status":"success","output":"x"}"#;
    assert_eq!(
        parse_line(line),
        ParsedEvent::ToolResult {
            tool: "tool".into(),
            output: "x".into()
        }
    );
}

#[test]
fn result_success() {
    let line = r#"{"type":"result","status":"success","stats":{"input_tokens":100,"output_tokens":50},"timestamp":"..."}"#;
    assert_eq!(parse_line(line), ParsedEvent::Result);
}

#[test]
fn error_event() {
    let line = r#"{"type":"error","message":"API key invalid","timestamp":"..."}"#;
    assert_eq!(
        parse_line(line),
        ParsedEvent::Error {
            message: "API key invalid".into()
        }
    );
}

#[test]
fn error_event_missing_message() {
    let line = r#"{"type":"error"}"#;
    assert_eq!(
        parse_line(line),
        ParsedEvent::Error {
            message: "error".into()
        }
    );
}

#[test]
fn unknown_type_is_other() {
    let line = r#"{"type":"some_future_event","foo":"bar"}"#;
    assert_eq!(parse_line(line), ParsedEvent::Other);
}
