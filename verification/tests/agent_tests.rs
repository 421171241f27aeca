use redpill::agent::connection::{cli_args, line_to_parse, ConnectionError, Result, SessionInfo};
use redpill::agent::protocol::{
    parse_output_message, AssistantMessage, ContentBlock, OutputMessage, SessionUpdate, ToolCall,
    ToolCallStatus, ToolKind, UserInput,
};
use redpill::doc::JsonValue;
use redpill::ui::agent_panel::{
    expand_terminal_context, AgentConnectionState, AgentPanel, MessageRole, PermissionMode,
};

#[test]
fn test_session_info_construction() {
    let info = SessionInfo {
        session_id: "session_123".into(),
        model: "sonnet-4-20250514".into(),
        tools: vec!["Read".into(), "Write".into(), "Bash".into()],
    };
    assert_eq!(info.session_id, "session_123");
    assert_eq!(info.model, "sonnet-4-20250514");
    assert_eq!(info.tools.len(), 3);
}

#[test]
fn test_session_info_clone() {
    let info = SessionInfo {
        session_id: "test".into(),
        model: "model".into(),
        tools: vec!["Read".into()],
    };
    let cloned = info.clone();
    assert_eq!(cloned.session_id, info.session_id);
    assert_eq!(cloned.model, info.model);
    assert_eq!(cloned.tools, info.tools);
}

#[test]
fn test_session_info_debug() {
    let info = SessionInfo {
        session_id: "debug_test".into(),
        model: "test_model".into(),
        tools: vec![],
    };
    let debug = format!("{:?}", info);
    assert!(debug.contains("debug_test"));
    assert!(debug.contains("test_model"));
}

#[test]
fn test_session_info_with_empty_fields() {
    let info = SessionInfo { session_id: String::new(), model: String::new(), tools: vec![] };
    assert!(info.session_id.is_empty());
    assert!(info.model.is_empty());
    assert!(info.tools.is_empty());
}

#[test]
fn test_session_info_with_many_tools() {
    let tools: Vec<String> = vec![
        "Read", "Write", "Edit", "Bash", "Glob", "Grep",
        "WebFetch", "WebSearch", "Task", "NotebookEdit",
    ].into_iter().map(String::from).collect();
    let info = SessionInfo {
        session_id: "full_session".into(),
        model: "opus-4-20250514".into(),
        tools,
    };
    assert_eq!(info.tools.len(), 10);
    assert!(info.tools.contains(&"Bash".to_string()));
    assert!(info.tools.contains(&"NotebookEdit".to_string()));
}

#[test]
fn test_result_type_alias() {
    fn example_function() -> Result<String> {
        Ok("success".into())
    }
    let result = example_function();
    assert!(result.is_ok());
    assert_eq!(result.unwrap(), "success");
}

#[test]
fn test_result_type_with_error() {
    fn failing_function() -> Result<String> {
        Err(ConnectionError::ConnectionClosed)
    }
    let result = failing_function();
    assert!(result.is_err());
}

#[test]
fn test_tool_kind_from_str() {
    assert_eq!(ToolKind::from("Bash"), ToolKind::Bash);
    assert_eq!(ToolKind::from("Read"), ToolKind::Read);
    assert_eq!(ToolKind::from("Edit"), ToolKind::Edit);
    assert_eq!(ToolKind::from("Write"), ToolKind::Create);
    assert_eq!(ToolKind::from("Glob"), ToolKind::Search);
    assert_eq!(ToolKind::from("WebFetch"), ToolKind::Web);
    assert_eq!(ToolKind::from("Unknown"), ToolKind::Unknown);
}

#[test]
fn test_tool_kind_case_insensitive() {
    assert_eq!(ToolKind::from("bash"), ToolKind::Bash);
    assert_eq!(ToolKind::from("BASH"), ToolKind::Bash);
    assert_eq!(ToolKind::from("BaSh"), ToolKind::Bash);
}

#[test]
fn test_tool_kind_all_mappings() {
    assert_eq!(ToolKind::from("bash"), ToolKind::Bash);
    assert_eq!(ToolKind::from("execute"), ToolKind::Execute);
    assert_eq!(ToolKind::from("task"), ToolKind::Execute);
    assert_eq!(ToolKind::from("read"), ToolKind::Read);
    assert_eq!(ToolKind::from("edit"), ToolKind::Edit);
    assert_eq!(ToolKind::from("write"), ToolKind::Create);
    assert_eq!(ToolKind::from("glob"), ToolKind::Search);
    assert_eq!(ToolKind::from("grep"), ToolKind::Search);
    assert_eq!(ToolKind::from("webfetch"), ToolKind::Web);
    assert_eq!(ToolKind::from("websearch"), ToolKind::Web);
}

#[test]
fn test_tool_call_status_equality() {
    assert_eq!(ToolCallStatus::Pending, ToolCallStatus::Pending);
    assert_ne!(ToolCallStatus::Pending, ToolCallStatus::Completed);
}

#[test]
fn test_tool_call_construction() {
    let tool_call = ToolCall {
        tool_call_id: "test_id".into(),
        title: "Read file".into(),
        kind: ToolKind::Read,
        status: ToolCallStatus::Pending,
        content: Some("file.txt".into()),
    };
    assert_eq!(tool_call.tool_call_id, "test_id");
    assert_eq!(tool_call.kind, ToolKind::Read);
    assert_eq!(tool_call.status, ToolCallStatus::Pending);
}

#[test]
fn test_tool_call_lifecycle() {
    let mut tool_call = ToolCall {
        tool_call_id: "toolu_test".into(),
        title: "Reading file...".into(),
        kind: ToolKind::Read,
        status: ToolCallStatus::Pending,
        content: None,
    };
    assert_eq!(tool_call.status, ToolCallStatus::Pending);
    tool_call.status = ToolCallStatus::InProgress;
    assert_eq!(tool_call.status, ToolCallStatus::InProgress);
    tool_call.status = ToolCallStatus::Completed;
    tool_call.content = Some("File contents here...".into());
    assert_eq!(tool_call.status, ToolCallStatus::Completed);
    assert!(tool_call.content.is_some());
}

#[test]
fn test_tool_kind_for_common_tools() {
    assert_eq!(ToolKind::from("Read"), ToolKind::Read);
    assert_eq!(ToolKind::from("Write"), ToolKind::Create);
    assert_eq!(ToolKind::from("Edit"), ToolKind::Edit);
    assert_eq!(ToolKind::from("Bash"), ToolKind::Bash);
    assert_eq!(ToolKind::from("Glob"), ToolKind::Search);
    assert_eq!(ToolKind::from("Grep"), ToolKind::Search);
    assert_eq!(ToolKind::from("WebFetch"), ToolKind::Web);
    assert_eq!(ToolKind::from("WebSearch"), ToolKind::Web);
    assert_eq!(ToolKind::from("Task"), ToolKind::Execute);
}

fn message(msg_type: &str) -> OutputMessage {
    OutputMessage {
        msg_type: msg_type.to_string(),
        subtype: None,
        session_id: None,
        model: None,
        tools: None,
        message: None,
        result: None,
        is_error: None,
        cwd: None,
    }
}

#[test]
fn test_output_message_init() {
    let mut msg = message("system");
    msg.subtype = Some("init".into());
    msg.session_id = Some("abc123".into());
    msg.model = Some("sonnet".into());
    msg.tools = Some(vec!["Read".into(), "Write".into()]);
    let updates = parse_output_message(msg);
    assert_eq!(updates.len(), 1);
    match &updates[0] {
        SessionUpdate::SessionInit { session_id, model, tools } => {
            assert_eq!(session_id, "abc123");
            assert_eq!(model, "sonnet");
            assert_eq!(tools.len(), 2);
        },
        _ => panic!("expected a session start"),
    }
}

#[test]
fn test_init_with_missing_optional_fields() {
    let mut msg = message("system");
    msg.subtype = Some("init".into());
    let updates = parse_output_message(msg);
    match &updates[0] {
        SessionUpdate::SessionInit { session_id, model, tools } => {
            assert_eq!(session_id, "");
            assert_eq!(model, "");
            assert!(tools.is_empty());
        },
        _ => panic!("expected a session start"),
    }
}

#[test]
fn test_system_message_without_init_subtype() {
    let mut msg = message("system");
    msg.subtype = Some("other".into());
    assert!(parse_output_message(msg).is_empty());
}

#[test]
fn test_multiple_content_blocks() {
    let mut msg = message("assistant");
    msg.message = Some(AssistantMessage {
        id: None,
        model: None,
        role: None,
        stop_reason: None,
        content: vec![
            ContentBlock::Text { text: "First".into() },
            ContentBlock::ToolUse { id: "t1".into(), name: "Bash".into(), input: JsonValue::Object(vec![]) },
            ContentBlock::ToolResult { tool_use_id: "t1".into(), content: JsonValue::Null },
            ContentBlock::Text { text: "Second".into() },
        ],
    });
    let updates = parse_output_message(msg);
    assert_eq!(updates.len(), 3);
    assert!(matches!(&updates[0], SessionUpdate::AssistantText { text } if text == "First"));
    assert!(matches!(&updates[1], SessionUpdate::ToolUse { tool_id, tool_name, .. } if tool_id == "t1" && tool_name == "Bash"));
    assert!(matches!(&updates[2], SessionUpdate::AssistantText { text } if text == "Second"));
}

#[test]
fn test_assistant_message_without_message_field() {
    assert!(parse_output_message(message("assistant")).is_empty());
}

#[test]
fn test_output_message_result() {
    let mut msg = message("result");
    msg.result = Some("Done!".into());
    msg.is_error = Some(false);
    let updates = parse_output_message(msg);
    assert!(matches!(&updates[0], SessionUpdate::MessageComplete { result } if result == "Done!"));
}

#[test]
fn test_output_message_error() {
    let mut msg = message("result");
    msg.result = Some("Something failed".into());
    msg.is_error = Some(true);
    let updates = parse_output_message(msg);
    assert!(matches!(&updates[0], SessionUpdate::Error { message } if message == "Something failed"));
}

#[test]
fn test_error_without_result_field() {
    let mut msg = message("result");
    msg.is_error = Some(true);
    let updates = parse_output_message(msg);
    assert!(matches!(&updates[0], SessionUpdate::Error { message } if message == "Unknown error"));
}

#[test]
fn test_unknown_message_type() {
    assert!(parse_output_message(message("user")).is_empty());
}

#[test]
fn user_input_wraps_content() {
    let input = UserInput::new("Hello");
    assert_eq!(input.msg_type, "user");
    assert_eq!(input.message.role, "user");
    assert_eq!(input.message.content, "Hello");
}

#[test]
fn panel_connect_sequence() {
    let mut panel = AgentPanel::new();
    assert_eq!(panel.permission_mode(), PermissionMode::BypassPermissions);
    let args = panel.begin_connect().unwrap();
    assert_eq!(args, vec!["--dangerously-skip-permissions"]);
    assert!(matches!(panel.connection_state(), AgentConnectionState::Connecting));
    assert!(panel.begin_connect().is_none());
    panel.connect_succeeded();
    panel.handle_update(SessionUpdate::SessionInit {
        session_id: "s".into(),
        model: "model-x".into(),
        tools: vec![],
    });
    assert!(matches!(panel.connection_state(), AgentConnectionState::Connected));
    assert_eq!(panel.messages().len(), 1);
    assert_eq!(panel.messages()[0].content, "Connected (model-x)");
    // The reply to the internal first prompt is skipped.
    panel.handle_update(SessionUpdate::AssistantText { text: "ignored".into() });
    assert_eq!(panel.messages().len(), 1);
    panel.handle_update(SessionUpdate::MessageComplete { result: String::new() });
    panel.handle_update(SessionUpdate::AssistantText { text: "Hel".into() });
    panel.handle_update(SessionUpdate::AssistantText { text: "lo".into() });
    assert_eq!(panel.messages().len(), 2);
    assert_eq!(panel.messages()[1].content, "Hello");
    assert_eq!(panel.messages()[1].role, MessageRole::Assistant);
}

#[test]
fn panel_tool_use_titles() {
    let mut panel = AgentPanel::new();
    let input = JsonValue::Object(vec![("command".to_string(), JsonValue::Text("ls -la".into()))]);
    panel.handle_update(SessionUpdate::ToolUse { tool_id: "t".into(), tool_name: "Bash".into(), input });
    let input2 = JsonValue::Object(vec![("file_path".to_string(), JsonValue::Number("3".into()))]);
    panel.handle_update(SessionUpdate::ToolUse { tool_id: "u".into(), tool_name: "Read".into(), input: input2 });
    let calls = panel.pending_tool_calls();
    assert_eq!(calls.len(), 2);
    assert_eq!(calls[0].title, "Bash: ls -la");
    assert_eq!(calls[0].kind, ToolKind::Bash);
    assert_eq!(calls[0].status, ToolCallStatus::InProgress);
    assert_eq!(calls[1].title, "Read: ...");
    panel.handle_update(SessionUpdate::MessageComplete { result: String::new() });
    assert!(panel.pending_tool_calls().is_empty());
}

#[test]
fn panel_error_and_input() {
    let mut panel = AgentPanel::new();
    assert!(panel.submit_input("   ").is_none());
    assert_eq!(panel.submit_input("  hi there ").unwrap(), "hi there");
    panel.message_sent();
    assert!(panel.awaiting_response());
    panel.tick();
    panel.tick();
    panel.tick();
    assert_eq!(panel.thinking_dots(), 0);
    panel.handle_update(SessionUpdate::Error { message: "boom".into() });
    assert!(!panel.awaiting_response());
    let last = panel.messages().last().unwrap();
    assert_eq!(last.content, "Error: boom");
    assert_eq!(last.id, 1);
}

#[test]
fn panel_permission_mode_cycles_only_when_disconnected() {
    let mut panel = AgentPanel::new();
    assert_eq!(panel.permission_mode_label(), "Bypass");
    panel.cycle_permission_mode();
    assert_eq!(panel.permission_mode_label(), "Plan");
    panel.cycle_permission_mode();
    assert_eq!(panel.permission_mode_label(), "Default");
    panel.begin_connect();
    panel.cycle_permission_mode();
    assert_eq!(panel.permission_mode(), PermissionMode::Default);
    panel.connect_failed("no cli".to_string());
    assert_eq!(panel.messages().last().unwrap().content, "Failed: no cli");
}

#[test]
fn terminal_mentions_expand() {
    assert_eq!(
        expand_terminal_context("see @terminal now", Some("$ ls")),
        "see <terminal_output>\n$ ls\n</terminal_output> now"
    );
    assert_eq!(expand_terminal_context("@terminal@terminal", None), "[No active terminal][No active terminal]");
    assert_eq!(expand_terminal_context("plain", None), "plain");
}

#[test]
fn command_tags_are_found() {
    let cmds = redpill::ui::agent_panel::parse_commands("run <cmd> ls -la </cmd> then <cmd>  </cmd> and <cmd>pwd</cmd>");
    assert_eq!(cmds.len(), 2);
    assert_eq!(cmds[0].2, "ls -la");
    assert_eq!(cmds[0].0, 4);
    assert_eq!(cmds[0].1, 23);
    assert_eq!(cmds[1].2, "pwd");
}

#[test]
fn cli_arguments_put_extra_flags_last() {
    assert_eq!(
        cli_args(&[]),
        vec!["--print", "--input-format", "stream-json", "--output-format", "stream-json", "--verbose"]
    );
    let args = cli_args(&["--permission-mode", "plan"]);
    assert_eq!(args.len(), 8);
    assert_eq!(&args[6..], &["--permission-mode", "plan"]);
}

#[test]
fn reader_skips_blank_lines() {
    assert_eq!(line_to_parse(""), None);
    assert_eq!(line_to_parse("  \t\r"), None);
    assert_eq!(line_to_parse("  {\"type\":\"system\"}\r"), Some("{\"type\":\"system\"}".to_string()));
}
