use redpill::agent::connection::{ConnectionError, SessionInfo};
use redpill::agent::protocol::{
    parse_output_message, AssistantMessage, ContentBlock, OutputMessage, SessionUpdate, UserInput,
};
use redpill::doc::JsonValue;

fn to_doc(v: &serde_json::Value) -> JsonValue {
    match v {
        serde_json::Value::Null => JsonValue::Null,
        serde_json::Value::Bool(b) => JsonValue::Bool(*b),
        serde_json::Value::Number(n) => JsonValue::Number(n.to_string()),
        serde_json::Value::String(s) => JsonValue::Text(s.clone()),
        serde_json::Value::Array(a) => JsonValue::Array(a.iter().map(to_doc).collect()),
        serde_json::Value::Object(o) => {
            JsonValue::Object(o.iter().map(|(k, v)| (k.clone(), to_doc(v))).collect())
        },
    }
}

fn text_member(v: &serde_json::Value, key: &str) -> Option<String> {
    v.get(key).and_then(|x| x.as_str()).map(String::from)
}

fn content_block(v: &serde_json::Value) -> ContentBlock {
    match v.get("type").and_then(|t| t.as_str()) {
        Some("text") => ContentBlock::Text { text: text_member(v, "text").unwrap_or_default() },
        Some("tool_use") => ContentBlock::ToolUse {
            id: text_member(v, "id").unwrap_or_default(),
            name: text_member(v, "name").unwrap_or_default(),
            input: v.get("input").map(to_doc).unwrap_or(JsonValue::Null),
        },
        Some("tool_result") => ContentBlock::ToolResult {
            tool_use_id: text_member(v, "tool_use_id").unwrap_or_default(),
            content: v.get("content").map(to_doc).unwrap_or(JsonValue::Null),
        },
        _ => ContentBlock::Unknown,
    }
}

/// An output line read into the protocol's types; `None` when it is not JSON or has no type.
fn read_line(line: &str) -> Option<OutputMessage> {
    let v: serde_json::Value = serde_json::from_str(line).ok()?;
    let msg_type = text_member(&v, "type")?;
    let message = v.get("message").filter(|m| m.is_object()).map(|m| AssistantMessage {
        id: text_member(m, "id"),
        model: text_member(m, "model"),
        role: text_member(m, "role"),
        content: m
            .get("content")
            .and_then(|c| c.as_array())
            .map(|a| a.iter().map(content_block).collect())
            .unwrap_or_default(),
        stop_reason: text_member(m, "stop_reason"),
    });
    Some(OutputMessage {
        msg_type,
        subtype: text_member(&v, "subtype"),
        session_id: text_member(&v, "session_id"),
        message,
        result: text_member(&v, "result"),
        is_error: v.get("is_error").and_then(|b| b.as_bool()),
        tools: v.get("tools").and_then(|t| t.as_array()).map(|a| {
            a.iter().filter_map(|x| x.as_str().map(String::from)).collect()
        }),
        model: text_member(&v, "model"),
        cwd: text_member(&v, "cwd"),
    })
}

fn member_text<'a>(v: &'a JsonValue, key: &str) -> Option<&'a str> {
    v.get(key).and_then(|x| x.as_str())
}

#[test]
fn test_real_init_message() {
    let json = r#"{
        "type": "system",
        "subtype": "init",
        "session_id": "session-abc123def456",
        "model": "sonnet-4-20250514",
        "tools": ["Read", "Write", "Edit", "Bash", "Glob", "Grep", "WebFetch", "WebSearch", "Task"],
        "cwd": "/Users/test/project"
    }"#;
    let msg = read_line(json).unwrap();
    assert_eq!(msg.msg_type, "system");
    assert_eq!(msg.subtype.as_deref(), Some("init"));
    assert_eq!(msg.session_id.as_deref(), Some("session-abc123def456"));
    assert_eq!(msg.model.as_deref(), Some("sonnet-4-20250514"));
    assert_eq!(msg.cwd.as_deref(), Some("/Users/test/project"));
    assert_eq!(msg.tools.as_ref().unwrap().len(), 9);
    let updates = parse_output_message(msg);
    assert_eq!(updates.len(), 1);
    match &updates[0] {
        SessionUpdate::SessionInit { session_id, model, tools } => {
            assert_eq!(session_id, "session-abc123def456");
            assert_eq!(model, "sonnet-4-20250514");
            assert!(tools.contains(&"Bash".to_string()));
        },
        _ => panic!("Expected SessionInit"),
    }
}

#[test]
fn test_init_with_empty_tools() {
    let json = r#"{"type":"system","subtype":"init","session_id":"test","model":"model","tools":[]}"#;
    let updates = parse_output_message(read_line(json).unwrap());
    match &updates[0] {
        SessionUpdate::SessionInit { tools, .. } => assert!(tools.is_empty()),
        _ => panic!("Expected SessionInit"),
    }
}

#[test]
fn test_output_message_assistant() {
    let json = r#"{"type":"assistant","message":{"content":[{"type":"text","text":"Hello!"}]}}"#;
    let msg = read_line(json).unwrap();
    assert_eq!(msg.msg_type, "assistant");
    let updates = parse_output_message(msg);
    assert_eq!(updates.len(), 1);
    match &updates[0] {
        SessionUpdate::AssistantText { text } => assert_eq!(text, "Hello!"),
        _ => panic!("Expected AssistantText"),
    }
}

#[test]
fn test_tool_use_with_complex_input() {
    let json = r#"{
        "type": "assistant",
        "message": {
            "content": [
                {
                    "type": "tool_use",
                    "id": "tool_456",
                    "name": "Edit",
                    "input": {
                        "file_path": "/src/main.rs",
                        "old_string": "fn main() {}",
                        "new_string": "fn main() {\n    println!(\"Hello\");\n}",
                        "replace_all": false
                    }
                }
            ]
        }
    }"#;
    let updates = parse_output_message(read_line(json).unwrap());
    assert_eq!(updates.len(), 1);
    match &updates[0] {
        SessionUpdate::ToolUse { tool_name, input, .. } => {
            assert_eq!(tool_name, "Edit");
            assert_eq!(member_text(input, "file_path"), Some("/src/main.rs"));
            assert_eq!(input.get("replace_all").and_then(|b| b.as_bool()), Some(false));
        },
        _ => panic!("Expected ToolUse"),
    }
}

#[test]
fn test_tool_use_with_nested_json_input() {
    let json = r#"{
        "type": "assistant",
        "message": {
            "content": [
                {
                    "type": "tool_use",
                    "id": "tool_789",
                    "name": "Bash",
                    "input": {
                        "command": "echo '{\"key\": \"value\"}'",
                        "timeout": 30000
                    }
                }
            ]
        }
    }"#;
    let updates = parse_output_message(read_line(json).unwrap());
    match &updates[0] {
        SessionUpdate::ToolUse { input, .. } => {
            assert!(member_text(input, "command").unwrap().contains("key"));
        },
        _ => panic!("Expected ToolUse"),
    }
}

#[test]
fn test_real_assistant_message_with_tool_use() {
    let json = r#"{
        "type": "assistant",
        "message": {
            "id": "msg_01XYZ",
            "model": "sonnet-4-20250514",
            "role": "assistant",
            "content": [
                {"type": "text", "text": "I'll read the configuration file to understand the project structure."},
                {
                    "type": "tool_use",
                    "id": "toolu_01ABC",
                    "name": "Read",
                    "input": {"file_path": "/Users/test/project/Cargo.toml"}
                }
            ],
            "stop_reason": "tool_use"
        }
    }"#;
    let msg = read_line(json).unwrap();
    let message = msg.message.as_ref().unwrap();
    assert_eq!(message.id.as_deref(), Some("msg_01XYZ"));
    assert_eq!(message.model.as_deref(), Some("sonnet-4-20250514"));
    assert_eq!(message.stop_reason.as_deref(), Some("tool_use"));
    let updates = parse_output_message(msg);
    assert_eq!(updates.len(), 2);
}

#[test]
fn test_streaming_text_chunks() {
    let chunks = vec![
        r#"{"type":"assistant","message":{"content":[{"type":"text","text":"Hello"}]}}"#,
        r#"{"type":"assistant","message":{"content":[{"type":"text","text":" world"}]}}"#,
        r#"{"type":"assistant","message":{"content":[{"type":"text","text":"!"}]}}"#,
    ];
    let mut full_text = String::new();
    for chunk in chunks {
        for update in parse_output_message(read_line(chunk).unwrap()) {
            if let SessionUpdate::AssistantText { text } = update {
                full_text.push_str(&text);
            }
        }
    }
    assert_eq!(full_text, "Hello world!");
}

#[test]
fn test_empty_content_array() {
    let json = r#"{"type":"assistant","message":{"content":[]}}"#;
    assert!(parse_output_message(read_line(json).unwrap()).is_empty());
}

#[test]
fn test_tool_result_parsing() {
    let json = r#"{
        "type": "assistant",
        "message": {
            "content": [
                {
                    "type": "tool_result",
                    "tool_use_id": "toolu_01ABC",
                    "content": "File contents here..."
                }
            ]
        }
    }"#;
    assert!(parse_output_message(read_line(json).unwrap()).is_empty());
}

#[test]
fn test_tool_result_with_structured_content() {
    let json = r#"{
        "type": "assistant",
        "message": {
            "content": [
                {
                    "type": "tool_result",
                    "tool_use_id": "toolu_01ABC",
                    "content": {"status": "success", "output": "done"}
                }
            ]
        }
    }"#;
    let msg = read_line(json).unwrap();
    let message = msg.message.as_ref().unwrap();
    match &message.content[0] {
        ContentBlock::ToolResult { tool_use_id, content } => {
            assert_eq!(tool_use_id, "toolu_01ABC");
            assert_eq!(member_text(content, "status"), Some("success"));
        },
        _ => panic!("Expected ToolResult"),
    }
}

#[test]
fn test_unknown_content_block_type() {
    let json = r#"{
        "type": "assistant",
        "message": {
            "content": [
                {"type": "text", "text": "Hello"},
                {"type": "future_new_type", "some_field": "value"},
                {"type": "text", "text": "World"}
            ]
        }
    }"#;
    let msg = read_line(json).unwrap();
    let message = msg.message.as_ref().unwrap();
    assert_eq!(message.content.len(), 3);
    assert!(matches!(message.content[0], ContentBlock::Text { .. }));
    assert!(matches!(message.content[1], ContentBlock::Unknown));
    assert!(matches!(message.content[2], ContentBlock::Text { .. }));
    assert_eq!(parse_output_message(msg).len(), 2);
}

#[test]
fn test_result_with_empty_result_string() {
    let json = r#"{"type":"result","is_error":false,"result":""}"#;
    let updates = parse_output_message(read_line(json).unwrap());
    match &updates[0] {
        SessionUpdate::MessageComplete { result } => assert_eq!(result, ""),
        _ => panic!("Expected MessageComplete"),
    }
}

#[test]
fn test_minimal_message() {
    let msg = read_line(r#"{"type":"unknown"}"#).unwrap();
    assert_eq!(msg.msg_type, "unknown");
    assert!(msg.subtype.is_none());
    assert!(msg.session_id.is_none());
    assert!(msg.message.is_none());
}

#[test]
fn test_extra_fields_ignored() {
    let json = r#"{
        "type": "assistant",
        "unknown_field": "value",
        "another_field": 123,
        "message": {
            "content": [{"type": "text", "text": "Hello"}],
            "extra_message_field": true
        }
    }"#;
    assert_eq!(parse_output_message(read_line(json).unwrap()).len(), 1);
}

#[test]
fn test_session_update_debug_impl() {
    let update = SessionUpdate::AssistantText { text: "Hello".into() };
    let debug = format!("{:?}", update);
    assert!(debug.contains("AssistantText"));
    assert!(debug.contains("Hello"));
}

#[test]
fn test_connection_error_display_io() {
    let io_err = std::io::Error::new(std::io::ErrorKind::NotFound, "file not found");
    let err = ConnectionError::Io(io_err);
    assert!(err.message().contains("IO error"));
}

#[test]
fn test_connection_error_display_json() {
    let json_err = serde_json::from_str::<serde_json::Value>("invalid json {").unwrap_err();
    let err = ConnectionError::Json(json_err);
    assert!(err.message().contains("JSON error"));
}

#[test]
fn test_connection_error_display_closed() {
    assert_eq!(ConnectionError::ConnectionClosed.message(), "Connection closed");
}

#[test]
fn test_connection_error_display_spawn() {
    let err = ConnectionError::SpawnError("Failed to spawn the CLI".into());
    let display = err.message();
    assert!(display.contains("Spawn error"));
    assert!(display.contains("Failed to spawn the CLI"));
}

#[test]
fn test_connection_error_debug() {
    let debug = format!("{:?}", ConnectionError::ConnectionClosed);
    assert!(debug.contains("ConnectionClosed"));
}

#[test]
fn test_connection_error_from_io() {
    let io_err = std::io::Error::new(std::io::ErrorKind::BrokenPipe, "pipe broken");
    let err: ConnectionError = io_err.into();
    assert!(matches!(err, ConnectionError::Io(_)));
}

#[test]
fn test_connection_error_from_json() {
    let json_err = serde_json::from_str::<serde_json::Value>("not json").unwrap_err();
    let err: ConnectionError = json_err.into();
    assert!(matches!(err, ConnectionError::Json(_)));
}

#[test]
fn test_full_conversation_flow() {
    let init_json = r#"{
        "type": "system",
        "subtype": "init",
        "session_id": "session-test-123",
        "model": "sonnet-4-20250514",
        "tools": ["Read", "Write", "Edit", "Bash"],
        "cwd": "/Users/test/project"
    }"#;
    let init_updates = parse_output_message(read_line(init_json).unwrap());
    assert_eq!(init_updates.len(), 1);
    let session_info = match &init_updates[0] {
        SessionUpdate::SessionInit { session_id, model, tools } => {
            assert_eq!(session_id, "session-test-123");
            assert_eq!(model, "sonnet-4-20250514");
            assert_eq!(tools.len(), 4);
            SessionInfo { session_id: session_id.clone(), model: model.clone(), tools: tools.clone() }
        },
        _ => panic!("Expected SessionInit"),
    };

    let user_input = UserInput::new("Hello, assistant!");
    assert!(user_input.message.content.contains("Hello, assistant!"));

    let assistant_json = r#"{
        "type": "assistant",
        "message": {
            "id": "msg_01ABC",
            "model": "sonnet-4-20250514",
            "role": "assistant",
            "content": [
                {"type": "text", "text": "Hello! I'm the assistant. How can I help you today?"}
            ],
            "stop_reason": "end_turn"
        }
    }"#;
    let assistant_updates = parse_output_message(read_line(assistant_json).unwrap());
    assert_eq!(assistant_updates.len(), 1);
    match &assistant_updates[0] {
        SessionUpdate::AssistantText { text } => {
            assert!(text.contains("Hello"));
            assert!(text.contains("assistant"));
        },
        _ => panic!("Expected AssistantText"),
    }

    let result_json = r#"{
        "type": "result",
        "subtype": "success",
        "is_error": false,
        "result": "Task completed successfully",
        "total_cost_usd": 0.0042
    }"#;
    let result_updates = parse_output_message(read_line(result_json).unwrap());
    assert_eq!(result_updates.len(), 1);
    match &result_updates[0] {
        SessionUpdate::MessageComplete { result } => assert!(result.contains("completed")),
        _ => panic!("Expected MessageComplete"),
    }

    assert_eq!(session_info.session_id, "session-test-123");
    assert!(session_info.tools.contains(&"Bash".to_string()));
}

#[test]
fn test_conversation_with_tool_use() {
    let user_input = UserInput::new("Can you read the Cargo.toml file?");
    assert_eq!(user_input.message.content, "Can you read the Cargo.toml file?");
    let response_json = r#"{
        "type": "assistant",
        "message": {
            "content": [
                {"type": "text", "text": "I'll read the Cargo.toml file for you."},
                {
                    "type": "tool_use",
                    "id": "toolu_01XYZ",
                    "name": "Read",
                    "input": {"file_path": "Cargo.toml"}
                }
            ],
            "stop_reason": "tool_use"
        }
    }"#;
    let updates = parse_output_message(read_line(response_json).unwrap());
    assert_eq!(updates.len(), 2);
    match &updates[0] {
        SessionUpdate::AssistantText { text } => {
            assert!(text.contains("read"));
            assert!(text.contains("Cargo.toml"));
        },
        _ => panic!("Expected AssistantText"),
    }
    match &updates[1] {
        SessionUpdate::ToolUse { tool_id, tool_name, input } => {
            assert_eq!(tool_id, "toolu_01XYZ");
            assert_eq!(tool_name, "Read");
            assert_eq!(member_text(input, "file_path"), Some("Cargo.toml"));
        },
        _ => panic!("Expected ToolUse"),
    }
}

#[test]
fn test_error_response_handling() {
    let error_json = r#"{
        "type": "result",
        "subtype": "error",
        "is_error": true,
        "result": "API rate limit exceeded. Please try again in 60 seconds."
    }"#;
    let updates = parse_output_message(read_line(error_json).unwrap());
    assert_eq!(updates.len(), 1);
    match &updates[0] {
        SessionUpdate::Error { message } => assert!(message.contains("rate limit")),
        _ => panic!("Expected Error"),
    }
}

#[test]
fn test_malformed_json_handling() {
    assert!(read_line("not valid json").is_none());
}

#[test]
fn test_partial_json_handling() {
    assert!(read_line(r#"{"type": "assistant""#).is_none());
}

#[test]
fn test_session_info_extraction_from_init() {
    let init_json = r#"{
        "type": "system",
        "subtype": "init",
        "session_id": "sess_abc123",
        "model": "opus-4-20250514",
        "tools": ["Read", "Write", "Edit", "Bash", "Glob", "Grep", "WebFetch", "WebSearch", "Task"],
        "cwd": "/home/user/project"
    }"#;
    let msg = read_line(init_json).unwrap();
    assert_eq!(msg.session_id.as_deref(), Some("sess_abc123"));
    assert_eq!(msg.model.as_deref(), Some("opus-4-20250514"));
    assert_eq!(msg.cwd.as_deref(), Some("/home/user/project"));
    let tools = msg.tools.as_ref().unwrap();
    assert_eq!(tools.len(), 9);
    assert!(tools.contains(&"Task".to_string()));
    let updates = parse_output_message(msg);
    match &updates[0] {
        SessionUpdate::SessionInit { session_id, model, tools } => {
            let info = SessionInfo { session_id: session_id.clone(), model: model.clone(), tools: tools.clone() };
            assert_eq!(info.session_id, "sess_abc123");
            assert_eq!(info.model, "opus-4-20250514");
        },
        _ => panic!("Expected SessionInit"),
    }
}

#[test]
fn test_streaming_assistant_chunks() {
    let chunks = vec![
        r#"{"type":"assistant","message":{"content":[{"type":"text","text":"Here's "}]}}"#,
        r#"{"type":"assistant","message":{"content":[{"type":"text","text":"a simple "}]}}"#,
        r#"{"type":"assistant","message":{"content":[{"type":"text","text":"Rust function:\n\n```rust\nfn hello() {\n    println!(\"Hello!\");\n}\n```"}]}}"#,
    ];
    let mut full_response = String::new();
    for chunk in chunks {
        for update in parse_output_message(read_line(chunk).unwrap()) {
            if let SessionUpdate::AssistantText { text } = update {
                full_response.push_str(&text);
            }
        }
    }
    assert!(full_response.contains("Here's a simple Rust function"));
    assert!(full_response.contains("```rust"));
    assert!(full_response.contains("println!"));
}

#[test]
fn test_all_content_block_types() {
    let json = r#"{
        "type": "assistant",
        "message": {
            "content": [
                {"type": "text", "text": "Explanation text"},
                {"type": "tool_use", "id": "tool_1", "name": "Read", "input": {}},
                {"type": "tool_result", "tool_use_id": "tool_1", "content": "result"},
                {"type": "unknown_future_type", "data": "ignored"}
            ]
        }
    }"#;
    let msg = read_line(json).unwrap();
    let content = &msg.message.as_ref().unwrap().content;
    assert_eq!(content.len(), 4);
    assert!(matches!(content[0], ContentBlock::Text { .. }));
    assert!(matches!(content[1], ContentBlock::ToolUse { .. }));
    assert!(matches!(content[2], ContentBlock::ToolResult { .. }));
    assert!(matches!(content[3], ContentBlock::Unknown));
}

#[test]
fn test_content_block_text_extraction() {
    let json = r#"{
        "type": "assistant",
        "message": {
            "content": [
                {"type": "text", "text": "Line 1\nLine 2\nLine 3"}
            ]
        }
    }"#;
    let msg = read_line(json).unwrap();
    let content = &msg.message.as_ref().unwrap().content;
    if let ContentBlock::Text { text } = &content[0] {
        let lines: Vec<&str> = text.lines().collect();
        assert_eq!(lines.len(), 3);
        assert_eq!(lines[0], "Line 1");
    } else {
        panic!("Expected Text block");
    }
}

#[test]
fn test_empty_session_init() {
    let updates = parse_output_message(read_line(r#"{"type":"system","subtype":"init"}"#).unwrap());
    assert_eq!(updates.len(), 1);
    match &updates[0] {
        SessionUpdate::SessionInit { session_id, model, tools } => {
            assert!(session_id.is_empty());
            assert!(model.is_empty());
            assert!(tools.is_empty());
        },
        _ => panic!("Expected SessionInit"),
    }
}

#[test]
fn test_unicode_in_messages() {
    let json = r#"{
        "type": "assistant",
        "message": {
            "content": [
                {"type": "text", "text": "こんにちは! 🎉 مرحبا Привет 你好"}
            ]
        }
    }"#;
    let updates = parse_output_message(read_line(json).unwrap());
    match &updates[0] {
        SessionUpdate::AssistantText { text } => {
            assert!(text.contains("こんにちは"));
            assert!(text.contains("🎉"));
            assert!(text.contains("مرحبا"));
            assert!(text.contains("Привет"));
            assert!(text.contains("你好"));
        },
        _ => panic!("Expected AssistantText"),
    }
}

#[test]
fn test_very_long_text_content() {
    let long_text = "x".repeat(100_000);
    let json = format!(
        r#"{{"type":"assistant","message":{{"content":[{{"type":"text","text":"{}"}}]}}}}"#,
        long_text
    );
    let updates = parse_output_message(read_line(&json).unwrap());
    match &updates[0] {
        SessionUpdate::AssistantText { text } => assert_eq!(text.len(), 100_000),
        _ => panic!("Expected AssistantText"),
    }
}

#[test]
fn test_special_characters_in_tool_input() {
    let json = r#"{
        "type": "assistant",
        "message": {
            "content": [
                {
                    "type": "tool_use",
                    "id": "tool_special",
                    "name": "Bash",
                    "input": {
                        "command": "echo 'Hello \"World\"' | grep -E '\\w+'"
                    }
                }
            ]
        }
    }"#;
    let updates = parse_output_message(read_line(json).unwrap());
    match &updates[0] {
        SessionUpdate::ToolUse { input, .. } => {
            let cmd = member_text(input, "command").unwrap();
            assert!(cmd.contains("Hello"));
            assert!(cmd.contains("grep"));
        },
        _ => panic!("Expected ToolUse"),
    }
}

#[test]
fn test_realistic_code_generation_response() {
    let json = r#"{
        "type": "assistant",
        "message": {
            "id": "msg_realistic",
            "model": "sonnet-4-20250514",
            "role": "assistant",
            "content": [
                {
                    "type": "text",
                    "text": "I'll create a simple Rust function for you:\n\n```rust\n/// Checks if a number is prime\npub fn is_prime(n: u64) -> bool {\n    if n < 2 {\n        return false;\n    }\n    for i in 2..=(n as f64).sqrt() as u64 {\n        if n % i == 0 {\n            return false;\n        }\n    }\n    true\n}\n```"
                }
            ],
            "stop_reason": "end_turn"
        }
    }"#;
    let updates = parse_output_message(read_line(json).unwrap());
    match &updates[0] {
        SessionUpdate::AssistantText { text } => {
            assert!(text.contains("```rust"));
            assert!(text.contains("is_prime"));
            assert!(text.contains("pub fn"));
        },
        _ => panic!("Expected AssistantText"),
    }
}

#[test]
fn test_realistic_multi_tool_response() {
    let json = r#"{
        "type": "assistant",
        "message": {
            "content": [
                {"type": "text", "text": "Let me check the project structure and then update the code."},
                {
                    "type": "tool_use",
                    "id": "toolu_glob",
                    "name": "Glob",
                    "input": {"pattern": "src/**/*.rs"}
                },
                {
                    "type": "tool_use",
                    "id": "toolu_read",
                    "name": "Read",
                    "input": {"file_path": "src/main.rs"}
                }
            ],
            "stop_reason": "tool_use"
        }
    }"#;
    let updates = parse_output_message(read_line(json).unwrap());
    assert_eq!(updates.len(), 3);
    assert!(matches!(updates[0], SessionUpdate::AssistantText { .. }));
    assert!(matches!(updates[1], SessionUpdate::ToolUse { .. }));
    assert!(matches!(updates[2], SessionUpdate::ToolUse { .. }));
    if let SessionUpdate::ToolUse { tool_name, .. } = &updates[1] {
        assert_eq!(tool_name, "Glob");
    }
    if let SessionUpdate::ToolUse { tool_name, .. } = &updates[2] {
        assert_eq!(tool_name, "Read");
    }
}

#[test]
fn test_session_update_clone() {
    let update = SessionUpdate::ToolUse {
        tool_id: "id".into(),
        tool_name: "Read".into(),
        input: JsonValue::Object(vec![("path".to_string(), JsonValue::Text("/test".to_string()))]),
    };
    let cloned = update.clone();

    match cloned {
        SessionUpdate::ToolUse { tool_id, tool_name, input } => {
            assert_eq!(tool_id, "id");
            assert_eq!(tool_name, "Read");
            assert_eq!(input.get("path").and_then(|v| v.as_str()), Some("/test"));
        },
        _ => panic!("Clone should preserve variant"),
    }
}
