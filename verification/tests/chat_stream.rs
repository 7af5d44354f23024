use steersman_core::chat::{is_ws_envelope_line, parse_ws_envelope, parse_ws_message, ChatEvent};
use steersman_core::json::Json;

fn json(v: &serde_json::Value) -> Json {
    match v {
        serde_json::Value::Null => Json::Null,
        serde_json::Value::Bool(b) => Json::Bool(*b),
        serde_json::Value::Number(n) => Json::Number(n.to_string()),
        serde_json::Value::String(s) => Json::Str(s.clone()),
        serde_json::Value::Array(a) => Json::Array(a.iter().map(json).collect()),
        serde_json::Value::Object(o) => {
            Json::Object(o.iter().map(|(k, v)| (k.clone(), json(v))).collect())
        }
    }
}

/// One raw WebSocket line read as a streaming chat event, as the desktop
/// does: only object texts are read as JSON, then the envelope is routed.
fn ws_event(raw: &str) -> Option<ChatEvent> {
    let direct = parse_ws_message(raw);
    let by_parts = if !is_ws_envelope_line(raw) {
        None
    } else {
        serde_json::from_str::<serde_json::Value>(raw.trim()).ok().and_then(|v| parse_ws_envelope(&json(&v)))
    };
    assert_eq!(format!("{:?}", direct), format!("{:?}", by_parts));
    direct
}

#[test]
fn ws_token_event_from_message_chunk_envelope() {
    match ws_event(r#"{"jsonrpc":"2.0","method":"event","params":{"type":"message.chunk","text":"Hi"}}"#) {
        Some(ChatEvent::Token { content }) => assert_eq!(content, "Hi"),
        other => panic!("expected Token, got {:?}", other),
    }
}

#[test]
fn ws_reasoning_event_from_reasoning_delta() {
    match ws_event(r#"{"jsonrpc":"2.0","method":"event","params":{"type":"reasoning.delta","text":"thinking..."}}"#) {
        Some(ChatEvent::Reasoning { content }) => assert_eq!(content, "thinking..."),
        other => panic!("expected Reasoning, got {:?}", other),
    }
}

#[test]
fn ws_tool_start_then_complete() {
    match ws_event(r#"{"jsonrpc":"2.0","method":"event","params":{"type":"tool.start","name":"read_file","tool_id":"t1"}}"#) {
        Some(ChatEvent::ToolStart { name, tool_call_id }) => {
            assert_eq!(name, "read_file");
            assert_eq!(tool_call_id, "t1");
        }
        other => panic!("expected ToolStart, got {:?}", other),
    }
    match ws_event(r#"{"jsonrpc":"2.0","method":"event","params":{"type":"tool.complete","name":"read_file","tool_id":"t1","output":"42 chars"}}"#) {
        Some(ChatEvent::ToolComplete { name, output, .. }) => {
            assert_eq!(name, "read_file");
            assert_eq!(output, "42 chars");
        }
        other => panic!("expected ToolComplete, got {:?}", other),
    }
}

#[test]
fn ws_done_event_carries_session_id() {
    match ws_event(r#"{"jsonrpc":"2.0","method":"event","params":{"type":"message.end","session_id":"desk-123-abc"}}"#) {
        Some(ChatEvent::Done { session_id }) => assert_eq!(session_id.as_deref(), Some("desk-123-abc")),
        other => panic!("expected Done with session_id, got {:?}", other),
    }
}

#[test]
fn ws_error_event_extracts_message() {
    match ws_event(r#"{"jsonrpc":"2.0","method":"event","params":{"type":"error","message":"model overloaded"}}"#) {
        Some(ChatEvent::Error { message }) => assert_eq!(message, "model overloaded"),
        other => panic!("expected Error, got {:?}", other),
    }
}

#[test]
fn ws_status_update_event() {
    match ws_event(r#"{"jsonrpc":"2.0","method":"event","params":{"type":"status.update","text":"thinking"}}"#) {
        Some(ChatEvent::Status { status }) => assert_eq!(status, "thinking"),
        other => panic!("expected Status, got {:?}", other),
    }
}

#[test]
fn ws_rpc_response_is_not_an_event() {
    assert!(ws_event(r#"{"jsonrpc":"2.0","id":1,"result":{"session_id":"s1"}}"#).is_none());
}

#[test]
fn ws_garbage_line_returns_none() {
    assert!(ws_event("not json at all").is_none());
    assert!(ws_event("").is_none());
    assert!(!is_ws_envelope_line("   "));
    assert!(is_ws_envelope_line("  {\"a\":1}"));
}

#[test]
fn ws_message_delta_is_token() {
    match ws_event(r#"{"jsonrpc":"2.0","method":"event","params":{"type":"message.delta","payload":{"text":"Hi there"}}}"#) {
        Some(ChatEvent::Token { content }) => assert_eq!(content, "Hi there"),
        other => panic!("expected Token, got {:?}", other),
    }
}

#[test]
fn ws_message_delta_with_text_field() {
    match ws_event(r#"{"jsonrpc":"2.0","method":"event","params":{"type":"message.delta","text":"alt"}}"#) {
        Some(ChatEvent::Token { content }) => assert_eq!(content, "alt"),
        other => panic!("expected Token, got {:?}", other),
    }
}

#[test]
fn ws_message_delta_real_wire_format_payload_text() {
    match ws_event(r#"{"jsonrpc":"2.0","method":"event","params":{"type":"message.delta","session_id":"s1","payload":{"text":"Hello world"}}}"#) {
        Some(ChatEvent::Token { content }) => assert_eq!(content, "Hello world"),
        other => panic!("expected Token with payload.text, got {:?}", other),
    }
}

#[test]
fn ws_reasoning_delta_real_wire_format_payload_text() {
    match ws_event(r#"{"jsonrpc":"2.0","method":"event","params":{"type":"reasoning.delta","session_id":"s1","payload":{"text":"thinking..."}}}"#) {
        Some(ChatEvent::Reasoning { content }) => assert_eq!(content, "thinking..."),
        other => panic!("expected Reasoning with payload.text, got {:?}", other),
    }
}

#[test]
fn ws_message_complete_real_wire_format() {
    match ws_event(r#"{"jsonrpc":"2.0","method":"event","params":{"type":"message.complete","session_id":"s1","payload":{"text":"full response","usage":{}}}}"#) {
        Some(ChatEvent::Done { session_id }) => assert_eq!(session_id.as_deref(), Some("s1")),
        other => panic!("expected Done, got {:?}", other),
    }
}

#[test]
fn ws_message_complete_is_terminal_done() {
    match ws_event(r#"{"jsonrpc":"2.0","method":"event","params":{"type":"message.complete","session_id":"s42"}}"#) {
        Some(ChatEvent::Done { session_id }) => assert_eq!(session_id.as_deref(), Some("s42")),
        other => panic!("expected Done, got {:?}", other),
    }
}

#[test]
fn ws_message_start_is_status() {
    let ev = ws_event(r#"{"jsonrpc":"2.0","method":"event","params":{"type":"message.start"}}"#);
    assert!(matches!(ev, Some(ChatEvent::Status { .. })));
}

#[test]
fn ws_session_info_is_parsed() {
    let ev = ws_event(r#"{"jsonrpc":"2.0","method":"event","params":{"type":"session.info"}}"#);
    assert!(matches!(ev, Some(ChatEvent::SessionInfo { .. })));
}

#[test]
fn tool_complete_parses_duration_seconds() {
    let raw = r#"{"jsonrpc":"2.0","method":"event","params":{"type":"tool.complete","session_id":"s1","payload":{"tool_id":"tc1","name":"read_file","duration_s":1.5,"result":"ok"}}}"#;
    match ws_event(raw) {
        Some(ChatEvent::ToolComplete { name, duration_ms, .. }) => {
            assert_eq!(name, "read_file");
            assert_eq!(duration_ms, 1500, "1.5s must convert to 1500ms");
        }
        other => panic!("expected ToolComplete, got {:?}", other),
    }
}

#[test]
fn tool_complete_defaults_duration_to_zero_when_absent() {
    let raw = r#"{"jsonrpc":"2.0","method":"event","params":{"type":"tool.complete","session_id":"s1","payload":{"tool_id":"tc1","name":"search"}}}"#;
    match ws_event(raw) {
        Some(ChatEvent::ToolComplete { duration_ms, .. }) => assert_eq!(duration_ms, 0, "missing duration_s must default to 0"),
        other => panic!("expected ToolComplete, got {:?}", other),
    }
}

#[test]
fn approval_request_event_parsed() {
    let raw = r#"{"jsonrpc":"2.0","method":"event","params":{"type":"approval.request","session_id":"s1","payload":{"request_id":"apr1","name":"bash","command":"rm -rf /tmp","command_class":"dangerous","choices":["once","deny"]}}}"#;
    match ws_event(raw) {
        Some(ChatEvent::ApprovalRequest { request_id, tool_name, tool_input, command_class, .. }) => {
            assert_eq!(request_id, "apr1");
            assert_eq!(tool_name, "bash");
            assert_eq!(tool_input, "rm -rf /tmp");
            assert_eq!(command_class, "dangerous");
        }
        other => panic!("expected ApprovalRequest, got {:?}", other),
    }
}
