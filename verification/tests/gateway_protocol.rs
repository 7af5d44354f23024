use steersman_core::hermes_protocol::{
    build_prompt_submit_request, build_session_create_request, parse_gateway_event, GatewayEvent,
    ParsedGatewayEvent, PromptSubmitResult, PromptSubmitStatus, RoutedGatewayEvent,
    SessionCreateResult, ToolStartPayload, session_create_request_json, prompt_submit_request_json,
};
use steersman_core::json::Json;

fn json(v: &serde_json::Value) -> Json {
    match v {
        serde_json::Value::Null => Json::Null,
        serde_json::Value::Bool(b) => Json::Bool(*b),
        serde_json::Value::Number(n) => Json::Number(n.to_string()),
        serde_json::Value::String(s) => Json::Str(s.clone()),
        serde_json::Value::Array(a) => Json::Array(a.iter().map(json).collect()),
        serde_json::Value::Object(o) => {
            Json::Object(o.iter().map(|(k, v)| (k.clone(), json(v))).collect())
        }
    }
}

fn to_value(j: &Json) -> serde_json::Value {
    match j {
        Json::Null => serde_json::Value::Null,
        Json::Bool(b) => serde_json::Value::Bool(*b),
        Json::Number(t) => serde_json::from_str(t).unwrap(),
        Json::Str(s) => serde_json::Value::String(s.clone()),
        Json::Array(a) => serde_json::Value::Array(a.iter().map(to_value).collect()),
        Json::Object(o) => serde_json::Value::Object(o.iter().map(|(k, v)| (k.clone(), to_value(v))).collect()),
    }
}

fn parse(text: &str) -> Json {
    json(&serde_json::from_str::<serde_json::Value>(text).unwrap())
}

fn event(event_type: &str, session_id: &str, payload: &str) -> Json {
    parse(&format!(
        r#"{{"jsonrpc":"2.0","method":"event","params":{{"type":"{}","session_id":"{}","payload":{}}}}}"#,
        event_type, session_id, payload
    ))
}

fn routed(raw: &Json) -> RoutedGatewayEvent {
    parse_gateway_event(raw).unwrap().unwrap()
}

fn result_of(envelope: &str) -> Json {
    match parse(envelope) {
        Json::Object(es) => es.into_iter().find(|(k, _)| k == "result").unwrap().1,
        _ => panic!("not an object"),
    }
}

#[test]
fn session_create_request_serializes_correctly() {
    let req = build_session_create_request(1, "desktop", 96, None);
    assert_eq!(req.jsonrpc, "2.0");
    assert_eq!(req.id, 1);
    assert_eq!(req.method, "session.create");
    assert_eq!(req.params.source, "desktop");
    assert_eq!(req.params.cols, 96);
    assert_eq!(req.params.profile, None);
    let json = to_value(&session_create_request_json(&req));
    assert_eq!(json["jsonrpc"], "2.0");
    assert_eq!(json["id"], 1);
    assert_eq!(json["method"], "session.create");
    assert_eq!(json["params"]["source"], "desktop");
    assert_eq!(json["params"]["cols"], 96);
    assert!(json["params"].get("profile").is_none());
    let with = to_value(&session_create_request_json(&build_session_create_request(1, "desktop", 96, Some("work"))));
    assert_eq!(with["params"]["profile"], "work");
}

#[test]
fn session_create_result_deserializes_real_wire_format() {
    let result = result_of(
        r#"{"jsonrpc":"2.0","id":1,"result":{"session_id":"abc-123","stored_session_id":"stored-456","message_count":0,"messages":[],"info":{"desktop_contract":4}}}"#,
    );
    let result = SessionCreateResult::decode(&result).unwrap();
    assert_eq!(result.session_id, "abc-123");
    assert_eq!(result.stored_session_id, "stored-456");
    assert_eq!(result.message_count, 0);
    assert_eq!(result.messages.len(), 0);
    assert_eq!(result.info.desktop_contract, 4);
}

#[test]
fn prompt_submit_result_deserializes_real_wire_format() {
    let result = result_of(r#"{"jsonrpc":"2.0","id":2,"result":{"status":"streaming","turn_isolation":true}}"#);
    let result = PromptSubmitResult::decode(&result).unwrap();
    assert_eq!(result.status, PromptSubmitStatus::Streaming);
    assert_eq!(result.turn_isolation, true);
}

#[test]
fn prompt_submit_request_serializes_correctly() {
    let req = build_prompt_submit_request(2, "sess-123", "Hello world");
    assert_eq!(req.method, "prompt.submit");
    assert_eq!(req.params.session_id, "sess-123");
    assert_eq!(req.params.text, "Hello world");
    let json = to_value(&prompt_submit_request_json(&req));
    assert_eq!(json["method"], "prompt.submit");
    assert_eq!(json["params"]["session_id"], "sess-123");
    assert_eq!(json["params"]["text"], "Hello world");
}

#[test]
fn parse_gateway_ready_event() {
    let raw = parse(r#"{"jsonrpc":"2.0","method":"event","params":{"type":"gateway.ready","payload":{"skin":"default"}}}"#);
    let routed = routed(&raw);
    match routed.event {
        ParsedGatewayEvent::Known(GatewayEvent::GatewayReady(payload)) => {
            assert_eq!(payload.skin, Some("default".to_string()));
        }
        _ => panic!("expected GatewayReady"),
    }
    assert_eq!(routed.session_id, None);
}

#[test]
fn gateway_event_deserializes_snake_case_payload() {
    let routed = routed(&event("tool.start", "sess-123", r#"{"tool_id":"t1","name":"read_file"}"#));
    match routed.event {
        ParsedGatewayEvent::Known(GatewayEvent::ToolStart(payload)) => {
            assert_eq!(payload.tool_id, "t1");
            assert_eq!(payload.name, "read_file");
        }
        _ => panic!("expected ToolStart"),
    }
    assert_eq!(routed.session_id, Some("sess-123".to_string()));
}

#[test]
fn parse_message_delta_event_real_format() {
    let routed = routed(&event("message.delta", "sess-123", r#"{"text":"Hello"}"#));
    match routed.event {
        ParsedGatewayEvent::Known(GatewayEvent::MessageDelta(payload)) => assert_eq!(payload.text, "Hello"),
        _ => panic!("expected MessageDelta"),
    }
    assert_eq!(routed.session_id, Some("sess-123".to_string()));
}

#[test]
fn parse_message_delta_event_legacy_format() {
    let raw = parse(r#"{"jsonrpc":"2.0","method":"event","params":{"type":"message.delta","session_id":"sess-123","text":"Hello"}}"#);
    match routed(&raw).event {
        ParsedGatewayEvent::MalformedKnown { event_type, session_id, payload, error: _ } => {
            assert_eq!(event_type, "message.delta");
            assert_eq!(session_id, Some("sess-123".to_string()));
            assert!(matches!(payload, Json::Null), "payload should be null in legacy format");
        }
        _ => panic!("expected MalformedKnown for legacy format"),
    }
}

#[test]
fn parse_reasoning_delta_event() {
    let routed = routed(&event("reasoning.delta", "sess-123", r#"{"text":"thinking..."}"#));
    match routed.event {
        ParsedGatewayEvent::Known(GatewayEvent::ReasoningDelta(payload)) => assert_eq!(payload.text, "thinking..."),
        _ => panic!("expected ReasoningDelta"),
    }
    assert_eq!(routed.session_id, Some("sess-123".to_string()));
}

#[test]
fn parse_tool_start_then_complete() {
    let start = routed(&event("tool.start", "sess-123", r#"{"tool_id":"t1","name":"read_file"}"#));
    match start.event {
        ParsedGatewayEvent::Known(GatewayEvent::ToolStart(p)) => {
            assert_eq!(p.name, "read_file");
            assert_eq!(p.tool_id, "t1");
        }
        _ => panic!("expected ToolStart"),
    }
    assert_eq!(start.session_id, Some("sess-123".to_string()));
    let complete = routed(&event(
        "tool.complete",
        "sess-123",
        r#"{"tool_id":"t1","name":"read_file","args":{},"result":{"text":"file content"},"duration_s":0.042,"summary":"completed","result_text":"file content","inline_diff":null}"#,
    ));
    match complete.event {
        ParsedGatewayEvent::Known(GatewayEvent::ToolComplete(p)) => {
            assert_eq!(p.name, "read_file");
            assert_eq!(p.result_text, Some("file content".to_string()));
            assert_eq!(p.duration_s, Some("0.042".to_string()));
        }
        _ => panic!("expected ToolComplete"),
    }
    assert_eq!(complete.session_id, Some("sess-123".to_string()));
}

#[test]
fn parse_approval_request() {
    let routed = routed(&event(
        "approval.request",
        "sess-123",
        r#"{"request_id":"req-1","tool_id":"t1","name":"write_file","command":"echo hi","action":"execute","command_class":"write"}"#,
    ));
    match routed.event {
        ParsedGatewayEvent::Known(GatewayEvent::ApprovalRequest(p)) => {
            assert_eq!(p.request_id, "req-1");
            assert_eq!(p.name, "write_file");
            assert_eq!(p.command, Some("echo hi".to_string()));
            assert!(p.choices.is_empty());
        }
        _ => panic!("expected ApprovalRequest"),
    }
    assert_eq!(routed.session_id, Some("sess-123".to_string()));
}

#[test]
fn parse_message_end_carries_session_id() {
    let routed = routed(&event("message.end", "desk-123-abc", "{}"));
    assert!(matches!(routed.event, ParsedGatewayEvent::Known(GatewayEvent::MessageEnd(_))));
    assert_eq!(routed.session_id, Some("desk-123-abc".to_string()));
}

#[test]
fn parse_unknown_event_preserved() {
    let routed = routed(&event("custom.event", "sess-123", "{}"));
    match routed.event {
        ParsedGatewayEvent::UnknownType { event_type, session_id, payload: _ } => {
            assert_eq!(event_type, "custom.event");
            assert_eq!(session_id, Some("sess-123".to_string()));
        }
        _ => panic!("expected Unknown event"),
    }
    assert_eq!(routed.session_id, Some("sess-123".to_string()));
}

#[test]
fn parse_malformed_known_event_falls_to_malformed() {
    let routed = routed(&event("tool.start", "sess-123", r#"{"tool_id":"t1"}"#));
    match routed.event {
        ParsedGatewayEvent::MalformedKnown { event_type, error, .. } => {
            assert_eq!(event_type, "tool.start");
            assert!(error.contains("missing field") || error.contains("name"));
        }
        other => panic!("expected MalformedKnown, got {:?}", other),
    }
    assert_eq!(routed.session_id, Some("sess-123".to_string()));
}

#[test]
fn non_events_and_broken_params() {
    assert!(parse_gateway_event(&parse(r#"{"jsonrpc":"2.0","id":1,"result":{}}"#)).unwrap().is_none());
    let err = parse_gateway_event(&parse(r#"{"jsonrpc":"2.0","method":"event"}"#)).unwrap_err();
    assert_eq!(err.message(), "Missing or invalid params: missing params");
}

/// The text of the reader's own error for a value read as `T`.
fn reader_error<T: for<'de> serde::Deserialize<'de> + std::fmt::Debug>(text: &str) -> String {
    let v: serde_json::Value = serde_json::from_str(text).unwrap();
    serde_json::from_value::<T>(v).unwrap_err().to_string()
}

#[test]
fn field_errors_read_as_the_json_reader_words_them() {
    let e = ToolStartPayload::decode(&parse(r#"{"tool_id":5,"name":"x"}"#)).unwrap_err();
    assert_eq!(e, reader_error::<String>("5"));
    let e = ToolStartPayload::decode(&parse(r#"{"tool_id":"a\"b","name":true}"#)).unwrap_err();
    assert_eq!(e, reader_error::<String>("true"));
    let e = ToolStartPayload::decode(&parse(r#"{"tool_id":[1],"name":"x"}"#)).unwrap_err();
    assert_eq!(e, reader_error::<String>("[1]"));
    let e = ToolStartPayload::decode(&parse(r#"{"tool_id":1.5,"name":"x"}"#)).unwrap_err();
    assert_eq!(e, reader_error::<String>("1.5"));
    let e = ToolStartPayload::decode(&parse(r#""just text""#)).unwrap_err();
    assert_eq!(e, "invalid type: string \"just text\", expected struct ToolStartPayload");
    let e = PromptSubmitResult::decode(&parse(r#"{"status":"paused"}"#)).unwrap_err();
    assert_eq!(e, "unknown variant `paused`, expected one of `streaming`, `queued`, `steered`, `rejected`");
    let e = PromptSubmitResult::decode(&parse(r#"{"status":7}"#)).unwrap_err();
    assert_eq!(e, "invalid type: integer `7`, expected string or map");
    let e = PromptSubmitResult::decode(&parse(r#"{"status":"queued","turn_isolation":"yes"}"#)).unwrap_err();
    assert_eq!(e, reader_error::<bool>("\"yes\""));
    let e = ToolStartPayload::decode(&parse(r#"{"tool_id":"\u0001q","name":"x","context":{}}"#));
    assert!(e.is_ok());
}

#[test]
fn type_errors_come_before_missing_fields_in_member_order() {
    let e = ToolStartPayload::decode(&parse(r#"{"name":5}"#)).unwrap_err();
    assert_eq!(e, reader_error::<String>("5"));
    let e = ToolStartPayload::decode(&parse(r#"{"name":"x"}"#)).unwrap_err();
    assert_eq!(e, "missing field `tool_id`");
    let e = ToolStartPayload::decode(&parse(r#"{"name":true,"tool_id":7}"#)).unwrap_err();
    assert_eq!(e, reader_error::<String>("true"));
    let e = SessionCreateResult::decode(&parse(r#"{"info":{"desktop_contract":"x"}}"#)).unwrap_err();
    assert_eq!(e, reader_error::<u32>("\"x\""));
}
