use steersman_core::feed_sources::CalendarEvent;
use steersman_core::json::Json;
use steersman_core::mcp_server::{
    created_result, dispatch_tool, find_meeting, handle_request, linked_result, meeting_context,
    meeting_keyword, related_task_entry, related_tasks, select_tasks, server_home,
    status_updated_result, tool_reply, tools, McpStep, ToolCall,
};

fn json(v: &serde_json::Value) -> Json {
    match v {
        serde_json::Value::Null => Json::Null,
        serde_json::Value::Bool(b) => Json::Bool(*b),
        serde_json::Value::Number(n) => Json::Number(n.to_string()),
        serde_json::Value::String(s) => Json::Str(s.clone()),
        serde_json::Value::Array(a) => Json::Array(a.iter().map(json).collect()),
        serde_json::Value::Object(o) => {
            Json::Object(o.iter().map(|(k, v)| (k.clone(), json(v))).collect())
        }
    }
}

fn to_value(j: &Json) -> serde_json::Value {
    match j {
        Json::Null => serde_json::Value::Null,
        Json::Bool(b) => serde_json::Value::Bool(*b),
        Json::Number(t) => serde_json::from_str(t).unwrap(),
        Json::Str(s) => serde_json::Value::String(s.clone()),
        Json::Array(a) => serde_json::Value::Array(a.iter().map(to_value).collect()),
        Json::Object(o) => serde_json::Value::Object(
            o.iter().map(|(k, v)| (k.clone(), to_value(v))).collect(),
        ),
    }
}

fn parse(text: &str) -> Json {
    json(&serde_json::from_str(text).unwrap())
}

fn value(text: &str) -> serde_json::Value {
    serde_json::from_str(text).unwrap()
}

/// Answers a request as the server does when its data directory is known,
/// for requests that are answered without touching the store.
fn reply(text: &str) -> serde_json::Value {
    match handle_request(&parse(text), "0.1.0", None) {
        McpStep::Reply(j) => to_value(&j),
        McpStep::Call { .. } => panic!("request ran a tool"),
    }
}

#[test]
fn handle_initialize_returns_valid_response() {
    let resp = reply(r#"{"jsonrpc":"2.0","id":1,"method":"initialize","params":{"protocolVersion":"2024-11-05","capabilities":{},"clientInfo":{"name":"test","version":"1"}}}"#);
    assert_eq!(resp.get("id"), Some(&value("1")));
    assert_eq!(
        resp.get("result")
            .and_then(|r| r.get("protocolVersion"))
            .and_then(|v| v.as_str()),
        Some("2024-11-05")
    );
    assert_eq!(resp["result"]["serverInfo"]["name"], "steersman-mcp");
}

#[test]
fn tools_list_returns_all_steersman_tools() {
    let resp = reply(r#"{"jsonrpc":"2.0","id":2,"method":"tools/list","params":{}}"#);
    let tools = resp
        .get("result")
        .and_then(|r| r.get("tools"))
        .and_then(|t| t.as_array())
        .unwrap();
    let names: Vec<&str> = tools
        .iter()
        .map(|t| t.get("name").and_then(|n| n.as_str()).unwrap())
        .collect();
    assert!(names.contains(&"steersman_list_tasks"));
    assert!(names.contains(&"steersman_create_task"));
    assert!(names.contains(&"steersman_update_task_status"));
    assert!(names.contains(&"steersman_search_sessions"));
    for t in tools {
        assert!(t.get("inputSchema").is_some(), "tool missing inputSchema");
        assert!(t.get("description").is_some(), "tool missing description");
    }
}

#[test]
fn unknown_tool_returns_iserror() {
    let result = dispatch_tool("nonexistent_tool", &parse("{}"));
    assert!(result.is_err());
    assert!(result.unwrap_err().contains("unknown tool"));
}

#[test]
fn tools_call_unknown_returns_iserror_response() {
    let resp = reply(r#"{"jsonrpc":"2.0","id":3,"method":"tools/call","params":{"name":"bad","arguments":{}}}"#);
    assert_eq!(resp["result"]["isError"], value("true"));
    assert!(resp["result"]["content"][0]["text"]
        .as_str()
        .unwrap()
        .contains("ERROR"));
}

#[test]
fn unknown_method_returns_error_code() {
    let resp = reply(r#"{"jsonrpc":"2.0","id":4,"method":"resources/list","params":{}}"#);
    assert_eq!(resp["error"]["code"], value("-32601"));
}

#[test]
fn create_task_missing_title_returns_error() {
    let resp = reply(r#"{"jsonrpc":"2.0","id":5,"method":"tools/call","params":{"name":"steersman_create_task","arguments":{}}}"#);
    assert_eq!(resp["result"]["isError"], value("true"));
    assert!(resp["result"]["content"][0]["text"]
        .as_str()
        .unwrap()
        .contains("title"));
}

#[test]
fn link_session_requires_a_target() {
    let resp = reply(r#"{"jsonrpc":"2.0","id":6,"method":"tools/call","params":{"name":"steersman_link_session","arguments":{"session_id":"sess-xyz"}}}"#);
    assert_eq!(resp["result"]["isError"], value("true"));
}

#[test]
fn tools_list_includes_link_session() {
    let resp = reply(r#"{"jsonrpc":"2.0","id":7,"method":"tools/list","params":{}}"#);
    let names: Vec<&str> = resp["result"]["tools"]
        .as_array()
        .unwrap()
        .iter()
        .map(|t| t["name"].as_str().unwrap())
        .collect();
    assert!(names.contains(&"steersman_link_session"));
}

#[test]
fn catalogue_lists_eight_tools_with_their_required_arguments() {
    let defs = tools();
    assert_eq!(defs.len(), 8);
    assert_eq!(defs[7].name, "steersman_get_meeting_context");
    let schema = to_value(&defs[2].input_schema);
    assert_eq!(schema["type"], "object");
    assert_eq!(schema["required"], value(r#"["id","status"]"#));
    assert_eq!(schema["properties"]["id"]["type"], "integer");
    let goals = to_value(&defs[3].input_schema);
    assert_eq!(goals, value(r#"{"type":"object","properties":{}}"#));
}

#[test]
fn initialize_reports_the_given_version_and_keeps_the_id() {
    let resp = match handle_request(&parse(r#"{"id":"abc","method":"initialize"}"#), "9.9.9", None) {
        McpStep::Reply(j) => to_value(&j),
        McpStep::Call { .. } => panic!("unexpected call"),
    };
    assert_eq!(
        resp,
        value(r#"{"jsonrpc":"2.0","id":"abc","result":{"protocolVersion":"2024-11-05","capabilities":{"tools":{}},"serverInfo":{"name":"steersman-mcp","version":"9.9.9"}}}"#)
    );
}

#[test]
fn request_without_id_or_method_is_method_not_found_with_null_id() {
    let resp = reply("{}");
    assert_eq!(
        resp,
        value(r#"{"jsonrpc":"2.0","id":null,"error":{"code":-32601,"message":"method not found: "}}"#)
    );
}

#[test]
fn tool_call_without_data_directory_reports_it() {
    let req = parse(r#"{"id":8,"method":"tools/call","params":{"name":"steersman_list_goals"}}"#);
    let resp = match handle_request(&req, "0.1.0", Some("HERMES_HOME not set and ~/.hermes not found")) {
        McpStep::Reply(j) => to_value(&j),
        McpStep::Call { .. } => panic!("unexpected call"),
    };
    assert_eq!(
        resp["result"]["content"][0]["text"],
        "ERROR: HERMES_HOME not set and ~/.hermes not found"
    );
}

#[test]
fn valid_tool_call_is_run_with_defaults() {
    let req = parse(r#"{"id":9,"method":"tools/call","params":{"name":"steersman_list_tasks"}}"#);
    match handle_request(&req, "0.1.0", None) {
        McpStep::Call { id, call } => {
            assert_eq!(to_value(&id), value("9"));
            assert_eq!(call, ToolCall::ListTasks { status: "active".into(), limit: 20 });
        }
        McpStep::Reply(_) => panic!("expected a call"),
    }
    assert_eq!(
        dispatch_tool("steersman_create_task", &parse(r#"{"title":"T","priority":-2}"#)),
        Ok(ToolCall::CreateTask { title: "T".into(), priority: -2, due_date: None, assignee: "".into() })
    );
    assert_eq!(
        dispatch_tool("steersman_update_task_status", &parse(r#"{"id":4}"#)),
        Err("status required".to_string())
    );
    assert_eq!(
        dispatch_tool("steersman_update_task_status", &parse(r#"{"id":"4","status":"done"}"#)),
        Err("id required".to_string())
    );
    assert_eq!(
        dispatch_tool("steersman_search_sessions", &parse(r#"{"query":"q","limit":1.5}"#)),
        Ok(ToolCall::SearchSessions { query: "q".into(), limit: 10 })
    );
    assert_eq!(
        dispatch_tool("steersman_link_session", &parse(r#"{"session_id":"s","goal_id":7,"note":"n"}"#)),
        Ok(ToolCall::LinkSession {
            session_id: "s".into(),
            task_id: None,
            project_id: None,
            goal_id: Some(7),
            note: Some("n".into()),
        })
    );
    assert_eq!(
        dispatch_tool("steersman_get_meeting_context", &parse("{}")),
        Err("event_uid required".to_string())
    );
    assert_eq!(
        dispatch_tool("steersman_create_goal", &parse(r#"{"title":"G","target_date":"2025-01-01"}"#)),
        Ok(ToolCall::CreateGoal { title: "G".into(), target_date: Some("2025-01-01".into()) })
    );
}

#[test]
fn tool_reply_wraps_results_and_errors() {
    let ok = to_value(&tool_reply(Json::Number("3".into()), Ok("{\"id\":1}".into())));
    assert_eq!(
        ok,
        value(r#"{"jsonrpc":"2.0","id":3,"result":{"content":[{"type":"text","text":"{\"id\":1}"}]}}"#)
    );
    let err = to_value(&tool_reply(Json::Null, Err("boom".into())));
    assert_eq!(
        err,
        value(r#"{"jsonrpc":"2.0","id":null,"result":{"content":[{"type":"text","text":"ERROR: boom"}],"isError":true}}"#)
    );
}

#[test]
fn task_listing_filters_by_status_and_limit() {
    let statuses: Vec<String> = vec!["todo", "done", "in_progress", "completed", "todo"]
        .into_iter()
        .map(String::from)
        .collect();
    assert_eq!(select_tasks(&statuses, "active", 20), vec![0, 2, 4]);
    assert_eq!(select_tasks(&statuses, "done", 20), vec![1, 3]);
    assert_eq!(select_tasks(&statuses, "all", 2), vec![0, 1]);
    assert_eq!(select_tasks(&statuses, "all", 0), Vec::<usize>::new());
    assert_eq!(select_tasks(&statuses, "all", -1), vec![0, 1, 2, 3, 4]);
}

#[test]
fn store_results_are_reported_as_objects() {
    assert_eq!(
        to_value(&created_result(12, "Write")),
        value(r#"{"id":12,"title":"Write","status":"created"}"#)
    );
    assert_eq!(
        to_value(&status_updated_result(-3, "done")),
        value(r#"{"id":-3,"status":"done","updated":true}"#)
    );
    assert_eq!(
        to_value(&linked_result(5, "s-1")),
        value(r#"{"id":5,"session_id":"s-1","linked":true}"#)
    );
}

fn event(uid: &str, summary: &str, organizer: &str) -> CalendarEvent {
    CalendarEvent {
        uid: uid.into(),
        summary: summary.into(),
        description: String::new(),
        start: String::new(),
        end: String::new(),
        location: String::new(),
        organizer: organizer.into(),
        attendees: vec!["a@x.com".into()],
        recurring: false,
        recurrence_rule: String::new(),
    }
}

#[test]
fn meeting_context_relates_tasks_by_summary_or_keyword() {
    let events = vec![event("u1", "Standup", "lead@corp.com"), event("u2", "Acme review", "boss@acme.com")];
    assert_eq!(find_meeting(&events, "u2"), Ok(1));
    assert_eq!(find_meeting(&events, "zz"), Err("meeting not found in calendar".to_string()));
    assert_eq!(meeting_keyword(None, "boss@acme.com"), "boss");
    assert_eq!(meeting_keyword(None, "nobody"), "nobody");
    assert_eq!(meeting_keyword(Some("acme"), "boss@acme.com"), "acme");
    let titles: Vec<String> = vec!["Prepare ACME REVIEW deck", "Email boss", "Unrelated"]
        .into_iter()
        .map(String::from)
        .collect();
    assert_eq!(related_tasks(&titles, "Acme review", "Boss"), vec![0, 1]);
    assert_eq!(related_tasks(&titles, "Acme review", ""), vec![0]);
    let related = vec![related_task_entry(1, "Prepare ACME REVIEW deck", "todo", 3)];
    let ctx = to_value(&meeting_context("u2", &events[1], related, parse("[]")));
    assert_eq!(
        ctx,
        value(r#"{"event_uid":"u2","summary":"Acme review","organizer":"boss@acme.com","attendees":["a@x.com"],"related_tasks":[{"id":1,"title":"Prepare ACME REVIEW deck","status":"todo","priority":3}],"recent_sessions":[]}"#)
    );
}

#[test]
fn server_home_prefers_the_environment() {
    assert_eq!(server_home(Some("/data/h"), Some("/home/u")), Ok(vec!["/data/h".to_string()]));
    assert_eq!(
        server_home(None, Some("/home/u")),
        Ok(vec!["/home/u".to_string(), ".hermes".to_string()])
    );
    assert_eq!(
        server_home(None, None),
        Err("HERMES_HOME not set and ~/.hermes not found".to_string())
    );
}
