use steersman_core::feed_sources::{
    action_outcome, due_reminders, feed_call, feed_launch, minutes_until_start,
    parse_calendar_events_payload, parse_email_payload, parse_iso, parse_jira_payload,
    calendar_url_from_payload, tool_reply_document, CalendarEvent, EmailMessage, FeedRequest,
    FeedTool, JiraIssue,
};
use steersman_core::json::Json;
use steersman_core::mcp::read_mcp_servers;

fn json(v: &serde_json::Value) -> Json {
    match v {
        serde_json::Value::Null => Json::Null,
        serde_json::Value::Bool(b) => Json::Bool(*b),
        serde_json::Value::Number(n) => Json::Number(n.to_string()),
        serde_json::Value::String(s) => Json::Str(s.clone()),
        serde_json::Value::Array(a) => Json::Array(a.iter().map(json).collect()),
        serde_json::Value::Object(o) => {
            Json::Object(o.iter().map(|(k, v)| (k.clone(), json(v))).collect())
        }
    }
}

fn to_value(j: &Json) -> serde_json::Value {
    match j {
        Json::Null => serde_json::Value::Null,
        Json::Bool(b) => serde_json::Value::Bool(*b),
        Json::Number(t) => serde_json::from_str(t).unwrap(),
        Json::Str(s) => serde_json::Value::String(s.clone()),
        Json::Array(a) => serde_json::Value::Array(a.iter().map(to_value).collect()),
        Json::Object(o) => serde_json::Value::Object(o.iter().map(|(k, v)| (k.clone(), to_value(v))).collect()),
    }
}

fn value(text: &str) -> serde_json::Value {
    serde_json::from_str(text).unwrap()
}

/// A tool reply whose first content block carries `text`.
fn reply(text: &str, is_error: bool) -> Json {
    let mut block = serde_json::Map::new();
    block.insert("type".into(), serde_json::Value::String("text".into()));
    block.insert("text".into(), serde_json::Value::String(text.into()));
    let mut outer = serde_json::Map::new();
    outer.insert("content".into(), serde_json::Value::Array(vec![serde_json::Value::Object(block)]));
    if is_error {
        outer.insert("isError".into(), serde_json::Value::Bool(true));
    }
    json(&serde_json::Value::Object(outer))
}

fn document(result: &Json, tool: FeedTool, what: &str) -> Result<Json, String> {
    let text = tool_reply_document(result, tool)?;
    let v: serde_json::Value =
        serde_json::from_str(&text).map_err(|e| format!("{} parse error: {}", what, e))?;
    Ok(json(&v))
}

fn emails(result: &Json) -> Result<Vec<EmailMessage>, String> {
    parse_email_payload(&document(result, FeedTool::EmailInbox, "Email payload")?)
}

fn issues(result: &Json) -> Result<Vec<JiraIssue>, String> {
    parse_jira_payload(&document(result, FeedTool::JiraSearch, "Jira payload")?)
}

fn calendar_url(result: &Json) -> Result<String, String> {
    calendar_url_from_payload(&document(result, FeedTool::CalendarList, "Calendar payload")?)
}

fn events(result: &Json) -> Result<Vec<CalendarEvent>, String> {
    parse_calendar_events_payload(&document(result, FeedTool::CalendarEvents, "Events payload")?)
}

#[test]
fn parse_email_list_response_extracts_messages() {
    let inner = r#"{"messages":[{"id":"<msg1@mail>","subject":"Urgent: deploy today","from":"boss@corp.ru","date":"Thu, 17 Jul 2026 10:00:00 +0300","body":"..."},{"id":"<msg2@mail>","subject":"Re: PR review","from":"dev@corp.ru","date":"Thu, 17 Jul 2026 09:30:00 +0300","body":"..."}],"total":2}"#;
    let msgs = emails(&reply(inner, false)).unwrap();
    assert_eq!(msgs.len(), 2);
    assert_eq!(msgs[0].subject, "Urgent: deploy today");
    assert_eq!(msgs[0].from, "boss@corp.ru");
    assert_eq!(msgs[1].id, "<msg2@mail>");
}

#[test]
fn parse_email_response_handles_empty() {
    let msgs = emails(&reply(r#"{"messages": [], "total": 0}"#, false)).unwrap();
    assert!(msgs.is_empty(), "empty inbox must yield empty vec");
}

#[test]
fn parse_email_response_errors_on_iserror_flag() {
    let result = emails(&reply("ERROR: [Errno 11001] getaddrinfo failed", true));
    let err = result.unwrap_err();
    assert!(err.contains("getaddrinfo"), "error must carry the MCP message: {}", err);
    assert_eq!(err, "Email MCP error: ERROR: [Errno 11001] getaddrinfo failed");
}

#[test]
fn parse_email_response_errors_on_missing_content() {
    let bad = json(&value(r#"{"foo": "bar"}"#));
    let result = emails(&bad);
    assert!(result.is_err());
    assert!(result.unwrap_err().contains("content"));
}

#[test]
fn parse_email_defaults_missing_fields() {
    let msgs = emails(&reply(r#"{"messages":[{"id":"x","from":"a@b.c","date":""}],"total":1}"#, false)).unwrap();
    assert_eq!(msgs[0].subject, "(no subject)");
    assert_eq!(msgs[0].uid, "");
}

#[test]
fn email_payload_without_messages_is_an_error() {
    let err = parse_email_payload(&json(&value(r#"{"total": 0}"#))).unwrap_err();
    assert_eq!(err, "Email payload missing 'messages' array");
}

#[test]
fn failed_reply_without_text_uses_fallback() {
    let result = json(&value(r#"{"isError": true}"#));
    assert_eq!(tool_reply_document(&result, FeedTool::JiraSearch).unwrap_err(), "Jira MCP error: unknown Jira error");
    assert_eq!(tool_reply_document(&result, FeedTool::CalendarList).unwrap_err(), "Calendar MCP error: calendar error");
    let ok_without_text = json(&value(r#"{"content": []}"#));
    assert_eq!(
        tool_reply_document(&ok_without_text, FeedTool::CalendarEvents).unwrap_err(),
        "Events response missing content[0].text"
    );
}

#[test]
fn parse_jira_response_extracts_issues() {
    let inner = r#"{"issues":[{"key":"DEVOS-3","summary":"Fix bug","status":"In Progress","priority":"High","assignee_name":"ngusev","updated":"2026-07-17T10:00:00"},{"key":"DEVOS-5","summary":"Add tests","status":"Open","priority":"Medium","assignee_name":"ngusev","updated":"2026-07-16T15:00:00"}],"total":2}"#;
    let got = issues(&reply(inner, false)).unwrap();
    assert_eq!(got.len(), 2);
    assert_eq!(got[0].key, "DEVOS-3");
    assert_eq!(got[0].status, "In Progress");
    assert_eq!(got[0].assignee, "ngusev");
    assert_eq!(got[1].summary, "Add tests");
}

#[test]
fn parse_jira_response_handles_empty() {
    assert!(issues(&reply(r#"{"issues":[],"total":0}"#, false)).unwrap().is_empty());
}

#[test]
fn parse_jira_response_errors_on_iserror() {
    let result = issues(&reply("Error: unknown user key", true));
    assert!(result.unwrap_err().contains("unknown user key"));
}

#[test]
fn parse_calendar_url_single() {
    let url = calendar_url(&reply(r#"{"url":"https://cal.example.com/personal/","display_name":"Personal"}"#, false)).unwrap();
    assert_eq!(url, "https://cal.example.com/personal/");
}

#[test]
fn parse_calendar_url_multiple() {
    let url = calendar_url(&reply(r#"{"calendars":[{"url":"https://cal.example.com/work/","display_name":"Work"}]}"#, false)).unwrap();
    assert_eq!(url, "https://cal.example.com/work/");
}

#[test]
fn calendar_url_missing_is_an_error() {
    let err = calendar_url(&reply(r#"{"calendars":[]}"#, false)).unwrap_err();
    assert_eq!(err, "No calendar URL found in list_calendars response");
}

#[test]
fn parse_calendar_events_extracts() {
    let inner = r#"{"events":[{"summary":"Daily standup","start_local":"2026-07-18T09:00:00+03:00","end_local":"2026-07-18T09:30:00+03:00","location":"Room 1"},{"summary":"1:1 with boss","start_local":"2026-07-18T11:00:00+03:00","end_local":"2026-07-18T11:30:00+03:00","location":""}]}"#;
    let evs = events(&reply(inner, false)).unwrap();
    assert_eq!(evs.len(), 2);
    assert_eq!(evs[0].summary, "Daily standup");
    assert_eq!(evs[0].location, "Room 1");
    assert_eq!(evs[0].start, "2026-07-18T09:00:00+03:00");
    assert_eq!(evs[1].location, "");
}

#[test]
fn parse_calendar_events_bare_single_object() {
    let inner = r#"{"uid":"abc","summary":"Daily Portfolio","start_local":"2026-07-18T10:00:00+03:00","end_local":"2026-07-18T10:30:00+03:00","location":"https://meet/xyz"}"#;
    let evs = events(&reply(inner, false)).unwrap();
    assert_eq!(evs.len(), 1, "bare object must yield single event");
    assert_eq!(evs[0].summary, "Daily Portfolio");
    assert_eq!(evs[0].start, "2026-07-18T10:00:00+03:00");
}

#[test]
fn parse_calendar_events_bare_array() {
    let evs = events(&reply(r#"[{"summary":"Lunch","start":"12:00","end":"13:00"}]"#, false)).unwrap();
    assert_eq!(evs.len(), 1);
    assert_eq!(evs[0].summary, "Lunch");
    assert_eq!(evs[0].start, "12:00");
}

#[test]
fn parse_calendar_events_scalar_payload_is_an_error() {
    assert_eq!(events(&reply("42", false)).unwrap_err(), "Events payload has no events");
}

#[test]
fn parse_calendar_events_errors_on_iserror() {
    let result = events(&reply("CalDAV auth failed", true));
    assert!(result.unwrap_err().contains("CalDAV"));
}

#[test]
fn parse_calendar_events_extracts_meeting_metadata() {
    let inner = r#"{"events":[{"uid":"devos-daily-2026-07-18","summary":"Daily standup","description":"Quick status sync","start_local":"2026-07-18T09:00:00+03:00","end_local":"2026-07-18T09:30:00+03:00","location":"Room 1","organizer":"boss@corp.ru","attendees":[{"email":"a@corp.ru","display_name":"Alice"},"b@corp.ru"],"recurring":true,"rrule":"FREQ=DAILY"}]}"#;
    let evs = events(&reply(inner, false)).unwrap();
    assert_eq!(evs.len(), 1);
    let ev = &evs[0];
    assert_eq!(ev.uid, "devos-daily-2026-07-18");
    assert_eq!(ev.description, "Quick status sync");
    assert_eq!(ev.organizer, "boss@corp.ru");
    assert_eq!(ev.attendees, vec!["a@corp.ru".to_string(), "b@corp.ru".to_string()]);
    assert!(ev.recurring);
    assert_eq!(ev.recurrence_rule, "FREQ=DAILY");
}

#[test]
fn parse_calendar_events_recurring_from_rrule_only() {
    let inner = r#"{"events":[{"uid":"x","summary":"Weekly","start_local":"2026-07-18T09:00:00+03:00","end_local":"2026-07-18T09:30:00+03:00","rrule":"FREQ=WEEKLY"}]}"#;
    let evs = events(&reply(inner, false)).unwrap();
    assert!(evs[0].recurring, "recurring inferred from non-empty rrule");
}

#[test]
fn calendar_fields_fall_back_to_alternative_names() {
    let inner = r#"[{"id":"i1","body":"agenda","dtstart":"s","dtend":"e","organizer_email":"o@x","recurrence_rule":"R","attendees":[{"name":"Bob"},7]}]"#;
    let ev = &events(&reply(inner, false)).unwrap()[0];
    assert_eq!(ev.uid, "i1");
    assert_eq!(ev.summary, "(no title)");
    assert_eq!(ev.description, "agenda");
    assert_eq!(ev.start, "s");
    assert_eq!(ev.end, "e");
    assert_eq!(ev.organizer, "o@x");
    assert_eq!(ev.recurrence_rule, "R");
    assert_eq!(ev.attendees, vec!["Bob".to_string()]);
    assert!(!ev.recurring);
}

fn event_at(uid: &str, start: &str) -> CalendarEvent {
    CalendarEvent {
        uid: uid.into(),
        summary: uid.into(),
        description: String::new(),
        start: start.into(),
        end: String::new(),
        location: String::new(),
        organizer: String::new(),
        attendees: vec![],
        recurring: false,
        recurrence_rule: String::new(),
    }
}

fn instant(ts: &str) -> (i64, u32) {
    parse_iso(ts).unwrap()
}

#[test]
fn minutes_until_start_parses_rfc3339() {
    let ev = event_at("u", "2026-07-18T10:00:00+00:00");
    let now = instant("2026-07-18T09:50:00+00:00");
    assert_eq!(minutes_until_start(&ev, now), Some(10));
}

#[test]
fn minutes_until_start_rounds_toward_zero_and_reads_naive_forms() {
    let now = instant("2026-07-18T10:00:00+00:00");
    assert_eq!(minutes_until_start(&event_at("a", "2026-07-18T09:58:30+00:00"), now), Some(-1));
    assert_eq!(minutes_until_start(&event_at("b", "2026-07-18T10:01:59"), now), Some(1));
    assert_eq!(minutes_until_start(&event_at("c", "2026-07-18 12:00:00"), now), Some(120));
    assert_eq!(minutes_until_start(&event_at("d", "tomorrow"), now), None);
}

#[test]
fn list_meeting_reminders_filters_window() {
    let now = instant("2026-07-18T09:50:00+00:00");
    let soon = event_at("soon", "2026-07-18T09:55:00+00:00");
    let far = event_at("far", "2026-07-18T15:00:00+00:00");
    let just_started = event_at("started", "2026-07-18T09:46:00+00:00");
    let long_ago = event_at("old", "2026-07-18T09:40:00+00:00");
    let due = due_reminders(&vec![soon, far, just_started, long_ago], now, 15);
    let uids: Vec<&str> = due.iter().map(|e| e.uid.as_str()).collect();
    assert_eq!(uids, vec!["soon", "started"]);
}

#[test]
fn feed_calls_name_server_tool_and_arguments() {
    let call = feed_call(&FeedRequest::MarkEmailRead { uid: "42".into(), read: true });
    assert_eq!(call.server, "email");
    assert_eq!(call.tool, "mark_read");
    assert_eq!(to_value(&call.arguments), value(r#"{"folder":"INBOX","read":true,"uid":"42"}"#));
    let call = feed_call(&FeedRequest::EmailInbox);
    assert_eq!(to_value(&call.arguments), value(r#"{"days":7,"limit":20,"unread_only":true}"#));
    let call = feed_call(&FeedRequest::JiraMyActive);
    assert_eq!(call.tool, "jira_search_jql");
    assert_eq!(
        to_value(&call.arguments),
        value(r#"{"jql":"assignee = currentUser() AND statusCategory != Done ORDER BY updated DESC","max_results":10}"#)
    );
    let call = feed_call(&FeedRequest::CalendarEvents { calendar_url: "u".into(), since: "a".into(), until: "b".into() });
    assert_eq!(call.server, "rupost_calendar");
    assert_eq!(to_value(&call.arguments), value(r#"{"calendar_url":"u","limit":10,"since":"a","until":"b"}"#));
}

#[test]
fn list_email_unread_returns_error_if_not_configured() {
    let servers = read_mcp_servers(None);
    let err = feed_launch(&servers, &FeedRequest::EmailInbox).unwrap_err();
    assert_eq!(err, "Email MCP server not configured");
    let config = json(&value(r#"{"mcp_servers":{"jira":{"url":"http://x"},"email":{"command":"mcp-email","env":{"A":"1"}}}}"#));
    let servers = read_mcp_servers(Some(&config));
    assert_eq!(feed_launch(&servers, &FeedRequest::JiraMyActive).unwrap_err(), "Jira MCP: no command");
    let launch = feed_launch(&servers, &FeedRequest::SendEmail { to: "t".into(), subject: "s".into(), body: "b".into() }).unwrap();
    assert_eq!(launch.command, "mcp-email");
    assert!(launch.args.is_empty());
    assert_eq!(launch.env, vec![("A".to_string(), "1".to_string())]);
    assert_eq!(
        feed_launch(&servers, &FeedRequest::CalendarList).unwrap_err(),
        "Calendar MCP server not configured"
    );
}

#[test]
fn action_replies_are_read() {
    let req = FeedRequest::JiraTransition { issue_key: "K-1".into(), transition_name: "Done".into() };
    assert_eq!(action_outcome(&reply("ok", false), &req), Ok(()));
    assert_eq!(action_outcome(&reply("no such transition", true), &req), Err("Jira MCP: no such transition".to_string()));
    let req = FeedRequest::MarkEmailRead { uid: "1".into(), read: false };
    assert_eq!(
        action_outcome(&json(&value(r#"{"isError": true}"#)), &req),
        Err("Email MCP: mark_read error".to_string())
    );
}
