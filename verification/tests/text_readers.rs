use steersman_core::chat::{parse_ws_message, ChatEvent};
use steersman_core::config::{override_home_from_text, read_config_yaml};
use steersman_core::feed_sources::{
    parse_calendar_events_response, parse_calendar_url, parse_email_list_response,
    parse_jira_search_response,
};
use steersman_core::json::Json;
use steersman_core::mcp_client::read_reply_line;
use steersman_core::mcp_server::{handle_line, McpStep};
use steersman_core::yaml::{serde_yaml_to_json, yaml_value_to_json, YamlNode};

fn to_value(j: &Json) -> serde_json::Value {
    match j {
        Json::Null => serde_json::Value::Null,
        Json::Bool(b) => serde_json::Value::Bool(*b),
        Json::Number(t) => serde_json::from_str(t).unwrap(),
        Json::Str(s) => serde_json::Value::String(s.clone()),
        Json::Array(a) => serde_json::Value::Array(a.iter().map(to_value).collect()),
        Json::Object(o) => serde_json::Value::Object(o.iter().map(|(k, v)| (k.clone(), to_value(v))).collect()),
    }
}

fn value(text: &str) -> serde_json::Value {
    serde_json::from_str(text).unwrap()
}

/// A tool reply whose first content block carries `text`.
fn reply(text: &str, is_error: bool) -> Json {
    Json::Object(vec![
        (
            "content".to_string(),
            Json::Array(vec![Json::Object(vec![
                ("type".to_string(), Json::Str("text".to_string())),
                ("text".to_string(), Json::Str(text.to_string())),
            ])]),
        ),
        ("isError".to_string(), Json::Bool(is_error)),
    ])
}

#[test]
fn ws_line_reads_an_event_and_skips_the_rest() {
    match parse_ws_message("  {\"jsonrpc\":\"2.0\",\"method\":\"event\",\"params\":{\"type\":\"message.delta\",\"session_id\":\"s\",\"payload\":{\"text\":\"Hi\"}}}  ") {
        Some(ChatEvent::Token { content }) => assert_eq!(content, "Hi"),
        other => panic!("unexpected {:?}", other),
    }
    assert!(parse_ws_message("").is_none());
    assert!(parse_ws_message("ping").is_none());
    assert!(parse_ws_message("{not json").is_none());
    assert!(parse_ws_message("{\"jsonrpc\":\"2.0\",\"id\":3,\"result\":{}}").is_none());
    assert!(parse_ws_message("{\"jsonrpc\":\"2.0\",\"method\":\"other\"}").is_none());
}

#[test]
fn email_reply_is_read_through_its_document() {
    let r = reply("{\"messages\":[{\"id\":\"<a@b>\",\"uid\":\"7\",\"from\":\"x@y\",\"date\":\"d\"}],\"total\":1}", false);
    let ms = parse_email_list_response(&r).unwrap();
    assert_eq!(ms.len(), 1);
    assert_eq!(ms[0].uid, "7");
    assert_eq!(ms[0].subject, "(no subject)");
    assert_eq!(
        parse_email_list_response(&reply("ERROR: getaddrinfo failed", true)).unwrap_err(),
        "Email MCP error: ERROR: getaddrinfo failed"
    );
    let err = parse_email_list_response(&reply("not json", false)).unwrap_err();
    assert!(err.starts_with("Failed to parse email payload: "), "{}", err);
    assert_eq!(
        parse_email_list_response(&reply("{}", false)).unwrap_err(),
        "Email payload missing 'messages' array"
    );
}

#[test]
fn jira_and_calendar_replies_are_read_through_their_documents() {
    let issues = parse_jira_search_response(&reply("{\"issues\":[{\"key\":\"PRX-1\",\"summary\":\"S\"}]}", false)).unwrap();
    assert_eq!(issues[0].key, "PRX-1");
    assert!(parse_jira_search_response(&reply("[", false)).unwrap_err().starts_with("Jira payload parse error: "));
    assert_eq!(
        parse_calendar_url(&reply("{\"calendars\":[{\"url\":\"https://c/1\"}]}", false)).unwrap(),
        "https://c/1"
    );
    assert!(parse_calendar_url(&reply("x", false)).unwrap_err().starts_with("Calendar payload parse error: "));
    let events = parse_calendar_events_response(&reply("[{\"summary\":\"Standup\",\"start_local\":\"2026-07-18T09:00:00+03:00\"}]", false)).unwrap();
    assert_eq!(events.len(), 1);
    assert_eq!(events[0].summary, "Standup");
    assert!(parse_calendar_events_response(&reply("?", false)).unwrap_err().starts_with("Events payload parse error: "));
}

#[test]
fn server_input_lines_are_skipped_or_handled() {
    assert!(handle_line("   ", "1.0", None).is_none());
    assert!(handle_line("garbage", "1.0", None).is_none());
    match handle_line(" {\"jsonrpc\":\"2.0\",\"id\":1,\"method\":\"initialize\"} ", "1.0", None) {
        Some(McpStep::Reply(r)) => assert_eq!(to_value(&r)["result"]["serverInfo"]["version"], "1.0"),
        other => panic!("unexpected {:?}", other),
    }
}

#[test]
fn reply_lines_wait_for_the_expected_id() {
    assert!(read_reply_line("  ", 4).unwrap().is_none());
    assert!(read_reply_line("{\"id\":3,\"result\":{}}", 4).unwrap().is_none());
    let v = read_reply_line("{\"id\":4,\"result\":{\"ok\":true}}", 4).unwrap().unwrap();
    assert_eq!(to_value(&v), value("{\"id\":4,\"result\":{\"ok\":true}}"));
    assert!(read_reply_line("{oops", 4).unwrap_err().starts_with("MCP response JSON parse error: "));
}

#[test]
fn override_file_text_names_the_home() {
    assert_eq!(override_home_from_text("{\"hermesHome\":\" ~/h \"}", Some("/home/u")), Some("/home/u/h".to_string()));
    assert_eq!(override_home_from_text("{\"hermesHome\":\"  \"}", Some("/home/u")), None);
    assert_eq!(override_home_from_text("not json", Some("/home/u")), None);
}

#[test]
fn yaml_text_reads_as_json() {
    let j = serde_yaml_to_json("model:\n  default: m1\n  max: 5\n  t: 0.5\n  on: true\nlist: [a, 2]\n1: one\n").unwrap();
    assert_eq!(
        to_value(&j),
        value("{\"1\":\"one\",\"list\":[\"a\",2],\"model\":{\"default\":\"m1\",\"max\":5,\"on\":true,\"t\":0.5}}")
    );
    match &j {
        Json::Object(es) => {
            let keys: Vec<&str> = es.iter().map(|(k, _)| k.as_str()).collect();
            assert_eq!(keys, vec!["1", "list", "model"]);
        }
        _ => panic!("not an object"),
    }
    assert_eq!(to_value(&serde_yaml_to_json("").unwrap()), value("{}"));
    assert!(serde_yaml_to_json("a: [").unwrap_err().starts_with("YAML parse error: "));
    assert_eq!(to_value(&read_config_yaml(None).unwrap()), value("{}"));
    assert_eq!(to_value(&read_config_yaml(Some("x: 1")).unwrap()), value("{\"x\":1}"));
}

#[test]
fn yaml_nodes_map_to_json_kinds() {
    let y = YamlNode::Hash(vec![
        (YamlNode::Text("b".to_string()), YamlNode::Real(".inf".to_string())),
        (YamlNode::Text("a".to_string()), YamlNode::Real("1.25".to_string())),
        (YamlNode::Boolean(true), YamlNode::Null),
        (YamlNode::Integer(-3), YamlNode::Alias(0)),
        (YamlNode::Text("a".to_string()), YamlNode::Integer(-7)),
    ]);
    let j = yaml_value_to_json(&y).unwrap();
    assert_eq!(to_value(&j), value("{\"-3\":null,\"a\":-7,\"b\":\".inf\"}"));
    let n = yaml_value_to_json(&YamlNode::Real("inf".to_string())).unwrap();
    assert_eq!(to_value(&n), serde_json::Value::Null);
}

#[test]
fn yaml_floats_become_json_numbers() {
    for (text, expected) in [("1.50", "1.5"), ("+1.5", "1.5"), ("01.5", "1.5"), ("1.", "1.0"), (".5", "0.5"), ("-2.0e+3", "-2000.0"), ("1e5", "100000.0")] {
        let j = yaml_value_to_json(&YamlNode::Real(text.to_string())).unwrap();
        match &j {
            Json::Number(t) => assert_eq!(t, expected, "{}", text),
            other => panic!("{}: {:?}", text, other),
        }
        let v: f64 = text.parse().unwrap();
        assert_eq!(to_value(&j), serde_json::Value::from(v));
    }
    assert_eq!(to_value(&yaml_value_to_json(&YamlNode::Real("1e400".to_string())).unwrap()), serde_json::Value::Null);
    assert_eq!(to_value(&yaml_value_to_json(&YamlNode::Real("-inf".to_string())).unwrap()), serde_json::Value::Null);
}
