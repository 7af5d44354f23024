use steersman_core::chat::{
    connection_mode_of, first_token, local_ws_url, remote_ws_url, session_target,
    start_failure_message, ConnectionMode, SessionTarget,
};
use steersman_core::desktop::{
    active_personality, adopted_home, auto_connect_adopted, auto_connect_not_found,
    auto_connect_unresolved, bearer_header, config_section, connection_test, data_home,
    missing_home_error, model_ids, model_to_remember, models_url, needs_hardening,
    personalities, personality_entries, remote_candidates, remote_gateway_command,
    remote_gateway_result, remote_health_command, remote_probe_command, secret_files,
    set_display_scalar, stored_home, unsafe_remote_path_error, uses_instance_home, AdoptedHome,
    ConnectionTest, DataHome, Personality, apply_env_vars, telegram_proxy, TelegramRoute,
};
use steersman_core::json::Json;

fn json(v: &serde_json::Value) -> Json {
    match v {
        serde_json::Value::Null => Json::Null,
        serde_json::Value::Bool(b) => Json::Bool(*b),
        serde_json::Value::Number(n) => Json::Number(n.to_string()),
        serde_json::Value::String(s) => Json::Str(s.clone()),
        serde_json::Value::Array(a) => Json::Array(a.iter().map(json).collect()),
        serde_json::Value::Object(o) => {
            Json::Object(o.iter().map(|(k, v)| (k.clone(), json(v))).collect())
        }
    }
}

fn parse(text: &str) -> Json {
    json(&serde_json::from_str(text).unwrap())
}

#[test]
fn display_scalar_is_rewritten_inside_the_block() {
    let content = "model:\n  default: x\ndisplay:\n  personality: helpful\n  theme: dark\nagent:\n  max_turns: 5\n";
    assert_eq!(
        set_display_scalar(content, "personality", "pirate"),
        "model:\n  default: x\ndisplay:\n  personality: pirate\n  theme: dark\nagent:\n  max_turns: 5"
    );
}

#[test]
fn display_scalar_is_appended_when_absent() {
    let content = "agent:\n  personality: not-this-one\n";
    assert_eq!(
        set_display_scalar(content, "personality", "pirate"),
        "agent:\n  personality: not-this-one\ndisplay:\n  personality: pirate\n"
    );
    assert_eq!(set_display_scalar("", "personality", "x"), "display:\n  personality: x\n");
    let only_header = "display:\n  theme: dark";
    assert_eq!(
        set_display_scalar(only_header, "personality", "x"),
        "display:\n  theme: dark\ndisplay:\n  personality: x\n"
    );
}

#[test]
fn display_scalar_keeps_the_block_indentation() {
    let content = "root:\n    display:\n        personality: a\n    other: 1";
    assert_eq!(
        set_display_scalar(content, "personality", "b"),
        "root:\n    display:\n      personality: b\n    other: 1"
    );
}

#[test]
fn personalities_default_to_the_helpful_assistant() {
    let config = parse(r#"{"personalities":{"pirate":"Arr","coder":{"tone":"dry"}},"display":{"personality":"pirate"}}"#);
    let entries = personality_entries(&config);
    assert_eq!(entries.len(), 2);
    assert!(entries.contains(&("pirate".to_string(), Some("Arr".to_string()))));
    assert!(entries.contains(&("coder".to_string(), None)));
    assert!(personality_entries(&parse("{}")).is_empty());
    let none = personalities(Vec::new());
    assert_eq!(
        none,
        vec![Personality {
            id: "helpful".into(),
            description: "You are a helpful, friendly AI assistant.".into()
        }]
    );
    let some = vec![Personality { id: "a".into(), description: "b".into() }];
    assert_eq!(personalities(some.clone()), some);
    assert_eq!(active_personality(&config), "pirate");
    assert_eq!(active_personality(&parse(r#"{"display":{"personality":3}}"#)), "helpful");
}

#[test]
fn config_sections_default_to_empty_objects() {
    let config = parse(r#"{"agent":{"max_turns":150}}"#);
    match config_section(&config, "agent") {
        Json::Object(es) => assert_eq!(es.len(), 1),
        other => panic!("unexpected {:?}", other),
    }
    match config_section(&config, "missing") {
        Json::Object(es) => assert!(es.is_empty()),
        other => panic!("unexpected {:?}", other),
    }
}

#[test]
fn provider_model_is_remembered_only_when_both_are_given() {
    assert_eq!(
        model_to_remember(Some("openai".into()), Some("gpt".into()), None),
        Some(("openai".to_string(), "gpt".to_string(), String::new()))
    );
    assert_eq!(model_to_remember(Some("openai".into()), None, Some("u".into())), None);
}

#[test]
fn auto_connect_prefers_homes_with_data() {
    assert_eq!(adopted_home(Some("/h"), true, true, true, true), AdoptedHome::Instance);
    assert_eq!(adopted_home(Some("/h"), true, false, true, true), AdoptedHome::Default);
    assert_eq!(adopted_home(Some("/h"), true, false, true, false), AdoptedHome::Instance);
    assert_eq!(adopted_home(Some(""), true, true, true, false), AdoptedHome::Default);
    assert_eq!(adopted_home(None, false, false, false, false), AdoptedHome::Unresolved);
    let nf = auto_connect_not_found();
    assert!(!nf.found);
    assert_eq!(nf.error.as_deref(), Some("No local Hermes installation detected"));
    let un = auto_connect_unresolved(true, Some("Hermes — x".into()));
    assert!(un.found && un.gateway_running && un.hermes_home.is_none());
    let ok = auto_connect_adopted("/h", false, true, None);
    assert!(ok.gateway_running && ok.error.is_none());
    assert_eq!(ok.hermes_home.as_deref(), Some("/h"));
    let failed = auto_connect_adopted("/h", false, false, None);
    assert_eq!(failed.error.as_deref(), Some("Instance adopted but gateway failed to start"));
}

#[test]
fn connecting_to_an_instance_needs_its_data() {
    assert!(uses_instance_home(Some("/h"), true, true));
    assert!(!uses_instance_home(Some("/h"), true, false));
    assert!(!uses_instance_home(Some(""), true, true));
    assert_eq!(missing_home_error("/x"), "Instance home '/x' does not exist or is not a directory");
    assert_eq!(data_home(true, true), DataHome::Stored);
    assert_eq!(data_home(false, true), DataHome::Resolved);
    assert_eq!(data_home(false, false), DataHome::StoredAnyway);
    assert_eq!(stored_home(None), Err("App not initialized".to_string()));
    assert_eq!(stored_home(Some("/h")), Ok("/h".to_string()));
}

#[test]
fn secret_files_are_narrowed_when_shared() {
    assert_eq!(secret_files(), vec!["desktop.json", "telegram.json", ".env", "auth.json"]);
    assert!(needs_hardening(0o644));
    assert!(needs_hardening(0o100604));
    assert!(!needs_hardening(0o600));
    assert!(!needs_hardening(0o100700));
}

#[test]
fn connection_tests_by_mode() {
    assert_eq!(connection_test("local", "", false), Ok(ConnectionTest::Local));
    assert_eq!(
        connection_test("remote", "https://h.example//", false),
        Ok(ConnectionTest::Remote { health_url: "https://h.example/health".into() })
    );
    assert_eq!(connection_test("ssh", "", true), Ok(ConnectionTest::Ssh));
    assert_eq!(connection_test("ssh", "", false), Err("SSH config required".to_string()));
    assert_eq!(connection_test("pigeon", "", false), Err("Unknown mode: pigeon".to_string()));
}

#[test]
fn model_listing_is_read_from_data_ids() {
    assert_eq!(models_url(8642), "http://127.0.0.1:8642/v1/models");
    assert_eq!(bearer_header("k"), Some("Bearer k".to_string()));
    assert_eq!(bearer_header(""), None);
    let listing = parse(r#"{"data":[{"id":"a"},{"id":2},{"name":"x"},{"id":"b"}]}"#);
    assert_eq!(model_ids(&listing), vec!["a", "b"]);
    assert!(model_ids(&parse(r#"{"data":{}}"#)).is_empty());
}

#[test]
fn remote_gateway_commands_and_report() {
    assert_eq!(
        remote_gateway_command(9000, "/opt/venv/bin/python"),
        "nohup sh -c 'API_SERVER_PORT=9000 hermes gateway 2>/dev/null || API_SERVER_PORT=9000 /opt/venv/bin/python -m hermes_cli.main gateway' > /tmp/gateway.log 2>&1 &"
    );
    assert_eq!(
        remote_health_command(9000),
        "curl -sf http://127.0.0.1:9000/health 2>/dev/null || echo fail"
    );
    assert_eq!(
        unsafe_remote_path_error("x;rm"),
        "Refused remote gateway start: python path 'x;rm' is not a safe shell path"
    );
    let ok = remote_gateway_result("{\"status\":\"ok\"}\n");
    assert!(ok.success && ok.running && ok.error.is_none());
    assert_eq!(ok.log_path.as_deref(), Some("/tmp/gateway.log"));
    let bad = remote_gateway_result("fail\n");
    assert!(!bad.success);
    assert_eq!(bad.error.as_deref(), Some("Remote gateway health check failed"));
    assert!(!remote_gateway_result("  \n").success);
    assert_eq!(remote_candidates().len(), 6);
    assert_eq!(remote_candidates()[4], ("~/.hermes/hermes-agent/venv/bin/python", "hermes-agent"));
    assert_eq!(remote_probe_command("/usr/bin/python3"), "test -f /usr/bin/python3");
}

#[test]
fn chat_transport_choices() {
    assert_eq!(connection_mode_of("remote"), ConnectionMode::Remote);
    assert_eq!(connection_mode_of("ssh"), ConnectionMode::Ssh);
    assert_eq!(connection_mode_of("anything"), ConnectionMode::Local);
    assert_eq!(
        remote_ws_url("https://host.example/api/ws/", "tok"),
        Ok("wss://host.example/api/ws?token=tok".to_string())
    );
    assert_eq!(
        remote_ws_url("http://h:1//", "t"),
        Ok("ws://h:1/api/ws?token=t".to_string())
    );
    assert_eq!(
        remote_ws_url("http://h", ""),
        Err("Remote session token is empty. Set it in Settings → Connection.".to_string())
    );
    assert_eq!(
        local_ws_url(Some(41000), Some("own".into()), Some("env".into())),
        Ok("ws://127.0.0.1:41000/api/ws?token=own".to_string())
    );
    assert_eq!(
        local_ws_url(Some(41000), None, Some("env".into())),
        Ok("ws://127.0.0.1:41000/api/ws?token=env".to_string())
    );
    assert!(local_ws_url(Some(41000), None, Some("".into())).unwrap_err().starts_with("No dashboard session token"));
    assert_eq!(local_ws_url(None, Some("t".into()), None), Err("Gateway not available (no port)".to_string()));
    assert_eq!(session_target(Some("s"), Some("c")), SessionTarget::Given("s".into()));
    assert_eq!(session_target(Some(""), Some("c")), SessionTarget::Conversation("c".into()));
    assert_eq!(session_target(None, Some("")), SessionTarget::Fresh);
    assert_eq!(start_failure_message(None), "Failed to start gateway");
    assert_eq!(start_failure_message(Some("boom".into())), "boom");
    assert_eq!(first_token(vec![None, Some("k2".into()), Some("k3".into())]), "k2");
    assert_eq!(first_token(vec![None, None]), "");
}

#[test]
fn source_variables_are_written_in_turn() {
    let vars = vec![
        ("EMAIL_USER".to_string(), "me".to_string()),
        ("JIRA_URL".to_string(), "https://j".to_string()),
        ("EMAIL_USER".to_string(), "you".to_string()),
    ];
    assert_eq!(
        apply_env_vars("A=1\n", &vars),
        "A=1\nEMAIL_USER=\"you\"\nJIRA_URL=\"https://j\"\n"
    );
    assert_eq!(apply_env_vars("A=1", &Vec::new()), "A=1");
}

fn route(token: &str, chat: &str, use_proxy: bool, url: &str) -> TelegramRoute {
    TelegramRoute { bot_token: token.into(), chat_id: chat.into(), use_proxy, proxy_url: url.into() }
}

#[test]
fn telegram_proxy_prefers_the_matched_source() {
    let routes = vec![
        route("t1", "c1", true, "socks5://a:1"),
        route("t2", "c2", false, ""),
        route("t3", "c3", true, "http://p:8"),
    ];
    assert_eq!(telegram_proxy(&routes, "t1", "zz", false, "g"), (true, "socks5://a:1".to_string()));
    assert_eq!(telegram_proxy(&routes, "t2", "c3", false, "g"), (false, "g".to_string()));
    assert_eq!(telegram_proxy(&routes, "nope", "c3", false, "g"), (true, "http://p:8".to_string()));
    assert_eq!(telegram_proxy(&routes, "nope", "nope", true, "g"), (true, "g".to_string()));
}
