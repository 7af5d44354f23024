use steersman_core::json::Json;
use steersman_core::mcp::{
    add_mcp_server, config_yaml_path, install_mcp_catalog_entry, list_mcp_catalog,
    list_mcp_servers, read_mcp_servers, read_mcp_servers_yaml, remove_mcp_server, set_mcp_server_enabled,
    sync_mcp_env_blocks, test_mcp_server, update_mcp_server_env, McpServer, McpServerInput,
};

fn yaml_json(y: &yaml_rust2::Yaml) -> Json {
    match y {
        yaml_rust2::Yaml::Null => Json::Null,
        yaml_rust2::Yaml::Boolean(b) => Json::Bool(*b),
        yaml_rust2::Yaml::Integer(i) => Json::Number(i.to_string()),
        yaml_rust2::Yaml::Real(f) => Json::Number(f.clone()),
        yaml_rust2::Yaml::String(s) => Json::Str(s.clone()),
        yaml_rust2::Yaml::Array(a) => Json::Array(a.iter().map(yaml_json).collect()),
        yaml_rust2::Yaml::Hash(h) => Json::Object(
            h.iter()
                .filter_map(|(k, v)| match k {
                    yaml_rust2::Yaml::String(s) => Some((s.clone(), yaml_json(v))),
                    yaml_rust2::Yaml::Integer(i) => Some((i.to_string(), yaml_json(v))),
                    _ => None,
                })
                .collect(),
        ),
        _ => Json::Null,
    }
}

/// The servers that a configuration text declares.
fn servers_in(text: &str) -> Vec<McpServer> {
    list_mcp_servers(&read_mcp_servers_yaml(Some(text)))
}

fn configs_in(text: &str) -> Vec<(String, steersman_core::mcp::McpServerConfig)> {
    let via_library = read_mcp_servers_yaml(Some(text));
    let docs = yaml_rust2::YamlLoader::load_from_str(text).unwrap();
    let config = docs.first().map(yaml_json);
    let by_hand = read_mcp_servers(config.as_ref());
    let mut a: Vec<String> = via_library.iter().map(|(n, _)| n.clone()).collect();
    let mut b: Vec<String> = by_hand.iter().map(|(n, _)| n.clone()).collect();
    a.sort();
    b.sort();
    assert_eq!(a, b);
    via_library
}

fn display(j: &Json) -> String {
    match j {
        Json::Str(s) => s.clone(),
        Json::Number(t) => t.clone(),
        Json::Bool(b) => b.to_string(),
        Json::Null => "null".to_string(),
        other => format!("{:?}", other),
    }
}

fn stdio(name: &str, command: &str, env: Option<Vec<(&str, &str)>>) -> McpServerInput {
    McpServerInput {
        name: name.to_string(),
        server_type: "stdio".to_string(),
        url: None,
        command: Some(command.to_string()),
        args: None,
        env: env.map(|e| e.into_iter().map(|(k, v)| (k.to_string(), v.to_string())).collect()),
        auth: None,
    }
}

fn add(text: &str, input: &McpServerInput) -> String {
    add_mcp_server(text, &configs_in(text), input).unwrap().0
}

const REALISTIC_FIXTURE: &str = "\
# Hermes Agent configuration
model:
  default: some-model

# MCP servers — managed by Steersman Desktop
mcp_servers:
  # Email connector (IMAP/SMTP via himalaya)
  email:
    command: \"python\"
    args: [\"server.py\"]
    env:
      EMAIL_ADDRESS: \"user@example.com\"
      EMAIL_PASSWORD: \"secret123\"
      NO_PROXY: \"*\"
    timeout: 60          # seconds
    connect_timeout: 30
  lodestone:
    url: \"https://lodestone.example.com/mcp/\"
    headers:
      Authorization: \"Bearer lst_token_here\"
    env:
      NO_PROXY: \"*\"
    timeout: 60
    connect_timeout: 30
";

#[test]
fn add_then_list_reads_from_config_yaml() {
    let mut input = stdio("email", "mcp-email", Some(vec![("EMAIL_ADDRESS", "a@b.com")]));
    input.args = Some(vec![]);
    let after = add("model:\n  default: ''\n", &input);
    let listed = servers_in(&after);
    assert_eq!(listed.len(), 1, "expected 1 server, got {:?}", listed);
    assert_eq!(listed[0].name, "email");
    assert_eq!(listed[0].command.as_deref(), Some("mcp-email"));
    assert_eq!(listed[0].env, vec![("EMAIL_ADDRESS".to_string(), "a@b.com".to_string())]);
    assert!(listed[0].enabled);
}

#[test]
fn add_writes_to_config_yaml_not_servers_json() {
    let after = add("model:\n  default: ''\n", &stdio("jira", "mcp-jira", None));
    assert!(after.contains("mcp_servers:"), "config.yaml missing mcp_servers: {}", after);
    assert!(after.contains("jira"), "config.yaml missing server name: {}", after);
    assert_eq!(after, "model:\n  default: ''\n\nmcp_servers:\n  jira:\n    command: \"mcp-jira\"\n");
}

#[test]
fn add_reports_the_added_server_and_refuses_duplicates() {
    let input = McpServerInput {
        name: "web".into(),
        server_type: "http".into(),
        url: Some("https://x/mcp".into()),
        command: None,
        args: Some(vec!["a".into(), "b c".into()]),
        env: None,
        auth: Some("oauth".into()),
    };
    let (text, added) = add_mcp_server("", &configs_in(""), &input).unwrap();
    assert_eq!(text, "mcp_servers:\n  web:\n    url: \"https://x/mcp\"\n    args: [\"a\", \"b c\"]\n    auth: \"oauth\"\n");
    assert_eq!(added.detail, "https://x/mcp");
    assert_eq!(added.transport, "http");
    assert!(added.raw_fields.is_empty());
    let err = add_mcp_server(&text, &configs_in(&text), &input).unwrap_err();
    assert_eq!(err, "Server 'web' already exists");
}

#[test]
fn remove_deletes_from_config_yaml() {
    let after = add("model:\n  default: ''\n", &stdio("temp", "x", None));
    assert_eq!(servers_in(&after).len(), 1);
    let removed = remove_mcp_server(&after, "temp").unwrap();
    assert!(servers_in(&removed).is_empty(), "server still present after remove");
}

#[test]
fn remove_of_unknown_server_is_an_error() {
    assert_eq!(remove_mcp_server(REALISTIC_FIXTURE, "nope").unwrap_err(), "Server 'nope' not found");
}

#[test]
fn update_env_preserves_unknown_fields_and_comments() {
    let servers = configs_in(REALISTIC_FIXTURE);
    let env = vec![("EMAIL_PASSWORD".to_string(), "newpass456".to_string())];
    let after = update_mcp_server_env(REALISTIC_FIXTURE, &servers, "email", &env).unwrap();
    assert!(after.contains("newpass456"), "new env value missing: {}", after);
    assert!(!after.contains("secret123"), "old value not replaced: {}", after);
    assert!(after.contains("# Hermes Agent configuration"), "comment dropped: {}", after);
    assert!(after.contains("# Email connector"), "server comment dropped: {}", after);
    assert!(after.contains("timeout: 60"), "timeout field dropped: {}", after);
    assert!(after.contains("connect_timeout: 30"), "connect_timeout dropped: {}", after);
    assert!(after.contains("lodestone"), "other server dropped: {}", after);
    assert!(after.contains("Bearer lst_token_here"), "lodestone header dropped: {}", after);
    assert!(after.contains("EMAIL_ADDRESS: \"user@example.com\""), "sibling env var dropped: {}", after);
    assert!(after.contains("NO_PROXY"), "NO_PROXY dropped: {}", after);
    assert!(after.contains("      EMAIL_PASSWORD: \"newpass456\"\n"));
}

#[test]
fn update_env_adds_missing_variables_and_env_block() {
    let servers = configs_in(REALISTIC_FIXTURE);
    let env = vec![("NEW_KEY".to_string(), "v".to_string())];
    let after = update_mcp_server_env(REALISTIC_FIXTURE, &servers, "email", &env).unwrap();
    assert!(after.contains("      NO_PROXY: \"*\"\n      NEW_KEY: \"v\"\n    timeout: 60"), "{}", after);
    let text = "mcp_servers:\n  a:\n    command: \"x\"\n";
    let after = update_mcp_server_env(text, &configs_in(text), "a", &env).unwrap();
    assert_eq!(after, "mcp_servers:\n  a:\n    env:\n      NEW_KEY: \"v\"\n    command: \"x\"\n");
}

#[test]
fn set_enabled_preserves_unknown_fields() {
    let after = set_mcp_server_enabled(REALISTIC_FIXTURE, "email", false);
    assert!(after.contains("enabled: false"), "enabled not set: {}", after);
    assert!(after.contains("timeout: 60"), "timeout dropped after set_enabled: {}", after);
    assert!(after.contains("connect_timeout: 30"), "connect_timeout dropped: {}", after);
    assert!(after.contains("Bearer lst_token_here"), "lodestone clobbered: {}", after);
    assert!(after.contains("# Email connector"), "comment dropped: {}", after);
}

#[test]
fn set_enabled_writes_into_the_server_entry() {
    let after = set_mcp_server_enabled(REALISTIC_FIXTURE, "email", false);
    assert!(after.contains("    connect_timeout: 30\n    enabled: false\n  lodestone:"), "{}", after);
    let email = servers_in(&after).into_iter().find(|s| s.name == "email").unwrap();
    assert!(!email.enabled);
    let again = set_mcp_server_enabled(&after, "email", true);
    assert!(again.contains("    connect_timeout: 30\n    enabled: true\n  lodestone:"), "{}", again);
    assert_eq!(set_mcp_server_enabled("model:\n  default: x\n", "email", false), "model:\n  default: x\n");
}

#[test]
fn remove_preserves_other_servers_and_comments() {
    let after = remove_mcp_server(REALISTIC_FIXTURE, "email").unwrap();
    assert!(!after.contains("EMAIL_PASSWORD"), "removed server env still present: {}", after);
    assert!(!after.contains("command: \"python\""), "removed server command still present: {}", after);
    assert!(after.contains("lodestone"), "other server dropped: {}", after);
    assert!(after.contains("Bearer lst_token_here"), "lodestone header dropped: {}", after);
    assert!(after.contains("timeout: 60"), "lodestone timeout dropped: {}", after);
    assert!(after.contains("# Hermes Agent configuration"), "comment dropped: {}", after);
}

#[test]
fn add_preserves_existing_servers_and_comments() {
    let after = add(REALISTIC_FIXTURE, &stdio("newserver", "newcmd", Some(vec![("API_KEY", "xyz")])));
    assert!(after.contains("newserver"), "new server not added: {}", after);
    assert!(after.contains("newcmd"), "new command not added: {}", after);
    assert!(after.contains("API_KEY: \"xyz\""), "new env not added: {}", after);
    assert!(after.contains("email"), "existing server dropped: {}", after);
    assert!(after.contains("lodestone"), "existing server dropped: {}", after);
    assert!(after.contains("Bearer lst_token_here"), "lodestone header dropped: {}", after);
    assert!(after.contains("# Hermes Agent configuration"), "comment dropped: {}", after);
    assert!(after.contains("# Email connector"), "comment dropped: {}", after);
    assert!(after.contains("mcp_servers:\n  newserver:\n    command: \"newcmd\"\n    env:\n      API_KEY: \"xyz\"\n  # Email"));
}

#[test]
fn list_returns_raw_fields_for_display() {
    let listed = servers_in(REALISTIC_FIXTURE);
    let email = listed.iter().find(|s| s.name == "email").unwrap();
    let keys: Vec<&str> = email.raw_fields.iter().map(|(k, _)| k.as_str()).collect();
    assert!(keys.contains(&"timeout"), "timeout not in raw_fields: {:?}", email.raw_fields);
    assert!(keys.contains(&"connect_timeout"), "connect_timeout not in raw_fields: {:?}", email.raw_fields);
    let timeout = email.raw_fields.iter().find(|(k, _)| k == "timeout").map(|(_, v)| display(v));
    assert_eq!(timeout.as_deref(), Some("60"));
    assert_eq!(email.args, vec!["server.py".to_string()]);
    assert_eq!(email.server_type, "stdio");
    let lodestone = listed.iter().find(|s| s.name == "lodestone").unwrap();
    assert_eq!(lodestone.server_type, "http");
    assert_eq!(lodestone.detail, "https://lodestone.example.com/mcp/");
}

#[test]
fn update_env_returns_error_for_unknown_server() {
    let env = vec![("KEY".to_string(), "val".to_string())];
    let result = update_mcp_server_env(REALISTIC_FIXTURE, &configs_in(REALISTIC_FIXTURE), "nonexistent", &env);
    assert!(result.unwrap_err().contains("not found"));
}

#[test]
fn stubs_report_not_implemented() {
    assert!(test_mcp_server("email").unwrap_err().starts_with("NotImplemented"));
    assert!(list_mcp_catalog().unwrap().is_empty());
    assert!(install_mcp_catalog_entry("x", None).unwrap_err().starts_with("NotImplemented"));
}

#[test]
fn sync_writes_env_blocks_for_servers_with_variables() {
    let blocks = vec![
        ("email".to_string(), vec![("EMAIL_USER".to_string(), "me".to_string())]),
        ("jira".to_string(), vec![]),
    ];
    let after = sync_mcp_env_blocks("model:\n  default: x\n", &blocks);
    assert_eq!(after, "model:\n  default: x\n");
    let text = "mcp_servers:\n  email:\n    command: x\n    env:\n      KEY: old\n  jira:\n    command: y\n";
    let after = sync_mcp_env_blocks(text, &blocks);
    assert_eq!(after, "mcp_servers:\n  email:\n    command: x\n    env:\n      KEY: old\n      EMAIL_USER: \"me\"\n  jira:\n    command: y\n");
}

#[test]
fn config_path_follows_profile() {
    assert_eq!(config_yaml_path(None), vec!["config.yaml".to_string()]);
    assert_eq!(config_yaml_path(Some("default")), vec!["config.yaml".to_string()]);
    assert_eq!(
        config_yaml_path(Some("work")),
        vec!["profiles".to_string(), "work".to_string(), "config.yaml".to_string()]
    );
}

#[test]
fn servers_are_read_from_the_configuration_text() {
    assert!(read_mcp_servers_yaml(None).is_empty());
    assert!(read_mcp_servers_yaml(Some("mcp_servers: [")).is_empty());
    let names: Vec<String> = read_mcp_servers_yaml(Some("mcp_servers:\n  zeta:\n    command: z\n  alpha:\n    url: http://a\n"))
        .into_iter()
        .map(|(n, _)| n)
        .collect();
    assert_eq!(names, vec!["alpha".to_string(), "zeta".to_string()]);
}
