use steersman_core::integration_domain::{CapabilityId, IntegrationCommandError, IntegrationDefinitionId, IntegrationIssue};
use steersman_core::json::Json;
use steersman_core::mcp_adapter::{
    auth_for, capability_requirements, capability_status, check_launch, health_snapshot,
    is_legacy_protocol_rejection, map_error, normalize_mcp_issue, resolve_descriptor,
    snapshot_from_discovery, transport_for, McpAuthorizationKind, NormalizedCapability,
    RuntimeSecret,
};
use steersman_core::mcp_client::{
    answers_request, build_discover_request, build_initialize_request, build_tools_call_request,
    classify_discover_error, spawn_env, tool_call_error, McpClientPool,
};

fn json(v: &serde_json::Value) -> Json {
    match v {
        serde_json::Value::Null => Json::Null,
        serde_json::Value::Bool(b) => Json::Bool(*b),
        serde_json::Value::Number(n) => Json::Number(n.to_string()),
        serde_json::Value::String(s) => Json::Str(s.clone()),
        serde_json::Value::Array(a) => Json::Array(a.iter().map(json).collect()),
        serde_json::Value::Object(o) => Json::Object(o.iter().map(|(k, v)| (k.clone(), json(v))).collect()),
    }
}

fn value(j: &Json) -> serde_json::Value {
    match j {
        Json::Null => serde_json::Value::Null,
        Json::Bool(b) => serde_json::Value::Bool(*b),
        Json::Number(t) => serde_json::from_str(t).unwrap(),
        Json::Str(s) => serde_json::Value::String(s.clone()),
        Json::Array(a) => serde_json::Value::Array(a.iter().map(value).collect()),
        Json::Object(o) => serde_json::Value::Object(o.iter().map(|(k, v)| (k.clone(), value(v))).collect()),
    }
}

fn id(s: &str) -> IntegrationDefinitionId {
    IntegrationDefinitionId(s.into())
}

#[test]
fn curated_definitions_are_allowlisted() {
    assert_eq!(resolve_descriptor(&id("gmail")).unwrap().package, "gmail-mcp");
    assert_eq!(resolve_descriptor(&id("jira")).unwrap().package, "jira-mcp");
    assert_eq!(resolve_descriptor(&id("confluence")).unwrap().package, "confluence-mcp");
    assert!(resolve_descriptor(&id("x")).is_err());
}

#[test]
fn secrets_are_not_debuggable_or_serializable() {
    let secret = RuntimeSecret::new("secret-never-log");
    assert_eq!(secret.expose(), "secret-never-log");
}

#[test]
fn requirements_are_per_product_capability() {
    assert_eq!(capability_requirements(&id("jira")).len(), 3);
    assert_eq!(capability_requirements(&id("gmail"))[1].required_tools, vec!["send_email".to_string()]);
    assert!(capability_requirements(&id("other")).is_empty());
}

#[test]
fn transport_and_auth() {
    let d = resolve_descriptor(&id("jira")).unwrap();
    assert_eq!(transport_for(&d).env_allowlist, vec!["JIRA_BASE_URL", "JIRA_EMAIL", "JIRA_API_TOKEN"]);
    assert_eq!(auth_for(&d).kind, McpAuthorizationKind::BearerToken);
    let g = resolve_descriptor(&id("gmail")).unwrap();
    assert_eq!(auth_for(&g).kind, McpAuthorizationKind::EnvSecret);
    assert!(check_launch(&transport_for(&g), &vec!["GMAIL_EMAIL".to_string()]).is_ok());
    assert!(check_launch(&transport_for(&g), &vec!["HOME".to_string()]).is_err());
}

#[test]
fn errors_are_classified() {
    assert_eq!(map_error("HTTP 401 Unauthorized"), IntegrationCommandError::AuthenticationRequired);
    assert_eq!(map_error("missing SCOPE"), IntegrationCommandError::PermissionDenied);
    assert_eq!(map_error("Network down"), IntegrationCommandError::HealthCheckFailed);
    assert_eq!(map_error("boom"), IntegrationCommandError::RuntimeUnavailable);
    assert_eq!(normalize_mcp_issue("Token EXPIRED (401)"), IntegrationIssue::AuthenticationExpired);
    assert_eq!(normalize_mcp_issue("DNS failure"), IntegrationIssue::NetworkUnavailable);
    assert_eq!(normalize_mcp_issue("HTTP 503"), IntegrationIssue::ServiceUnavailable);
    assert_eq!(normalize_mcp_issue("process exit 1"), IntegrationIssue::RuntimeUnavailable);
    assert_eq!(normalize_mcp_issue("???"), IntegrationIssue::Unknown);
    assert!(is_legacy_protocol_rejection("Method Not Found"));
    assert!(!is_legacy_protocol_rejection("auth"));
}

#[test]
fn discovery_snapshot_and_status() {
    let v = json(&serde_json::from_str(r#"{"tools":[{"name":"search_issues"},{"x":1},{"name":"create_issue"}],"prompts":"no"}"#).unwrap());
    let snap = snapshot_from_discovery(&v);
    assert_eq!(snap.tools, vec!["search_issues", "create_issue"]);
    assert!(snap.resources.is_empty() && snap.prompts.is_empty());
    let jira = id("jira");
    let cap = |s: &str| CapabilityId(s.into());
    assert_eq!(capability_status(&jira, &cap("issue.read"), Some(&snap.tools)), NormalizedCapability::Available);
    assert_eq!(capability_status(&jira, &cap("issue.transition"), Some(&snap.tools)), NormalizedCapability::Unsupported);
    assert_eq!(capability_status(&jira, &cap("issue.read"), None), NormalizedCapability::TemporarilyUnavailable);
    assert_eq!(capability_status(&jira, &cap("page.read"), None), NormalizedCapability::Unsupported);
    assert_eq!(health_snapshot(false).error_count, 1);
    assert!(health_snapshot(true).last_error.is_none());
}

#[test]
fn mcp_initialize_request_is_valid_jsonrpc() {
    let req = value(&build_initialize_request(1));
    assert_eq!(req["jsonrpc"], "2.0");
    assert_eq!(req["method"], "initialize");
    assert_eq!(req["id"], 1);
    assert!(req["params"].get("protocolVersion").is_some());
    assert_eq!(req["params"]["clientInfo"]["name"], "steersman-desktop");
}

#[test]
fn mcp_tools_call_request_is_valid_jsonrpc() {
    let req = value(&build_tools_call_request(2, "list_inbox", &Json::Object(vec![])));
    assert_eq!(req["jsonrpc"], "2.0");
    assert_eq!(req["method"], "tools/call");
    assert_eq!(req["id"], 2);
    assert_eq!(req["params"]["name"], "list_inbox");
}

#[test]
fn stateless_discover_carries_required_metadata() {
    let request = value(&build_discover_request(7));
    assert_eq!(request["method"], "server/discover");
    assert_eq!(request["params"]["protocolVersion"], "2026-07-28");
    assert!(request.get("_meta").is_some());
}

#[test]
fn mcp_env_must_include_pythonunbuffered_on_spawn() {
    let env = spawn_env(&vec![("A".to_string(), "b".to_string())]);
    assert!(env.iter().any(|(k, v)| k == "PYTHONUNBUFFERED" && v == "1"));
    assert_eq!(env[0], ("A".to_string(), "b".to_string()));
    assert_eq!(env.last().unwrap().0, "PYTHONIOENCODING");
}

#[test]
fn replies_and_errors() {
    let reply = json(&serde_json::from_str(r#"{"jsonrpc":"2.0","id":5,"result":{}}"#).unwrap());
    assert!(answers_request(&reply, 5));
    assert!(!answers_request(&reply, 6));
    assert_eq!(classify_discover_error(r#"{"code":-32601,"message":"Method not found"}"#), "MCP discover rejected: protocol unsupported");
    assert_eq!(classify_discover_error(r#"{"message":"AUTH required"}"#), "MCP discover rejected: authentication");
    assert_eq!(classify_discover_error("{}"), "MCP discover rejected");
    assert_eq!(tool_call_error("t", "{}"), "tools/call 't' error: {}");
    let pool = McpClientPool::new();
    assert!(pool.check_spawn("gmail-mcp", &vec!["--x".to_string()]).is_ok());
    assert!(pool.check_spawn("", &vec![]).is_err());
    assert!(pool.check_spawn("a", &vec!["b\nc".to_string()]).is_err());
}

#[test]
fn mcp_call_tool_serializes_arguments() {
    let args = json(&serde_json::from_str(r#"{"unread_only": true, "days": 7, "limit": 20}"#).unwrap());
    let req = value(&build_tools_call_request(3, "list_inbox", &args));
    let params_args = req.get("params").and_then(|p| p.get("arguments")).expect("arguments field missing");
    assert_eq!(params_args.get("unread_only").and_then(|v| v.as_bool()), Some(true));
    assert_eq!(params_args.get("days").and_then(|v| v.as_i64()), Some(7));
    assert_eq!(params_args.get("limit").and_then(|v| v.as_i64()), Some(20));
}

fn digest_hex(parts: &[&str]) -> String {
    let mut h = <sha2::Sha256 as sha2::Digest>::new();
    for p in parts {
        sha2::Digest::update(&mut h, p.as_bytes());
        sha2::Digest::update(&mut h, [0u8]);
    }
    hex::encode(sha2::Digest::finalize(h))
}

#[test]
fn runtime_identity_fingerprints_settings_secrets_and_transport() {
    let instance = steersman_core::integration_domain::IntegrationInstance {
        version: 1,
        id: steersman_core::integration_domain::IntegrationInstanceId("i-1".into()),
        definition_id: id("gmail"),
        display_name: "Mail".into(),
        status: steersman_core::integration_domain::IntegrationStatus::Ready,
        enabled: true,
        management: steersman_core::integration_domain::IntegrationManagement::UserManaged,
        configured_capabilities: vec![],
        created_at: 0,
        updated_at: 0,
    };
    let env = vec![("B".to_string(), RuntimeSecret::new("2")), ("A".to_string(), RuntimeSecret::new("1"))];
    let ident = steersman_core::mcp_adapter::runtime_identity(&instance, &env, &vec!["--stdio".to_string()]);
    assert_eq!(ident.non_secret_fingerprint, digest_hex(&["gmail", "true"]));
    assert_eq!(ident.secret_fingerprint, digest_hex(&["A:1", "B:2"]));
    assert_eq!(ident.transport_fingerprint, digest_hex(&["--stdio"]));
    assert_eq!(ident.instance_id.0, "i-1");
    let swapped = vec![("A".to_string(), RuntimeSecret::new("1")), ("B".to_string(), RuntimeSecret::new("2"))];
    assert_eq!(steersman_core::mcp_adapter::runtime_identity(&instance, &swapped, &vec![]).secret_fingerprint, ident.secret_fingerprint);
}
