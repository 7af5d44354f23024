use steersman_core::config::EnvMap;
use steersman_core::gateway::{
    build_serve_args, find_hermes_python, find_hermes_repo, gateway_child_env, gateway_command,
    gateway_start_result, gateway_ws_url, generate_session_token, parse_ready_port, profile_key,
    BackendError, PathParts, StartOutcome,
};

#[test]
fn serve_args_default_profile_no_profile_flag() {
    let args = build_serve_args(None);
    assert_eq!(args, vec!["serve", "--host", "127.0.0.1", "--port", "0"]);
}

#[test]
fn serve_args_named_profile_inserts_profile_flag() {
    let args = build_serve_args(Some("architect"));
    assert_eq!(
        args,
        vec!["--profile", "architect", "serve", "--host", "127.0.0.1", "--port", "0"]
    );
}

#[test]
fn serve_args_default_string_treated_as_no_profile() {
    let args = build_serve_args(Some("default"));
    assert_eq!(args, vec!["serve", "--host", "127.0.0.1", "--port", "0"]);
    assert!(!args.iter().any(|a| a == "--profile"));
}

#[test]
fn serve_args_empty_profile_treated_as_no_profile() {
    assert_eq!(build_serve_args(Some("")), vec!["serve", "--host", "127.0.0.1", "--port", "0"]);
}

#[test]
fn parse_ready_port_extracts_port() {
    assert_eq!(parse_ready_port("HERMES_BACKEND_READY port=9420"), Some(9420));
}

#[test]
fn parse_ready_port_with_log_prefix() {
    assert_eq!(
        parse_ready_port("[2026-07-15 20:00:01] HERMES_BACKEND_READY port=64724"),
        Some(64724)
    );
}

#[test]
fn parse_ready_port_rejects_non_matching_lines() {
    assert_eq!(parse_ready_port("Starting hermes..."), None);
    assert_eq!(parse_ready_port("listening on 8642"), None);
    assert_eq!(parse_ready_port(""), None);
}

#[test]
fn parse_ready_port_invalid_number_returns_none() {
    assert_eq!(parse_ready_port("HERMES_BACKEND_READY port=99999"), None);
}

#[test]
fn parse_ready_port_edges() {
    assert_eq!(parse_ready_port("HERMES_BACKEND_READY port=65535"), Some(65535));
    assert_eq!(parse_ready_port("HERMES_BACKEND_READY port=65536"), None);
    assert_eq!(parse_ready_port("HERMES_BACKEND_READY port=0"), Some(0));
    assert_eq!(parse_ready_port("HERMES_BACKEND_READY port="), None);
    assert_eq!(parse_ready_port("HERMES_BACKEND_READY port=12ab"), Some(12));
    assert_eq!(parse_ready_port("port=5 HERMES_BACKEND_READY"), None);
    assert_eq!(parse_ready_port("HERMES_BACKEND_READY host=x port=0042"), Some(42));
}

#[test]
fn backend_error_not_installed_is_matchable() {
    let err = BackendError::NotInstalled;
    assert!(matches!(err, BackendError::NotInstalled));
}

#[test]
fn backend_error_stop_failed_carries_detail() {
    // Stopping the backend cannot fail, so there is no error variant for it:
    // the only error kind is a missing installation.
    assert_eq!(find_hermes_python(None).unwrap_err(), BackendError::NotInstalled);
}

#[test]
fn backend_error_display_is_human_readable() {
    let s = BackendError::NotInstalled.message();
    assert!(s.contains("Hermes"));
    assert!(s.contains("Install"));
}

#[test]
fn find_hermes_python_returns_not_installed_when_missing() {
    let result: Result<(String, String), BackendError> = find_hermes_python(None);
    assert!(matches!(result, Err(BackendError::NotInstalled)));
    let found = find_hermes_python(Some("/opt/hermes/venv/bin/python")).unwrap();
    assert_eq!(found, ("/opt/hermes/venv/bin/python".to_string(), "hermes".to_string()));
}

#[test]
fn repo_is_three_levels_above_interpreter() {
    let p = PathParts {
        root: "/".into(),
        parts: vec!["opt".into(), "hermes".into(), "venv".into(), "bin".into(), "python".into()],
    };
    let repo = find_hermes_repo(&p).unwrap();
    assert_eq!(repo.root, "/");
    assert_eq!(repo.parts, vec!["opt".to_string(), "hermes".to_string()]);
    let short = PathParts { root: "".into(), parts: vec!["bin".into(), "python".into()] };
    assert!(find_hermes_repo(&short).is_none());
}

#[test]
fn ws_url_and_profile_key() {
    assert_eq!(gateway_ws_url(9421, "abc"), "ws://127.0.0.1:9421/api/ws?token=abc");
    assert_eq!(gateway_ws_url(0, "t"), "ws://127.0.0.1:0/api/ws?token=t");
    assert_eq!(profile_key(None), "default");
    assert_eq!(profile_key(Some("work")), "work");
}

#[test]
fn session_token_is_base64url_no_pad_43_chars() {
    let t = generate_session_token();
    assert_eq!(t.len(), 43);
    assert!(t.chars().all(|c| c.is_ascii_alphanumeric() || c == '-' || c == '_'));
}

#[test]
fn session_token_is_unique() {
    assert!(generate_session_token() != generate_session_token());
}

#[test]
fn session_token_no_padding_char() {
    assert_eq!(generate_session_token().contains('='), false);
}

#[test]
fn child_env_keeps_reserved_variables_and_adds_proxy() {
    let mut env = EnvMap::new();
    env.insert("OPENAI_API_KEY", "k");
    env.insert("HERMES_HOME", "/elsewhere");
    let vars = gateway_child_env(Some("/repo"), "/home/h", "tok", &env, "http://p:1");
    let names: Vec<&str> = vars.iter().map(|(k, _)| k.as_str()).collect();
    assert_eq!(
        names,
        vec![
            "HERMES_PYTHON_SRC_ROOT",
            "HERMES_HOME",
            "PYTHONUNBUFFERED",
            "HERMES_DASHBOARD_SESSION_TOKEN",
            "OPENAI_API_KEY",
            "HTTP_PROXY",
            "HTTPS_PROXY",
            "ALL_PROXY",
            "http_proxy",
            "https_proxy",
            "all_proxy"
        ]
    );
    assert_eq!(vars[1].1, "/home/h");
    assert_eq!(vars[2].1, "1");
    let direct = gateway_child_env(None, "/h", "t", &EnvMap::new(), "");
    assert_eq!(direct.len(), 3);
}

#[test]
fn command_prefers_launcher() {
    let (prog, args) = gateway_command(Some("/v/bin/hermes"), "/v/bin/python", None);
    assert_eq!(prog, "/v/bin/hermes");
    assert_eq!(args[0], "serve");
    let (prog, args) = gateway_command(None, "/v/bin/python", Some("p"));
    assert_eq!(prog, "/v/bin/python");
    assert_eq!(args, vec!["-m", "hermes_cli.main", "--profile", "p", "serve", "--host", "127.0.0.1", "--port", "0"]);
}

#[test]
fn start_results_report_each_outcome() {
    let r = gateway_start_result(&StartOutcome::AlreadyRunning, "/h");
    assert!(r.success && r.running && r.already_running == Some(true));
    let r = gateway_start_result(&StartOutcome::NotInstalled, "/h");
    assert!(!r.success);
    assert!(r.error.unwrap().contains("Install Hermes Agent"));
    let r = gateway_start_result(&StartOutcome::SpawnFailed("denied".into()), "/h");
    assert_eq!(r.error.unwrap(), "Failed to spawn gateway: denied");
    let r = gateway_start_result(&StartOutcome::NotReady { port: 1234 }, "/h");
    assert!(r.error.unwrap().ends_with("Captured port: 1234."));
    assert_eq!(r.log_path.unwrap(), "/h/logs/gateway.log");
    let r = gateway_start_result(&StartOutcome::Ready, "/h");
    assert!(r.success && r.error.is_none() && r.already_running == Some(false));
}
