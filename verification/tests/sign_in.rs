use steersman_core::auth::{
    detect_device_code, env_label, fingerprint, is_oauth_login_provider, new_pool_entry, next_priority,
    oauth_login_args, oauth_login_env, remove_pool_entry, sign_in_result, signed_decimal, CredentialPoolEntry,
    OAuthLoginStream, SignInExit,
};
use steersman_core::config::read_env;
use steersman_core::install::{
    check_no_install_running, default_hermes_home, install_progress, install_result, installer_command,
    spawn_failure, InstallerExit,
};

fn entry(id: &str, priority: Option<i32>, source: Option<&str>) -> CredentialPoolEntry {
    CredentialPoolEntry {
        id: Some(id.into()),
        label: None,
        auth_type: Some("api_key".into()),
        priority,
        source: source.map(|s| s.to_string()),
        access_token: None,
        refresh_token: None,
        api_key: None,
        base_url: None,
        request_count: Some(0),
        key: None,
        secret_fingerprint: None,
        last_status: None,
    }
}

#[test]
fn oauth_providers_are_recognised() {
    assert!(is_oauth_login_provider("openai-codex"));
    assert!(is_oauth_login_provider("nous"));
    assert!(!is_oauth_login_provider("openai"));
    assert!(!is_oauth_login_provider(""));
}

#[test]
fn device_code_needs_url_and_code() {
    let partial = "Open this URL in your browser:\n  https://auth.example.com/device\n";
    assert!(detect_device_code(partial).is_none());
    let full = format!("{}Enter this code:\n   ABCD-EFGH\n", partial);
    let dc = detect_device_code(&full).unwrap();
    assert_eq!(dc.url, "https://auth.example.com/device");
    assert_eq!(dc.code, "ABCD-EFGH");
}

#[test]
fn login_command_and_environment() {
    assert_eq!(
        oauth_login_args("xai-oauth", Some("work"), false).unwrap(),
        vec!["-p", "work", "auth", "add", "xai-oauth", "--type", "oauth"]
    );
    assert_eq!(oauth_login_args("xai-oauth", Some("default"), false).unwrap(), vec!["auth", "add", "xai-oauth", "--type", "oauth"]);
    assert_eq!(oauth_login_args("groq", None, false).unwrap_err(), "Unsupported OAuth provider: groq");
    assert_eq!(oauth_login_args("nous", None, true).unwrap_err(), "Another sign-in is already in progress.");
    let env = oauth_login_env(None, "/h");
    assert_eq!(env[2], ("HOME".to_string(), String::new()));
    assert_eq!(env[3], ("HERMES_HOME".to_string(), "/h".to_string()));
}

#[test]
fn streamed_output_reports_device_code_once_complete() {
    let mut s = OAuthLoginStream::new();
    let (chunk, dc) = s.on_stdout_line("Open this URL in your browser:");
    assert_eq!(chunk, "Open this URL in your browser:\n");
    assert!(dc.is_none());
    assert!(s.on_stdout_line("https://x.example/d").1.is_none());
    assert_eq!(s.on_stderr_line("warning"), "warning\n");
    assert!(s.on_stdout_line("Enter this code:").1.is_none());
    let (_, dc) = s.on_stdout_line("Q-1");
    assert_eq!(dc.unwrap().code, "Q-1");
}

#[test]
fn sign_in_exit_is_reported() {
    let ok = sign_in_result(&SignInExit::Exited { success: true, code: Some(0) });
    assert!(ok.success && ok.error.is_none());
    let failed = sign_in_result(&SignInExit::Exited { success: false, code: Some(2) });
    assert_eq!(failed.error.as_deref(), Some("Sign-in exited with code 2."));
    let killed = sign_in_result(&SignInExit::Exited { success: false, code: None });
    assert_eq!(killed.error.as_deref(), Some("Sign-in exited with code -1."));
    let broken = sign_in_result(&SignInExit::WaitFailed { error: "io".into() });
    assert_eq!(broken.error.as_deref(), Some("Sign-in failed: io"));
    assert_eq!(signed_decimal(i32::MIN), "-2147483648");
}

#[test]
fn fingerprint_is_sha256_prefix() {
    assert_eq!(fingerprint("abc"), "sha256:ba7816bf8f01cfea");
    assert_eq!(fingerprint(""), "sha256:e3b0c44298fc1c14");
}

#[test]
fn credential_sync_groq() {
    assert!(env_label("GROQ_API_KEY"));
    assert!(!env_label("groq"));
    assert!(!env_label("GROQ"));
    let existing = vec![entry("a", Some(3), Some("manual")), entry("b", None, Some("manual"))];
    assert_eq!(next_priority(&existing), 4);
    assert_eq!(next_priority(&vec![]), 0);
    let (e, write) = new_pool_entry(&existing, "gsk_secret", "GROQ_API_KEY", "abc123");
    assert_eq!(e.source.as_deref(), Some("env:GROQ_API_KEY"));
    assert!(e.access_token.is_none());
    assert_eq!(e.secret_fingerprint, Some(fingerprint("gsk_secret")));
    assert_eq!(e.priority, Some(4));
    assert_eq!(write, Some(("GROQ_API_KEY".to_string(), "gsk_secret".to_string())));
    let (m, write) = new_pool_entry(&existing, "k", "My key", "x");
    assert_eq!(m.source.as_deref(), Some("manual"));
    assert_eq!(m.access_token.as_deref(), Some("k"));
    assert_eq!(m.label.as_deref(), Some("My key"));
    assert!(write.is_none());
}

#[test]
fn removing_an_entry_clears_its_variable() {
    let entries = vec![entry("a", Some(0), Some("env:GROQ_API_KEY")), entry("b", Some(1), Some("manual"))];
    let (kept, cleared) = remove_pool_entry(&entries, "a");
    assert_eq!(kept, vec![entries[1].clone()]);
    assert_eq!(cleared.as_deref(), Some("GROQ_API_KEY"));
    let (kept, cleared) = remove_pool_entry(&entries, "b");
    assert_eq!(kept.len(), 1);
    assert!(cleared.is_none());
}

#[test]
fn secrets_resolve_in_order() {
    let mut e = entry("a", None, Some("env:K_K"));
    let profile = read_env("K_K=\n");
    let global = read_env("K_K=global\n");
    assert_eq!(e.resolve_secret(&profile, &global, Some("proc")).as_deref(), Some("global"));
    assert_eq!(e.resolve_secret(&profile, &read_env(""), Some("proc")).as_deref(), Some("proc"));
    assert_eq!(e.resolve_secret(&profile, &read_env(""), Some("")), None);
    e.access_token = Some("tok".into());
    assert_eq!(e.resolve_secret(&profile, &global, None).as_deref(), Some("tok"));
}

#[test]
fn installer_runs_the_platform_script() {
    let win = installer_command(true);
    assert_eq!(win.program, "powershell.exe");
    assert_eq!(win.args.last().unwrap(), "iex (irm https://hermes-agent.nousresearch.com/install.ps1)");
    let unix = installer_command(false);
    assert_eq!(unix.program, "bash");
    assert_eq!(unix.args[0], "-c");
    assert_eq!(unix.env, vec![("PYTHONUNBUFFERED".to_string(), "1".to_string())]);
    assert_eq!(check_no_install_running(true).unwrap_err(), "An install is already running");
    assert!(check_no_install_running(false).is_ok());
    assert_eq!(spawn_failure("nope"), "Failed to start installer: nope");
    assert_eq!(install_progress("x", true).stream, "stderr");
}

#[test]
fn installer_exit_is_reported() {
    let ok = install_result(&InstallerExit::Exited { success: true, status: "exit status: 0".into() }, Some("/h/.hermes"));
    assert!(ok.success);
    assert_eq!(ok.hermes_home.as_deref(), Some("/h/.hermes"));
    let bad = install_result(&InstallerExit::Exited { success: false, status: "exit status: 1".into() }, Some("/h/.hermes"));
    assert_eq!(bad.error.as_deref(), Some("Installer exited with status exit status: 1"));
    assert!(bad.hermes_home.is_none());
    assert_eq!(install_result(&InstallerExit::Vanished, None).error.as_deref(), Some("Installer process vanished"));
    assert_eq!(default_hermes_home(false, None, Some("/home/u")), Some(("/home/u".to_string(), ".hermes".to_string())));
    assert_eq!(default_hermes_home(true, None, Some("/home/u")), None);
}
