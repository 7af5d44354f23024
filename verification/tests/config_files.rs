use steersman_core::config::{
    detect_system_proxy, expand_tilde, expected_env_key_for_url, get_api_server_key,
    get_model_config, has_api_key_for_provider, is_local_base_url, profile_home, read_env,
    resolve_effective_proxy, set_model_config, set_yaml_block_scalars, write_env_value, EnvMap,
    ProxyProbe, ProxySettings,
};
use steersman_core::json::Json;

fn kvs(pairs: &[(&str, &str)]) -> Vec<(String, String)> {
    pairs.iter().map(|(k, v)| (k.to_string(), v.to_string())).collect()
}

fn json(v: &serde_json::Value) -> Json {
    match v {
        serde_json::Value::Null => Json::Null,
        serde_json::Value::Bool(b) => Json::Bool(*b),
        serde_json::Value::Number(n) => Json::Number(n.to_string()),
        serde_json::Value::String(s) => Json::Str(s.clone()),
        serde_json::Value::Array(a) => Json::Array(a.iter().map(json).collect()),
        serde_json::Value::Object(o) => {
            Json::Object(o.iter().map(|(k, v)| (k.clone(), json(v))).collect())
        }
    }
}

fn parse(text: &str) -> Json {
    json(&serde_json::from_str::<serde_json::Value>(text).unwrap())
}

#[test]
fn proxy_default_is_off() {
    let p = ProxySettings::default();
    assert!(!p.use_proxy);
    assert!(p.proxy_url.is_empty());
    assert!(p.resolve_url(&EnvMap::new(), None).is_empty());
}

#[test]
fn proxy_explicit_url() {
    let p = ProxySettings { use_proxy: true, proxy_url: "http://proxy.local:3128".into() };
    assert_eq!(p.resolve_url(&EnvMap::new(), None), "http://proxy.local:3128");
}

#[test]
fn proxy_off_returns_empty_even_with_url() {
    let p = ProxySettings { use_proxy: false, proxy_url: "http://proxy.local:3128".into() };
    assert_eq!(p.resolve_url(&EnvMap::new(), Some("http://sys:1")), "");
}

#[test]
fn proxy_falls_back_to_process_env_then_system() {
    let p = ProxySettings { use_proxy: true, proxy_url: String::new() };
    let mut env = EnvMap::new();
    env.insert("HTTPS_PROXY", "http://https-env:1");
    assert_eq!(p.resolve_url(&env, Some("http://sys:2")), "http://https-env:1");
    env.insert("HTTP_PROXY", "");
    assert_eq!(p.resolve_url(&env, Some("http://sys:2")), "http://sys:2");
    assert_eq!(p.resolve_url(&env, None), "");
}

#[test]
fn detect_system_proxy_does_not_panic() {
    let _ = detect_system_proxy(&ProxyProbe::Other);
}

#[test]
fn system_proxy_from_platform_outputs() {
    let win = ProxyProbe::Windows {
        enable_query: Some("    ProxyEnable    REG_DWORD    0x1\n".into()),
        server_query: Some("    ProxyServer    REG_SZ    http=10.0.0.1:8080;https=10.0.0.1:8443\n".into()),
    };
    assert_eq!(detect_system_proxy(&win).as_deref(), Some("http://10.0.0.1:8080"));
    let win_plain = ProxyProbe::Windows {
        enable_query: Some("ProxyEnable REG_DWORD 0x1".into()),
        server_query: Some("ProxyServer REG_SZ 10.0.0.2:3128".into()),
    };
    assert_eq!(detect_system_proxy(&win_plain).as_deref(), Some("http://10.0.0.2:3128"));
    let win_off = ProxyProbe::Windows {
        enable_query: Some("ProxyEnable REG_DWORD 0x0".into()),
        server_query: Some("ProxyServer REG_SZ 10.0.0.2:3128".into()),
    };
    assert_eq!(detect_system_proxy(&win_off), None);
    let mac = ProxyProbe::MacOs {
        scutil: Some("<dictionary> {\n  HTTPEnable : 1\n  HTTPPort : 8080\n  HTTPProxy : 127.0.0.1\n}".into()),
    };
    assert_eq!(detect_system_proxy(&mac).as_deref(), Some("http://127.0.0.1:8080"));
    let linux = ProxyProbe::Linux {
        mode: Some("'manual'\n".into()),
        host: "'proxy.lan'\n".into(),
        port: "3128\n".into(),
    };
    assert_eq!(detect_system_proxy(&linux).as_deref(), Some("http://proxy.lan:3128"));
    let linux_none = ProxyProbe::Linux { mode: Some("'none'".into()), host: "h".into(), port: "1".into() };
    assert_eq!(detect_system_proxy(&linux_none), None);
}

#[test]
fn yaml_roundtrip_updates_top_level_block() {
    let updated = set_yaml_block_scalars(
        "model:\n  default: old-model\n  provider: old\n",
        "model",
        &kvs(&[("default", "new-model")]),
    );
    assert!(updated.contains("new-model"), "updated content: {}", updated);
    assert!(!updated.contains("old-model"));
}

#[test]
fn yaml_roundtrip_updates_nested_dotted_path() {
    let updated = set_yaml_block_scalars(
        "mcp_servers:\n  email:\n    command: foo\n    env:\n      EMAIL_ADDRESS: old@example.com\n",
        "mcp_servers.email.env",
        &kvs(&[("EMAIL_ADDRESS", "new@example.com")]),
    );
    assert!(updated.contains("new@example.com"), "content: {}", updated);
}

#[test]
fn yaml_roundtrip_preserves_unrelated_keys() {
    let updated = set_yaml_block_scalars(
        "model:\n  default: m1\n  provider: p1\nagent:\n  max_turns: 60\n",
        "model",
        &kvs(&[("default", "m2")]),
    );
    assert!(updated.contains("max_turns: 60"), "{}", updated);
    assert!(updated.contains("provider: p1"), "{}", updated);
}

#[test]
fn yaml_roundtrip_preserves_comments() {
    let updated = set_yaml_block_scalars(
        "# user comment: do not delete\nmodel:\n  default: m1\n  provider: p1\n",
        "model",
        &kvs(&[("default", "m2")]),
    );
    assert!(updated.contains("# user comment: do not delete"), "{}", updated);
}

#[test]
fn yaml_roundtrip_updates_correct_instance_of_repeated_key() {
    let updated = set_yaml_block_scalars(
        "mcp_servers:\n  email:\n    command: x\n    env:\n      KEY: email-val\n  jira:\n    command: y\n    env:\n      KEY: jira-val\n",
        "mcp_servers.email.env",
        &kvs(&[("KEY", "updated-email")]),
    );
    assert!(updated.contains("updated-email"), "{}", updated);
    assert!(updated.contains("jira-val"), "{}", updated);
}

#[test]
fn yaml_block_exact_output() {
    assert_eq!(
        set_yaml_block_scalars("a: 1\nmodel:\n  default: x\nb: 2", "model", &kvs(&[("default", "y"), ("provider", "p")])),
        "a: 1\nmodel:\n  default: y\n  provider: p\nb: 2"
    );
    assert_eq!(
        set_yaml_block_scalars("model:\n  default: m1\nagent:\n  max_turns: 60\n", "model", &kvs(&[("provider", "p2")])),
        "model:\n  default: m1\n  provider: p2\nagent:\n  max_turns: 60"
    );
    assert_eq!(
        set_yaml_block_scalars("agent:\n  max_turns: 60\n", "model", &kvs(&[("provider", "p2")])),
        "agent:\n  max_turns: 60\nmodel:\n  provider: p2"
    );
    assert_eq!(set_yaml_block_scalars("", "proxy", &kvs(&[])), "proxy:");
    assert_eq!(set_yaml_block_scalars("", "proxy", &kvs(&[("use_proxy", "true")])), "proxy:\n  use_proxy: true");
}

#[test]
fn env_file_is_parsed() {
    let env = read_env("# comment\nA=1\n B = \"two\" \nC='3'\nnoequals\nA=override\r\n");
    assert_eq!(env.get("A"), Some("override"));
    assert_eq!(env.get("B"), Some("two"));
    assert_eq!(env.get("C"), Some("3"));
    assert_eq!(env.get("noequals"), None);
}

#[test]
fn env_value_is_written_then_read_back() {
    let text = write_env_value("A=1\nB=2", "B", "new");
    assert_eq!(text, "A=1\nB=\"new\"\n");
    assert_eq!(read_env(&text).get("B"), Some("new"));
    let appended = write_env_value("", "K", "v");
    assert_eq!(appended, "K=\"v\"\n");
    let spaced = write_env_value("X=1\r\r\nK = old\n", "K", "  padded value  ");
    assert_eq!(read_env(&spaced).get("K"), Some("  padded value  "));
    assert_eq!(read_env(&spaced).get("X"), Some("1"));
}

#[test]
fn env_write_rewrites_only_the_first_definition() {
    let text = write_env_value("A=1\nA=2\n", "A", "3");
    assert_eq!(text, "A=\"3\"\nA=2\n");
    assert_eq!(read_env(&text).get("A"), Some("2"));
}

#[test]
fn provider_key_rules() {
    assert_eq!(expected_env_key_for_url("https://OpenRouter.ai/api/v1"), "OPENROUTER_API_KEY");
    assert_eq!(expected_env_key_for_url("https://example.org"), "CUSTOM_API_KEY");
    assert!(is_local_base_url("HTTP://LOCALHOST:11434"));
    assert!(is_local_base_url("http://172.25.0.1"));
    assert!(!is_local_base_url("http://172.200.10.1:8080"));
    assert!(!is_local_base_url("http://172.2.0.1"));
    assert!(is_local_base_url("http://172.31.0.1"));
    assert!(!is_local_base_url("https://localhost"));
    let mut env = EnvMap::new();
    assert!(has_api_key_for_provider(&env, "Auto", "https://api.openai.com"));
    assert!(has_api_key_for_provider(&env, "kimi-coding", "https://api.openai.com"));
    assert!(!has_api_key_for_provider(&env, "openai", "https://api.openai.com"));
    env.insert("OPENAI_API_KEY", "  sk ");
    assert!(has_api_key_for_provider(&env, "anthropic", "https://api.anthropic.com"));
    env.insert("API_SERVER_KEY", "srv");
    assert_eq!(get_api_server_key(&env).as_deref(), Some("srv"));
}

#[test]
fn profiles_and_paths() {
    assert!(profile_home(None).is_empty());
    assert!(profile_home(Some("default")).is_empty());
    assert_eq!(profile_home(Some("w")), vec!["profiles".to_string(), "w".to_string()]);
    assert_eq!(expand_tilde("~/x", Some("/home/u")), "/home/u/x");
    assert_eq!(expand_tilde("~x", Some("/home/u")), "~x");
    assert_eq!(expand_tilde("~/x", None), "~/x");
}

#[test]
fn model_config_from_yaml_and_env() {
    let yaml = parse(r#"{
        "model": {"provider": "openrouter", "default": "m", "base_url": "u",
                  "reasoning_effort": "high", "prompt_cache": true,
                  "model_routing": {"routine": "a", "n": 1}},
        "proxy": {"use_proxy": true, "proxy_url": "http://p:1"}
    }"#);
    let mc = get_model_config(Some(&yaml), &EnvMap::new());
    assert_eq!(mc.provider, "openrouter");
    assert_eq!(mc.model, "m");
    assert!(mc.proxy.use_proxy);
    assert_eq!(mc.reasoning_effort.as_deref(), Some("high"));
    assert_eq!(mc.prompt_cache, Some(true));
    assert_eq!(mc.model_routing, Some(vec![("routine".to_string(), "a".to_string())]));
    let mut env = EnvMap::new();
    env.insert("PROVIDER", "p");
    env.insert("MODEL", "x");
    let fallback = get_model_config(Some(&parse(r#"{"model": {"provider": ""}}"#)), &env);
    assert_eq!(fallback.provider, "p");
    assert_eq!(fallback.model, "x");
    assert!(fallback.reasoning_effort.is_none());
}

#[test]
fn saving_model_settings_edits_both_files() {
    let proxy = ProxySettings { use_proxy: false, proxy_url: String::new() };
    let (yaml, env) = set_model_config(
        "model:\n  default: old\n",
        "",
        "openai",
        "gpt",
        "https://api.openai.com",
        Some(&proxy),
        Some(""),
        None,
        Some("confirm-external"),
        Some(false),
        None,
    );
    assert_eq!(
        yaml,
        "model:\n  default: gpt\n  provider: openai\n  base_url: https://api.openai.com\n  autonomy: confirm-external\n  prompt_cache: false\nproxy:\n  use_proxy: false\n  proxy_url: "
    );
    assert_eq!(env, "PROVIDER=\"openai\"\nMODEL=\"gpt\"\nBASE_URL=\"https://api.openai.com\"\n");
}

#[test]
fn effective_proxy_priority() {
    let off = ProxySettings::default();
    let mut file = EnvMap::new();
    let mut process = EnvMap::new();
    assert_eq!(resolve_effective_proxy(&off, &file, &process, None), "");
    assert_eq!(resolve_effective_proxy(&off, &file, &process, Some("http://sys:1")), "http://sys:1");
    process.insert("all_proxy", "socks5://proc:2");
    assert_eq!(resolve_effective_proxy(&off, &file, &process, Some("http://sys:1")), "socks5://proc:2");
    file.insert("HTTP_PROXY", "http://file:3");
    assert_eq!(resolve_effective_proxy(&off, &file, &process, None), "http://file:3");
    let on = ProxySettings { use_proxy: true, proxy_url: "http://own:4".into() };
    assert_eq!(resolve_effective_proxy(&on, &file, &process, None), "http://own:4");
}
