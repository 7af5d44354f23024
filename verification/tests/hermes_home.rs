use steersman_core::config::{
    after_key_migration, default_connection_config, needs_key_migration, override_home,
    resolve_hermes_home, ConnectionConfig,
};
use steersman_core::json::Json;

fn parse(text: &str) -> Json {
    fn conv(v: &serde_json::Value) -> Json {
        match v {
            serde_json::Value::Null => Json::Null,
            serde_json::Value::Bool(b) => Json::Bool(*b),
            serde_json::Value::Number(n) => Json::Number(n.to_string()),
            serde_json::Value::String(s) => Json::Str(s.clone()),
            serde_json::Value::Array(a) => Json::Array(a.iter().map(conv).collect()),
            serde_json::Value::Object(o) => {
                Json::Object(o.iter().map(|(k, v)| (k.clone(), conv(v))).collect())
            }
        }
    }
    conv(&serde_json::from_str(text).unwrap())
}

fn parts(p: &[&str]) -> Vec<String> {
    p.iter().map(|s| s.to_string()).collect()
}

#[test]
fn hermes_home_precedence() {
    assert_eq!(
        resolve_hermes_home(Some("/env"), true, Some("/ovr"), false, None, false, None, false, Some("/home/u")),
        parts(&["/env"])
    );
    assert_eq!(
        resolve_hermes_home(Some("/env"), false, Some("/ovr"), false, None, false, None, false, Some("/home/u")),
        parts(&["/ovr"])
    );
    assert_eq!(
        resolve_hermes_home(None, false, None, true, Some("L"), true, Some("R"), true, Some("H")),
        parts(&["L", "hermes"])
    );
    assert_eq!(
        resolve_hermes_home(None, false, None, true, Some("L"), false, Some("R"), true, Some("H")),
        parts(&["R", "hermes"])
    );
    assert_eq!(
        resolve_hermes_home(None, false, None, false, Some("L"), true, Some("R"), true, Some("H")),
        parts(&["H", ".hermes"])
    );
    assert_eq!(
        resolve_hermes_home(None, false, None, false, None, false, None, false, None),
        parts(&["/tmp/.hermes"])
    );
}

#[test]
fn override_file_names_the_home() {
    assert_eq!(
        override_home(&parse(r#"{"hermesHome":"  ~/agents/h  "}"#), Some("/home/u")),
        Some("/home/u/agents/h".to_string())
    );
    assert_eq!(override_home(&parse(r#"{"hermesHome":"/x"}"#), None), Some("/x".to_string()));
    assert_eq!(override_home(&parse(r#"{"hermesHome":"   "}"#), None), None);
    assert_eq!(override_home(&parse(r#"{"hermesHome":3}"#), None), None);
    assert_eq!(override_home(&parse("{}"), None), None);
}

#[test]
fn plain_text_key_is_moved_out_of_the_config() {
    let mut cfg: ConnectionConfig = default_connection_config();
    assert!(cfg.mode.is_empty() && cfg.ssh.port == 0);
    assert!(!needs_key_migration(&cfg));
    cfg.api_key = "secret".into();
    cfg.mode = "remote".into();
    assert!(needs_key_migration(&cfg));
    let (moved, rewrite) = after_key_migration(cfg, true);
    assert!(rewrite);
    assert!(moved.api_key.is_empty());
    assert_eq!(moved.mode, "remote");
    let mut cfg2 = default_connection_config();
    cfg2.api_key = "k".into();
    let (kept, rewrite) = after_key_migration(cfg2, false);
    assert!(!rewrite);
    assert_eq!(kept.api_key, "k");
}
