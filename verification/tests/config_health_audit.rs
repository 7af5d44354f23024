use steersman_core::config_health::{
    auto_fix_issue, run_health_check, AutoFix, InstallFacts, DEFAULT_CONFIG_TEMPLATE,
};

#[test]
fn default_config_has_no_legacy_8642_port() {
    assert!(!DEFAULT_CONFIG_TEMPLATE.contains("8642"));
}

#[test]
fn default_config_has_no_api_server_block() {
    assert!(
        !DEFAULT_CONFIG_TEMPLATE.contains("\n  api_server:")
            && !DEFAULT_CONFIG_TEMPLATE.contains("\napi_server:")
    );
}

#[test]
fn default_config_has_model_block() {
    assert!(DEFAULT_CONFIG_TEMPLATE.contains("model:"));
}

fn facts(all: bool) -> InstallFacts {
    InstallFacts {
        home_exists: all,
        home_display: "/h".into(),
        config_exists: all,
        config_display: "/h/config.yaml".into(),
        env_exists: all,
        venv_exists: all,
        legacy_venv_exists: false,
        db_exists: all,
    }
}

#[test]
fn healthy_install_has_no_issues() {
    let r = run_health_check(None, &facts(true), 7);
    assert!(r.issues.is_empty());
    assert_eq!((r.summary.errors, r.summary.warnings, r.summary.infos), (0, 0, 0));
    assert_eq!(r.ran_at, 7);
}

#[test]
fn missing_everything_reports_in_order() {
    let r = run_health_check(Some("work"), &facts(false), 0);
    let codes: Vec<&str> = r.issues.iter().map(|i| i.code.as_str()).collect();
    assert_eq!(codes, vec!["HERMES_HOME_MISSING", "CONFIG_MISSING", "ENV_MISSING", "VENV_MISSING", "DB_MISSING"]);
    assert_eq!((r.summary.errors, r.summary.warnings, r.summary.infos), (2, 2, 1));
    assert_eq!(r.issues[1].message, "Config file not found: /h/config.yaml");
    assert!(r.issues[4].fix.is_none());
    assert_eq!(r.profile.as_deref(), Some("work"));
}

#[test]
fn legacy_venv_counts() {
    let mut f = facts(true);
    f.venv_exists = false;
    f.legacy_venv_exists = true;
    assert!(run_health_check(None, &f, 0).issues.is_empty());
}

#[test]
fn auto_fixes() {
    assert!(matches!(auto_fix_issue("ENV_MISSING", None), Ok(AutoFix::WriteEnv(_))));
    match auto_fix_issue("CONFIG_MISSING", Some("p")) {
        Ok(AutoFix::WriteConfig { profile_dir, text }) => {
            assert_eq!(profile_dir, vec!["profiles".to_string(), "p".to_string()]);
            assert_eq!(text, DEFAULT_CONFIG_TEMPLATE);
        }
        _ => panic!("expected a config write"),
    }
    assert!(matches!(auto_fix_issue("HERMES_HOME_MISSING", None), Ok(AutoFix::CreateHome)));
    match auto_fix_issue("DB_MISSING", None) {
        Err(m) => assert_eq!(m, "No auto-fix available for issue: DB_MISSING"),
        Ok(_) => panic!("no fix expected"),
    }
}
