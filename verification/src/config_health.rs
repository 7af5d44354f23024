//! The installation health audit: which parts of a Hermes installation are
//! missing, and how the ones that can be fixed automatically are fixed.

use vstd::prelude::*;
use crate::json::ostring;

verus! {

/// A problem that the installation audit found.
pub struct HealthIssue {
    pub code: String,
    pub severity: String,
    pub message: String,
    pub fix: Option<String>,
}

/// Counts of issues by severity.
pub struct HealthSummary {
    pub errors: usize,
    pub warnings: usize,
    pub infos: usize,
}

impl Default for HealthSummary {
    fn default() -> (r: Self)
        ensures
            r.errors == 0 && r.warnings == 0 && r.infos == 0,
    {
        HealthSummary { errors: 0, warnings: 0, infos: 0 }
    }
}

/// The result of an installation audit.
pub struct HealthReport {
    pub profile: Option<String>,
    pub issues: Vec<HealthIssue>,
    pub summary: HealthSummary,
    pub ran_at: i64,
}

/// What the audit found on disk: whether each path exists, and how the
/// Hermes home and the config file are displayed.
pub struct InstallFacts {
    pub home_exists: bool,
    pub home_display: String,
    pub config_exists: bool,
    pub config_display: String,
    pub env_exists: bool,
    pub venv_exists: bool,
    pub legacy_venv_exists: bool,
    pub db_exists: bool,
}

/// The kinds of installation problems.
#[derive(Clone, Copy, PartialEq, Eq, Structural)]
pub enum InstallIssue {
    HomeMissing,
    ConfigMissing,
    EnvMissing,
    VenvMissing,
    DbMissing,
}

/// How serious a problem is.
#[derive(Clone, Copy, PartialEq, Eq, Structural)]
pub enum Severity {
    Error,
    Warning,
    Info,
}

/// The problems that the facts show, in order.
pub open spec fn issue_kinds(f: InstallFacts) -> Seq<InstallIssue> {
    let a = if !f.home_exists { seq![InstallIssue::HomeMissing] } else { Seq::empty() };
    let b = if !f.config_exists { a.push(InstallIssue::ConfigMissing) } else { a };
    let c = if !f.env_exists { b.push(InstallIssue::EnvMissing) } else { b };
    let d = if !f.venv_exists && !f.legacy_venv_exists { c.push(InstallIssue::VenvMissing) } else { c };
    if !f.db_exists { d.push(InstallIssue::DbMissing) } else { d }
}

/// The severity of each kind.
pub open spec fn kind_severity(k: InstallIssue) -> Severity {
    match k {
        InstallIssue::HomeMissing => Severity::Error,
        InstallIssue::ConfigMissing => Severity::Warning,
        InstallIssue::EnvMissing => Severity::Info,
        InstallIssue::VenvMissing => Severity::Error,
        InstallIssue::DbMissing => Severity::Warning,
    }
}

/// The name of a severity.
pub open spec fn severity_text(s: Severity) -> Seq<char> {
    match s {
        Severity::Error => "error"@,
        Severity::Warning => "warning"@,
        Severity::Info => "info"@,
    }
}

/// The code of each kind.
pub open spec fn kind_code(k: InstallIssue) -> Seq<char> {
    match k {
        InstallIssue::HomeMissing => "HERMES_HOME_MISSING"@,
        InstallIssue::ConfigMissing => "CONFIG_MISSING"@,
        InstallIssue::EnvMissing => "ENV_MISSING"@,
        InstallIssue::VenvMissing => "VENV_MISSING"@,
        InstallIssue::DbMissing => "DB_MISSING"@,
    }
}

/// The message of each kind.
pub open spec fn kind_message(k: InstallIssue, f: InstallFacts) -> Seq<char> {
    match k {
        InstallIssue::HomeMissing => "Hermes home directory not found: "@ + f.home_display@,
        InstallIssue::ConfigMissing => "Config file not found: "@ + f.config_display@,
        InstallIssue::EnvMissing => ".env file not found — API keys may not be configured"@,
        InstallIssue::VenvMissing => "Python virtual environment not found"@,
        InstallIssue::DbMissing => "State database not found — will be created automatically on first chat"@,
    }
}

/// The suggested fix of each kind.
pub open spec fn kind_fix(k: InstallIssue) -> Option<Seq<char>> {
    match k {
        InstallIssue::HomeMissing => Some("Create the directory or set HERMES_HOME environment variable"@),
        InstallIssue::ConfigMissing => Some("Run initial setup or copy a template config.yaml"@),
        InstallIssue::EnvMissing => Some("Create .env file with API keys"@),
        InstallIssue::VenvMissing => Some("Run: hermes setup (installs hermes-agent/venv automatically)"@),
        InstallIssue::DbMissing => None,
    }
}

/// The number of kinds with the given severity.
pub open spec fn count_severity(kinds: Seq<InstallIssue>, sev: Severity) -> nat
    decreases kinds.len(),
{
    if kinds.len() == 0 {
        0
    } else {
        count_severity(kinds.drop_last(), sev) + if kind_severity(kinds.last()) == sev {
            1nat
        } else {
            0nat
        }
    }
}

/// True when `x` is the issue of kind `k`.
pub open spec fn issue_of_kind(x: HealthIssue, k: InstallIssue, f: InstallFacts) -> bool {
    &&& x.code@ == kind_code(k)
    &&& x.severity@ == severity_text(kind_severity(k))
    &&& x.message@ == kind_message(k, f)
    &&& ostring(x.fix) == kind_fix(k)
}

fn issue(k: InstallIssue, f: &InstallFacts) -> (r: HealthIssue)
    ensures
        issue_of_kind(r, k, *f),
{
    match k {
        InstallIssue::HomeMissing => HealthIssue {
            code: "HERMES_HOME_MISSING".to_owned(),
            severity: "error".to_owned(),
            message: "Hermes home directory not found: ".to_owned().concat(f.home_display.as_str()),
            fix: Some("Create the directory or set HERMES_HOME environment variable".to_owned()),
        },
        InstallIssue::ConfigMissing => HealthIssue {
            code: "CONFIG_MISSING".to_owned(),
            severity: "warning".to_owned(),
            message: "Config file not found: ".to_owned().concat(f.config_display.as_str()),
            fix: Some("Run initial setup or copy a template config.yaml".to_owned()),
        },
        InstallIssue::EnvMissing => HealthIssue {
            code: "ENV_MISSING".to_owned(),
            severity: "info".to_owned(),
            message: ".env file not found — API keys may not be configured".to_owned(),
            fix: Some("Create .env file with API keys".to_owned()),
        },
        InstallIssue::VenvMissing => HealthIssue {
            code: "VENV_MISSING".to_owned(),
            severity: "error".to_owned(),
            message: "Python virtual environment not found".to_owned(),
            fix: Some("Run: hermes setup (installs hermes-agent/venv automatically)".to_owned()),
        },
        InstallIssue::DbMissing => HealthIssue {
            code: "DB_MISSING".to_owned(),
            severity: "warning".to_owned(),
            message: "State database not found — will be created automatically on first chat".to_owned(),
            fix: None,
        },
    }
}

fn severity_of(k: InstallIssue) -> (r: Severity)
    ensures
        r == kind_severity(k),
{
    match k {
        InstallIssue::HomeMissing => Severity::Error,
        InstallIssue::ConfigMissing => Severity::Warning,
        InstallIssue::EnvMissing => Severity::Info,
        InstallIssue::VenvMissing => Severity::Error,
        InstallIssue::DbMissing => Severity::Warning,
    }
}

/// Audits a Hermes installation from the facts found on disk. The issues
/// come in the order home, config, `.env`, virtual environment, database;
/// each has the code, severity, message and fix of its kind, and the
/// summary counts them by severity.
pub fn run_health_check(profile: Option<&str>, facts: &InstallFacts, ran_at: i64) -> (r: HealthReport)
    ensures
        r.issues@.len() == issue_kinds(*facts).len(),
        forall|i: int| 0 <= i < r.issues@.len() ==> issue_of_kind(
            #[trigger] r.issues@[i],
            issue_kinds(*facts)[i],
            *facts,
        ),
        r.summary.errors == count_severity(issue_kinds(*facts), Severity::Error),
        r.summary.warnings == count_severity(issue_kinds(*facts), Severity::Warning),
        r.summary.infos == count_severity(issue_kinds(*facts), Severity::Info),
        ostring(r.profile) == crate::config::ostr_view(profile),
        r.ran_at == ran_at,
{
    let mut kinds: Vec<InstallIssue> = Vec::new();
    if !facts.home_exists {
        kinds.push(InstallIssue::HomeMissing);
    }
    if !facts.config_exists {
        kinds.push(InstallIssue::ConfigMissing);
    }
    if !facts.env_exists {
        kinds.push(InstallIssue::EnvMissing);
    }
    if !facts.venv_exists && !facts.legacy_venv_exists {
        kinds.push(InstallIssue::VenvMissing);
    }
    if !facts.db_exists {
        kinds.push(InstallIssue::DbMissing);
    }
    proof {
        assert(kinds@ =~= issue_kinds(*facts));
    }
    let mut issues: Vec<HealthIssue> = Vec::new();
    let mut errors: usize = 0;
    let mut warnings: usize = 0;
    let mut infos: usize = 0;
    let mut i: usize = 0;
    while i < kinds.len()
        invariant
            kinds@ == issue_kinds(*facts),
            kinds@.len() <= 5,
            i <= kinds@.len(),
            issues@.len() == i,
            forall|j: int| 0 <= j < i ==> issue_of_kind(#[trigger] issues@[j], kinds@[j], *facts),
            errors == count_severity(kinds@.take(i as int), Severity::Error),
            warnings == count_severity(kinds@.take(i as int), Severity::Warning),
            infos == count_severity(kinds@.take(i as int), Severity::Info),
            errors + warnings + infos <= i,
        decreases kinds@.len() - i,
    {
        proof {
            assert(kinds@.take(i + 1).drop_last() =~= kinds@.take(i as int));
        }
        let k = kinds[i];
        issues.push(issue(k, facts));
        match severity_of(k) {
            Severity::Error => {
                errors = errors + 1;
            },
            Severity::Warning => {
                warnings = warnings + 1;
            },
            Severity::Info => {
                infos = infos + 1;
            },
        }
        i = i + 1;
    }
    proof {
        assert(kinds@.take(kinds@.len() as int) =~= kinds@);
    }
    HealthReport {
        profile: match profile {
            Some(p) => Some(p.to_owned()),
            None => None,
        },
        issues,
        summary: HealthSummary { errors, warnings, infos },
        ran_at,
    }
}

/// The `config.yaml` written when the config file is missing. It sets no
/// backend port: the backend's port is assigned when it starts.
pub const DEFAULT_CONFIG_TEMPLATE: &'static str = "# Штурман Configuration\n# The backend is launched via `hermes serve` (ADR-004); its port is assigned\n# by the OS, so no platforms.api_server.port is hardcoded here.\nmodel:\n  default: ''\n  provider: ''\n";

/// The text written into a new `.env` file.
pub const DEFAULT_ENV_TEXT: &'static str = "# Штурман environment variables\n";

/// What an automatic fix does on disk.
pub enum AutoFix {
    /// Writes the `.env` file of the Hermes home with the given text.
    WriteEnv(String),
    /// Creates the config's directory and writes the config file (below
    /// the profile's directory, given as path components) with the text.
    WriteConfig { profile_dir: Vec<String>, text: String },
    /// Creates the Hermes home directory.
    CreateHome,
}

/// The automatic fix for an issue code, or the error for codes that have
/// none. A profile's config lives under `profiles/<name>`.
pub fn auto_fix_issue(code: &str, profile: Option<&str>) -> (r: Result<AutoFix, String>)
    ensures
        code@ == "ENV_MISSING"@ ==> (r matches Ok(AutoFix::WriteEnv(t)) && t@ == DEFAULT_ENV_TEXT@),
        code@ == "CONFIG_MISSING"@ ==> (r matches Ok(AutoFix::WriteConfig { profile_dir, text })
            && text@ == DEFAULT_CONFIG_TEMPLATE@ && crate::config::strs_view(profile_dir@) == (
        match profile {
            Some(p) => seq!["profiles"@, p@],
            None => Seq::<Seq<char>>::empty(),
        })),
        code@ == "HERMES_HOME_MISSING"@ ==> (r matches Ok(AutoFix::CreateHome)),
        !(code@ == "ENV_MISSING"@ || code@ == "CONFIG_MISSING"@ || code@ == "HERMES_HOME_MISSING"@)
            ==> (r matches Err(m) && m@ == "No auto-fix available for issue: "@ + code@),
{
    proof {
        assert("ENV_MISSING"@ != "CONFIG_MISSING"@) by {
            reveal_strlit("ENV_MISSING");
            reveal_strlit("CONFIG_MISSING");
            assert("ENV_MISSING"@.len() != "CONFIG_MISSING"@.len());
        }
        assert("ENV_MISSING"@ != "HERMES_HOME_MISSING"@) by {
            reveal_strlit("ENV_MISSING");
            reveal_strlit("HERMES_HOME_MISSING");
            assert("ENV_MISSING"@.len() != "HERMES_HOME_MISSING"@.len());
        }
        assert("CONFIG_MISSING"@ != "HERMES_HOME_MISSING"@) by {
            reveal_strlit("CONFIG_MISSING");
            reveal_strlit("HERMES_HOME_MISSING");
            assert("CONFIG_MISSING"@.len() != "HERMES_HOME_MISSING"@.len());
        }
    }
    if crate::text::str_eq(code, "ENV_MISSING") {
        Ok(AutoFix::WriteEnv(DEFAULT_ENV_TEXT.to_owned()))
    } else if crate::text::str_eq(code, "CONFIG_MISSING") {
        let mut dir: Vec<String> = Vec::new();
        match profile {
            Some(p) => {
                dir.push("profiles".to_owned());
                dir.push(p.to_owned());
            },
            None => {},
        }
        proof {
            assert(crate::config::strs_view(dir@) =~= (match profile {
                Some(p) => seq!["profiles"@, p@],
                None => Seq::<Seq<char>>::empty(),
            }));
        }
        Ok(AutoFix::WriteConfig { profile_dir: dir, text: DEFAULT_CONFIG_TEMPLATE.to_owned() })
    } else if crate::text::str_eq(code, "HERMES_HOME_MISSING") {
        Ok(AutoFix::CreateHome)
    } else {
        Err("No auto-fix available for issue: ".to_owned().concat(code))
    }
}

} // verus!
