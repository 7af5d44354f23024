//! Provider sign-in: which providers sign in by OAuth device code, how the
//! sign-in command runs and what its output and exit mean, and the
//! credential pool entries that the agent shares with the desktop.

use vstd::prelude::*;
use crate::json::ostring;
use crate::config::{EnvMap, strs_view, pairs_view};
use crate::gateway::{dec_text, decimal};
use crate::text::{str_eq, chars_of, starts_with};
use crate::digest::{sha256_hex, sha256_of, hex_text};
use vstd::string::StringSliceAdditionalSpecFns;

verus! {

// ── OAuth-capable providers ───────────────────────────────────────────────

/// The providers that sign in with the OAuth device-code flow.
pub open spec fn oauth_providers() -> Seq<Seq<char>> {
    seq!["openai-codex"@, "xai-oauth"@, "qwen-oauth"@, "google-gemini-cli"@, "minimax-oauth"@, "nous"@]
}

/// Whether a provider signs in with the OAuth device-code flow.
pub fn is_oauth_login_provider(value: &str) -> (r: bool)
    ensures
        r == oauth_providers().contains(value@),
{
    let r = str_eq(value, "openai-codex") || str_eq(value, "xai-oauth") || str_eq(value, "qwen-oauth")
        || str_eq(value, "google-gemini-cli") || str_eq(value, "minimax-oauth") || str_eq(value, "nous");
    proof {
        if r {
            if value@ == "openai-codex"@ {
                assert(oauth_providers()[0] == value@);
            } else if value@ == "xai-oauth"@ {
                assert(oauth_providers()[1] == value@);
            } else if value@ == "qwen-oauth"@ {
                assert(oauth_providers()[2] == value@);
            } else if value@ == "google-gemini-cli"@ {
                assert(oauth_providers()[3] == value@);
            } else if value@ == "minimax-oauth"@ {
                assert(oauth_providers()[4] == value@);
            } else {
                assert(oauth_providers()[5] == value@);
            }
        } else {
            assert forall|i: int| 0 <= i < oauth_providers().len() implies oauth_providers()[i] != value@ by {}
        }
    }
    r
}

/// What a sign-in gave.
#[derive(Debug, Clone, PartialEq, Eq)]
pub struct OAuthLoginResult {
    pub success: bool,
    pub error: Option<String>,
}

/// A device-code prompt: the URL to open and the code to enter.
#[derive(Debug, Clone, PartialEq, Eq)]
pub struct DeviceCodeInfo {
    pub url: String,
    pub code: String,
}

// ── Device code detection ─────────────────────────────────────────────────

/// Names the text of the first capture group of the first match of a
/// regular expression in a text: `None` when the pattern does not compile,
/// does not match, or its first group takes no part in the match.
pub uninterp spec fn regex_first_group(pattern: Seq<char>, text: Seq<char>) -> Option<Seq<char>>;

/// `regex::Regex::new(pattern)` and `captures(text)`, group 1.
#[verifier::external_body]
fn first_group(pattern: &str, text: &str) -> (r: Option<String>)
    ensures
        ostring(r) == regex_first_group(pattern@, text@),
{
    let expression = regex::Regex::new(pattern).ok()?;
    let captures = expression.captures(text)?;
    captures.get(1).map(|m| m.as_str().to_string())
}

/// The expression that finds the sign-in URL: the line after
/// `Open this URL in your browser:`.
pub open spec fn url_pattern() -> Seq<char> {
    "Open this URL in your browser:[^\\S\\n]*\\n[^\\S\\n]*(https://\\S+)"@
}

/// The expression that finds the code: the line after `Enter this code:`.
pub open spec fn code_pattern() -> Seq<char> {
    "Enter this code:[^\\S\\n]*\\n[^\\S\\n]*(\\S+)"@
}

/// The device-code prompt in streamed sign-in output, once both the URL
/// and the code are present.
pub open spec fn device_code_of(text: Seq<char>) -> Option<(Seq<char>, Seq<char>)> {
    match (regex_first_group(url_pattern(), text), regex_first_group(code_pattern(), text)) {
        (Some(u), Some(c)) => Some((u, c)),
        _ => None,
    }
}

/// Reads a device-code prompt out of streamed sign-in output (see
/// `device_code_of`).
pub fn detect_device_code(text: &str) -> (r: Option<DeviceCodeInfo>)
    ensures
        match r {
            Some(d) => device_code_of(text@) == Some((d.url@, d.code@)),
            None => device_code_of(text@) is None,
        },
{
    let url = first_group("Open this URL in your browser:[^\\S\\n]*\\n[^\\S\\n]*(https://\\S+)", text);
    let code = first_group("Enter this code:[^\\S\\n]*\\n[^\\S\\n]*(\\S+)", text);
    match (url, code) {
        (Some(u), Some(c)) => Some(DeviceCodeInfo { url: u, code: c }),
        _ => None,
    }
}

// ── The sign-in command ───────────────────────────────────────────────────

/// The arguments of `hermes auth add <provider> --type oauth`, with
/// `-p <profile>` in front for a profile other than `default`.
pub open spec fn login_args(provider: Seq<char>, profile: Option<Seq<char>>) -> Seq<Seq<char>> {
    let base = seq!["auth"@, "add"@, provider, "--type"@, "oauth"@];
    match profile {
        Some(p) => if p != "default"@ {
            seq!["-p"@, p] + base
        } else {
            base
        },
        None => base,
    }
}

/// Checks a sign-in request: the provider must sign in by OAuth and no
/// other sign-in may run; then the command arguments.
pub fn oauth_login_args(provider: &str, profile: Option<&str>, sign_in_running: bool) -> (r: Result<Vec<String>, String>)
    ensures
        !oauth_providers().contains(provider@) ==> (r matches Err(e) && e@ == "Unsupported OAuth provider: "@ + provider@),
        oauth_providers().contains(provider@) && sign_in_running ==> (r matches Err(e) && e@
            == "Another sign-in is already in progress."@),
        oauth_providers().contains(provider@) && !sign_in_running ==> (r matches Ok(v) && strs_view(v@) == login_args(
            provider@,
            match profile {
                Some(p) => Some(p@),
                None => None::<Seq<char>>,
            },
        )),
{
    if !is_oauth_login_provider(provider) {
        return Err("Unsupported OAuth provider: ".to_owned().concat(provider));
    }
    if sign_in_running {
        return Err("Another sign-in is already in progress.".to_owned());
    }
    let mut args: Vec<String> = Vec::new();
    let mut prefixed = false;
    if let Some(p) = profile {
        if !str_eq(p, "default") {
            args.push("-p".to_owned());
            args.push(p.to_owned());
            prefixed = true;
        }
    }
    let ghost head = strs_view(args@);
    args.push("auth".to_owned());
    args.push("add".to_owned());
    args.push(provider.to_owned());
    args.push("--type".to_owned());
    args.push("oauth".to_owned());
    assert(strs_view(args@) =~= head + seq!["auth"@, "add"@, provider@, "--type"@, "oauth"@]);
    Ok(args)
}

/// The environment of the sign-in command: unbuffered output, a dumb
/// terminal, the user's home (empty when unknown) and the agent home.
pub fn oauth_login_env(home_dir: Option<&str>, hermes_home: &str) -> (r: Vec<(String, String)>)
    ensures
        pairs_view(r@) == seq![
            ("PYTHONUNBUFFERED"@, "1"@),
            ("TERM"@, "dumb"@),
            ("HOME"@, match home_dir {
                Some(h) => h@,
                None => Seq::empty(),
            }),
            ("HERMES_HOME"@, hermes_home@),
        ],
{
    let mut r: Vec<(String, String)> = Vec::new();
    r.push(("PYTHONUNBUFFERED".to_owned(), "1".to_owned()));
    r.push(("TERM".to_owned(), "dumb".to_owned()));
    r.push((
        "HOME".to_owned(),
        match home_dir {
            Some(h) => h.to_owned(),
            None => String::new(),
        },
    ));
    r.push(("HERMES_HOME".to_owned(), hermes_home.to_owned()));
    assert(pairs_view(r@) =~= seq![
        ("PYTHONUNBUFFERED"@, "1"@),
        ("TERM"@, "dumb"@),
        ("HOME"@, match home_dir {
            Some(h) => h@,
            None => Seq::empty(),
        }),
        ("HERMES_HOME"@, hermes_home@),
    ]);
    r
}

/// The error when the sign-in command could not be started.
pub fn sign_in_spawn_failure(error: &str) -> (r: String)
    ensures
        r@ == "Failed to start sign-in: "@ + error@,
{
    "Failed to start sign-in: ".to_owned().concat(error)
}

/// The output of a running sign-in, as it streams in.
pub struct OAuthLoginStream {
    full_output: String,
}

impl OAuthLoginStream {
    /// All output so far.
    pub closed spec fn output(&self) -> Seq<char> {
        self.full_output@
    }

    /// No output yet.
    pub fn new() -> (r: Self)
        ensures
            r.output() == Seq::<char>::empty(),
    {
        OAuthLoginStream { full_output: String::new() }
    }

    /// A line of standard output: the chunk to show (the line and a
    /// newline), and the device-code prompt once the output holds one.
    pub fn on_stdout_line(&mut self, line: &str) -> (r: (String, Option<DeviceCodeInfo>))
        ensures
            r.0@ == line@.push('\n'),
            final(self).output() == old(self).output() + line@.push('\n'),
            match r.1 {
                Some(d) => device_code_of(final(self).output()) == Some((d.url@, d.code@)),
                None => device_code_of(final(self).output()) is None,
            },
    {
        let mut chunk = line.to_owned();
        chunk = chunk.concat("\n");
        proof {
            reveal_strlit("\n");
            assert(chunk@ =~= line@.push('\n'));
        }
        self.full_output = self.full_output.as_str().to_owned().concat(chunk.as_str());
        let device = detect_device_code(self.full_output.as_str());
        (chunk, device)
    }

    /// A line of standard error: the chunk to show.
    pub fn on_stderr_line(&mut self, line: &str) -> (r: String)
        ensures
            r@ == line@.push('\n'),
            final(self).output() == old(self).output() + line@.push('\n'),
    {
        let mut chunk = line.to_owned();
        chunk = chunk.concat("\n");
        proof {
            reveal_strlit("\n");
            assert(chunk@ =~= line@.push('\n'));
        }
        self.full_output = self.full_output.as_str().to_owned().concat(chunk.as_str());
        chunk
    }
}

/// A signed decimal number's text.
pub open spec fn signed_text(n: int) -> Seq<char> {
    if n < 0 {
        "-"@ + dec_text((-n) as nat)
    } else {
        dec_text(n as nat)
    }
}

/// The decimal text of a signed number.
pub fn signed_decimal(n: i32) -> (r: String)
    ensures
        r@ == signed_text(n as int),
{
    if n < 0 {
        let m: i64 = -(n as i64);
        "-".to_owned().concat(decimal(m as u64).as_str())
    } else {
        decimal(n as u64)
    }
}

/// The decimal text of a 64-bit integer, with a minus sign when negative.
pub fn signed_decimal_i64(n: i64) -> (r: String)
    ensures
        r@ == signed_text(n as int),
{
    if n < 0 {
        let m: i128 = -(n as i128);
        "-".to_owned().concat(decimal(m as u64).as_str())
    } else {
        decimal(n as u64)
    }
}

/// How the sign-in command ended.
#[derive(Debug, Clone, PartialEq, Eq)]
pub enum SignInExit {
    /// It exited, with its exit code when it has one.
    Exited { success: bool, code: Option<i32> },
    /// Waiting for it failed.
    WaitFailed { error: String },
}

/// What a sign-in's end means: success, or the reason it failed; a
/// missing exit code reads as -1.
pub fn sign_in_result(exit: &SignInExit) -> (r: OAuthLoginResult)
    ensures
        match exit {
            SignInExit::Exited { success, code } => r.success == *success && (*success ==> r.error is None) && (!*success
                ==> ostring(r.error) == Some(
                "Sign-in exited with code "@ + signed_text(
                    match code {
                        Some(c) => *c as int,
                        None => -1,
                    },
                ) + "."@,
            )),
            SignInExit::WaitFailed { error } => !r.success && ostring(r.error) == Some("Sign-in failed: "@ + error@),
        },
{
    match exit {
        SignInExit::Exited { success, code } => {
            if *success {
                OAuthLoginResult { success: true, error: None }
            } else {
                let c = match code {
                    Some(c) => *c,
                    None => -1,
                };
                let text = "Sign-in exited with code ".to_owned().concat(signed_decimal(c).as_str()).concat(".");
                OAuthLoginResult { success: false, error: Some(text) }
            }
        },
        SignInExit::WaitFailed { error } => OAuthLoginResult {
            success: false,
            error: Some("Sign-in failed: ".to_owned().concat(error.as_str())),
        },
    }
}

// ── Credential pool ───────────────────────────────────────────────────────

/// The fingerprint of a secret: `sha256:` and the first 16 hexadecimal
/// digits of its SHA-256 digest.
pub open spec fn fingerprint_of(secret: Seq<char>) -> Seq<char> {
    "sha256:"@ + hex_text(sha256_of(vstd::utf8::encode_utf8(secret))).take(16)
}

/// The fingerprint of a secret (see `fingerprint_of`).
pub fn fingerprint(secret: &str) -> (r: String)
    ensures
        r@ == fingerprint_of(secret@),
{
    let bytes = secret.as_bytes();
    proof {
        assert(secret.spec_bytes() =~= vstd::utf8::encode_utf8(secret@));
    }
    let hex = sha256_hex(bytes);
    let hc = chars_of(hex.as_str());
    let head = crate::text::sub_chars(hc.as_slice(), 0, 16);
    let mut out = "sha256:".to_owned();
    out = out.concat(crate::text::string_from_chars(head.as_slice()).as_str());
    assert(head@ =~= hex@.take(16));
    out
}

/// A credential of a provider, as the agent's auth store keeps it.
#[derive(Debug, Clone, PartialEq, Eq)]
pub struct CredentialPoolEntry {
    pub id: Option<String>,
    pub label: Option<String>,
    pub auth_type: Option<String>,
    pub priority: Option<i32>,
    /// `manual` (the secret is the access token) or `env:<VAR>` (the
    /// secret is that variable of the agent's `.env`).
    pub source: Option<String>,
    pub access_token: Option<String>,
    pub refresh_token: Option<String>,
    pub api_key: Option<String>,
    pub base_url: Option<String>,
    pub request_count: Option<i32>,
    pub key: Option<String>,
    /// The fingerprint of an env-sourced secret.
    pub secret_fingerprint: Option<String>,
    pub last_status: Option<String>,
}

/// The mathematical view of a credential pool entry.
pub struct CredentialPoolEntryV {
    pub id: Option<Seq<char>>,
    pub label: Option<Seq<char>>,
    pub auth_type: Option<Seq<char>>,
    pub priority: Option<i32>,
    pub source: Option<Seq<char>>,
    pub access_token: Option<Seq<char>>,
    pub refresh_token: Option<Seq<char>>,
    pub api_key: Option<Seq<char>>,
    pub base_url: Option<Seq<char>>,
    pub request_count: Option<i32>,
    pub key: Option<Seq<char>>,
    pub secret_fingerprint: Option<Seq<char>>,
    pub last_status: Option<Seq<char>>,
}

impl View for CredentialPoolEntry {
    type V = CredentialPoolEntryV;

    open spec fn view(&self) -> CredentialPoolEntryV {
        CredentialPoolEntryV {
            id: ostring(self.id),
            label: ostring(self.label),
            auth_type: ostring(self.auth_type),
            priority: self.priority,
            source: ostring(self.source),
            access_token: ostring(self.access_token),
            refresh_token: ostring(self.refresh_token),
            api_key: ostring(self.api_key),
            base_url: ostring(self.base_url),
            request_count: self.request_count,
            key: ostring(self.key),
            secret_fingerprint: ostring(self.secret_fingerprint),
            last_status: ostring(self.last_status),
        }
    }
}

/// The views of pool entries.
pub open spec fn entries_view(v: Seq<CredentialPoolEntry>) -> Seq<CredentialPoolEntryV> {
    v.map_values(|e: CredentialPoolEntry| e@)
}

/// A variable's non-empty value.
pub open spec fn nonempty_value(env: Map<Seq<char>, Seq<char>>, k: Seq<char>) -> Option<Seq<char>> {
    if env.contains_key(k) && env[k].len() > 0 {
        Some(env[k])
    } else {
        None
    }
}

/// The variable that an env-sourced entry reads its secret from.
pub open spec fn env_source(source: Option<Seq<char>>) -> Option<Seq<char>> {
    match source {
        Some(s) => if starts_with(s, "env:"@) {
            Some(s.skip(4))
        } else {
            None
        },
        None => None,
    }
}

impl CredentialPoolEntry {
    /// The variable an env-sourced entry reads its secret from.
    pub fn env_var(&self) -> (r: Option<String>)
        ensures
            ostring(r) == env_source(ostring(self.source)),
    {
        match &self.source {
            Some(s) => {
                let cs = chars_of(s.as_str());
                let p = chars_of("env:");
                proof {
                    reveal_strlit("env:");
                }
                assert(p@.len() == 4);
                if crate::text::starts_with_chars(cs.as_slice(), p.as_slice()) {
                    let rest = crate::text::sub_chars(cs.as_slice(), 4, cs.len());
                    assert(rest@ =~= s@.skip(4));
                    Some(crate::text::string_from_chars(rest.as_slice()))
                } else {
                    None
                }
            },
            None => None,
        }
    }

    /// The secret of the entry: its non-empty access token; else, for an
    /// env-sourced entry naming a variable, that variable's non-empty value
    /// in the profile's `.env`, in the global `.env`, or in the process
    /// environment (`process_value`), in that order.
    pub fn resolve_secret(&self, profile_env: &EnvMap, global_env: &EnvMap, process_value: Option<&str>) -> (r: Option<String>)
        ensures
            ostring(r) == (match ostring(self.access_token) {
                Some(t) if t.len() > 0 => Some(t),
                _ => match env_source(ostring(self.source)) {
                    Some(v) if v.len() > 0 => match nonempty_value(profile_env@, v) {
                        Some(x) => Some(x),
                        None => match nonempty_value(global_env@, v) {
                            Some(x) => Some(x),
                            None => match process_value {
                                Some(p) if p@.len() > 0 => Some(p@),
                                _ => None,
                            },
                        },
                    },
                    _ => None,
                },
            }),
    {
        if let Some(t) = &self.access_token {
            if t.unicode_len() > 0 {
                return Some(t.as_str().to_owned());
            }
        }
        let var = match self.env_var() {
            Some(v) => v,
            None => {
                return None;
            },
        };
        if var.unicode_len() == 0 {
            return None;
        }
        if let Some(x) = profile_env.get(var.as_str()) {
            if x.unicode_len() > 0 {
                return Some(x.to_owned());
            }
        }
        if let Some(x) = global_env.get(var.as_str()) {
            if x.unicode_len() > 0 {
                return Some(x.to_owned());
            }
        }
        match process_value {
            Some(p) => if p.unicode_len() > 0 {
                Some(p.to_owned())
            } else {
                None
            },
            None => None,
        }
    }
}

/// Whether a label names an environment variable: only ASCII capitals and
/// underscores, with at least one underscore.
pub open spec fn is_env_label(label: Seq<char>) -> bool {
    &&& forall|i: int| 0 <= i < label.len() ==> ('A' <= #[trigger] label[i] <= 'Z' || label[i] == '_')
    &&& exists|i: int| 0 <= i < label.len() && #[trigger] label[i] == '_'
}

/// Whether a label names an environment variable (see `is_env_label`).
pub fn env_label(label: &str) -> (r: bool)
    ensures
        r == is_env_label(label@),
{
    let cs = chars_of(label);
    let mut underscore = false;
    let mut i: usize = 0;
    while i < cs.len()
        invariant
            i <= cs@.len(),
            cs@ == label@,
            forall|k: int| 0 <= k < i ==> ('A' <= #[trigger] cs@[k] <= 'Z' || cs@[k] == '_'),
            underscore == exists|k: int| 0 <= k < i && #[trigger] cs@[k] == '_',
        decreases cs@.len() - i,
    {
        let c = cs[i];
        if !(('A' <= c && c <= 'Z') || c == '_') {
            return false;
        }
        if c == '_' {
            underscore = true;
        }
        i = i + 1;
    }
    underscore
}

/// The priority of a new entry: one above the highest (a missing priority
/// counts as 0), or 0 for the first entry.
pub open spec fn next_priority_of(entries: Seq<CredentialPoolEntry>) -> int
    decreases entries.len(),
{
    if entries.len() == 0 {
        0
    } else {
        let p = match entries.last().priority {
            Some(x) => x as int,
            None => 0,
        };
        let rest = next_priority_of(entries.drop_last());
        if entries.len() == 1 || p + 1 > rest {
            p + 1
        } else {
            rest
        }
    }
}

/// The priority of a new entry (see `next_priority_of`).
pub fn next_priority(entries: &Vec<CredentialPoolEntry>) -> (r: i32)
    requires
        forall|i: int| 0 <= i < entries@.len() ==> (#[trigger] entries@[i]).priority != Some(i32::MAX),
    ensures
        r as int == next_priority_of(entries@),
{
    let mut best: i32 = 0;
    let mut i: usize = 0;
    while i < entries.len()
        invariant
            i <= entries@.len(),
            forall|k: int| 0 <= k < entries@.len() ==> (#[trigger] entries@[k]).priority != Some(i32::MAX),
            best as int == next_priority_of(entries@.take(i as int)),
        decreases entries@.len() - i,
    {
        assert(entries@.take(i + 1).drop_last() =~= entries@.take(i as int));
        let p = match entries[i].priority {
            Some(x) => x,
            None => 0,
        };
        if i == 0 || p + 1 > best {
            best = p + 1;
        }
        i = i + 1;
    }
    assert(entries@.take(entries@.len() as int) =~= entries@);
    best
}

/// A new entry for a provider's pool, and the variable to write into the
/// agent's `.env` when the label names one: such an entry reads its secret
/// from that variable and keeps only its fingerprint; any other keeps the
/// secret as its access token.
pub fn new_pool_entry(entries: &Vec<CredentialPoolEntry>, key: &str, label: &str, id: &str) -> (r: (
    CredentialPoolEntry,
    Option<(String, String)>,
))
    requires
        forall|i: int| 0 <= i < entries@.len() ==> (#[trigger] entries@[i]).priority != Some(i32::MAX),
    ensures
        ostring(r.0.id) == Some(id@),
        ostring(r.0.label) == (if label@.len() == 0 { None } else { Some(label@) }),
        ostring(r.0.auth_type) == Some("api_key"@),
        r.0.priority matches Some(p) && p as int == next_priority_of(entries@),
        r.0.request_count == Some(0i32),
        r.0.refresh_token is None && r.0.api_key is None && r.0.base_url is None && r.0.key is None,
        r.0.last_status is None,
        is_env_label(label@) ==> {
            &&& ostring(r.0.source) == Some("env:"@ + label@)
            &&& r.0.access_token is None
            &&& ostring(r.0.secret_fingerprint) == Some(fingerprint_of(key@))
            &&& r.1 matches Some((k, v)) && k@ == label@ && v@ == key@
        },
        !is_env_label(label@) ==> {
            &&& ostring(r.0.source) == Some("manual"@)
            &&& ostring(r.0.access_token) == Some(key@)
            &&& r.0.secret_fingerprint is None
            &&& r.1 is None
        },
{
    let priority = next_priority(entries);
    let env = env_label(label);
    let (source, access_token, secret_fingerprint, write) = if env {
        (
            "env:".to_owned().concat(label),
            None,
            Some(fingerprint(key)),
            Some((label.to_owned(), key.to_owned())),
        )
    } else {
        ("manual".to_owned(), Some(key.to_owned()), None, None)
    };
    let entry = CredentialPoolEntry {
        id: Some(id.to_owned()),
        label: if label.unicode_len() == 0 {
            None
        } else {
            Some(label.to_owned())
        },
        auth_type: Some("api_key".to_owned()),
        priority: Some(priority),
        source: Some(source),
        access_token,
        refresh_token: None,
        api_key: None,
        base_url: None,
        request_count: Some(0),
        key: None,
        secret_fingerprint,
        last_status: None,
    };
    (entry, write)
}

/// Whether an entry has that id.
pub open spec fn has_id(e: CredentialPoolEntryV, id: Seq<char>) -> bool {
    e.id == Some(id)
}

/// The entries without those of that id, in order.
pub open spec fn without_id(entries: Seq<CredentialPoolEntryV>, id: Seq<char>) -> Seq<CredentialPoolEntryV>
    decreases entries.len(),
{
    if entries.len() == 0 {
        Seq::empty()
    } else {
        let rest = without_id(entries.drop_last(), id);
        if has_id(entries.last(), id) {
            rest
        } else {
            rest.push(entries.last())
        }
    }
}

/// The variable whose value is cleared when an entry is removed: the one
/// that the first entry of that id at or after `k` reads its secret from.
pub open spec fn cleared_var(entries: Seq<CredentialPoolEntryV>, id: Seq<char>, k: int) -> Option<Seq<char>>
    decreases entries.len() - k,
{
    if k < 0 || k >= entries.len() {
        None
    } else if has_id(entries[k], id) {
        env_source(entries[k].source)
    } else {
        cleared_var(entries, id, k + 1)
    }
}

/// A copy of an optional string.
fn copy_opt(o: &Option<String>) -> (r: Option<String>)
    ensures
        ostring(r) == ostring(*o),
        r is Some <==> o is Some,
{
    crate::json::clone_opt(o)
}

/// Removes the entries of that id from a provider's pool: the remaining
/// entries, in order, and the variable to clear in the agent's `.env` when
/// the removed entry read its secret from one.
pub fn remove_pool_entry(entries: &Vec<CredentialPoolEntry>, entry_id: &str) -> (r: (Vec<CredentialPoolEntry>, Option<String>))
    ensures
        entries_view(r.0@) == without_id(entries_view(entries@), entry_id@),
        ostring(r.1) == cleared_var(entries_view(entries@), entry_id@, 0),
{
    let ghost ev = entries_view(entries@);
    let mut kept: Vec<CredentialPoolEntry> = Vec::new();
    let mut cleared: Option<String> = None;
    let mut found = false;
    let mut i: usize = 0;
    while i < entries.len()
        invariant
            i <= entries@.len(),
            ev == entries_view(entries@),
            ev.len() == entries@.len(),
            entries_view(kept@) == without_id(ev.take(i as int), entry_id@),
            found ==> ostring(cleared) == cleared_var(ev, entry_id@, 0),
            !found ==> cleared_var(ev, entry_id@, 0) == cleared_var(ev, entry_id@, i as int),
            !found ==> cleared is None,
        decreases entries@.len() - i,
    {
        assert(ev.take(i + 1).drop_last() =~= ev.take(i as int));
        assert(ev.take(i + 1).last() == ev[i as int]);
        let e = &entries[i];
        assert(ev[i as int] == e@);
        let matches = match &e.id {
            Some(x) => str_eq(x.as_str(), entry_id),
            None => false,
        };
        if matches {
            if !found {
                cleared = e.env_var();
                found = true;
            }
        } else {
            let ghost before = entries_view(kept@);
            kept.push(e.clone_entry());
            assert(entries_view(kept@) =~= before.push(ev[i as int]));
        }
        i = i + 1;
    }
    assert(ev.take(entries@.len() as int) =~= ev);
    (kept, cleared)
}

impl CredentialPoolEntry {
    /// A copy of the entry.
    pub fn clone_entry(&self) -> (r: CredentialPoolEntry)
        ensures
            r@ == self@,
    {
        CredentialPoolEntry {
            id: copy_opt(&self.id),
            label: copy_opt(&self.label),
            auth_type: copy_opt(&self.auth_type),
            priority: self.priority,
            source: copy_opt(&self.source),
            access_token: copy_opt(&self.access_token),
            refresh_token: copy_opt(&self.refresh_token),
            api_key: copy_opt(&self.api_key),
            base_url: copy_opt(&self.base_url),
            request_count: self.request_count,
            key: copy_opt(&self.key),
            secret_fingerprint: copy_opt(&self.secret_fingerprint),
            last_status: copy_opt(&self.last_status),
        }
    }
}

/// The credential pool of an auth store: its `credential_pool` member,
/// an empty object when there is none.
pub fn pool_of(store: &crate::json::Json) -> (r: crate::json::Json)
    ensures
        r@ == (match crate::json::jget(store@, "credential_pool"@) {
            Some(v) => v,
            None => crate::json::JsonV::Object(Seq::empty()),
        }),
{
    match store.get("credential_pool") {
        Some(v) => v.deep_clone(),
        None => crate::json::empty_object(),
    }
}

/// The auth store after one provider's pool entries are replaced: the
/// pool is created when missing, every other member is kept.
pub open spec fn store_with_provider_pool(store: crate::json::JsonV, provider: Seq<char>, entries: crate::json::JsonV) -> crate::json::JsonV {
    let s1 = if crate::json::jget(store, "credential_pool"@) is None {
        crate::json::json_set(store, "credential_pool"@, crate::json::JsonV::Object(Seq::empty()))
    } else {
        store
    };
    let pool = crate::json::jget(s1, "credential_pool"@)->Some_0;
    crate::json::json_set(s1, "credential_pool"@, crate::json::json_set(pool, provider, entries))
}

/// Whether an auth store can take a provider's pool: it is an object (or
/// `null`), and so is its pool where it has one.
pub open spec fn pool_settable(store: crate::json::JsonV) -> bool {
    &&& crate::json::settable(store)
    &&& match crate::json::jget(store, "credential_pool"@) {
        Some(p) => crate::json::settable(p),
        None => true,
    }
}

/// The auth store after one provider's pool entries are replaced (see
/// `store_with_provider_pool`).
pub fn set_provider_pool(store: crate::json::Json, provider: &str, entries: crate::json::Json) -> (r: crate::json::Json)
    requires
        pool_settable(store@),
    ensures
        r@ == store_with_provider_pool(store@, provider@, entries@),
{
    let ghost sv = store@;
    let s1 = if store.get("credential_pool").is_none() {
        crate::json::set_member(store, "credential_pool", crate::json::empty_object())
    } else {
        store
    };
    proof {
        if crate::json::jget(sv, "credential_pool"@) is None {
            crate::json::lemma_member_read_after_set(sv, "credential_pool"@, crate::json::JsonV::Object(Seq::empty()));
        }
    }
    let pool = pool_of(&s1);
    assert(crate::json::settable(pool@));
    let updated = crate::json::set_member(pool, provider, entries);
    assert(crate::json::settable(s1@));
    crate::json::set_member(s1, "credential_pool", updated)
}

/// The auth store with its whole pool replaced.
pub fn set_pool(store: crate::json::Json, pool: crate::json::Json) -> (r: crate::json::Json)
    requires
        crate::json::settable(store@),
    ensures
        r@ == crate::json::json_set(store@, "credential_pool"@, pool@),
{
    crate::json::set_member(store, "credential_pool", pool)
}

/// The civil (proleptic Gregorian) date of a day count since 1970-01-01,
/// as year, month and day.
pub open spec fn civil_date(days: nat) -> (int, int, int) {
    let z = days + 719468;
    let era = z / 146097;
    let doe = z - era * 146097;
    let yoe = (doe - doe / 1460 + doe / 36524 - doe / 146096) / 365;
    let doy = doe - (365 * yoe + yoe / 4 - yoe / 100);
    let mp = (5 * doy + 2) / 153;
    let d = doy - (153 * mp + 2) / 5 + 1;
    let m = if mp < 10 { mp + 3 } else { mp - 9 };
    let y = yoe + era * 400;
    (if m <= 2 { y + 1 } else { y }, m, d)
}

/// Zeros put in front of `t` until it has `width` characters.
pub open spec fn padded_zeros(t: Seq<char>, width: nat) -> Seq<char>
    decreases width,
{
    if t.len() >= width || width == 0 {
        t
    } else {
        seq!['0'] + padded_zeros(t, (width - 1) as nat)
    }
}

/// The RFC 3339 UTC text of a moment given in seconds since the epoch,
/// such as `2026-07-18T09:50:00Z`.
pub open spec fn rfc3339_text(secs: nat) -> Seq<char> {
    let (y, m, d) = civil_date(secs / 86400);
    let rem = secs % 86400;
    padded_zeros(dec_text(y as nat), 4) + "-"@ + padded_zeros(dec_text(m as nat), 2) + "-"@
        + padded_zeros(dec_text(d as nat), 2) + "T"@ + padded_zeros(dec_text(rem / 3600), 2) + ":"@
        + padded_zeros(dec_text((rem % 3600) / 60), 2) + ":"@ + padded_zeros(dec_text(rem % 60), 2) + "Z"@
}

/// Puts zeros in front of a text until it has `width` characters.
fn pad_zeros(t: String, width: usize) -> (r: String)
    ensures
        r@ == padded_zeros(t@, width as nat),
    decreases width,
{
    if t.unicode_len() >= width || width == 0 {
        t
    } else {
        let rest = pad_zeros(t, width - 1);
        let r = "0".to_owned().concat(rest.as_str());
        proof {
            reveal_strlit("0");
        }
        assert(r@ =~= padded_zeros(t@, width as nat));
        r
    }
}

/// The RFC 3339 UTC text of a moment given in seconds since the epoch.
pub fn rfc3339_utc(secs: u64) -> (r: String)
    ensures
        r@ == rfc3339_text(secs as nat),
{
    let days: u64 = secs / 86400;
    let z: u64 = days + 719468;
    let era: u64 = z / 146097;
    assert(era * 146097 <= z) by (nonlinear_arith)
        requires era == z / 146097;
    let doe: u64 = z - era * 146097;
    assert(doe < 146097) by (nonlinear_arith)
        requires era == z / 146097, doe == z - era * 146097;
    let yoe: u64 = (doe - doe / 1460 + doe / 36524 - doe / 146096) / 365;
    assert(yoe < 400) by (nonlinear_arith)
        requires doe < 146097, yoe == (doe - doe / 1460 + doe / 36524 - doe / 146096) / 365;
    assert(365 * yoe + yoe / 4 - yoe / 100 <= doe) by (nonlinear_arith)
        requires doe < 146097, yoe == (doe - doe / 1460 + doe / 36524 - doe / 146096) / 365;
    let doy: u64 = doe - (365 * yoe + yoe / 4 - yoe / 100);
    assert(doy < 366) by (nonlinear_arith)
        requires doe < 146097, yoe == (doe - doe / 1460 + doe / 36524 - doe / 146096) / 365,
            doy == doe - (365 * yoe + yoe / 4 - yoe / 100);
    let mp: u64 = (5 * doy + 2) / 153;
    assert(mp < 12 && (153 * mp + 2) / 5 <= doy) by (nonlinear_arith)
        requires doy < 366, mp == (5 * doy + 2) / 153;
    let d: u64 = doy - (153 * mp + 2) / 5 + 1;
    let m: u64 = if mp < 10 { mp + 3 } else { mp - 9 };
    assert(era <= z) by (nonlinear_arith)
        requires era == z / 146097;
    let y0: u64 = yoe + era * 400;
    let y: u64 = if m <= 2 { y0 + 1 } else { y0 };
    let rem: u64 = secs % 86400;
    let text = pad_zeros(decimal(y), 4).concat("-").concat(pad_zeros(decimal(m), 2).as_str()).concat("-")
        .concat(pad_zeros(decimal(d), 2).as_str()).concat("T").concat(pad_zeros(decimal(rem / 3600), 2).as_str())
        .concat(":").concat(pad_zeros(decimal((rem % 3600) / 60), 2).as_str()).concat(":")
        .concat(pad_zeros(decimal(rem % 60), 2).as_str()).concat("Z");
    proof {
        let (sy, sm, sd) = civil_date(secs as nat / 86400);
        assert(sy == y as int && sm == m as int && sd == d as int);
        assert(text@ =~= rfc3339_text(secs as nat));
    }
    text
}

/// The auth store stamped with the time it is written, as RFC 3339 UTC text
/// (see `rfc3339_text`).
pub fn stamp_store(store: crate::json::Json, secs: u64) -> (r: crate::json::Json)
    requires
        crate::json::settable(store@),
    ensures
        r@ == crate::json::json_set(store@, "updated_at"@, crate::json::JsonV::Str(rfc3339_text(secs as nat))),
{
    crate::json::set_member(store, "updated_at", crate::json::Json::Str(rfc3339_utc(secs)))
}

} // verus!
