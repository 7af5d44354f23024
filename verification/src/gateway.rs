//! Starting the Hermes backend (`hermes serve`): its command line, its
//! environment, reading the port it announces, and what a start attempt
//! reports.

use vstd::prelude::*;
use base64::Engine;
use crate::json::{digits_value, ostring};
use crate::number::{run_len, digit_run};
use crate::text::{find, chars_of, find_chars, sub_chars, string_from_chars, str_eq, concat_chars,
    append_chars};
use crate::config::{strs_view, ostr_view, named_profile, EnvMap, pairs_view};

verus! {

/// The arguments of `hermes serve`: `--profile <name>` for a named profile
/// (not `default`, not empty), then `serve --host 127.0.0.1 --port 0`.
pub open spec fn serve_args(profile: Option<Seq<char>>) -> Seq<Seq<char>> {
    let tail = seq!["serve"@, "--host"@, "127.0.0.1"@, "--port"@, "0"@];
    match named_profile(profile) {
        Some(p) => seq!["--profile"@, p] + tail,
        None => tail,
    }
}

/// Builds the argument list of `hermes serve` for a profile.
pub fn build_serve_args(profile: Option<&str>) -> (r: Vec<String>)
    ensures
        strs_view(r@) == serve_args(ostr_view(profile)),
{
    let mut args: Vec<String> = Vec::new();
    match profile {
        Some(p) => {
            if !str_eq(p, "default") && p.unicode_len() > 0 {
                args.push("--profile".to_owned());
                args.push(p.to_owned());
            }
        },
        None => {},
    }
    args.push("serve".to_owned());
    args.push("--host".to_owned());
    args.push("127.0.0.1".to_owned());
    args.push("--port".to_owned());
    args.push("0".to_owned());
    assert(strs_view(args@) =~= serve_args(ostr_view(profile)));
    args
}

/// The port that a backend output line announces: after
/// `HERMES_BACKEND_READY`, the digits that directly follow the next
/// `port=`, when there are some and they fit in `u16`.
pub open spec fn ready_port(line: Seq<char>) -> Option<u16> {
    match find(line, "HERMES_BACKEND_READY"@) {
        None => None,
        Some(i) => {
            let tail = line.skip(i);
            match find(tail, "port="@) {
                None => None,
                Some(j) => {
                    let after = tail.skip(j + 5);
                    let d = after.take(run_len(after, 0) as int);
                    if d.len() > 0 && digits_value(d) <= 65535 {
                        Some(digits_value(d) as u16)
                    } else {
                        None
                    }
                },
            }
        },
    }
}

/// Reads the port out of a backend output line (see `ready_port`).
pub fn parse_ready_port(line: &str) -> (r: Option<u16>)
    ensures
        r == ready_port(line@),
{
    let cs = chars_of(line);
    let marker = chars_of("HERMES_BACKEND_READY");
    let idx = match find_chars(cs.as_slice(), marker.as_slice()) {
        Some(i) => i,
        None => {
            return None;
        },
    };
    let tail = sub_chars(cs.as_slice(), idx, cs.len());
    assert(tail@ =~= line@.skip(idx as int));
    let key = chars_of("port=");
    let port_idx = match find_chars(tail.as_slice(), key.as_slice()) {
        Some(j) => j,
        None => {
            return None;
        },
    };
    proof {
        reveal_strlit("port=");
        assert(key@.len() == 5);
        assert(crate::text::occurs_at(tail@, key@, port_idx as int));
    }
    let n = tail.len();
    let after = sub_chars(tail.as_slice(), port_idx + 5, n);
    assert(after@ =~= tail@.skip(port_idx + 5));
    let k = digit_run(&after, 0);
    let d = sub_chars(after.as_slice(), 0, k);
    assert(d@ =~= after@.take(run_len(after@, 0) as int));
    let ds = string_from_chars(d.as_slice());
    match crate::json::digits_to_u64(ds.as_str()) {
        Some(v) => {
            proof {
                assert(crate::json::all_digits(d@)) by {
                    assert forall|m: int| 0 <= m < d@.len() implies crate::json::is_digit(#[trigger] d@[m]) by {
                        lemma_run_digits(after@, 0, m);
                    }
                }
            }
            if v <= 65535 {
                Some(v as u16)
            } else {
                None
            }
        },
        None => {
            proof {
                assert(crate::json::all_digits(d@)) by {
                    assert forall|m: int| 0 <= m < d@.len() implies crate::json::is_digit(#[trigger] d@[m]) by {
                        lemma_run_digits(after@, 0, m);
                    }
                }
                if d@.len() > 0 {
                    assert(digits_value(d@) > u64::MAX);
                }
            }
            None
        },
    }
}

proof fn lemma_run_digits(t: Seq<char>, i: int, m: int)
    requires
        0 <= i,
        0 <= m < run_len(t, i),
    ensures
        crate::json::is_digit(t[i + m]),
    decreases m,
{
    if m > 0 {
        lemma_run_digits(t, i + 1, m - 1);
    }
}

/// Why the backend could not be found or started.
#[derive(Debug, Clone, Copy, PartialEq, Eq, Structural)]
pub enum BackendError {
    /// No local Hermes installation (no interpreter) was found.
    NotInstalled,
}

impl BackendError {
    /// The error's message, for people.
    pub fn message(&self) -> (r: String)
        ensures
            r@ == "No local Hermes/Steersman installation found. Install Hermes Agent first."@,
    {
        match self {
            BackendError::NotInstalled => "No local Hermes/Steersman installation found. Install Hermes Agent first.".to_owned(),
        }
    }
}

/// The agent interpreter and its instance name from discovery's result:
/// the found interpreter with the name `hermes`, or not installed.
pub fn find_hermes_python(found: Option<&str>) -> (r: Result<(String, String), BackendError>)
    ensures
        match found {
            Some(p) => r matches Ok((path, name)) && path@ == p@ && name@ == "hermes"@,
            None => r == Err::<(String, String), BackendError>(BackendError::NotInstalled),
        },
{
    match found {
        Some(p) => Ok((p.to_owned(), "hermes".to_owned())),
        None => Err(BackendError::NotInstalled),
    }
}

/// A filesystem path as its root (a drive prefix and root separator, empty
/// for a relative path) and its normal components.
pub struct PathParts {
    pub root: String,
    pub parts: Vec<String>,
}

/// The agent checkout of an interpreter inside `<root>/venv/{bin|Scripts}/`:
/// three levels up, when the path has that many components.
pub fn find_hermes_repo(python: &PathParts) -> (r: Option<PathParts>)
    ensures
        match r {
            Some(p) => python.parts@.len() >= 3 && p.root@ == python.root@
                && strs_view(p.parts@) == strs_view(python.parts@).take(python.parts@.len() - 3),
            None => python.parts@.len() < 3,
        },
{
    if python.parts.len() < 3 {
        return None;
    }
    let keep = python.parts.len() - 3;
    let mut parts: Vec<String> = Vec::new();
    let mut i: usize = 0;
    while i < keep
        invariant
            keep == python.parts@.len() - 3,
            i <= keep,
            strs_view(parts@) == strs_view(python.parts@).take(i as int),
        decreases keep - i,
    {
        let ghost before = strs_view(parts@);
        parts.push(python.parts[i].as_str().to_owned());
        assert(strs_view(parts@) =~= before.push(python.parts@[i as int]@));
        assert(strs_view(python.parts@).take(i + 1) =~= strs_view(python.parts@).take(i as int).push(python.parts@[i as int]@));
        i = i + 1;
    }
    Some(PathParts { root: python.root.as_str().to_owned(), parts })
}

/// The decimal text of a number.
pub open spec fn dec_text(n: nat) -> Seq<char>
    decreases n,
{
    if n < 10 {
        seq![(('0' as u32) + n) as char]
    } else {
        dec_text(n / 10).push((('0' as u32) + (n % 10)) as char)
    }
}

/// The decimal text of a number.
pub fn decimal(n: u64) -> (r: String)
    ensures
        r@ == dec_text(n as nat),
    decreases n,
{
    if n < 10 {
        let c = ((48 + n) as u8) as char;
        let mut s = String::new();
        crate::text::push_char(&mut s, c);
        assert(s@ =~= dec_text(n as nat));
        s
    } else {
        let mut s = decimal(n / 10);
        let c = ((48 + n % 10) as u8) as char;
        crate::text::push_char(&mut s, c);
        assert(s@ =~= dec_text(n as nat));
        s
    }
}

/// The WebSocket URL of a backend on `port` with a session token.
pub open spec fn backend_ws_url(port: u16, token: Seq<char>) -> Seq<char> {
    "ws://127.0.0.1:"@ + dec_text(port as nat) + "/api/ws?token="@ + token
}

/// Builds the WebSocket URL of a local backend.
pub fn gateway_ws_url(port: u16, token: &str) -> (r: String)
    ensures
        r@ == backend_ws_url(port, token@),
{
    "ws://127.0.0.1:".to_owned().concat(decimal(port as u64).as_str()).concat("/api/ws?token=").concat(token)
}

/// The profile key under which a backend is kept: the profile's name, or
/// `default`.
pub fn profile_key(profile: Option<&str>) -> (r: String)
    ensures
        r@ == (match profile {
            Some(p) => p@,
            None => "default"@,
        }),
{
    match profile {
        Some(p) => p.to_owned(),
        None => "default".to_owned(),
    }
}

/// True for the variables that the backend's environment sets itself and a
/// `.env` entry may not override.
pub open spec fn reserved_var(k: Seq<char>) -> bool {
    k == "HERMES_HOME"@ || k == "PYTHONUNBUFFERED"@ || k == "HERMES_DASHBOARD_SESSION_TOKEN"@
}

/// The `.env` entries passed on to the backend, in order.
pub open spec fn passed_entries(es: Seq<(Seq<char>, Seq<char>)>) -> Seq<(Seq<char>, Seq<char>)>
    decreases es.len(),
{
    if es.len() == 0 {
        Seq::empty()
    } else {
        let r = passed_entries(es.drop_last());
        if reserved_var(es.last().0) {
            r
        } else {
            r.push(es.last())
        }
    }
}

/// The variables set for the backend, in the order they are set (a later
/// one overrides an earlier one of the same name): the source root (when
/// the checkout is known), the Hermes home, unbuffered output, the session
/// token, every other `.env` variable, and, when a proxy is in use, the six
/// proxy variables.
pub open spec fn backend_env(
    repo: Option<Seq<char>>,
    hermes_home: Seq<char>,
    token: Seq<char>,
    env_file: Seq<(Seq<char>, Seq<char>)>,
    proxy: Seq<char>,
) -> Seq<(Seq<char>, Seq<char>)> {
    let a = match repo {
        Some(r) => seq![("HERMES_PYTHON_SRC_ROOT"@, r)],
        None => Seq::empty(),
    };
    let b = a + seq![
        ("HERMES_HOME"@, hermes_home),
        ("PYTHONUNBUFFERED"@, "1"@),
        ("HERMES_DASHBOARD_SESSION_TOKEN"@, token),
    ];
    let c = b + passed_entries(env_file);
    if proxy.len() > 0 {
        c + seq![
            ("HTTP_PROXY"@, proxy),
            ("HTTPS_PROXY"@, proxy),
            ("ALL_PROXY"@, proxy),
            ("http_proxy"@, proxy),
            ("https_proxy"@, proxy),
            ("all_proxy"@, proxy),
        ]
    } else {
        c
    }
}

fn push_var(v: &mut Vec<(String, String)>, k: &str, val: &str)
    ensures
        pairs_view(final(v)@) == pairs_view(old(v)@).push((k@, val@)),
{
    v.push((k.to_owned(), val.to_owned()));
    assert(pairs_view(v@) =~= pairs_view(old(v)@).push((k@, val@)));
}

/// The environment of the backend process (see `backend_env`).
pub fn gateway_child_env(
    repo: Option<&str>,
    hermes_home: &str,
    token: &str,
    env_file: &EnvMap,
    proxy: &str,
) -> (r: Vec<(String, String)>)
    ensures
        pairs_view(r@) == backend_env(ostr_view(repo), hermes_home@, token@, pairs_view(env_file.entries@), proxy@),
{
    let mut v: Vec<(String, String)> = Vec::new();
    match repo {
        Some(r) => push_var(&mut v, "HERMES_PYTHON_SRC_ROOT", r),
        None => {},
    }
    push_var(&mut v, "HERMES_HOME", hermes_home);
    push_var(&mut v, "PYTHONUNBUFFERED", "1");
    push_var(&mut v, "HERMES_DASHBOARD_SESSION_TOKEN", token);
    let ghost base = pairs_view(v@);
    let ghost es = pairs_view(env_file.entries@);
    let mut i: usize = 0;
    proof {
        assert(pairs_view(v@) =~= base + passed_entries(es.take(0)));
    }
    while i < env_file.entries.len()
        invariant
            es == pairs_view(env_file.entries@),
            i <= es.len(),
            pairs_view(v@) == base + passed_entries(es.take(i as int)),
        decreases es.len() - i,
    {
        proof {
            assert(es.take(i + 1).drop_last() =~= es.take(i as int));
            assert(es.take(i + 1).last() == es[i as int]);
        }
        let k = env_file.entries[i].0.as_str();
        if !(str_eq(k, "HERMES_HOME") || str_eq(k, "PYTHONUNBUFFERED") || str_eq(k, "HERMES_DASHBOARD_SESSION_TOKEN")) {
            push_var(&mut v, k, env_file.entries[i].1.as_str());
        }
        i = i + 1;
    }
    proof {
        assert(es.take(es.len() as int) =~= es);
    }
    if proxy.unicode_len() > 0 {
        push_var(&mut v, "HTTP_PROXY", proxy);
        push_var(&mut v, "HTTPS_PROXY", proxy);
        push_var(&mut v, "ALL_PROXY", proxy);
        push_var(&mut v, "http_proxy", proxy);
        push_var(&mut v, "https_proxy", proxy);
        push_var(&mut v, "all_proxy", proxy);
    }
    proof {
        assert(pairs_view(v@) =~= backend_env(ostr_view(repo), hermes_home@, token@, es, proxy@));
    }
    v
}

/// The program and arguments that start the backend: the `hermes`
/// launcher next to the interpreter when it exists, else the interpreter
/// running the CLI module; followed by the serve arguments.
pub open spec fn launch_command(
    launcher: Option<Seq<char>>,
    interpreter: Seq<char>,
    profile: Option<Seq<char>>,
) -> (Seq<char>, Seq<Seq<char>>) {
    match launcher {
        Some(l) => (l, serve_args(profile)),
        None => (interpreter, seq!["-m"@, "hermes_cli.main"@] + serve_args(profile)),
    }
}

/// Chooses how to start the backend (see `launch_command`); `launcher` is
/// the launcher path when it exists on disk.
pub fn gateway_command(launcher: Option<&str>, interpreter: &str, profile: Option<&str>) -> (r: (String, Vec<String>))
    ensures
        (r.0@, strs_view(r.1@)) == launch_command(ostr_view(launcher), interpreter@, ostr_view(profile)),
{
    let serve = build_serve_args(profile);
    match launcher {
        Some(l) => (l.to_owned(), serve),
        None => {
            let mut args: Vec<String> = Vec::new();
            args.push("-m".to_owned());
            args.push("hermes_cli.main".to_owned());
            let mut i: usize = 0;
            proof {
                assert(strs_view(args@) =~= seq!["-m"@, "hermes_cli.main"@] + strs_view(serve@).take(0));
            }
            while i < serve.len()
                invariant
                    i <= serve@.len(),
                    strs_view(args@) == seq!["-m"@, "hermes_cli.main"@] + strs_view(serve@).take(i as int),
                decreases serve@.len() - i,
            {
                let ghost before = strs_view(args@);
                args.push(serve[i].as_str().to_owned());
                assert(strs_view(args@) =~= before.push(serve@[i as int]@));
                assert(strs_view(serve@).take(i + 1) =~= strs_view(serve@).take(i as int).push(serve@[i as int]@));
                i = i + 1;
            }
            assert(strs_view(serve@).take(serve@.len() as int) =~= strs_view(serve@));
            (interpreter.to_owned(), args)
        },
    }
}

/// What one attempt to start the backend reports.
pub struct GatewayStartResult {
    pub success: bool,
    pub running: bool,
    pub already_running: Option<bool>,
    pub error: Option<String>,
    pub log_path: Option<String>,
}

/// How an attempt to start the backend went.
pub enum StartOutcome {
    /// A backend for the profile is already kept.
    AlreadyRunning,
    /// No interpreter was found.
    NotInstalled,
    /// The process could not be spawned (the system's message).
    SpawnFailed(String),
    /// The process did not announce a port and answer within the deadline
    /// (`port` is 0 when it announced none).
    NotReady { port: u16 },
    /// The backend is up.
    Ready,
}

/// The log file of a Hermes home.
pub open spec fn gateway_log(home: Seq<char>) -> Seq<char> {
    home + "/logs/gateway.log"@
}

/// The report of a start attempt.
pub open spec fn start_report_ok(r: GatewayStartResult, o: StartOutcome, home: Seq<char>) -> bool {
    match o {
        StartOutcome::AlreadyRunning => r.success && r.running && r.already_running == Some(true) && r.error is None && r.log_path is None,
        StartOutcome::NotInstalled => !r.success && !r.running && r.already_running is None
            && ostring(r.error) == Some("No local Hermes/Steersman installation found. Install Hermes Agent first."@) && r.log_path is None,
        StartOutcome::SpawnFailed(m) => !r.success && !r.running && r.already_running is None
            && ostring(r.error) == Some("Failed to spawn gateway: "@ + m@) && r.log_path is None,
        StartOutcome::NotReady { port } => !r.success && !r.running && r.already_running == Some(false)
            && ostring(r.error) == Some(
            "Backend process started but did not become ready via WS handshake within 30s. Check that Hermes Agent is installed and `hermes serve` runs. Captured port: "@
                + dec_text(port as nat) + "."@,
        ) && ostring(r.log_path) == Some(gateway_log(home)),
        StartOutcome::Ready => r.success && r.running && r.already_running == Some(false) && r.error is None
            && ostring(r.log_path) == Some(gateway_log(home)),
    }
}

/// The report of a start attempt, for the Hermes home shown as `home`.
pub fn gateway_start_result(outcome: &StartOutcome, home: &str) -> (r: GatewayStartResult)
    ensures
        start_report_ok(r, *outcome, home@),
{
    match outcome {
        StartOutcome::AlreadyRunning => GatewayStartResult {
            success: true,
            running: true,
            already_running: Some(true),
            error: None,
            log_path: None,
        },
        StartOutcome::NotInstalled => GatewayStartResult {
            success: false,
            running: false,
            already_running: None,
            error: Some(BackendError::NotInstalled.message()),
            log_path: None,
        },
        StartOutcome::SpawnFailed(m) => GatewayStartResult {
            success: false,
            running: false,
            already_running: None,
            error: Some("Failed to spawn gateway: ".to_owned().concat(m.as_str())),
            log_path: None,
        },
        StartOutcome::NotReady { port } => GatewayStartResult {
            success: false,
            running: false,
            already_running: Some(false),
            error: Some(
                "Backend process started but did not become ready via WS handshake within 30s. Check that Hermes Agent is installed and `hermes serve` runs. Captured port: ".to_owned().concat(
                    decimal(*port as u64).as_str(),
                ).concat("."),
            ),
            log_path: Some(home.to_owned().concat("/logs/gateway.log")),
        },
        StartOutcome::Ready => GatewayStartResult {
            success: true,
            running: true,
            already_running: Some(false),
            error: None,
            log_path: Some(home.to_owned().concat("/logs/gateway.log")),
        },
    }
}

/// Names the URL-safe base64 text, without padding, of a byte sequence.
pub uninterp spec fn base64url(bytes: Seq<u8>) -> Seq<char>;

/// A character of the URL-safe base64 alphabet: a letter, a digit, `-`
/// or `_`.
pub open spec fn url_safe_char(c: char) -> bool {
    ('A' <= c <= 'Z') || ('a' <= c <= 'z') || ('0' <= c <= '9') || c == '-' || c == '_'
}

/// `base64::engine::general_purpose::URL_SAFE_NO_PAD.encode`: the contract
/// claims that the result is what `base64url` names for the bytes, that it
/// has one character per six bits, rounded up (no padding), and that every
/// character is of the URL-safe alphabet.
#[verifier::external_body]
fn encode_base64url(bytes: &[u8]) -> (r: String)
    ensures
        r@ == base64url(bytes@),
        r@.len() == (4 * bytes@.len() + 2) / 3,
        forall|i: int| 0 <= i < r@.len() ==> url_safe_char(#[trigger] r@[i]),
{
    base64::engine::general_purpose::URL_SAFE_NO_PAD.encode(bytes)
}

/// A fresh session token for the backend: 32 random bytes in URL-safe
/// base64 without padding.
pub fn generate_session_token() -> (r: String)
    ensures
        exists|bytes: Seq<u8>| bytes.len() == 32 && r@ == base64url(bytes),
        r@.len() == 43,
        forall|i: int| 0 <= i < r@.len() ==> url_safe_char(#[trigger] r@[i]),
{
    let mut buf: Vec<u8> = Vec::new();
    while buf.len() < 32
        invariant
            buf@.len() <= 32,
        decreases 32 - buf@.len(),
    {
        let u = crate::ids::random_uuid_bytes();
        let start = buf.len();
        let take: usize = if 32 - start < 16 {
            32 - start
        } else {
            16
        };
        let mut j: usize = 0;
        while j < take
            invariant
                start < 32,
                take <= 16,
                start + take <= 32,
                j <= take,
                buf@.len() == start + j,
            decreases take - j,
        {
            buf.push(u[j]);
            j = j + 1;
        }
    }
    let r = encode_base64url(buf.as_slice());
    assert(buf@.len() == 32 && r@ == base64url(buf@));
    r
}

} // verus!
