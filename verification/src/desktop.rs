//! The decisions of the desktop commands: editing the display settings,
//! adopting a discovered installation, testing and using a connection,
//! and reading what the backend answers.

use vstd::prelude::*;
use crate::text::{chars_of, string_from_chars, trim_start, starts_with, lines, lines_of, join_nl,
    join_lines, sub_chars, starts_with_chars, trim_start_chars, str_eq, append_chars, trim,
    trim_chars, contains, contains_chars, trim_matches, trim_matches_chars};
use crate::config::{kv_line, kv_line_exec, lines_view, strs_view, ostr_view};
use crate::json::{Json, JsonV, jget, oget, ostr, ostring, oarray, view_items, empty_object, opt_str, opt_get};
use crate::gateway::{dec_text, decimal};

verus! {

// ---------------------------------------------------------------------------
// Display settings
// ---------------------------------------------------------------------------

/// The line walk that sets `key` under the `display:` block: the lines it
/// writes, whether it is inside the block, the block's indentation in
/// bytes, and whether it rewrote a line.
pub open spec fn scan_display(ls: Seq<Seq<char>>, key: Seq<char>, value: Seq<char>) -> (Seq<Seq<char>>, bool, nat, bool)
    decreases ls.len(),
{
    if ls.len() == 0 {
        (Seq::empty(), false, 0, false)
    } else {
        let prev = scan_display(ls.drop_last(), key, value);
        let line = ls.last();
        let t = trim_start(line);
        let ind = crate::text::indent_bytes(line);
        if starts_with(t, "display:"@) {
            (prev.0.push(line), true, ind, prev.3)
        } else if prev.1 && t.len() > 0 && ind <= prev.2 {
            (prev.0.push(line), false, prev.2, prev.3)
        } else if prev.1 && starts_with(t, key + ":"@) {
            (prev.0.push(kv_line(prev.2 + 2, key, value)), true, prev.2, true)
        } else {
            (prev.0.push(line), prev.1, prev.2, prev.3)
        }
    }
}

/// The block appended when no line of the `display:` block set the key.
pub open spec fn display_block(key: Seq<char>, value: Seq<char>) -> Seq<char> {
    "display:\n  "@ + key + ": "@ + value + "\n"@
}

/// A YAML text with the scalar `key` set to `value` under `display:`:
/// inside every `display:` block, each line that starts with `key:` is
/// rewritten two spaces deeper than the block's header; when none was,
/// a fresh `display:` block with the key is appended. The lines are
/// joined with newlines.
pub open spec fn display_scalar_set(content: Seq<char>, key: Seq<char>, value: Seq<char>) -> Seq<char> {
    let sc = scan_display(lines_of(content), key, value);
    join_nl(
        if sc.3 {
            sc.0
        } else {
            sc.0.push(display_block(key, value))
        },
    )
}

fn copy_line(l: &Vec<char>) -> (r: Vec<char>)
    ensures
        r@ == l@,
{
    let r = sub_chars(l.as_slice(), 0, l.len());
    assert(r@ =~= l@);
    r
}

#[verifier::rlimit(40)]
fn scan_display_exec(ls: &Vec<Vec<char>>, key: &str, value: &str) -> (r: (Vec<Vec<char>>, bool))
    ensures
        lines_view(r.0@) == scan_display(lines_view(ls@), key@, value@).0,
        r.1 == scan_display(lines_view(ls@), key@, value@).3,
{
    let ghost lv = lines_view(ls@);
    let mut out: Vec<Vec<char>> = Vec::new();
    let mut in_display = false;
    let mut indent: u128 = 0;
    let mut replaced = false;
    let hdr = chars_of("display:");
    let mut key_colon = chars_of(key);
    key_colon.push(':');
    proof {
        reveal_strlit(":");
        assert(key_colon@ =~= key@ + ":"@);
        assert(lines_view(out@) =~= Seq::<Seq<char>>::empty());
        assert(lv.take(0) =~= Seq::<Seq<char>>::empty());
    }
    let mut i: usize = 0;
    while i < ls.len()
        invariant
            lv == lines_view(ls@),
            hdr@ == "display:"@,
            key_colon@ == key@ + ":"@,
            i <= ls@.len(),
            lines_view(out@) == scan_display(lv.take(i as int), key@, value@).0,
            in_display == scan_display(lv.take(i as int), key@, value@).1,
            indent as nat == scan_display(lv.take(i as int), key@, value@).2,
            indent <= 4 * (usize::MAX as u128),
            replaced == scan_display(lv.take(i as int), key@, value@).3,
        decreases ls@.len() - i,
    {
        proof {
            assert(lv.take(i + 1).drop_last() =~= lv.take(i as int));
            assert(lv.take(i + 1).last() == ls@[i as int]@);
        }
        let ghost o0 = lines_view(out@);
        let n = ls[i].len();
        let (t, ind) = trim_start_chars(ls[i].as_slice());
        assert(ind <= 4 * (usize::MAX as u128)) by {
            assert(ls@[i as int]@.len() == n);
        }
        if starts_with_chars(t.as_slice(), hdr.as_slice()) {
            in_display = true;
            indent = ind;
            out.push(copy_line(&ls[i]));
            proof {
                assert(lines_view(out@) =~= o0.push(lv[i as int]));
            }
        } else if in_display && t.len() > 0 && ind <= indent {
            in_display = false;
            out.push(copy_line(&ls[i]));
            proof {
                assert(lines_view(out@) =~= o0.push(lv[i as int]));
            }
        } else if in_display && starts_with_chars(t.as_slice(), key_colon.as_slice()) {
            let line = kv_line_exec(indent + 2, key, value);
            let ghost lview = line@;
            out.push(line);
            replaced = true;
            proof {
                assert(lines_view(out@) =~= o0.push(lview));
            }
        } else {
            out.push(copy_line(&ls[i]));
            proof {
                assert(lines_view(out@) =~= o0.push(lv[i as int]));
            }
        }
        i = i + 1;
    }
    proof {
        assert(lv.take(ls@.len() as int) =~= lv);
    }
    (out, replaced)
}

/// Sets the scalar `key` under `display:` in a YAML text (see
/// `display_scalar_set`).
pub fn set_display_scalar(content: &str, key: &str, value: &str) -> (r: String)
    ensures
        r@ == display_scalar_set(content@, key@, value@),
{
    let ls = lines(&chars_of(content));
    proof {
        assert(lines_view(ls@) =~= lines_of(content@));
    }
    let (mut out, replaced) = scan_display_exec(&ls, key, value);
    if !replaced {
        let ghost o0 = lines_view(out@);
        let mut block = chars_of("display:\n  ");
        append_chars(&mut block, chars_of(key).as_slice());
        append_chars(&mut block, chars_of(": ").as_slice());
        append_chars(&mut block, chars_of(value).as_slice());
        append_chars(&mut block, chars_of("\n").as_slice());
        assert(block@ =~= display_block(key@, value@));
        out.push(block);
        assert(lines_view(out@) =~= o0.push(display_block(key@, value@)));
    }
    let joined = join_lines(&out);
    proof {
        assert(Seq::new(out@.len(), |i: int| out@[i]@) =~= lines_view(out@));
    }
    string_from_chars(joined.as_slice())
}

// ---------------------------------------------------------------------------
// Personalities and configuration sections
// ---------------------------------------------------------------------------

/// A personality the agent can take on.
#[derive(Debug, Clone, PartialEq, Eq)]
pub struct Personality {
    pub id: String,
    pub description: String,
}

pub open spec fn described_views(s: Seq<(String, Option<String>)>) -> Seq<(Seq<char>, Option<Seq<char>>)> {
    s.map_values(|e: (String, Option<String>)| (e.0@, ostring(e.1)))
}

pub open spec fn described_entries(es: Seq<(Seq<char>, JsonV)>) -> Seq<(Seq<char>, Option<Seq<char>>)> {
    es.map_values(|e: (Seq<char>, JsonV)| (e.0, ostr(Some(e.1))))
}

/// The entries of the `personalities` map of a configuration, with the
/// description when it is a string.
pub open spec fn personality_entries_of(config: JsonV) -> Seq<(Seq<char>, Option<Seq<char>>)> {
    match jget(config, "personalities"@) {
        Some(JsonV::Object(es)) => described_entries(es),
        _ => Seq::empty(),
    }
}

/// The entries of the `personalities` map of a configuration (see
/// `personality_entries_of`); a description that is not a string is left
/// for the caller to render as JSON text.
pub fn personality_entries(config: &Json) -> (r: Vec<(String, Option<String>)>)
    ensures
        described_views(r@) == personality_entries_of(config@),
{
    let mut out: Vec<(String, Option<String>)> = Vec::new();
    match config.get("personalities") {
        Some(Json::Object(es)) => {
            let ghost ev = crate::json::view_entries(es@);
            proof {
                crate::json::lemma_view_entries(es@);
            }
            let ghost want = described_entries(ev);
            let mut i: usize = 0;
            while i < es.len()
                invariant
                    i <= es@.len(),
                    ev == crate::json::view_entries(es@),
                    ev.len() == es@.len(),
                    forall|k: int| 0 <= k < es@.len() ==> #[trigger] ev[k] == (es@[k].0@, es@[k].1@),
                    want == described_entries(ev),
                    described_views(out@) == want.take(i as int),
                decreases es@.len() - i,
            {
                let d = match es[i].1.as_str() {
                    Some(t) => Some(t.to_owned()),
                    None => None,
                };
                assert(ostring(d) == ostr(Some(es@[i as int].1@)));
                let ghost before = out@;
                out.push((es[i].0.as_str().to_owned(), d));
                assert(ev[i as int] == (es@[i as int].0@, es@[i as int].1@));
                assert(want[i as int] == (es@[i as int].0@, ostr(Some(es@[i as int].1@))));
                assert(described_views(out@) =~= described_views(before).push(want[i as int]));
                assert(want.take(i + 1) =~= want.take(i as int).push(want[i as int]));
                i = i + 1;
            }
            assert(want.take(es@.len() as int) =~= want);
        },
        _ => {
            assert(described_views(out@) =~= personality_entries_of(config@));
        },
    }
    out
}

/// The personalities offered: the configured ones in order, or the
/// helpful assistant when none is configured.
pub fn personalities(configured: Vec<Personality>) -> (r: Vec<Personality>)
    ensures
        configured@.len() > 0 ==> r@ == configured@,
        configured@.len() == 0 ==> r@.len() == 1 && r@[0].id@ == "helpful"@
            && r@[0].description@ == "You are a helpful, friendly AI assistant."@,
{
    if configured.len() > 0 {
        configured
    } else {
        let mut r: Vec<Personality> = Vec::new();
        r.push(Personality {
            id: "helpful".to_owned(),
            description: "You are a helpful, friendly AI assistant.".to_owned(),
        });
        r
    }
}

/// The active personality: `display.personality` when it is a string,
/// else `helpful`.
pub fn active_personality(config: &Json) -> (r: String)
    ensures
        r@ == (match ostr(oget(jget(config@, "display"@), "personality"@)) {
            Some(p) => p,
            None => "helpful"@,
        }),
{
    match opt_str(opt_get(config.get("display"), "personality")) {
        Some(p) => p.to_owned(),
        None => "helpful".to_owned(),
    }
}

/// A section of the configuration, an empty object when it is absent.
pub fn config_section(config: &Json, section: &str) -> (r: Json)
    ensures
        r@ == (match jget(config@, section@) {
            Some(v) => v,
            None => JsonV::Object(Seq::empty()),
        }),
{
    match config.get(section) {
        Some(v) => v.deep_clone(),
        None => empty_object(),
    }
}

/// The provider and model to remember after a key is saved: both must be
/// given; a missing base URL is empty.
pub fn model_to_remember(provider: Option<String>, model: Option<String>, base_url: Option<String>) -> (r: Option<(String, String, String)>)
    ensures
        match r {
            Some((p, m, b)) => provider == Some(p) && model == Some(m) && b@ == (match base_url {
                Some(u) => u@,
                None => Seq::<char>::empty(),
            }),
            None => provider is None || model is None,
        },
{
    match (provider, model) {
        (Some(p), Some(m)) => {
            let b = match base_url {
                Some(u) => u,
                None => String::new(),
            };
            Some((p, m, b))
        },
        _ => None,
    }
}

// ---------------------------------------------------------------------------
// Adopting an installation
// ---------------------------------------------------------------------------

/// Which Hermes home the automatic connection adopts.
#[derive(Debug, Clone, Copy, PartialEq, Eq, Structural)]
pub enum AdoptedHome {
    /// The home the discovered instance uses.
    Instance,
    /// The home resolved by default.
    Default,
    /// None could be found.
    Unresolved,
}

/// Which home the automatic connection adopts: the instance's home when it
/// is a directory holding `state.db`; when it is a directory without one,
/// the default home if that holds `state.db`, else the instance's home;
/// without a usable instance home, the default home if it is a directory.
pub open spec fn adopted_home_of(
    home: Option<Seq<char>>,
    home_is_dir: bool,
    home_has_state: bool,
    default_is_dir: bool,
    default_has_state: bool,
) -> AdoptedHome {
    let usable = match home {
        Some(h) => h.len() > 0 && home_is_dir,
        None => false,
    };
    if usable && home_has_state {
        AdoptedHome::Instance
    } else if usable {
        if default_has_state {
            AdoptedHome::Default
        } else {
            AdoptedHome::Instance
        }
    } else if default_is_dir {
        AdoptedHome::Default
    } else {
        AdoptedHome::Unresolved
    }
}

/// Which home the automatic connection adopts (see `adopted_home_of`).
pub fn adopted_home(
    home: Option<&str>,
    home_is_dir: bool,
    home_has_state: bool,
    default_is_dir: bool,
    default_has_state: bool,
) -> (r: AdoptedHome)
    ensures
        r == adopted_home_of(ostr_view(home), home_is_dir, home_has_state, default_is_dir, default_has_state),
{
    let usable = match home {
        Some(h) => h.unicode_len() > 0 && home_is_dir,
        None => false,
    };
    if usable && home_has_state {
        AdoptedHome::Instance
    } else if usable {
        if default_has_state {
            AdoptedHome::Default
        } else {
            AdoptedHome::Instance
        }
    } else if default_is_dir {
        AdoptedHome::Default
    } else {
        AdoptedHome::Unresolved
    }
}

/// What the automatic connection reports.
#[derive(Debug, Clone, PartialEq, Eq)]
pub struct AutoConnectResult {
    pub found: bool,
    pub hermes_home: Option<String>,
    pub gateway_running: bool,
    pub label: Option<String>,
    pub error: Option<String>,
}

/// The report when no local installation was found.
pub fn auto_connect_not_found() -> (r: AutoConnectResult)
    ensures
        !r.found && r.hermes_home is None && !r.gateway_running && r.label is None,
        ostring(r.error) == Some("No local Hermes installation detected"@),
{
    AutoConnectResult {
        found: false,
        hermes_home: None,
        gateway_running: false,
        label: None,
        error: Some("No local Hermes installation detected".to_owned()),
    }
}

/// The report when an installation was found but no home for it.
pub fn auto_connect_unresolved(gateway_running: bool, label: Option<String>) -> (r: AutoConnectResult)
    ensures
        r.found && r.hermes_home is None && r.gateway_running == gateway_running && r.label == label,
        ostring(r.error) == Some("Detected instance but could not resolve its home directory"@),
{
    AutoConnectResult {
        found: true,
        hermes_home: None,
        gateway_running,
        label,
        error: Some("Detected instance but could not resolve its home directory".to_owned()),
    }
}

/// The report after a home was adopted: the backend runs when the
/// instance's backend already ran or the start attempt succeeded.
pub fn auto_connect_adopted(home: &str, instance_running: bool, start_succeeded: bool, label: Option<String>) -> (r: AutoConnectResult)
    ensures
        r.found,
        ostring(r.hermes_home) == Some(home@),
        r.gateway_running == (instance_running || start_succeeded),
        r.label == label,
        r.gateway_running ==> r.error is None,
        !r.gateway_running ==> ostring(r.error) == Some("Instance adopted but gateway failed to start"@),
{
    let running = instance_running || start_succeeded;
    AutoConnectResult {
        found: true,
        hermes_home: Some(home.to_owned()),
        gateway_running: running,
        label,
        error: if running {
            None
        } else {
            Some("Instance adopted but gateway failed to start".to_owned())
        },
    }
}

/// Whether connecting to a chosen instance uses its own home: it must be
/// a non-empty path to a directory that holds `state.db`; otherwise the
/// default home is used.
pub fn uses_instance_home(home: Option<&str>, home_is_dir: bool, home_has_state: bool) -> (r: bool)
    ensures
        r == (match home {
            Some(h) => h@.len() > 0 && home_is_dir && home_has_state,
            None => false,
        }),
{
    match home {
        Some(h) => h.unicode_len() > 0 && home_is_dir && home_has_state,
        None => false,
    }
}

/// The error when the home to connect to is not a directory.
pub fn missing_home_error(home: &str) -> (r: String)
    ensures
        r@ == "Instance home '"@ + home@ + "' does not exist or is not a directory"@,
{
    "Instance home '".to_owned().concat(home).concat("' does not exist or is not a directory")
}

/// Which home the data commands read.
#[derive(Debug, Clone, Copy, PartialEq, Eq, Structural)]
pub enum DataHome {
    /// The adopted home, which holds data.
    Stored,
    /// The home resolved by default, which holds data.
    Resolved,
    /// The adopted home, though neither holds data.
    StoredAnyway,
}

/// Which home the data commands read: the adopted one when it holds data
/// (`state.db` or `config.yaml`), else the default one when it does, else
/// the adopted one anyway (an error when none is adopted yet).
pub fn data_home(stored_has_data: bool, resolved_has_data: bool) -> (r: DataHome)
    ensures
        r == (if stored_has_data {
            DataHome::Stored
        } else if resolved_has_data {
            DataHome::Resolved
        } else {
            DataHome::StoredAnyway
        }),
{
    if stored_has_data {
        DataHome::Stored
    } else if resolved_has_data {
        DataHome::Resolved
    } else {
        DataHome::StoredAnyway
    }
}

/// The adopted home, or the error that the app is not initialized.
pub fn stored_home(home: Option<&str>) -> (r: Result<String, String>)
    ensures
        match home {
            Some(h) => r matches Ok(s) && s@ == h@,
            None => r matches Err(e) && e@ == "App not initialized"@,
        },
{
    match home {
        Some(h) => Ok(h.to_owned()),
        None => Err("App not initialized".to_owned()),
    }
}

/// The files that may hold secrets and are kept owner-only.
pub open spec fn secret_files_of() -> Seq<Seq<char>> {
    seq!["desktop.json"@, "telegram.json"@, ".env"@, "auth.json"@]
}

/// The files that may hold secrets (see `secret_files_of`).
pub fn secret_files() -> (r: Vec<&'static str>)
    ensures
        r@.map_values(|s: &str| s@) == secret_files_of(),
{
    let r: Vec<&'static str> = vec!["desktop.json", "telegram.json", ".env", "auth.json"];
    assert(r@.map_values(|s: &str| s@) =~= secret_files_of());
    r
}

/// Whether a file's permissions let anyone but its owner in (any of the
/// group or other bits set), so that they must be narrowed to `0o600`.
pub fn needs_hardening(mode: u32) -> (r: bool)
    ensures
        r == (mode & 0o077u32 != 0),
{
    mode & 0o077u32 != 0
}

// ---------------------------------------------------------------------------
// Connections
// ---------------------------------------------------------------------------

/// How a connection is tested.
#[derive(Debug, Clone, PartialEq, Eq)]
pub enum ConnectionTest {
    /// Whether a local installation exists.
    Local,
    /// Whether the remote backend's health URL answers with success.
    Remote { health_url: String },
    /// Whether the SSH connection can be made.
    Ssh,
}

/// How a connection in the given mode is tested: `local`, `remote` (its
/// health URL), `ssh` (which needs SSH settings); any other mode is
/// refused.
pub open spec fn connection_test_of(mode: Seq<char>, url: Seq<char>, has_ssh: bool) -> Result<Option<Seq<char>>, Seq<char>> {
    if mode == "local"@ {
        Ok(None)
    } else if mode == "remote"@ {
        Ok(Some(crate::chat::trim_end_str(url, "/"@) + "/health"@))
    } else if mode == "ssh"@ {
        if has_ssh {
            Ok(None)
        } else {
            Err("SSH config required"@)
        }
    } else {
        Err("Unknown mode: "@ + mode)
    }
}

/// How a connection in the given mode is tested (see `connection_test_of`,
/// which gives the health URL of a remote test).
pub fn connection_test(mode: &str, url: &str, has_ssh: bool) -> (r: Result<ConnectionTest, String>)
    ensures
        match r {
            Ok(ConnectionTest::Local) => mode@ == "local"@,
            Ok(ConnectionTest::Remote { health_url }) => mode@ == "remote"@
                && connection_test_of(mode@, url@, has_ssh) == Ok::<Option<Seq<char>>, Seq<char>>(Some(health_url@)),
            Ok(ConnectionTest::Ssh) => mode@ == "ssh"@ && has_ssh,
            Err(e) => connection_test_of(mode@, url@, has_ssh) == Err::<Option<Seq<char>>, Seq<char>>(e@),
        },
{
    if str_eq(mode, "local") {
        Ok(ConnectionTest::Local)
    } else if str_eq(mode, "remote") {
        let base = crate::chat::trim_end_str_exec(chars_of(url).as_slice(), chars_of("/").as_slice());
        let mut u = base;
        append_chars(&mut u, chars_of("/health").as_slice());
        Ok(ConnectionTest::Remote { health_url: string_from_chars(u.as_slice()) })
    } else if str_eq(mode, "ssh") {
        if has_ssh {
            Ok(ConnectionTest::Ssh)
        } else {
            Err("SSH config required".to_owned())
        }
    } else {
        Err("Unknown mode: ".to_owned().concat(mode))
    }
}

/// The URL that lists the models of the local backend.
pub fn models_url(port: u16) -> (r: String)
    ensures
        r@ == "http://127.0.0.1:"@ + dec_text(port as nat) + "/v1/models"@,
{
    "http://127.0.0.1:".to_owned().concat(decimal(port as u64).as_str()).concat("/v1/models")
}

/// The authorization header value for a backend key; none for an empty
/// key.
pub fn bearer_header(key: &str) -> (r: Option<String>)
    ensures
        match r {
            Some(h) => key@.len() > 0 && h@ == "Bearer "@ + key@,
            None => key@.len() == 0,
        },
{
    if key.unicode_len() > 0 {
        Some("Bearer ".to_owned().concat(key))
    } else {
        None
    }
}

/// The ids of the models a model listing names, in order: the `id` of
/// each entry of `data` that has a string one.
pub open spec fn model_ids_of(listing: JsonV) -> Seq<Seq<char>> {
    match jget(listing, "data"@) {
        Some(JsonV::Array(items)) => ids_in(items),
        _ => Seq::empty(),
    }
}

pub open spec fn ids_in(items: Seq<JsonV>) -> Seq<Seq<char>>
    decreases items.len(),
{
    if items.len() == 0 {
        Seq::empty()
    } else {
        let r = ids_in(items.drop_last());
        match ostr(jget(items.last(), "id"@)) {
            Some(id) => r.push(id),
            None => r,
        }
    }
}

/// The ids of the models a model listing names (see `model_ids_of`).
pub fn model_ids(listing: &Json) -> (r: Vec<String>)
    ensures
        strs_view(r@) == model_ids_of(listing@),
{
    let mut out: Vec<String> = Vec::new();
    match listing.get("data") {
        Some(Json::Array(items)) => {
            let ghost iv = view_items(items@);
            proof {
                crate::json::lemma_view_items(items@);
            }
            let mut i: usize = 0;
            while i < items.len()
                invariant
                    i <= items@.len(),
                    iv == view_items(items@),
                    iv.len() == items@.len(),
                    forall|k: int| 0 <= k < items@.len() ==> #[trigger] iv[k] == items@[k]@,
                    strs_view(out@) == ids_in(iv.take(i as int)),
                decreases items@.len() - i,
            {
                assert(iv.take(i + 1).drop_last() =~= iv.take(i as int));
                assert(iv.take(i + 1).last() == items@[i as int]@);
                let ghost before = strs_view(out@);
                match opt_str(items[i].get("id")) {
                    Some(id) => {
                        out.push(id.to_owned());
                        assert(strs_view(out@) =~= before.push(id@));
                    },
                    None => {},
                }
                i = i + 1;
            }
            assert(iv.take(items@.len() as int) =~= iv);
        },
        _ => {
            assert(strs_view(out@) =~= Seq::<Seq<char>>::empty());
        },
    }
    out
}

/// The shell command that starts a backend on a remote machine in the
/// background: the `hermes gateway` launcher, else the CLI module through
/// the given interpreter, with the port in `API_SERVER_PORT` and the output
/// in `/tmp/gateway.log`.
pub open spec fn remote_gateway_command_of(port: u16, python_path: Seq<char>) -> Seq<char> {
    "nohup sh -c 'API_SERVER_PORT="@ + dec_text(port as nat) + " hermes gateway 2>/dev/null || API_SERVER_PORT="@
        + dec_text(port as nat) + " "@ + python_path + " -m hermes_cli.main gateway' > /tmp/gateway.log 2>&1 &"@
}

/// The shell command that starts a backend on a remote machine (see
/// `remote_gateway_command_of`); the interpreter path must have been
/// checked to be a plain path.
pub fn remote_gateway_command(port: u16, python_path: &str) -> (r: String)
    ensures
        r@ == remote_gateway_command_of(port, python_path@),
{
    let p = decimal(port as u64);
    "nohup sh -c 'API_SERVER_PORT=".to_owned().concat(p.as_str()).concat(" hermes gateway 2>/dev/null || API_SERVER_PORT=").concat(
        p.as_str(),
    ).concat(" ").concat(python_path).concat(" -m hermes_cli.main gateway' > /tmp/gateway.log 2>&1 &")
}

/// The shell command that checks a remote backend's health.
pub fn remote_health_command(port: u16) -> (r: String)
    ensures
        r@ == "curl -sf http://127.0.0.1:"@ + dec_text(port as nat) + "/health 2>/dev/null || echo fail"@,
{
    "curl -sf http://127.0.0.1:".to_owned().concat(decimal(port as u64).as_str()).concat("/health 2>/dev/null || echo fail")
}

/// The error when the interpreter path is not a plain path.
pub fn unsafe_remote_path_error(python_path: &str) -> (r: String)
    ensures
        r@ == "Refused remote gateway start: python path '"@ + python_path@ + "' is not a safe shell path"@,
{
    "Refused remote gateway start: python path '".to_owned().concat(python_path).concat("' is not a safe shell path")
}

/// Whether the remote health check passed: it printed something and not
/// `fail`.
pub open spec fn remote_health_ok(output: Seq<char>) -> bool {
    trim(output).len() > 0 && !contains(output, "fail"@)
}

/// The report of a remote start, from the health check's output.
pub fn remote_gateway_result(output: &str) -> (r: crate::gateway::GatewayStartResult)
    ensures
        r.success == remote_health_ok(output@),
        r.running == r.success,
        r.already_running is None,
        r.success ==> r.error is None,
        !r.success ==> ostring(r.error) == Some("Remote gateway health check failed"@),
        ostring(r.log_path) == Some("/tmp/gateway.log"@),
{
    let cs = chars_of(output);
    let success = trim_chars(&cs).len() > 0 && !contains_chars(cs.as_slice(), chars_of("fail").as_slice());
    crate::gateway::GatewayStartResult {
        success,
        running: success,
        already_running: None,
        error: if success {
            None
        } else {
            Some("Remote gateway health check failed".to_owned())
        },
        log_path: Some("/tmp/gateway.log".to_owned()),
    }
}

/// The interpreters probed on a remote machine, with their kinds.
pub open spec fn remote_candidates_of() -> Seq<(Seq<char>, Seq<char>)> {
    seq![
        ("~/steersman/venv/bin/python3"@, "steersman"@),
        ("~/steersman/venv/bin/python"@, "steersman"@),
        ("~/.steersman/venv/bin/python"@, "steersman"@),
        ("~/.hermes/venv/bin/python"@, "hermes"@),
        ("~/.hermes/hermes-agent/venv/bin/python"@, "hermes-agent"@),
        ("/usr/local/bin/python3"@, "system"@),
    ]
}

/// The interpreters probed on a remote machine (see
/// `remote_candidates_of`).
pub fn remote_candidates() -> (r: Vec<(&'static str, &'static str)>)
    ensures
        crate::discovery::pairs_of(r@) == remote_candidates_of(),
{
    let r: Vec<(&'static str, &'static str)> = vec![
        ("~/steersman/venv/bin/python3", "steersman"),
        ("~/steersman/venv/bin/python", "steersman"),
        ("~/.steersman/venv/bin/python", "steersman"),
        ("~/.hermes/venv/bin/python", "hermes"),
        ("~/.hermes/hermes-agent/venv/bin/python", "hermes-agent"),
        ("/usr/local/bin/python3", "system"),
    ];
    assert(crate::discovery::pairs_of(r@) =~= remote_candidates_of());
    r
}

/// A remote interpreter as the connect screen lists it.
#[derive(Debug, Clone)]
pub struct RemoteInstanceInfo {
    pub path: String,
    pub instance: String,
    pub exists: bool,
}

/// The current connection as the desktop reports it.
#[derive(Debug, Clone)]
pub struct ConnectionInfo {
    pub mode: String,
    pub instance: String,
    pub port: Option<u16>,
}

/// The connect screen's list of remote interpreters: every candidate of
/// `remote_candidates_of`, in order, with whether its probe found it.
pub fn remote_instance_infos(exists: &Vec<bool>) -> (r: Vec<RemoteInstanceInfo>)
    requires
        exists@.len() == remote_candidates_of().len(),
    ensures
        r@.len() == remote_candidates_of().len(),
        forall|i: int| 0 <= i < r@.len() ==> (#[trigger] r@[i]).path@ == remote_candidates_of()[i].0
            && r@[i].instance@ == remote_candidates_of()[i].1 && r@[i].exists == exists@[i],
{
    let cands = remote_candidates();
    let mut out: Vec<RemoteInstanceInfo> = Vec::new();
    let mut i: usize = 0;
    while i < cands.len()
        invariant
            crate::discovery::pairs_of(cands@) == remote_candidates_of(),
            exists@.len() == cands@.len(),
            i <= cands@.len(),
            out@.len() == i,
            forall|k: int| 0 <= k < i ==> (#[trigger] out@[k]).path@ == remote_candidates_of()[k].0
                && out@[k].instance@ == remote_candidates_of()[k].1 && out@[k].exists == exists@[k],
        decreases cands@.len() - i,
    {
        assert(crate::discovery::pairs_of(cands@)[i as int] == (cands@[i as int].0@, cands@[i as int].1@));
        out.push(RemoteInstanceInfo {
            path: cands[i].0.to_owned(),
            instance: cands[i].1.to_owned(),
            exists: exists[i],
        });
        i = i + 1;
    }
    out
}

/// The shell command that checks a remote interpreter exists.
pub fn remote_probe_command(path: &str) -> (r: String)
    ensures
        r@ == "test -f "@ + path@,
{
    "test -f ".to_owned().concat(path)
}

// ---------------------------------------------------------------------------
// Sources
// ---------------------------------------------------------------------------

/// The `.env` text after each variable is written in turn.
pub open spec fn env_after_writes(content: Seq<char>, vars: Seq<(Seq<char>, Seq<char>)>) -> Seq<char>
    decreases vars.len(),
{
    if vars.len() == 0 {
        content
    } else {
        crate::config::with_env_value(env_after_writes(content, vars.drop_last()), vars.last().0, vars.last().1)
    }
}

/// Writes the variables of the configured sources to a `.env` text, one
/// after the other (see `env_after_writes`).
pub fn apply_env_vars(content: &str, vars: &Vec<(String, String)>) -> (r: String)
    ensures
        r@ == env_after_writes(content@, crate::config::pairs_view(vars@)),
{
    let ghost pv = crate::config::pairs_view(vars@);
    let mut cur = content.to_owned();
    let mut i: usize = 0;
    assert(pv.take(0) =~= Seq::<(Seq<char>, Seq<char>)>::empty());
    while i < vars.len()
        invariant
            i <= vars@.len(),
            pv == crate::config::pairs_view(vars@),
            cur@ == env_after_writes(content@, pv.take(i as int)),
        decreases vars@.len() - i,
    {
        assert(pv.take(i + 1).drop_last() =~= pv.take(i as int));
        assert(pv.take(i + 1).last() == (vars@[i as int].0@, vars@[i as int].1@));
        cur = crate::config::write_env_value(cur.as_str(), vars[i].0.as_str(), vars[i].1.as_str());
        i = i + 1;
    }
    assert(pv.take(vars@.len() as int) =~= pv);
    cur
}

/// A Telegram source as the proxy choice reads it.
#[derive(Debug, Clone, PartialEq, Eq)]
pub struct TelegramRoute {
    pub bot_token: String,
    pub chat_id: String,
    pub use_proxy: bool,
    pub proxy_url: String,
}

/// The bot tokens, or the chats, of the sources in order.
pub open spec fn route_keys(routes: Seq<TelegramRoute>, by_token: bool) -> Seq<Seq<char>> {
    routes.map_values(|t: TelegramRoute| if by_token { t.bot_token@ } else { t.chat_id@ })
}

/// The source a Telegram message goes through: the first with the bot
/// token, else the first with the chat.
pub open spec fn matched_route(routes: Seq<TelegramRoute>, bot_token: Seq<char>, chat_id: Seq<char>) -> Option<int> {
    match crate::mcp_server::event_index(route_keys(routes, true), bot_token) {
        Some(i) => Some(i),
        None => crate::mcp_server::event_index(route_keys(routes, false), chat_id),
    }
}

fn first_route(routes: &Vec<TelegramRoute>, value: &str, by_token: bool) -> (r: Option<usize>)
    ensures
        match r {
            Some(i) => i < routes@.len() && crate::mcp_server::event_index(
                route_keys(routes@, by_token),
                value@,
            ) == Some(i as int),
            None => crate::mcp_server::event_index(
                route_keys(routes@, by_token),
                value@,
            ) is None,
        },
{
    let ghost keys = route_keys(routes@, by_token);
    let mut i: usize = 0;
    while i < routes.len()
        invariant
            i <= routes@.len(),
            keys == route_keys(routes@, by_token),
            forall|j: int| 0 <= j < i ==> keys[j] != value@,
        decreases routes@.len() - i,
    {
        let hit = if by_token {
            str_eq(routes[i].bot_token.as_str(), value)
        } else {
            str_eq(routes[i].chat_id.as_str(), value)
        };
        if hit {
            assert(keys[i as int] == value@);
            proof {
                let k = choose|k: int| 0 <= k < keys.len() && keys[k] == value@ && forall|j: int| 0 <= j < k ==> keys[j] != value@;
                if k < i {
                    assert(keys[k] != value@);
                } else if k > i {
                    assert(keys[i as int] != value@);
                }
            }
            return Some(i);
        }
        i = i + 1;
    }
    None
}

/// The proxy a Telegram message uses: the matched source's own proxy when
/// it names one, else the global proxy setting.
pub fn telegram_proxy(
    routes: &Vec<TelegramRoute>,
    bot_token: &str,
    chat_id: &str,
    global_use_proxy: bool,
    global_proxy_url: &str,
) -> (r: (bool, String))
    ensures
        ({
            let m = matched_route(routes@, bot_token@, chat_id@);
            if m is Some && routes@[m->Some_0].proxy_url@.len() > 0 {
                r.0 == routes@[m->Some_0].use_proxy && r.1@ == routes@[m->Some_0].proxy_url@
            } else {
                r.0 == global_use_proxy && r.1@ == global_proxy_url@
            }
        }),
{
    let m = match first_route(routes, bot_token, true) {
        Some(i) => Some(i),
        None => first_route(routes, chat_id, false),
    };
    match m {
        Some(i) => {
            if routes[i].proxy_url.as_str().unicode_len() > 0 {
                (routes[i].use_proxy, routes[i].proxy_url.as_str().to_owned())
            } else {
                (global_use_proxy, global_proxy_url.to_owned())
            }
        },
        None => (global_use_proxy, global_proxy_url.to_owned()),
    }
}

} // verus!
