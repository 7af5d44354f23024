//! Finding local agent installations: where to look on each platform, how
//! to read what the probes of a candidate found, and which instance to
//! adopt.

use vstd::prelude::*;
use crate::text::{str_eq, chars_of, string_from_chars, trim, trim_chars, contains, contains_chars,
    ends_with, ends_with_chars, sub_chars, lines_of, lines};
use crate::config::{strs_view, ostr_view};
use crate::json::ostring;
use crate::mcp_server::{indices_where, index_view};

verus! {

/// The operating system discovery runs on.
#[derive(Debug, Clone, Copy, PartialEq, Eq, Structural)]
pub enum HostOs {
    Linux,
    MacOs,
    Windows,
    /// Another unix.
    OtherUnix,
}

/// The interpreter's file name.
pub open spec fn python_bin_of(os: HostOs) -> Seq<char> {
    if os == HostOs::Windows {
        "python.exe"@
    } else {
        "python"@
    }
}

/// The directory of a virtual environment that holds the interpreter.
pub open spec fn venv_bin_dir_of(os: HostOs) -> Seq<char> {
    if os == HostOs::Windows {
        "Scripts"@
    } else {
        "bin"@
    }
}

/// The interpreter's file name (see `python_bin_of`).
pub fn python_bin(os: HostOs) -> (r: &'static str)
    ensures
        r@ == python_bin_of(os),
{
    if os == HostOs::Windows {
        "python.exe"
    } else {
        "python"
    }
}

/// The directory of a virtual environment that holds the interpreter (see
/// `venv_bin_dir_of`).
pub fn venv_bin_dir(os: HostOs) -> (r: &'static str)
    ensures
        r@ == venv_bin_dir_of(os),
{
    if os == HostOs::Windows {
        "Scripts"
    } else {
        "bin"
    }
}

/// The agent launchers that pip installs.
pub open spec fn agent_bin_names() -> Seq<Seq<char>> {
    seq!["hermes"@, "steersman"@, "autolycus"@]
}

/// The agent launchers that pip installs, in the order they are looked for.
pub fn agent_bins() -> (r: Vec<&'static str>)
    ensures
        r@.map_values(|s: &str| s@) == agent_bin_names(),
{
    let r: Vec<&'static str> = vec!["hermes", "steersman", "autolycus"];
    assert(r@.map_values(|s: &str| s@) =~= agent_bin_names());
    r
}

/// The file name of an agent launcher: with `.exe` on Windows.
pub fn agent_bin(name: &str, os: HostOs) -> (r: String)
    ensures
        r@ == (if os == HostOs::Windows {
            name@ + ".exe"@
        } else {
            name@
        }),
{
    if os == HostOs::Windows {
        name.to_owned().concat(".exe")
    } else {
        name.to_owned()
    }
}

/// A place where discovery looks for an interpreter: the pieces that are
/// joined into its path, in order, and the kind of installation it would
/// be.
#[derive(Debug, Clone, PartialEq, Eq)]
pub struct Candidate {
    pub parts: Vec<String>,
    pub kind: String,
}

/// The mathematical view of a candidate.
pub struct CandidateV {
    pub parts: Seq<Seq<char>>,
    pub kind: Seq<char>,
}

impl View for Candidate {
    type V = CandidateV;

    open spec fn view(&self) -> CandidateV {
        CandidateV { parts: strs_view(self.parts@), kind: self.kind@ }
    }
}

pub open spec fn cands_view(s: Seq<Candidate>) -> Seq<CandidateV> {
    s.map_values(|c: Candidate| c@)
}

/// The interpreter of the virtual environment at `base` joined with `sub`.
pub open spec fn venv_cand(base: Seq<char>, sub: Seq<char>, kind: Seq<char>, os: HostOs) -> CandidateV {
    CandidateV { parts: seq![base, sub, venv_bin_dir_of(os), python_bin_of(os)], kind }
}

/// The interpreter of the virtual environment at `root`.
pub open spec fn venv_root_cand(root: Seq<char>, kind: Seq<char>, os: HostOs) -> CandidateV {
    CandidateV { parts: seq![root, venv_bin_dir_of(os), python_bin_of(os)], kind }
}

/// A candidate given by its whole path.
pub open spec fn plain_cand(path: Seq<char>, kind: Seq<char>) -> CandidateV {
    CandidateV { parts: seq![path], kind }
}

/// The candidates of a table of (subdirectory, kind) under `base`.
pub open spec fn table_cands(base: Seq<char>, t: Seq<(Seq<char>, Seq<char>)>, os: HostOs) -> Seq<CandidateV> {
    t.map_values(|e: (Seq<char>, Seq<char>)| venv_cand(base, e.0, e.1, os))
}

pub open spec fn pairs_of(t: Seq<(&str, &str)>) -> Seq<(Seq<char>, Seq<char>)> {
    t.map_values(|e: (&str, &str)| (e.0@, e.1@))
}

/// The conventional installs under the home directory.
pub open spec fn home_venvs() -> Seq<(Seq<char>, Seq<char>)> {
    seq![
        ("steersman"@, "steersman"@),
        ("steersman/venv"@, "steersman"@),
        (".steersman"@, "steersman"@),
        (".steersman/venv"@, "steersman"@),
        (".hermes"@, "hermes"@),
        (".hermes/venv"@, "hermes"@),
        (".hermes/hermes-agent"@, "hermes-agent"@),
        (".hermes/hermes-agent/venv"@, "hermes-agent"@),
        (".autolycus"@, "autolycus"@),
        (".autolycus/venv"@, "autolycus"@),
        ("autolycus"@, "autolycus"@),
    ]
}

/// The application bundles under the home directory on macOS.
pub open spec fn mac_library_venvs() -> Seq<(Seq<char>, Seq<char>)> {
    seq![
        ("Library/Штурман"@, "hermes"@),
        ("Library/Steersman"@, "hermes"@),
        ("Library/Hermes"@, "hermes"@),
        ("Library/Autolycus"@, "hermes"@),
    ]
}

/// The installs under the application-data directories on Windows.
pub open spec fn windows_data_venvs() -> Seq<(Seq<char>, Seq<char>)> {
    seq![
        ("Steersman"@, "steersman"@),
        ("Hermes"@, "hermes"@),
        ("Autolycus"@, "autolycus"@),
        ("hermes\\hermes-agent\\venv"@, "hermes"@),
        ("hermes\\hermes-agent"@, "hermes"@),
        ("Hermes\\hermes-agent\\venv"@, "hermes"@),
        ("Steersman\\venv"@, "steersman"@),
        ("Autolycus\\venv"@, "autolycus"@),
    ]
}

/// The checkout layouts under the home directory on Windows.
pub open spec fn windows_home_venvs() -> Seq<(Seq<char>, Seq<char>)> {
    seq![
        (".hermes\\hermes-agent\\venv"@, "hermes"@),
        (".steersman\\venv"@, "steersman"@),
        (".autolycus\\venv"@, "autolycus"@),
    ]
}

/// The project installs under `/opt` on Linux.
pub open spec fn opt_cands(os: HostOs) -> Seq<CandidateV> {
    seq![
        venv_root_cand("/opt/hermes"@, "hermes"@, os),
        venv_root_cand("/opt/steersman"@, "steersman"@, os),
        venv_root_cand("/opt/autolycus"@, "autolycus"@, os),
    ]
}

/// The Homebrew interpreters on macOS.
pub open spec fn homebrew_cands() -> Seq<CandidateV> {
    seq![plain_cand("/opt/homebrew/bin/python3"@, "system"@), plain_cand("/usr/local/bin/python3"@, "system"@)]
}

/// The Program Files installs on Windows.
pub open spec fn program_files_cands(os: HostOs) -> Seq<CandidateV> {
    seq![
        venv_root_cand("C:\\Program Files\\Steersman\\venv"@, "hermes"@, os),
        venv_root_cand("C:\\Program Files\\Hermes\\hermes-agent\\venv"@, "hermes"@, os),
        venv_root_cand("C:\\Program Files\\Autolycus\\venv"@, "hermes"@, os),
    ]
}

pub open spec fn opt_data_cands(base: Option<Seq<char>>, os: HostOs) -> Seq<CandidateV> {
    match base {
        Some(b) => table_cands(b, windows_data_venvs(), os),
        None => Seq::empty(),
    }
}

/// The fixed places to look, in order: the conventional installs under the
/// home directory; on Linux the `/opt` installs; on macOS the library
/// bundles and Homebrew interpreters; on Windows the installs under the
/// roaming and the local application-data directories (where known), the
/// checkout layouts under the home directory and the Program Files installs.
pub open spec fn leading_candidates_of(os: HostOs, home: Seq<char>, data_dir: Option<Seq<char>>, data_local_dir: Option<Seq<char>>) -> Seq<CandidateV> {
    let a = table_cands(home, home_venvs(), os);
    let b = if os == HostOs::Linux {
        opt_cands(os)
    } else {
        Seq::empty()
    };
    let c = if os == HostOs::MacOs {
        table_cands(home, mac_library_venvs(), os) + homebrew_cands()
    } else {
        Seq::empty()
    };
    let d = if os == HostOs::Windows {
        opt_data_cands(data_dir, os) + opt_data_cands(data_local_dir, os) + table_cands(home, windows_home_venvs(), os)
            + program_files_cands(os)
    } else {
        Seq::empty()
    };
    a + b + c + d
}

fn push_cand(out: &mut Vec<Candidate>, parts: Vec<String>, kind: &str)
    ensures
        cands_view(final(out)@) == cands_view(old(out)@).push(CandidateV { parts: strs_view(parts@), kind: kind@ }),
{
    let ghost pv = strs_view(parts@);
    out.push(Candidate { parts, kind: kind.to_owned() });
    assert(cands_view(out@) =~= cands_view(old(out)@).push(CandidateV { parts: pv, kind: kind@ }));
}

fn push_venv(out: &mut Vec<Candidate>, base: &str, sub: &str, kind: &str, os: HostOs)
    ensures
        cands_view(final(out)@) == cands_view(old(out)@).push(venv_cand(base@, sub@, kind@, os)),
{
    let mut parts: Vec<String> = Vec::new();
    parts.push(base.to_owned());
    parts.push(sub.to_owned());
    parts.push(venv_bin_dir(os).to_owned());
    parts.push(python_bin(os).to_owned());
    assert(strs_view(parts@) =~= seq![base@, sub@, venv_bin_dir_of(os), python_bin_of(os)]);
    push_cand(out, parts, kind);
}

fn push_venv_root(out: &mut Vec<Candidate>, root: &str, kind: &str, os: HostOs)
    ensures
        cands_view(final(out)@) == cands_view(old(out)@).push(venv_root_cand(root@, kind@, os)),
{
    let mut parts: Vec<String> = Vec::new();
    parts.push(root.to_owned());
    parts.push(venv_bin_dir(os).to_owned());
    parts.push(python_bin(os).to_owned());
    assert(strs_view(parts@) =~= seq![root@, venv_bin_dir_of(os), python_bin_of(os)]);
    push_cand(out, parts, kind);
}

fn push_plain(out: &mut Vec<Candidate>, path: &str, kind: &str)
    ensures
        cands_view(final(out)@) == cands_view(old(out)@).push(plain_cand(path@, kind@)),
{
    let mut parts: Vec<String> = Vec::new();
    parts.push(path.to_owned());
    assert(strs_view(parts@) =~= seq![path@]);
    push_cand(out, parts, kind);
}

fn push_table(out: &mut Vec<Candidate>, base: &str, table: &Vec<(&str, &str)>, os: HostOs)
    ensures
        cands_view(final(out)@) == cands_view(old(out)@) + table_cands(base@, pairs_of(table@), os),
{
    let ghost t = pairs_of(table@);
    let ghost start = cands_view(out@);
    let mut i: usize = 0;
    while i < table.len()
        invariant
            i <= table@.len(),
            t == pairs_of(table@),
            cands_view(out@) == start + table_cands(base@, t, os).take(i as int),
        decreases table@.len() - i,
    {
        let (sub, kind) = table[i];
        push_venv(out, base, sub, kind, os);
        assert(table_cands(base@, t, os).take(i + 1) =~= table_cands(base@, t, os).take(i as int).push(venv_cand(base@, sub@, kind@, os)));
        i = i + 1;
    }
    assert(table_cands(base@, t, os).take(table@.len() as int) =~= table_cands(base@, t, os));
}

fn home_venv_table() -> (r: Vec<(&'static str, &'static str)>)
    ensures
        pairs_of(r@) == home_venvs(),
{
    let r: Vec<(&'static str, &'static str)> = vec![
        ("steersman", "steersman"),
        ("steersman/venv", "steersman"),
        (".steersman", "steersman"),
        (".steersman/venv", "steersman"),
        (".hermes", "hermes"),
        (".hermes/venv", "hermes"),
        (".hermes/hermes-agent", "hermes-agent"),
        (".hermes/hermes-agent/venv", "hermes-agent"),
        (".autolycus", "autolycus"),
        (".autolycus/venv", "autolycus"),
        ("autolycus", "autolycus"),
    ];
    assert(pairs_of(r@) =~= home_venvs());
    r
}

fn mac_library_table() -> (r: Vec<(&'static str, &'static str)>)
    ensures
        pairs_of(r@) == mac_library_venvs(),
{
    let r: Vec<(&'static str, &'static str)> = vec![
        ("Library/Штурман", "hermes"),
        ("Library/Steersman", "hermes"),
        ("Library/Hermes", "hermes"),
        ("Library/Autolycus", "hermes"),
    ];
    assert(pairs_of(r@) =~= mac_library_venvs());
    r
}

fn windows_data_table() -> (r: Vec<(&'static str, &'static str)>)
    ensures
        pairs_of(r@) == windows_data_venvs(),
{
    let r: Vec<(&'static str, &'static str)> = vec![
        ("Steersman", "steersman"),
        ("Hermes", "hermes"),
        ("Autolycus", "autolycus"),
        ("hermes\\hermes-agent\\venv", "hermes"),
        ("hermes\\hermes-agent", "hermes"),
        ("Hermes\\hermes-agent\\venv", "hermes"),
        ("Steersman\\venv", "steersman"),
        ("Autolycus\\venv", "autolycus"),
    ];
    assert(pairs_of(r@) =~= windows_data_venvs());
    r
}

fn windows_home_table() -> (r: Vec<(&'static str, &'static str)>)
    ensures
        pairs_of(r@) == windows_home_venvs(),
{
    let r: Vec<(&'static str, &'static str)> = vec![
        (".hermes\\hermes-agent\\venv", "hermes"),
        (".steersman\\venv", "steersman"),
        (".autolycus\\venv", "autolycus"),
    ];
    assert(pairs_of(r@) =~= windows_home_venvs());
    r
}

/// The fixed places to look (see `leading_candidates_of`). `data_dir`
/// and `data_local_dir` are the roaming and local application-data
/// directories.
pub fn leading_candidates(os: HostOs, home: &str, data_dir: Option<&str>, data_local_dir: Option<&str>) -> (r: Vec<Candidate>)
    ensures
        cands_view(r@) == leading_candidates_of(os, home@, ostr_view(data_dir), ostr_view(data_local_dir)),
{
    let mut out: Vec<Candidate> = Vec::new();
    push_table(&mut out, home, &home_venv_table(), os);
    let ghost a = cands_view(out@);
    if os == HostOs::Linux {
        push_venv_root(&mut out, "/opt/hermes", "hermes", os);
        push_venv_root(&mut out, "/opt/steersman", "steersman", os);
        push_venv_root(&mut out, "/opt/autolycus", "autolycus", os);
        assert(cands_view(out@) =~= a + opt_cands(os));
    }
    let ghost ab = cands_view(out@);
    if os == HostOs::MacOs {
        push_table(&mut out, home, &mac_library_table(), os);
        push_plain(&mut out, "/opt/homebrew/bin/python3", "system");
        push_plain(&mut out, "/usr/local/bin/python3", "system");
        assert(cands_view(out@) =~= ab + (table_cands(home@, mac_library_venvs(), os) + homebrew_cands()));
    }
    let ghost abc = cands_view(out@);
    if os == HostOs::Windows {
        let t = windows_data_table();
        match data_dir {
            Some(d) => push_table(&mut out, d, &t, os),
            None => {},
        }
        let ghost x = cands_view(out@);
        assert(x =~= abc + opt_data_cands(ostr_view(data_dir), os));
        match data_local_dir {
            Some(d) => push_table(&mut out, d, &t, os),
            None => {},
        }
        let ghost y = cands_view(out@);
        assert(y =~= x + opt_data_cands(ostr_view(data_local_dir), os));
        push_table(&mut out, home, &windows_home_table(), os);
        push_venv_root(&mut out, "C:\\Program Files\\Steersman\\venv", "hermes", os);
        push_venv_root(&mut out, "C:\\Program Files\\Hermes\\hermes-agent\\venv", "hermes", os);
        push_venv_root(&mut out, "C:\\Program Files\\Autolycus\\venv", "hermes", os);
        assert(cands_view(out@) =~= abc + (opt_data_cands(ostr_view(data_dir), os) + opt_data_cands(ostr_view(data_local_dir), os)
            + table_cands(home@, windows_home_venvs(), os) + program_files_cands(os)));
    }
    proof {
        let l = leading_candidates_of(os, home@, ostr_view(data_dir), ostr_view(data_local_dir));
        if os == HostOs::Linux {
            assert(cands_view(out@) =~= l);
        } else if os == HostOs::MacOs {
            assert(cands_view(out@) =~= l);
        } else if os == HostOs::Windows {
            assert(cands_view(out@) =~= l);
        } else {
            assert(cands_view(out@) =~= l);
        }
    }
    out
}

/// Where pip puts an agent launcher: `.local/bin` in the home directory
/// (`AppData\\Local\\Programs` on Windows).
pub open spec fn local_launcher_of(os: HostOs, home: Seq<char>, bin: Seq<char>) -> Seq<Seq<char>> {
    seq![
        home,
        if os == HostOs::Windows {
            "AppData\\Local\\Programs"@
        } else {
            ".local/bin"@
        },
        if os == HostOs::Windows {
            bin + ".exe"@
        } else {
            bin
        },
    ]
}

/// Where pip puts an agent launcher (see `local_launcher_of`), as path
/// pieces.
pub fn local_launcher(os: HostOs, home: &str, bin: &str) -> (r: Vec<String>)
    ensures
        strs_view(r@) == local_launcher_of(os, home@, bin@),
{
    let mut r: Vec<String> = Vec::new();
    r.push(home.to_owned());
    if os == HostOs::Windows {
        r.push("AppData\\Local\\Programs".to_owned());
    } else {
        r.push(".local/bin".to_owned());
    }
    r.push(agent_bin(bin, os));
    assert(strs_view(r@) =~= local_launcher_of(os, home@, bin@));
    r
}

/// The system interpreters tried after the installs and launchers.
pub open spec fn fallback_candidates_of(os: HostOs) -> Seq<CandidateV> {
    if os == HostOs::Windows {
        seq![plain_cand("python.exe"@, "system"@)]
    } else {
        seq![plain_cand("/usr/local/bin/python3"@, "system"@), plain_cand("/usr/bin/python3"@, "system"@)]
    }
}

/// The system interpreters tried after the installs and launchers (see
/// `fallback_candidates_of`).
pub fn fallback_candidates(os: HostOs) -> (r: Vec<Candidate>)
    ensures
        cands_view(r@) == fallback_candidates_of(os),
{
    let mut out: Vec<Candidate> = Vec::new();
    if os == HostOs::Windows {
        push_plain(&mut out, "python.exe", "system");
    } else {
        push_plain(&mut out, "/usr/local/bin/python3", "system");
        push_plain(&mut out, "/usr/bin/python3", "system");
    }
    assert(cands_view(out@) =~= fallback_candidates_of(os));
    out
}

/// The directories under the home directory whose subdirectories are
/// searched for project-local virtual environments.
pub open spec fn project_roots_of() -> Seq<Seq<char>> {
    seq!["hermes"@, "autolycus"@, "projects"@, "src"@, "Documents"@]
}

/// The directories searched for project-local virtual environments (see
/// `project_roots_of`).
pub fn project_roots() -> (r: Vec<&'static str>)
    ensures
        r@.map_values(|s: &str| s@) == project_roots_of(),
{
    let r: Vec<&'static str> = vec!["hermes", "autolycus", "projects", "src", "Documents"];
    assert(r@.map_values(|s: &str| s@) =~= project_roots_of());
    r
}

/// The kind of a project directory: by its name (`autolycus`, then
/// `steersman`, then `hermes`), else by the package directory it holds
/// (`autolycus` or `src/autolycus`, then `steersman` or `src/steersman`),
/// else `hermes`.
pub open spec fn kind_of_dir(name: Seq<char>, has_autolycus: bool, has_steersman: bool) -> Seq<char> {
    if contains(name, "autolycus"@) {
        "autolycus"@
    } else if contains(name, "steersman"@) {
        "steersman"@
    } else if contains(name, "hermes"@) {
        "hermes"@
    } else if has_autolycus {
        "autolycus"@
    } else if has_steersman {
        "steersman"@
    } else {
        "hermes"@
    }
}

/// The kind of a project directory (see `kind_of_dir`); `has_autolycus`
/// and `has_steersman` say whether it holds that package directory.
pub fn infer_kind_from_dir(name: &str, has_autolycus: bool, has_steersman: bool) -> (r: &'static str)
    ensures
        r@ == kind_of_dir(name@, has_autolycus, has_steersman),
{
    let n = chars_of(name);
    let a = chars_of("autolycus");
    let st = chars_of("steersman");
    let h = chars_of("hermes");
    if contains_chars(n.as_slice(), a.as_slice()) {
        "autolycus"
    } else if contains_chars(n.as_slice(), st.as_slice()) {
        "steersman"
    } else if contains_chars(n.as_slice(), h.as_slice()) {
        "hermes"
    } else if has_autolycus {
        "autolycus"
    } else if has_steersman {
        "steersman"
    } else {
        "hermes"
    }
}

/// Whether a candidate is taken: it exists and no earlier candidate that
/// exists has the same path.
pub open spec fn first_existing(paths: Seq<Seq<char>>, exists: Seq<bool>, i: int) -> bool {
    exists[i] && forall|j: int| 0 <= j < i ==> !(exists[j] && paths[j] == paths[i])
}

fn seen_before(paths: &Vec<String>, exists: &Vec<bool>, i: usize) -> (r: bool)
    requires
        i < paths@.len(),
        paths@.len() == exists@.len(),
    ensures
        r == !(forall|k: int| 0 <= k < i ==> !(exists@[k] && strs_view(paths@)[k] == strs_view(paths@)[i as int])),
{
    let ghost pv = strs_view(paths@);
    let mut j: usize = 0;
    while j < i
        invariant
            j <= i < paths@.len(),
            paths@.len() == exists@.len(),
            pv == strs_view(paths@),
            forall|k: int| 0 <= k < j ==> !(exists@[k] && pv[k] == pv[i as int]),
        decreases i - j,
    {
        if exists[j] && str_eq(paths[j].as_str(), paths[i].as_str()) {
            assert(exists@[j as int] && pv[j as int] == pv[i as int]);
            return true;
        }
        j = j + 1;
    }
    false
}

/// The candidates that discovery probes, by index: each existing path
/// once, at its first occurrence.
pub fn select_candidates(paths: &Vec<String>, exists: &Vec<bool>) -> (r: Vec<usize>)
    requires
        paths@.len() == exists@.len(),
    ensures
        index_view(r@) == indices_where(paths@.len() as int, |i: int| first_existing(strs_view(paths@), exists@, i)),
{
    let ghost pv = strs_view(paths@);
    let ghost p = |i: int| first_existing(pv, exists@, i);
    let mut out: Vec<usize> = Vec::new();
    let mut i: usize = 0;
    while i < paths.len()
        invariant
            i <= paths@.len(),
            paths@.len() == exists@.len(),
            pv == strs_view(paths@),
            p == (|i: int| first_existing(pv, exists@, i)),
            index_view(out@) == indices_where(i as int, p),
        decreases paths@.len() - i,
    {
        let seen = exists[i] && seen_before(paths, exists, i);
        let take = exists[i] && !seen;
        assert(take == p(i as int));
        if take {
            out.push(i);
            assert(index_view(out@) =~= indices_where(i as int, p).push(i as int));
        }
        i = i + 1;
    }
    out
}

/// The version an instance reports: the trimmed output of the first
/// probe that succeeded with something to say (the agent CLI module, then
/// the agent module, then the interpreter itself), else `unknown`.
pub open spec fn version_of(probes: Seq<Option<Seq<char>>>) -> Seq<char>
    decreases probes.len(),
{
    if probes.len() == 0 {
        "unknown"@
    } else {
        match probes[0] {
            Some(out) => if trim(out).len() > 0 {
                trim(out)
            } else {
                version_of(probes.drop_first())
            },
            None => version_of(probes.drop_first()),
        }
    }
}

/// The version an instance reports (see `version_of`); each probe is the
/// output of a run that succeeded, or `None`.
pub fn instance_version(probes: &Vec<Option<String>>) -> (r: String)
    ensures
        r@ == version_of(probes@.map_values(|o: Option<String>| ostring(o))),
{
    let ghost all = probes@.map_values(|o: Option<String>| ostring(o));
    assert(all.skip(0) =~= all);
    let mut i: usize = 0;
    while i < probes.len()
        invariant
            i <= probes@.len(),
            all == probes@.map_values(|o: Option<String>| ostring(o)),
            version_of(all) == version_of(all.skip(i as int)),
        decreases probes@.len() - i,
    {
        assert(all.skip(i as int)[0] == all[i as int]);
        assert(all.skip(i as int).drop_first() =~= all.skip(i + 1));
        match &probes[i] {
            Some(out) => {
                let t = trim_chars(&chars_of(out.as_str()));
                if t.len() > 0 {
                    return string_from_chars(t.as_slice());
                }
            },
            None => {},
        }
        i = i + 1;
    }
    assert(all.skip(i as int).len() == 0);
    "unknown".to_owned()
}

/// The ports where a running backend is looked for first.
pub open spec fn gateway_ports_of() -> Seq<u16> {
    seq![8642u16, 8643u16, 8644u16, 8645u16]
}

/// The ports where a running backend is looked for first, in order.
pub fn gateway_ports() -> (r: Vec<u16>)
    ensures
        r@ == gateway_ports_of(),
{
    let r: Vec<u16> = vec![8642, 8643, 8644, 8645];
    assert(r@ =~= gateway_ports_of());
    r
}

/// Whether a process listing shows a backend for this interpreter: a line
/// that names the interpreter's file, `hermes` and `gateway`.
pub open spec fn listing_shows_gateway(listing: Seq<char>, python_file: Seq<char>) -> bool {
    exists|i: int| 0 <= i < lines_of(listing).len() && {
        let l = #[trigger] lines_of(listing)[i];
        contains(l, python_file) && contains(l, "hermes"@) && contains(l, "gateway"@)
    }
}

/// Whether a process listing shows a backend for this interpreter (see
/// `listing_shows_gateway`).
pub fn ps_shows_gateway(listing: &str, python_file: &str) -> (r: bool)
    ensures
        r == listing_shows_gateway(listing@, python_file@),
{
    let ls = lines(&chars_of(listing));
    let py = chars_of(python_file);
    let h = chars_of("hermes");
    let g = chars_of("gateway");
    let mut i: usize = 0;
    while i < ls.len()
        invariant
            i <= ls@.len(),
            ls@.len() == lines_of(listing@).len(),
            forall|k: int| 0 <= k < ls@.len() ==> (#[trigger] ls@[k])@ == lines_of(listing@)[k],
            py@ == python_file@,
            h@ == "hermes"@,
            g@ == "gateway"@,
            forall|k: int| 0 <= k < i ==> !({
                let l = #[trigger] lines_of(listing@)[k];
                contains(l, python_file@) && contains(l, "hermes"@) && contains(l, "gateway"@)
            }),
        decreases ls@.len() - i,
    {
        let l = ls[i].as_slice();
        if contains_chars(l, py.as_slice()) && contains_chars(l, h.as_slice()) && contains_chars(l, g.as_slice()) {
            assert(ls@[i as int]@ == lines_of(listing@)[i as int]);
            return true;
        }
        assert(ls@[i as int]@ == lines_of(listing@)[i as int]);
        i = i + 1;
    }
    false
}

/// Whether a backend runs for an interpreter, and on which port: the first
/// of the usual ports that accepted a connection; else, on unix, the
/// first usual port when the process listing shows one; else none.
pub open spec fn gateway_status_of(open_port: Option<u16>, unix: bool, listing: Option<Seq<char>>, python_file: Seq<char>) -> (bool, Option<u16>) {
    match open_port {
        Some(p) => (true, Some(p)),
        None => if unix && (match listing {
            Some(l) => listing_shows_gateway(l, python_file),
            None => false,
        }) {
            (true, Some(8642u16))
        } else {
            (false, None)
        },
    }
}

/// Whether a backend runs for an interpreter (see `gateway_status_of`):
/// `open_port` is the first usual port that accepted a connection,
/// `listing` the process listing when one could be taken.
pub fn gateway_status(open_port: Option<u16>, unix: bool, listing: Option<&str>, python_file: &str) -> (r: (bool, Option<u16>))
    ensures
        r == gateway_status_of(open_port, unix, ostr_view(listing), python_file@),
{
    match open_port {
        Some(p) => (true, Some(p)),
        None => {
            let shows = unix && match listing {
                Some(l) => ps_shows_gateway(l, python_file),
                None => false,
            };
            if shows {
                (true, Some(8642u16))
            } else {
                (false, None)
            }
        },
    }
}

/// A file name without its trailing `.exe` suffixes.
pub open spec fn without_exe(name: Seq<char>) -> Seq<char>
    decreases name.len(),
{
    if ends_with(name, ".exe"@) && name.len() >= 4 {
        without_exe(name.take(name.len() - 4))
    } else {
        name
    }
}

/// Whether a file is an agent launcher: its name, without `.exe`, is one
/// of the agent launchers.
pub open spec fn is_launcher_name(name: Seq<char>) -> bool {
    agent_bin_names().contains(without_exe(name))
}

/// Whether a file is an agent launcher (see `is_launcher_name`).
pub fn is_agent_launcher(name: &str) -> (r: bool)
    ensures
        r == is_launcher_name(name@),
{
    let exe = chars_of(".exe");
    let mut n = chars_of(name);
    while n.len() >= 4 && ends_with_chars(n.as_slice(), exe.as_slice())
        invariant
            exe@ == ".exe"@,
            without_exe(n@) == without_exe(name@),
        decreases n@.len(),
    {
        n = sub_chars(n.as_slice(), 0, n.len() - 4);
    }
    assert(without_exe(n@) == n@);
    let stem = string_from_chars(n.as_slice());
    let r = str_eq(stem.as_str(), "hermes") || str_eq(stem.as_str(), "steersman") || str_eq(stem.as_str(), "autolycus");
    assert(r == agent_bin_names().contains(n@)) by {
        if agent_bin_names().contains(n@) {
            let k = choose|k: int| 0 <= k < 3 && agent_bin_names()[k] == n@;
            assert(k == 0 || k == 1 || k == 2);
        }
    }
    r
}

/// The interpreter that discovery probes for a candidate.
#[derive(Debug, Clone, PartialEq, Eq)]
pub enum InterpreterChoice {
    /// The candidate itself.
    Itself,
    /// The interpreter next to the launcher.
    Sibling,
    /// The interpreter of the virtual environment the launcher is in.
    VenvPython,
    /// The system interpreter found on the `PATH`.
    OnPath(String),
}

/// The mathematical view of an interpreter choice.
pub enum InterpreterChoiceV {
    Itself,
    Sibling,
    VenvPython,
    OnPath(Seq<char>),
}

impl View for InterpreterChoice {
    type V = InterpreterChoiceV;

    open spec fn view(&self) -> InterpreterChoiceV {
        match self {
            InterpreterChoice::Itself => InterpreterChoiceV::Itself,
            InterpreterChoice::Sibling => InterpreterChoiceV::Sibling,
            InterpreterChoice::VenvPython => InterpreterChoiceV::VenvPython,
            InterpreterChoice::OnPath(p) => InterpreterChoiceV::OnPath(p@),
        }
    }
}

/// How a candidate's interpreter is found: a candidate that is not an
/// agent launcher is probed itself; for a launcher, the interpreter next
/// to it, else (when the launcher sits in a virtual environment's
/// interpreter directory) that environment's interpreter, else the system
/// interpreter on the `PATH`, else the launcher itself.
pub open spec fn interpreter_choice_of(
    launcher: bool,
    sibling_exists: bool,
    in_venv_bin: bool,
    venv_python_exists: bool,
    on_path: Option<Seq<char>>,
) -> InterpreterChoiceV {
    if !launcher {
        InterpreterChoiceV::Itself
    } else if sibling_exists {
        InterpreterChoiceV::Sibling
    } else if in_venv_bin && venv_python_exists {
        InterpreterChoiceV::VenvPython
    } else {
        match on_path {
            Some(p) => InterpreterChoiceV::OnPath(p),
            None => InterpreterChoiceV::Itself,
        }
    }
}

/// How a candidate's interpreter is found (see `interpreter_choice_of`):
/// `launcher` from `is_agent_launcher`, `sibling_exists` whether an
/// interpreter lies next to it, `in_venv_bin` whether its directory is a
/// virtual environment's interpreter directory, `venv_python_exists`
/// whether that environment has an interpreter, `on_path` the system
/// interpreter found on the `PATH`.
pub fn resolve_interpreter(
    launcher: bool,
    sibling_exists: bool,
    in_venv_bin: bool,
    venv_python_exists: bool,
    on_path: Option<String>,
) -> (r: InterpreterChoice)
    ensures
        r@ == interpreter_choice_of(launcher, sibling_exists, in_venv_bin, venv_python_exists, ostring(on_path)),
{
    if !launcher {
        InterpreterChoice::Itself
    } else if sibling_exists {
        InterpreterChoice::Sibling
    } else if in_venv_bin && venv_python_exists {
        InterpreterChoice::VenvPython
    } else {
        match on_path {
            Some(p) => InterpreterChoice::OnPath(p),
            None => InterpreterChoice::Itself,
        }
    }
}

/// The files whose presence marks a directory as an agent home.
pub open spec fn home_markers_of() -> Seq<Seq<char>> {
    seq!["config.yaml"@, "config.yml"@, ".env"@, "auth.json"@, "state.db"@]
}

/// The files whose presence marks a directory as an agent home (see
/// `home_markers_of`).
pub fn home_markers() -> (r: Vec<&'static str>)
    ensures
        r@.map_values(|s: &str| s@) == home_markers_of(),
{
    let r: Vec<&'static str> = vec!["config.yaml", "config.yml", ".env", "auth.json", "state.db"];
    assert(r@.map_values(|s: &str| s@) =~= home_markers_of());
    r
}

/// How many directories above an interpreter are searched for its home.
pub const HOME_SEARCH_DEPTH: usize = 5;

/// The conventional homes under the home directory, tried when none is
/// found above the interpreter.
pub open spec fn fallback_homes_of() -> Seq<Seq<char>> {
    seq![".hermes"@, ".autolycus"@, ".steersman"@]
}

/// The conventional homes under the home directory (see
/// `fallback_homes_of`).
pub fn fallback_homes() -> (r: Vec<&'static str>)
    ensures
        r@.map_values(|s: &str| s@) == fallback_homes_of(),
{
    let r: Vec<&'static str> = vec![".hermes", ".autolycus", ".steersman"];
    assert(r@.map_values(|s: &str| s@) =~= fallback_homes_of());
    r
}

/// The first marked position.
pub open spec fn first_marked(marks: Seq<bool>) -> Option<int>
    decreases marks.len(),
{
    if marks.len() == 0 {
        None
    } else if marks[0] {
        Some(0)
    } else {
        match first_marked(marks.drop_first()) {
            Some(i) => Some(i + 1),
            None => None,
        }
    }
}

/// Where an instance's home was found.
#[derive(Debug, Clone, Copy, PartialEq, Eq, Structural)]
pub enum HomeChoice {
    /// The `i`-th directory above the interpreter (0 is its own directory).
    Above(usize),
    /// The `i`-th conventional home.
    Conventional(usize),
    /// Nowhere.
    Unknown,
}

/// Where an instance's home is: the first of the directories above the
/// interpreter (at most `HOME_SEARCH_DEPTH` of them) that looks like a
/// home, else the first conventional home that is a directory and looks
/// like one.
pub open spec fn home_choice_of(above: Seq<bool>, conventional: Seq<bool>) -> HomeChoice {
    match first_marked(above.take(if above.len() < HOME_SEARCH_DEPTH { above.len() as int } else { HOME_SEARCH_DEPTH as int })) {
        Some(i) => HomeChoice::Above(i as usize),
        None => match first_marked(conventional) {
            Some(i) => HomeChoice::Conventional(i as usize),
            None => HomeChoice::Unknown,
        },
    }
}

fn first_mark(marks: &Vec<bool>, limit: usize) -> (r: Option<usize>)
    ensures
        match r {
            Some(i) => first_marked(marks@.take(if marks@.len() < limit { marks@.len() as int } else { limit as int })) == Some(i as int),
            None => first_marked(marks@.take(if marks@.len() < limit { marks@.len() as int } else { limit as int })) is None,
        },
{
    let n: usize = if marks.len() < limit { marks.len() } else { limit };
    let ghost m = marks@.take(n as int);
    assert(m.skip(0) =~= m);
    let mut i: usize = 0;
    while i < n
        invariant
            n <= marks@.len(),
            n == (if marks@.len() < limit { marks@.len() as int } else { limit as int }),
            i <= n,
            m == marks@.take(n as int),
            first_marked(m) == (match first_marked(m.skip(i as int)) {
                Some(k) => Some(k + i),
                None => None::<int>,
            }),
        decreases n - i,
    {
        assert(m.skip(i as int).len() > 0);
        assert(m.skip(i as int)[0] == marks@[i as int]);
        assert(m.skip(i as int).drop_first() =~= m.skip(i + 1));
        if marks[i] {
            assert(first_marked(m.skip(i as int)) == Some(0int));
            return Some(i);
        }
        i = i + 1;
    }
    assert(m.skip(i as int).len() == 0);
    None
}

/// Where an instance's home is (see `home_choice_of`): `above` says which
/// directories above the interpreter, nearest first, look like a home;
/// `conventional` which conventional homes are directories that do.
pub fn choose_home(above: &Vec<bool>, conventional: &Vec<bool>) -> (r: HomeChoice)
    ensures
        r == home_choice_of(above@, conventional@),
{
    assert(conventional@.take(conventional@.len() as int) =~= conventional@);
    match first_mark(above, HOME_SEARCH_DEPTH) {
        Some(i) => HomeChoice::Above(i),
        None => match first_mark(conventional, conventional.len()) {
            Some(i) => HomeChoice::Conventional(i),
            None => HomeChoice::Unknown,
        },
    }
}

/// The label of an instance, from its kind and its home's directory name.
pub open spec fn instance_label_of(kind: Seq<char>, name: Seq<char>) -> Seq<char> {
    if kind == "autolycus"@ {
        "Autolycus — "@ + name
    } else if kind == "steersman"@ {
        "Штурман — "@ + name
    } else if kind == "hermes"@ || kind == "hermes-agent"@ {
        "Hermes — "@ + name
    } else {
        name
    }
}

/// The label of an instance (see `instance_label_of`).
pub fn instance_label(kind: &str, name: &str) -> (r: String)
    ensures
        r@ == instance_label_of(kind@, name@),
{
    if str_eq(kind, "autolycus") {
        "Autolycus — ".to_owned().concat(name)
    } else if str_eq(kind, "steersman") {
        "Штурман — ".to_owned().concat(name)
    } else if str_eq(kind, "hermes") || str_eq(kind, "hermes-agent") {
        "Hermes — ".to_owned().concat(name)
    } else {
        name.to_owned()
    }
}

/// The homes whose `active_profile` file names the active profile, in the
/// order they are read.
pub open spec fn profile_homes_of() -> Seq<Seq<char>> {
    seq![".hermes"@, ".steersman"@, ".autolycus"@]
}

/// The homes whose `active_profile` file is read (see `profile_homes_of`).
pub fn profile_homes() -> (r: Vec<&'static str>)
    ensures
        r@.map_values(|s: &str| s@) == profile_homes_of(),
{
    let r: Vec<&'static str> = vec![".hermes", ".steersman", ".autolycus"];
    assert(r@.map_values(|s: &str| s@) =~= profile_homes_of());
    r
}

/// The first text whose trimmed form is not empty, trimmed.
pub open spec fn first_trimmed(files: Seq<Option<Seq<char>>>) -> Option<Seq<char>>
    decreases files.len(),
{
    if files.len() == 0 {
        None
    } else {
        match files[0] {
            Some(c) => if trim(c).len() > 0 {
                Some(trim(c))
            } else {
                first_trimmed(files.drop_first())
            },
            None => first_trimmed(files.drop_first()),
        }
    }
}

/// The active profile: `HERMES_PROFILE` when set and not empty, else the
/// first `active_profile` file with a name in it, else `default`.
pub open spec fn active_profile_of(env_profile: Option<Seq<char>>, files: Seq<Option<Seq<char>>>) -> Seq<char> {
    let fallback = match first_trimmed(files) {
        Some(p) => p,
        None => "default"@,
    };
    match env_profile {
        Some(p) => if p.len() > 0 {
            p
        } else {
            fallback
        },
        None => fallback,
    }
}

/// The active profile (see `active_profile_of`); `files` holds the
/// contents of the `active_profile` files that could be read, in the order
/// of `profile_homes`.
pub fn active_profile(env_profile: Option<&str>, files: &Vec<Option<String>>) -> (r: String)
    ensures
        r@ == active_profile_of(ostr_view(env_profile), files@.map_values(|o: Option<String>| ostring(o))),
{
    match env_profile {
        Some(p) => if p.unicode_len() > 0 {
            return p.to_owned();
        },
        None => {},
    }
    let ghost all = files@.map_values(|o: Option<String>| ostring(o));
    assert(all.skip(0) =~= all);
    let mut i: usize = 0;
    while i < files.len()
        invariant
            i <= files@.len(),
            match env_profile {
                Some(p) => p@.len() == 0,
                None => true,
            },
            all == files@.map_values(|o: Option<String>| ostring(o)),
            first_trimmed(all) == first_trimmed(all.skip(i as int)),
        decreases files@.len() - i,
    {
        assert(all.skip(i as int)[0] == all[i as int]);
        assert(all.skip(i as int).drop_first() =~= all.skip(i + 1));
        match &files[i] {
            Some(c) => {
                let t = trim_chars(&chars_of(c.as_str()));
                if t.len() > 0 {
                    return string_from_chars(t.as_slice());
                }
            },
            None => {},
        }
        i = i + 1;
    }
    assert(all.skip(i as int).len() == 0);
    "default".to_owned()
}

/// An installation that discovery found.
#[derive(Debug, Clone, PartialEq, Eq)]
pub struct DetectedInstance {
    pub path: String,
    /// `steersman`, `hermes`, `hermes-agent`, `autolycus` or `system`.
    pub instance_type: String,
    pub version: String,
    pub gateway_running: bool,
    pub gateway_port: Option<u16>,
    pub active_profile: String,
    /// The agent home directory the instance uses, when known.
    pub home_dir: Option<String>,
    /// A short label for people.
    pub label: Option<String>,
}

/// The instance to adopt: the first whose backend runs, else the first
/// with a known home, else the first.
pub open spec fn primary_of(running: Seq<bool>, has_home: Seq<bool>) -> Option<int> {
    match first_marked(running) {
        Some(i) => Some(i),
        None => match first_marked(has_home) {
            Some(i) => Some(i),
            None => if running.len() > 0 {
                Some(0)
            } else {
                None
            },
        },
    }
}

pub open spec fn running_marks(s: Seq<DetectedInstance>) -> Seq<bool> {
    s.map_values(|d: DetectedInstance| d.gateway_running)
}

pub open spec fn home_marks(s: Seq<DetectedInstance>) -> Seq<bool> {
    s.map_values(|d: DetectedInstance| d.home_dir is Some)
}

/// The instance to adopt, by index (see `primary_of`).
pub fn primary_instance(instances: &Vec<DetectedInstance>) -> (r: Option<usize>)
    ensures
        match r {
            Some(i) => primary_of(running_marks(instances@), home_marks(instances@)) == Some(i as int),
            None => primary_of(running_marks(instances@), home_marks(instances@)) is None,
        },
{
    let mut running: Vec<bool> = Vec::new();
    let mut homed: Vec<bool> = Vec::new();
    let mut i: usize = 0;
    while i < instances.len()
        invariant
            i <= instances@.len(),
            running@ == running_marks(instances@).take(i as int),
            homed@ == home_marks(instances@).take(i as int),
        decreases instances@.len() - i,
    {
        running.push(instances[i].gateway_running);
        homed.push(instances[i].home_dir.is_some());
        assert(running@ =~= running_marks(instances@).take(i + 1));
        assert(homed@ =~= home_marks(instances@).take(i + 1));
        i = i + 1;
    }
    assert(running@ =~= running_marks(instances@));
    assert(homed@ =~= home_marks(instances@));
    assert(running@.take(running@.len() as int) =~= running@);
    assert(homed@.take(homed@.len() as int) =~= homed@);
    match first_mark(&running, running.len()) {
        Some(k) => Some(k),
        None => match first_mark(&homed, homed.len()) {
            Some(k) => Some(k),
            None => if instances.len() > 0 {
                Some(0)
            } else {
                None
            },
        },
    }
}

/// The interpreter of the first detected instance, which every caller that
/// needs "the local agent's Python" uses.
pub fn find_local_interpreter(instances: &Vec<DetectedInstance>) -> (r: Option<String>)
    ensures
        instances@.len() == 0 ==> r is None,
        instances@.len() > 0 ==> r == Some(instances@[0].path),
{
    if instances.len() == 0 {
        None
    } else {
        Some(instances[0].path.clone())
    }
}

/// An interpreter as the connect screen lists it.
#[derive(Debug, Clone)]
pub struct InstanceInfo {
    pub path: String,
    pub instance: String,
    pub exists: bool,
}

/// The connect screen's list of detected interpreters: each detected
/// instance's path and kind, in order, all existing.
pub fn instance_infos(instances: &Vec<DetectedInstance>) -> (r: Vec<InstanceInfo>)
    ensures
        r@.len() == instances@.len(),
        forall|i: int| 0 <= i < r@.len() ==> (#[trigger] r@[i]).path@ == instances@[i].path@
            && r@[i].instance@ == instances@[i].instance_type@ && r@[i].exists,
{
    let mut out: Vec<InstanceInfo> = Vec::new();
    let mut i: usize = 0;
    while i < instances.len()
        invariant
            i <= instances@.len(),
            out@.len() == i,
            forall|k: int| 0 <= k < i ==> (#[trigger] out@[k]).path@ == instances@[k].path@
                && out@[k].instance@ == instances@[k].instance_type@ && out@[k].exists,
        decreases instances@.len() - i,
    {
        out.push(InstanceInfo {
            path: instances[i].path.clone(),
            instance: instances[i].instance_type.clone(),
            exists: true,
        });
        i = i + 1;
    }
    out
}

} // verus!
