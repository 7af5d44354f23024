//! Tool-server (MCP) management: the `mcp_servers:` block of config.yaml
//! read into server entries, and the line-based edits that add, remove,
//! enable and re-credential a server while keeping every other line.

use vstd::prelude::*;
use crate::json::{Json, JsonV, jget, ostr, obool, oarray, str_items, view_entries, lemma_view_entries, string_items, ostring, opt_owned, clone_opt, copy_strings, copy_entries, strings_view};
use crate::config::{named_profile, ostr_view, profile_home, pairs_view, strs_view, lines_view, str_entries, str_entries_exec, copy_pairs, kv_line, first_key_match, missing_pairs, spaces_exec, kv_line_exec, first_key_match_exec, missing_pairs_exec};
use crate::text::{str_eq, chars_of, string_from_chars, append_chars, lines, lines_of, join_nl, join_lines, trim, trim_start, starts_with, starts_with_chars, trim_start_chars, trim_chars, chars_eq, sub_chars, indent_bytes};

verus! {

/// The keys of a server entry that the configuration models; the others
/// are kept as raw fields.
pub open spec fn known_key(k: Seq<char>) -> bool {
    ||| k == "server_type"@
    ||| k == "url"@
    ||| k == "command"@
    ||| k == "args"@
    ||| k == "env"@
    ||| k == "auth"@
    ||| k == "enabled"@
}

/// One server entry of the `mcp_servers:` block. The raw fields are the
/// entries that the configuration does not model (timeouts, headers, ...),
/// kept with their values in order.
#[derive(Debug)]
pub struct McpServerConfig {
    pub server_type: String,
    pub url: Option<String>,
    pub command: Option<String>,
    pub args: Option<Vec<String>>,
    pub env: Option<Vec<(String, String)>>,
    pub auth: Option<String>,
    pub enabled: Option<bool>,
    pub raw_fields: Vec<(String, Json)>,
}

/// The mathematical view of a server entry.
pub struct McpServerConfigV {
    pub server_type: Seq<char>,
    pub url: Option<Seq<char>>,
    pub command: Option<Seq<char>>,
    pub args: Option<Seq<Seq<char>>>,
    pub env: Option<Seq<(Seq<char>, Seq<char>)>>,
    pub auth: Option<Seq<char>>,
    pub enabled: Option<bool>,
    pub raw_fields: Seq<(Seq<char>, JsonV)>,
}

/// The optional view of an optional list of strings.
pub open spec fn ostrs(o: Option<Vec<String>>) -> Option<Seq<Seq<char>>> {
    match o {
        Some(v) => Some(strs_view(v@)),
        None => None,
    }
}

/// The optional view of an optional list of string pairs.
pub open spec fn opairs(o: Option<Vec<(String, String)>>) -> Option<Seq<(Seq<char>, Seq<char>)>> {
    match o {
        Some(v) => Some(pairs_view(v@)),
        None => None,
    }
}

impl View for McpServerConfig {
    type V = McpServerConfigV;

    open spec fn view(&self) -> McpServerConfigV {
        McpServerConfigV {
            server_type: self.server_type@,
            url: ostring(self.url),
            command: ostring(self.command),
            args: ostrs(self.args),
            env: opairs(self.env),
            auth: ostring(self.auth),
            enabled: self.enabled,
            raw_fields: view_entries(self.raw_fields@),
        }
    }
}

/// The entries whose keys the configuration does not model, in order.
pub open spec fn raw_entries(es: Seq<(Seq<char>, JsonV)>) -> Seq<(Seq<char>, JsonV)>
    decreases es.len(),
{
    if es.len() == 0 {
        Seq::empty()
    } else {
        let r = raw_entries(es.drop_last());
        if known_key(es.last().0) {
            r
        } else {
            r.push(es.last())
        }
    }
}

/// The server entry that a value of the `mcp_servers:` block stands for:
/// its type is `server_type`, else `http` when it has a `url` and `stdio`
/// otherwise; the modelled fields are read when they have the right kind;
/// `args` keeps the string elements and `env` the string-valued entries.
pub open spec fn server_config_of(val: JsonV) -> McpServerConfigV {
    McpServerConfigV {
        server_type: match ostr(jget(val, "server_type"@)) {
            Some(s) => s,
            None => if jget(val, "url"@) is Some {
                "http"@
            } else {
                "stdio"@
            },
        },
        url: ostr(jget(val, "url"@)),
        command: ostr(jget(val, "command"@)),
        args: match oarray(jget(val, "args"@)) {
            Some(items) => Some(str_items(items)),
            None => None,
        },
        env: match jget(val, "env"@) {
            Some(JsonV::Object(es)) => Some(str_entries(es)),
            _ => None,
        },
        auth: ostr(jget(val, "auth"@)),
        enabled: obool(jget(val, "enabled"@)),
        raw_fields: match val {
            JsonV::Object(es) => raw_entries(es),
            _ => Seq::empty(),
        },
    }
}

/// The entries of the `mcp_servers:` block of a parsed configuration, in
/// order; none when the configuration could not be read or has no block.
pub open spec fn server_entries(config: Option<JsonV>) -> Seq<(Seq<char>, JsonV)> {
    match config {
        Some(c) => match jget(c, "mcp_servers"@) {
            Some(JsonV::Object(es)) => es,
            _ => Seq::empty(),
        },
        None => Seq::empty(),
    }
}

/// The named server entries of a parsed configuration.
pub open spec fn servers_of(config: Option<JsonV>) -> Seq<(Seq<char>, McpServerConfigV)> {
    server_entries(config).map_values(|e: (Seq<char>, JsonV)| (e.0, server_config_of(e.1)))
}

/// The views of named server entries.
pub open spec fn named_configs_view(v: Seq<(String, McpServerConfig)>) -> Seq<(Seq<char>, McpServerConfigV)> {
    v.map_values(|e: (String, McpServerConfig)| (e.0@, e.1@))
}

fn opt_string_field(val: &Json, key: &str) -> (r: Option<String>)
    ensures
        ostring(r) == ostr(jget(val@, key@)),
{
    match val.get(key) {
        Some(v) => opt_owned(v.as_str()),
        None => None,
    }
}

/// The raw fields of a server entry object.
fn raw_fields_of(es: &Vec<(String, Json)>) -> (r: Vec<(String, Json)>)
    ensures
        view_entries(r@) == raw_entries(view_entries(es@)),
{
    let ghost vs = view_entries(es@);
    proof {
        lemma_view_entries(es@);
    }
    let mut out: Vec<(String, Json)> = Vec::new();
    let mut i: usize = 0;
    while i < es.len()
        invariant
            i <= es@.len(),
            vs == view_entries(es@),
            vs.len() == es@.len(),
            forall|k: int| 0 <= k < es@.len() ==> #[trigger] vs[k] == (es@[k].0@, es@[k].1@),
            view_entries(out@) == raw_entries(vs.take(i as int)),
        decreases es@.len() - i,
    {
        assert(vs.take(i + 1).drop_last() =~= vs.take(i as int));
        assert(vs.take(i + 1).last() == vs[i as int]);
        let k = es[i].0.as_str();
        let known = str_eq(k, "server_type") || str_eq(k, "url") || str_eq(k, "command")
            || str_eq(k, "args") || str_eq(k, "env") || str_eq(k, "auth") || str_eq(k, "enabled");
        if !known {
            let ghost before = out@;
            let v = es[i].1.deep_clone();
            out.push((k.to_owned(), v));
            proof {
                lemma_view_entries(before);
                lemma_view_entries(out@);
                assert(view_entries(out@) =~= view_entries(before).push(vs[i as int]));
            }
        }
        i = i + 1;
    }
    assert(vs.take(es@.len() as int) =~= vs);
    out
}

/// The server entry that a value of the `mcp_servers:` block stands for
/// (see `server_config_of`).
pub fn server_config_from(val: &Json) -> (r: McpServerConfig)
    ensures
        r@ == server_config_of(val@),
{
    let server_type = match val.get("server_type") {
        Some(v) => match v.as_str() {
            Some(s) => s.to_owned(),
            None => if val.get("url").is_some() {
                "http".to_owned()
            } else {
                "stdio".to_owned()
            },
        },
        None => if val.get("url").is_some() {
            "http".to_owned()
        } else {
            "stdio".to_owned()
        },
    };
    let args = match val.get("args") {
        Some(a) => match a.as_array() {
            Some(items) => {
                let v = string_items(items);
                assert(strs_view(v@) =~= crate::json::strings_view(v@));
                Some(v)
            },
            None => None,
        },
        None => None,
    };
    assert(ostrs(args) == server_config_of(val@).args);
    let env = match val.get("env") {
        Some(e) => match e {
            Json::Object(_) => Some(str_entries_exec(e)),
            _ => None,
        },
        None => None,
    };
    assert(opairs(env) == server_config_of(val@).env);
    let enabled = match val.get("enabled") {
        Some(e) => e.as_bool(),
        None => None,
    };
    let raw_fields = match val {
        Json::Object(es) => raw_fields_of(es),
        _ => {
            let v: Vec<(String, Json)> = Vec::new();
            assert(view_entries(v@) =~= Seq::empty());
            v
        },
    };
    assert(enabled == server_config_of(val@).enabled);
    assert(view_entries(raw_fields@) == server_config_of(val@).raw_fields);
    assert(server_type@ == server_config_of(val@).server_type);
    McpServerConfig {
        server_type,
        url: opt_string_field(val, "url"),
        command: opt_string_field(val, "command"),
        args,
        env,
        auth: opt_string_field(val, "auth"),
        enabled,
        raw_fields,
    }
}

/// Reads the `mcp_servers:` block of a profile's config.yaml given its text
/// (absent when the file is): no servers when the text does not read as
/// YAML (see `config_yaml_json`).
pub fn read_mcp_servers_yaml(content: Option<&str>) -> (r: Vec<(String, McpServerConfig)>)
    ensures
        named_configs_view(r@) == servers_of(match crate::config::config_yaml_json(match content {
            Some(t) => Some(t@),
            None => None,
        }) {
            Ok(v) => Some(v),
            Err(_) => None::<JsonV>,
        }),
{
    match crate::config::read_config_yaml(content) {
        Ok(j) => read_mcp_servers(Some(&j)),
        Err(_) => read_mcp_servers(None),
    }
}

/// Reads the `mcp_servers:` block of a parsed configuration (absent when
/// it could not be read) into named server entries, in order.
pub fn read_mcp_servers(config: Option<&Json>) -> (r: Vec<(String, McpServerConfig)>)
    ensures
        named_configs_view(r@) == servers_of(match config {
            Some(c) => Some(c@),
            None => None::<JsonV>,
        }),
{
    let ghost cv = match config {
        Some(c) => Some(c@),
        None => None::<JsonV>,
    };
    let mut out: Vec<(String, McpServerConfig)> = Vec::new();
    let block = match config {
        Some(c) => c.get("mcp_servers"),
        None => None,
    };
    match block {
        Some(Json::Object(es)) => {
            let ghost vs = view_entries(es@);
            proof {
                lemma_view_entries(es@);
                assert(server_entries(cv) == vs);
            }
            let mut i: usize = 0;
            while i < es.len()
                invariant
                    i <= es@.len(),
                    vs == view_entries(es@),
                    vs.len() == es@.len(),
                    forall|k: int| 0 <= k < es@.len() ==> #[trigger] vs[k] == (es@[k].0@, es@[k].1@),
                    named_configs_view(out@) == vs.take(i as int).map_values(
                        |e: (Seq<char>, JsonV)| (e.0, server_config_of(e.1)),
                    ),
                decreases es@.len() - i,
            {
                let ghost before = out@;
                let cfg = server_config_from(&es[i].1);
                out.push((es[i].0.as_str().to_owned(), cfg));
                assert(named_configs_view(out@) =~= named_configs_view(before).push(
                    (vs[i as int].0, server_config_of(vs[i as int].1)),
                ));
                assert(vs.take(i + 1).map_values(|e: (Seq<char>, JsonV)| (e.0, server_config_of(e.1)))
                    =~= vs.take(i as int).map_values(|e: (Seq<char>, JsonV)| (e.0, server_config_of(e.1))).push(
                    (vs[i as int].0, server_config_of(vs[i as int].1)),
                ));
                i = i + 1;
            }
            assert(vs.take(es@.len() as int) =~= vs);
            out
        },
        _ => {
            assert(named_configs_view(out@) =~= servers_of(cv));
            out
        },
    }
}

/// A server as the management view lists it.
#[derive(Debug)]
pub struct McpServer {
    pub name: String,
    /// `http`, `stdio` or another declared type.
    pub server_type: String,
    pub transport: String,
    pub enabled: bool,
    /// The URL of an HTTP server, else its command.
    pub detail: String,
    pub url: Option<String>,
    pub command: Option<String>,
    pub args: Vec<String>,
    pub env: Vec<(String, String)>,
    pub auth: Option<String>,
    pub tools: Option<Json>,
    /// The entries that the configuration does not model, for display.
    pub raw_fields: Vec<(String, Json)>,
}

/// The mathematical view of a listed server.
pub struct McpServerV {
    pub name: Seq<char>,
    pub server_type: Seq<char>,
    pub transport: Seq<char>,
    pub enabled: bool,
    pub detail: Seq<char>,
    pub url: Option<Seq<char>>,
    pub command: Option<Seq<char>>,
    pub args: Seq<Seq<char>>,
    pub env: Seq<(Seq<char>, Seq<char>)>,
    pub auth: Option<Seq<char>>,
    pub tools: Option<JsonV>,
    pub raw_fields: Seq<(Seq<char>, JsonV)>,
}

impl View for McpServer {
    type V = McpServerV;

    open spec fn view(&self) -> McpServerV {
        McpServerV {
            name: self.name@,
            server_type: self.server_type@,
            transport: self.transport@,
            enabled: self.enabled,
            detail: self.detail@,
            url: ostring(self.url),
            command: ostring(self.command),
            args: strs_view(self.args@),
            env: pairs_view(self.env@),
            auth: ostring(self.auth),
            tools: match self.tools {
                Some(t) => Some(t@),
                None => None,
            },
            raw_fields: view_entries(self.raw_fields@),
        }
    }
}

/// The URL, else the command, else nothing.
pub open spec fn detail_of(url: Option<Seq<char>>, command: Option<Seq<char>>) -> Seq<char> {
    match url {
        Some(u) => u,
        None => match command {
            Some(c) => c,
            None => Seq::empty(),
        },
    }
}

/// How a named server entry is listed: enabled unless it says otherwise,
/// with no arguments or environment when it has none.
pub open spec fn listed_server(name: Seq<char>, c: McpServerConfigV) -> McpServerV {
    McpServerV {
        name,
        server_type: c.server_type,
        transport: c.server_type,
        enabled: match c.enabled {
            Some(b) => b,
            None => true,
        },
        detail: detail_of(c.url, c.command),
        url: c.url,
        command: c.command,
        args: match c.args {
            Some(a) => a,
            None => Seq::empty(),
        },
        env: match c.env {
            Some(e) => e,
            None => Seq::empty(),
        },
        auth: c.auth,
        tools: None,
        raw_fields: c.raw_fields,
    }
}

/// The views of listed servers.
pub open spec fn servers_view(v: Seq<McpServer>) -> Seq<McpServerV> {
    v.map_values(|s: McpServer| s@)
}

fn detail_from(url: &Option<String>, command: &Option<String>) -> (r: String)
    ensures
        r@ == detail_of(ostring(*url), ostring(*command)),
{
    match url {
        Some(u) => u.as_str().to_owned(),
        None => match command {
            Some(c) => c.as_str().to_owned(),
            None => String::new(),
        },
    }
}

pub fn strings_or_empty(o: &Option<Vec<String>>) -> (r: Vec<String>)
    ensures
        strs_view(r@) == (match ostrs(*o) {
            Some(a) => a,
            None => Seq::empty(),
        }),
{
    match o {
        Some(v) => {
            let c = copy_strings(v);
            assert(strs_view(c@) =~= strings_view(c@));
            assert(strs_view(v@) =~= strings_view(v@));
            c
        },
        None => {
            let v: Vec<String> = Vec::new();
            assert(strs_view(v@) =~= Seq::empty());
            v
        },
    }
}

pub fn pairs_or_empty(o: &Option<Vec<(String, String)>>) -> (r: Vec<(String, String)>)
    ensures
        pairs_view(r@) == (match opairs(*o) {
            Some(a) => a,
            None => Seq::empty(),
        }),
{
    match o {
        Some(v) => copy_pairs(v),
        None => {
            let v: Vec<(String, String)> = Vec::new();
            assert(pairs_view(v@) =~= Seq::empty());
            v
        },
    }
}

/// How one named server entry is listed (see `listed_server`).
pub fn list_entry(name: &str, c: &McpServerConfig) -> (r: McpServer)
    ensures
        r@ == listed_server(name@, c@),
{
    McpServer {
        name: name.to_owned(),
        server_type: c.server_type.as_str().to_owned(),
        transport: c.server_type.as_str().to_owned(),
        enabled: match c.enabled {
            Some(b) => b,
            None => true,
        },
        detail: detail_from(&c.url, &c.command),
        url: clone_opt(&c.url),
        command: clone_opt(&c.command),
        args: strings_or_empty(&c.args),
        env: pairs_or_empty(&c.env),
        auth: clone_opt(&c.auth),
        tools: None,
        raw_fields: copy_entries(&c.raw_fields),
    }
}

/// Lists the configured servers, in the order of the configuration.
pub fn list_mcp_servers(servers: &Vec<(String, McpServerConfig)>) -> (r: Vec<McpServer>)
    ensures
        servers_view(r@) == named_configs_view(servers@).map_values(
            |e: (Seq<char>, McpServerConfigV)| listed_server(e.0, e.1),
        ),
{
    let ghost vs = named_configs_view(servers@);
    let mut out: Vec<McpServer> = Vec::new();
    let mut i: usize = 0;
    while i < servers.len()
        invariant
            i <= servers@.len(),
            vs == named_configs_view(servers@),
            vs.len() == servers@.len(),
            servers_view(out@) == vs.take(i as int).map_values(
                |e: (Seq<char>, McpServerConfigV)| listed_server(e.0, e.1),
            ),
        decreases servers@.len() - i,
    {
        let ghost before = out@;
        let s = list_entry(servers[i].0.as_str(), &servers[i].1);
        out.push(s);
        assert(servers_view(out@) =~= servers_view(before).push(listed_server(vs[i as int].0, vs[i as int].1)));
        assert(vs.take(i + 1).map_values(|e: (Seq<char>, McpServerConfigV)| listed_server(e.0, e.1))
            =~= vs.take(i as int).map_values(|e: (Seq<char>, McpServerConfigV)| listed_server(e.0, e.1)).push(
            listed_server(vs[i as int].0, vs[i as int].1),
        ));
        i = i + 1;
    }
    assert(vs.take(servers@.len() as int) =~= vs);
    out
}

// ── Line-based editing ────────────────────────────────────────────────────

/// The lines of a text, as character vectors.
pub fn text_lines(content: &str) -> (r: Vec<Vec<char>>)
    ensures
        lines_view(r@) == lines_of(content@),
{
    let ls = lines(&chars_of(content));
    assert(lines_view(ls@) =~= lines_of(content@));
    ls
}

/// The lines joined with newlines, with a final newline.
pub fn finish_lines(ls: &Vec<Vec<char>>) -> (r: String)
    ensures
        r@ == join_nl(lines_view(ls@)) + seq!['\n'],
{
    let mut joined = join_lines(ls);
    assert(Seq::new(ls@.len(), |i: int| ls@[i]@) =~= lines_view(ls@));
    joined.push('\n');
    string_from_chars(joined.as_slice())
}

/// Appends copies of the lines `a..b` of `src`.
pub fn push_lines(out: &mut Vec<Vec<char>>, src: &Vec<Vec<char>>, a: usize, b: usize)
    requires
        a <= b <= src@.len(),
    ensures
        lines_view(final(out)@) == lines_view(old(out)@) + lines_view(src@).subrange(a as int, b as int),
{
    let mut i = a;
    while i < b
        invariant
            a <= i <= b,
            b <= src@.len(),
            lines_view(out@) == lines_view(old(out)@) + lines_view(src@).subrange(a as int, i as int),
        decreases b - i,
    {
        let ghost before = lines_view(out@);
        let l = sub_chars(src[i].as_slice(), 0, src[i].len());
        assert(l@ =~= src@[i as int]@);
        out.push(l);
        assert(lines_view(out@) =~= before.push(src@[i as int]@));
        assert(lines_view(src@).subrange(a as int, i + 1) =~= lines_view(src@).subrange(a as int, i as int).push(src@[i as int]@));
        i = i + 1;
    }
}

/// Appends one line.
pub fn push_line(out: &mut Vec<Vec<char>>, line: Vec<char>)
    ensures
        lines_view(final(out)@) == lines_view(old(out)@).push(line@),
{
    let ghost l = line@;
    out.push(line);
    assert(lines_view(out@) =~= lines_view(old(out)@).push(l));
}

/// A text in double quotes.
pub open spec fn quoted(s: Seq<char>) -> Seq<char> {
    seq!['"'] + s + seq!['"']
}

/// Quoted texts joined with `", "`.
pub open spec fn quoted_list(items: Seq<Seq<char>>) -> Seq<char>
    decreases items.len(),
{
    if items.len() == 0 {
        Seq::empty()
    } else if items.len() == 1 {
        quoted(items[0])
    } else {
        quoted_list(items.drop_last()) + ", "@ + quoted(items.last())
    }
}

/// The line `label"value"` for a non-empty value; nothing otherwise.
pub open spec fn field_line(o: Option<Seq<char>>, label: Seq<char>) -> Seq<Seq<char>> {
    match o {
        Some(v) => if v.len() > 0 {
            seq![label + quoted(v)]
        } else {
            Seq::empty()
        },
        None => Seq::empty(),
    }
}

/// The `args:` line, in flow style, for a non-empty argument list.
pub open spec fn args_line(o: Option<Seq<Seq<char>>>) -> Seq<Seq<char>> {
    match o {
        Some(a) => if a.len() > 0 {
            seq!["    args: ["@ + quoted_list(a) + "]"@]
        } else {
            Seq::empty()
        },
        None => Seq::empty(),
    }
}

/// A quoted `key: "value"` line of an `env:` block, six spaces in.
pub open spec fn env_var_line(k: Seq<char>, v: Seq<char>) -> Seq<char> {
    "      "@ + k + ": "@ + quoted(v)
}

/// The `env:` block for a non-empty environment.
pub open spec fn env_lines(o: Option<Seq<(Seq<char>, Seq<char>)>>) -> Seq<Seq<char>> {
    match o {
        Some(e) => if e.len() > 0 {
            seq!["    env:"@] + Seq::new(e.len(), |i: int| env_var_line(e[i].0, e[i].1))
        } else {
            Seq::empty()
        },
        None => Seq::empty(),
    }
}

/// A server to add.
#[derive(Debug, Clone, PartialEq, Eq)]
pub struct McpServerInput {
    pub name: String,
    /// `http` or `stdio`.
    pub server_type: String,
    pub url: Option<String>,
    pub command: Option<String>,
    pub args: Option<Vec<String>>,
    pub env: Option<Vec<(String, String)>>,
    pub auth: Option<String>,
}

/// The mathematical view of a server to add.
pub struct McpServerInputV {
    pub name: Seq<char>,
    pub server_type: Seq<char>,
    pub url: Option<Seq<char>>,
    pub command: Option<Seq<char>>,
    pub args: Option<Seq<Seq<char>>>,
    pub env: Option<Seq<(Seq<char>, Seq<char>)>>,
    pub auth: Option<Seq<char>>,
}

impl View for McpServerInput {
    type V = McpServerInputV;

    open spec fn view(&self) -> McpServerInputV {
        McpServerInputV {
            name: self.name@,
            server_type: self.server_type@,
            url: ostring(self.url),
            command: ostring(self.command),
            args: ostrs(self.args),
            env: opairs(self.env),
            auth: ostring(self.auth),
        }
    }
}

/// The YAML lines of a new server entry: its name two spaces in, then its
/// non-empty fields four spaces in, values quoted.
pub open spec fn server_block(i: McpServerInputV) -> Seq<Seq<char>> {
    seq!["  "@ + i.name + ":"@] + field_line(i.url, "    url: "@) + field_line(i.command, "    command: "@)
        + args_line(i.args) + env_lines(i.env) + field_line(i.auth, "    auth: "@)
}

/// Whether a line opens the `mcp_servers:` block.
pub open spec fn opens_servers(l: Seq<char>) -> bool {
    starts_with(trim_start(l), "mcp_servers:"@)
}

/// The first line at or after `k` that opens the `mcp_servers:` block.
pub open spec fn servers_header_from(ls: Seq<Seq<char>>, k: int) -> Option<int>
    decreases ls.len() - k,
{
    if k < 0 || k >= ls.len() {
        None
    } else if opens_servers(ls[k]) {
        Some(k)
    } else {
        servers_header_from(ls, k + 1)
    }
}

/// The text after a new server entry is written into a configuration:
/// right after the first `mcp_servers:` line, else at the end under a new
/// `mcp_servers:` line (after a blank line when the text does not end
/// with one); every other line is kept.
pub open spec fn with_server_block(content: Seq<char>, input: McpServerInputV) -> Seq<char> {
    let ls = lines_of(content);
    let b = server_block(input);
    let out = match servers_header_from(ls, 0) {
        Some(h) => ls.take(h + 1) + b + ls.skip(h + 1),
        None => (if ls.len() > 0 && ls.last().len() > 0 {
            ls.push(Seq::empty())
        } else {
            ls
        }).push("mcp_servers:"@) + b,
    };
    join_nl(out) + seq!['\n']
}

fn quoted_chars(s: &str) -> (r: Vec<char>)
    ensures
        r@ == quoted(s@),
{
    let mut v: Vec<char> = Vec::new();
    v.push('"');
    append_chars(&mut v, chars_of(s).as_slice());
    v.push('"');
    assert(v@ =~= quoted(s@));
    v
}

fn labeled_line(label: &str, value: &str) -> (r: Vec<char>)
    ensures
        r@ == label@ + quoted(value@),
{
    let mut v = chars_of(label);
    append_chars(&mut v, quoted_chars(value).as_slice());
    v
}

fn quoted_list_chars(items: &Vec<String>) -> (r: Vec<char>)
    ensures
        r@ == quoted_list(strs_view(items@)),
{
    let ghost vs = strs_view(items@);
    let mut out: Vec<char> = Vec::new();
    let mut i: usize = 0;
    while i < items.len()
        invariant
            i <= items@.len(),
            vs == strs_view(items@),
            out@ == quoted_list(vs.take(i as int)),
        decreases items@.len() - i,
    {
        assert(vs.take(i + 1).drop_last() =~= vs.take(i as int));
        if i > 0 {
            append_chars(&mut out, chars_of(", ").as_slice());
        }
        append_chars(&mut out, quoted_chars(items[i].as_str()).as_slice());
        i = i + 1;
        if i == 1 {
            assert(out@ =~= quoted_list(vs.take(i as int)));
        } else {
            assert(out@ =~= quoted_list(vs.take(i as int)));
        }
    }
    assert(vs.take(items@.len() as int) =~= vs);
    out
}

fn push_field_line(out: &mut Vec<Vec<char>>, o: &Option<String>, label: &str)
    ensures
        lines_view(final(out)@) == lines_view(old(out)@) + field_line(ostring(*o), label@),
{
    match o {
        Some(v) => {
            if v.unicode_len() > 0 {
                push_line(out, labeled_line(label, v.as_str()));
                assert(lines_view(out@) =~= lines_view(old(out)@) + field_line(ostring(*o), label@));
            } else {
                assert(lines_view(out@) =~= lines_view(old(out)@) + field_line(ostring(*o), label@));
            }
        },
        None => {
            assert(lines_view(out@) =~= lines_view(old(out)@) + field_line(ostring(*o), label@));
        },
    }
}

fn push_env_lines(out: &mut Vec<Vec<char>>, o: &Option<Vec<(String, String)>>)
    ensures
        lines_view(final(out)@) == lines_view(old(out)@) + env_lines(opairs(*o)),
{
    match o {
        Some(e) => {
            if e.len() > 0 {
                push_line(out, chars_of("    env:"));
                let ghost base = lines_view(out@);
                let ghost pv = pairs_view(e@);
                let mut i: usize = 0;
                while i < e.len()
                    invariant
                        i <= e@.len(),
                        pv == pairs_view(e@),
                        lines_view(out@) == base + Seq::new(i as nat, |j: int| env_var_line(pv[j].0, pv[j].1)),
                    decreases e@.len() - i,
                {
                    let mut l = chars_of("      ");
                    append_chars(&mut l, chars_of(e[i].0.as_str()).as_slice());
                    append_chars(&mut l, chars_of(": ").as_slice());
                    append_chars(&mut l, quoted_chars(e[i].1.as_str()).as_slice());
                    assert(l@ =~= env_var_line(pv[i as int].0, pv[i as int].1));
                    push_line(out, l);
                    i = i + 1;
                    assert(lines_view(out@) =~= base + Seq::new(i as nat, |j: int| env_var_line(pv[j].0, pv[j].1)));
                }
                assert(lines_view(out@) =~= lines_view(old(out)@) + env_lines(opairs(*o)));
            } else {
                assert(lines_view(out@) =~= lines_view(old(out)@) + env_lines(opairs(*o)));
            }
        },
        None => {
            assert(lines_view(out@) =~= lines_view(old(out)@) + env_lines(opairs(*o)));
        },
    }
}

/// The YAML lines of a new server entry (see `server_block`).
pub fn server_block_lines(input: &McpServerInput) -> (r: Vec<Vec<char>>)
    ensures
        lines_view(r@) == server_block(input@),
{
    let mut out: Vec<Vec<char>> = Vec::new();
    let mut first = chars_of("  ");
    append_chars(&mut first, chars_of(input.name.as_str()).as_slice());
    first.push(':');
    assert(first@ =~= "  "@ + input.name@ + ":"@) by {
        reveal_strlit(":");
    }
    push_line(&mut out, first);
    let ghost l0 = lines_view(out@);
    push_field_line(&mut out, &input.url, "    url: ");
    push_field_line(&mut out, &input.command, "    command: ");
    let ghost l2 = lines_view(out@);
    match &input.args {
        Some(a) => {
            if a.len() > 0 {
                let mut l = chars_of("    args: [");
                append_chars(&mut l, quoted_list_chars(a).as_slice());
                l.push(']');
                assert(l@ =~= "    args: ["@ + quoted_list(strs_view(a@)) + "]"@) by {
                    reveal_strlit("]");
                }
                push_line(&mut out, l);
            }
        },
        None => {},
    }
    assert(lines_view(out@) =~= l2 + args_line(input@.args));
    push_env_lines(&mut out, &input.env);
    push_field_line(&mut out, &input.auth, "    auth: ");
    assert(lines_view(out@) =~= server_block(input@));
    out
}

/// The first line that opens the `mcp_servers:` block.
pub fn find_servers_header(ls: &Vec<Vec<char>>) -> (r: Option<usize>)
    ensures
        match r {
            Some(i) => i < ls@.len() && servers_header_from(lines_view(ls@), 0) == Some(i as int),
            None => servers_header_from(lines_view(ls@), 0) is None,
        },
{
    let ghost lv = lines_view(ls@);
    let hdr = chars_of("mcp_servers:");
    let mut i: usize = 0;
    while i < ls.len()
        invariant
            i <= ls@.len(),
            lv == lines_view(ls@),
            hdr@ == "mcp_servers:"@,
            servers_header_from(lv, 0) == servers_header_from(lv, i as int),
        decreases ls@.len() - i,
    {
        let (t, _) = trim_start_chars(ls[i].as_slice());
        if starts_with_chars(t.as_slice(), hdr.as_slice()) {
            return Some(i);
        }
        i = i + 1;
    }
    None
}

/// Writes a new server entry into a configuration text (see
/// `with_server_block`).
pub fn insert_server_block(content: &str, input: &McpServerInput) -> (r: String)
    ensures
        r@ == with_server_block(content@, input@),
{
    let ls = text_lines(content);
    let block = server_block_lines(input);
    let mut out: Vec<Vec<char>> = Vec::new();
    match find_servers_header(&ls) {
        Some(h) => {
            assert(h < ls.len());
            push_lines(&mut out, &ls, 0, h + 1);
            push_lines(&mut out, &block, 0, block.len());
            push_lines(&mut out, &ls, h + 1, ls.len());
            assert(lines_view(block@).subrange(0, block@.len() as int) =~= lines_view(block@));
            assert(lines_view(ls@).subrange(0, h + 1) =~= lines_view(ls@).take(h + 1));
            assert(lines_view(ls@).subrange(h + 1, ls@.len() as int) =~= lines_view(ls@).skip(h + 1));
            assert(lines_view(out@) =~= lines_view(ls@).take(h + 1) + server_block(input@) + lines_view(ls@).skip(h + 1));
        },
        None => {
            push_lines(&mut out, &ls, 0, ls.len());
            assert(lines_view(ls@).subrange(0, ls@.len() as int) =~= lines_view(ls@));
            if ls.len() > 0 && ls[ls.len() - 1].len() > 0 {
                push_line(&mut out, Vec::new());
            }
            push_line(&mut out, chars_of("mcp_servers:"));
            push_lines(&mut out, &block, 0, block.len());
            assert(lines_view(block@).subrange(0, block@.len() as int) =~= lines_view(block@));
        },
    }
    finish_lines(&out)
}

/// A blank line: nothing but whitespace.
pub open spec fn blank(l: Seq<char>) -> bool {
    trim(l).len() == 0
}

/// The line that opens the entry of server `name`: `name:` two spaces in.
pub open spec fn is_server_line(l: Seq<char>, name: Seq<char>) -> bool {
    &&& trim_start(l) == name + ":"@
    &&& starts_with(l, "  "@)
    &&& !starts_with(l, "   "@)
}

/// The first line at or after `k` that opens the entry of server `name`.
pub open spec fn server_line_from(ls: Seq<Seq<char>>, name: Seq<char>, k: int) -> Option<int>
    decreases ls.len() - k,
{
    if k < 0 || k >= ls.len() {
        None
    } else if is_server_line(ls[k], name) {
        Some(k)
    } else {
        server_line_from(ls, name, k + 1)
    }
}

/// Where a block that starts before line `k` ends: the first non-blank
/// line at or after `k` indented by at most `ind` bytes, else the end.
pub open spec fn block_end_from(ls: Seq<Seq<char>>, k: int, ind: nat) -> int
    decreases ls.len() - k,
{
    if k >= ls.len() {
        ls.len() as int
    } else if !blank(ls[k]) && indent_bytes(ls[k]) <= ind {
        k
    } else {
        block_end_from(ls, k + 1, ind)
    }
}

/// The text without the entry of server `name` (its line and the lines
/// below it up to the next line indented by at most two bytes), or the
/// error when the text has no such entry.
pub open spec fn without_server(content: Seq<char>, name: Seq<char>) -> Result<Seq<char>, Seq<char>> {
    let ls = lines_of(content);
    match server_line_from(ls, name, 0) {
        None => Err("Server '"@ + name + "' not found"@),
        Some(i) => Ok(join_nl(ls.take(i) + ls.skip(block_end_from(ls, i + 1, 2))) + seq!['\n']),
    }
}

/// Whether a line is blank.
pub fn is_blank(l: &Vec<char>) -> (r: bool)
    ensures
        r == blank(l@),
{
    trim_chars(l).len() == 0
}

fn is_server_line_exec(l: &Vec<char>, entry: &Vec<char>) -> (r: bool)
    ensures
        r == (trim_start(l@) == entry@ && starts_with(l@, "  "@) && !starts_with(l@, "   "@)),
{
    let (t, _) = trim_start_chars(l.as_slice());
    chars_eq(t.as_slice(), entry.as_slice()) && starts_with_chars(l.as_slice(), chars_of("  ").as_slice())
        && !starts_with_chars(l.as_slice(), chars_of("   ").as_slice())
}

/// The first line that opens the entry of server `name`.
pub fn find_server_line(ls: &Vec<Vec<char>>, name: &str) -> (r: Option<usize>)
    ensures
        match r {
            Some(i) => i < ls@.len() && server_line_from(lines_view(ls@), name@, 0) == Some(i as int),
            None => server_line_from(lines_view(ls@), name@, 0) is None,
        },
{
    let ghost lv = lines_view(ls@);
    let mut entry = chars_of(name);
    entry.push(':');
    assert(entry@ =~= name@ + ":"@) by {
        reveal_strlit(":");
    }
    let mut i: usize = 0;
    while i < ls.len()
        invariant
            i <= ls@.len(),
            lv == lines_view(ls@),
            entry@ == name@ + ":"@,
            server_line_from(lv, name@, 0) == server_line_from(lv, name@, i as int),
        decreases ls@.len() - i,
    {
        if is_server_line_exec(&ls[i], &entry) {
            return Some(i);
        }
        i = i + 1;
    }
    None
}

/// Where the block that starts before line `k` ends (see `block_end_from`).
pub fn find_block_end(ls: &Vec<Vec<char>>, k: usize, ind: u128) -> (r: usize)
    requires
        k <= ls@.len(),
    ensures
        k <= r <= ls@.len(),
        r as int == block_end_from(lines_view(ls@), k as int, ind as nat),
{
    let ghost lv = lines_view(ls@);
    let mut j = k;
    while j < ls.len()
        invariant
            k <= j <= ls@.len(),
            lv == lines_view(ls@),
            block_end_from(lv, k as int, ind as nat) == block_end_from(lv, j as int, ind as nat),
        decreases ls@.len() - j,
    {
        if !is_blank(&ls[j]) {
            let (_, b) = trim_start_chars(ls[j].as_slice());
            if b <= ind {
                return j;
            }
        }
        j = j + 1;
    }
    j
}

/// Removes the entry of server `name` from a configuration text (see
/// `without_server`).
pub fn remove_server_block(content: &str, name: &str) -> (r: Result<String, String>)
    ensures
        match r {
            Ok(t) => without_server(content@, name@) == Ok::<Seq<char>, Seq<char>>(t@),
            Err(e) => without_server(content@, name@) == Err::<Seq<char>, Seq<char>>(e@),
        },
{
    let ls = text_lines(content);
    match find_server_line(&ls, name) {
        None => Err("Server '".to_owned().concat(name).concat("' not found")),
        Some(i) => {
            assert(i < ls.len());
            let end = find_block_end(&ls, i + 1, 2);
            let mut out: Vec<Vec<char>> = Vec::new();
            push_lines(&mut out, &ls, 0, i);
            push_lines(&mut out, &ls, end, ls.len());
            assert(lines_view(ls@).subrange(0, i as int) =~= lines_view(ls@).take(i as int));
            assert(lines_view(ls@).subrange(end as int, ls@.len() as int) =~= lines_view(ls@).skip(end as int));
            Ok(finish_lines(&out))
        },
    }
}

/// The `enabled:` line of a server entry.
pub open spec fn enabled_line(enabled: bool) -> Seq<char> {
    "    enabled: "@ + if enabled { "true"@ } else { "false"@ }
}

/// The first line from `k` up to (not including) `hi` whose left-trimmed
/// text starts with `enabled:`.
pub open spec fn enabled_from(ls: Seq<Seq<char>>, k: int, hi: int) -> Option<int>
    decreases hi - k,
{
    if k < 0 || k >= hi || k >= ls.len() {
        None
    } else if starts_with(trim_start(ls[k]), "enabled:"@) {
        Some(k)
    } else {
        enabled_from(ls, k + 1, hi)
    }
}

/// The text after server `name` is marked enabled or disabled inside its
/// own entry under `mcp_servers:`: the entry's first `enabled:` line is
/// rewritten, or, when it has none, an `enabled:` line is added at the end
/// of the entry; every other line is kept. A text without an entry for the
/// server is returned as it is.
pub open spec fn with_server_enabled(content: Seq<char>, name: Seq<char>, enabled: bool) -> Seq<char> {
    let ls = lines_of(content);
    match server_line_from(ls, name, 0) {
        None => content,
        Some(i) => {
            let end = block_end_from(ls, i + 1, 2);
            match enabled_from(ls, i + 1, end) {
                Some(k) => join_nl(ls.update(k, enabled_line(enabled))) + seq!['\n'],
                None => join_nl(ls.take(end) + seq![enabled_line(enabled)] + ls.skip(end)) + seq!['\n'],
            }
        },
    }
}

fn find_enabled(ls: &Vec<Vec<char>>, lo: usize, hi: usize) -> (r: Option<usize>)
    requires
        lo <= hi <= ls@.len(),
    ensures
        match r {
            Some(k) => lo <= k < hi && enabled_from(lines_view(ls@), lo as int, hi as int) == Some(k as int),
            None => enabled_from(lines_view(ls@), lo as int, hi as int) is None,
        },
{
    let ghost lv = lines_view(ls@);
    let key = chars_of("enabled:");
    let mut k = lo;
    while k < hi
        invariant
            lo <= k <= hi <= ls@.len(),
            lv == lines_view(ls@),
            key@ == "enabled:"@,
            enabled_from(lv, lo as int, hi as int) == enabled_from(lv, k as int, hi as int),
        decreases hi - k,
    {
        let (t, _) = trim_start_chars(ls[k].as_slice());
        if starts_with_chars(t.as_slice(), key.as_slice()) {
            return Some(k);
        }
        k = k + 1;
    }
    None
}

/// Marks server `name` enabled or disabled in a configuration text (see
/// `with_server_enabled`).
pub fn set_server_enabled(content: &str, name: &str, enabled: bool) -> (r: String)
    ensures
        r@ == with_server_enabled(content@, name@, enabled),
{
    let ls = text_lines(content);
    let ghost lv = lines_view(ls@);
    let line = chars_of(if enabled { "    enabled: true" } else { "    enabled: false" });
    proof {
        reveal_strlit("    enabled: true");
        reveal_strlit("    enabled: false");
        reveal_strlit("    enabled: ");
        reveal_strlit("true");
        reveal_strlit("false");
        assert(line@ =~= enabled_line(enabled));
    }
    match find_server_line(&ls, name) {
        None => content.to_owned(),
        Some(i) => {
            assert(i < ls.len());
            let end = find_block_end(&ls, i + 1, 2);
            match find_enabled(&ls, i + 1, end) {
                Some(k) => {
                    let mut out: Vec<Vec<char>> = Vec::new();
                    push_lines(&mut out, &ls, 0, k);
                    push_line(&mut out, line);
                    push_lines(&mut out, &ls, k + 1, ls.len());
                    assert(lines_view(out@) =~= lv.update(k as int, enabled_line(enabled)));
                    finish_lines(&out)
                },
                None => {
                    let mut out: Vec<Vec<char>> = Vec::new();
                    push_lines(&mut out, &ls, 0, end);
                    push_line(&mut out, line);
                    push_lines(&mut out, &ls, end, ls.len());
                    assert(lv.subrange(0, end as int) =~= lv.take(end as int));
                    assert(lv.subrange(end as int, ls@.len() as int) =~= lv.skip(end as int));
                    assert(lines_view(out@) =~= lv.take(end as int) + seq![enabled_line(enabled)] + lv.skip(end as int));
                    finish_lines(&out)
                },
            }
        },
    }
}

/// The `env:` line of the entry whose field lines start at line `k`:
/// blank lines are skipped and a line indented by at most two bytes ends
/// the entry.
pub open spec fn env_header_from(ls: Seq<Seq<char>>, k: int) -> Option<int>
    decreases ls.len() - k,
{
    if k < 0 || k >= ls.len() {
        None
    } else if blank(ls[k]) {
        env_header_from(ls, k + 1)
    } else if indent_bytes(ls[k]) <= 2 {
        None
    } else if starts_with(trim_start(ls[k]), "env:"@) {
        Some(k)
    } else {
        env_header_from(ls, k + 1)
    }
}

/// A line of an `env:` block indented by `ind` bytes, with its value
/// rewritten when the first variable whose name and `:` start the line
/// is found: the variable's quoted value, `ind + 2` spaces in.
pub open spec fn env_rewrite(l: Seq<char>, env: Seq<(Seq<char>, Seq<char>)>, ind: nat) -> Seq<char> {
    if !blank(l) && first_key_match(env, trim_start(l)) is Some {
        let m = first_key_match(env, trim_start(l))->0;
        kv_line(ind + 2, env[m].0, quoted(env[m].1))
    } else {
        l
    }
}

/// The lines with those strictly between `ei` and `end` rewritten.
pub open spec fn rewrite_env_block(
    ls: Seq<Seq<char>>,
    ei: int,
    end: int,
    env: Seq<(Seq<char>, Seq<char>)>,
    ind: nat,
) -> Seq<Seq<char>> {
    Seq::new(ls.len(), |j: int| if ei < j < end { env_rewrite(ls[j], env, ind) } else { ls[j] })
}

/// The variable names that the rewrite sets on the lines `lo..n`, in order.
pub open spec fn env_keys_set(ls: Seq<Seq<char>>, lo: int, n: int, env: Seq<(Seq<char>, Seq<char>)>) -> Seq<Seq<char>>
    decreases n - lo,
{
    if n <= lo {
        Seq::empty()
    } else {
        let prev = env_keys_set(ls, lo, n - 1, env);
        let l = ls[n - 1];
        if !blank(l) && first_key_match(env, trim_start(l)) is Some {
            prev.push(env[first_key_match(env, trim_start(l))->0].0)
        } else {
            prev
        }
    }
}

/// The end of the children of an `env:` line that come before `k`: the
/// first line at or after `k` that is blank or indented by at most four
/// bytes, else the end.
pub open spec fn children_end(ls: Seq<Seq<char>>, k: int) -> int
    decreases ls.len() - k,
{
    if k >= ls.len() {
        ls.len() as int
    } else if blank(ls[k]) || indent_bytes(ls[k]) <= 4 {
        k
    } else {
        children_end(ls, k + 1)
    }
}

/// The quoted variable lines of an `env:` block.
pub open spec fn env_var_lines(kvs: Seq<(Seq<char>, Seq<char>)>) -> Seq<Seq<char>> {
    Seq::new(kvs.len(), |i: int| env_var_line(kvs[i].0, kvs[i].1))
}

/// The lines with the variables added after the children of the `env:`
/// line `h`.
pub open spec fn with_env_vars(ls: Seq<Seq<char>>, h: int, kvs: Seq<(Seq<char>, Seq<char>)>) -> Seq<Seq<char>> {
    let at = children_end(ls, h + 1);
    ls.take(at) + env_var_lines(kvs) + ls.skip(at)
}

/// The lines after the environment of the entry whose name is on line
/// `s` is updated: inside its `env:` block, lines that start with a
/// variable's name are rewritten; the variables that were not found are
/// added at the end of the block, under a new `env:` line right below the
/// entry's name when it has none.
pub open spec fn env_edit_lines(ls: Seq<Seq<char>>, s: int, env: Seq<(Seq<char>, Seq<char>)>) -> Seq<Seq<char>> {
    match env_header_from(ls, s + 1) {
        Some(ei) => {
            let ind = indent_bytes(ls[ei]);
            let end = block_end_from(ls, ei + 1, ind);
            let mid = rewrite_env_block(ls, ei, end, env, ind);
            let miss = missing_pairs(env, env_keys_set(ls, ei + 1, end, env));
            if miss.len() == 0 {
                mid
            } else {
                with_env_vars(mid, ei, miss)
            }
        },
        None => {
            let miss = missing_pairs(env, Seq::empty());
            if miss.len() == 0 {
                ls
            } else {
                with_env_vars(ls.insert(s + 1, "    env:"@), s + 1, miss)
            }
        },
    }
}

/// The text after the variables `env` are written into the `env:` block
/// of server `name`, every other line kept; the error when the text has
/// no entry for the server.
pub open spec fn with_server_env(content: Seq<char>, name: Seq<char>, env: Seq<(Seq<char>, Seq<char>)>) -> Result<
    Seq<char>,
    Seq<char>,
> {
    let ls = lines_of(content);
    match server_line_from(ls, name, 0) {
        None => Err("Server '"@ + name + "' not found in config.yaml"@),
        Some(s) => Ok(join_nl(env_edit_lines(ls, s, env)) + seq!['\n']),
    }
}

/// The `env:` line of the entry whose field lines start at line `k`.
pub fn find_env_header(ls: &Vec<Vec<char>>, k: usize) -> (r: Option<usize>)
    ensures
        match r {
            Some(i) => k <= i < ls@.len() && env_header_from(lines_view(ls@), k as int) == Some(i as int),
            None => env_header_from(lines_view(ls@), k as int) is None,
        },
{
    let ghost lv = lines_view(ls@);
    let env_hdr = chars_of("env:");
    let mut j = k;
    while j < ls.len()
        invariant
            k <= j,
            lv == lines_view(ls@),
            env_hdr@ == "env:"@,
            env_header_from(lv, k as int) == env_header_from(lv, j as int),
        decreases ls@.len() - j,
    {
        if !is_blank(&ls[j]) {
            let (t, b) = trim_start_chars(ls[j].as_slice());
            if b <= 2 {
                return None;
            }
            if starts_with_chars(t.as_slice(), env_hdr.as_slice()) {
                return Some(j);
            }
        }
        j = j + 1;
    }
    None
}

/// Where the children of an `env:` line end (see `children_end`).
pub fn find_children_end(ls: &Vec<Vec<char>>, k: usize) -> (r: usize)
    requires
        k <= ls@.len(),
    ensures
        k <= r <= ls@.len(),
        r as int == children_end(lines_view(ls@), k as int),
{
    let ghost lv = lines_view(ls@);
    let mut j = k;
    while j < ls.len()
        invariant
            k <= j <= ls@.len(),
            lv == lines_view(ls@),
            children_end(lv, k as int) == children_end(lv, j as int),
        decreases ls@.len() - j,
    {
        if is_blank(&ls[j]) {
            return j;
        }
        let (_, b) = trim_start_chars(ls[j].as_slice());
        if b <= 4 {
            return j;
        }
        j = j + 1;
    }
    j
}

/// The lines with the variables added after the children of the `env:`
/// line `h` (see `with_env_vars`).
pub fn add_env_vars(ls: &Vec<Vec<char>>, h: usize, kvs: &Vec<(String, String)>) -> (r: Vec<Vec<char>>)
    requires
        h < ls@.len(),
    ensures
        lines_view(r@) == with_env_vars(lines_view(ls@), h as int, pairs_view(kvs@)),
{
    assert(h < ls.len());
    let at = find_children_end(ls, h + 1);
    let mut out: Vec<Vec<char>> = Vec::new();
    push_lines(&mut out, ls, 0, at);
    let ghost base = lines_view(out@);
    let ghost pv = pairs_view(kvs@);
    let mut i: usize = 0;
    while i < kvs.len()
        invariant
            i <= kvs@.len(),
            pv == pairs_view(kvs@),
            lines_view(out@) == base + Seq::new(i as nat, |j: int| env_var_line(pv[j].0, pv[j].1)),
        decreases kvs@.len() - i,
    {
        let mut l = chars_of("      ");
        append_chars(&mut l, chars_of(kvs[i].0.as_str()).as_slice());
        append_chars(&mut l, chars_of(": ").as_slice());
        append_chars(&mut l, quoted_chars(kvs[i].1.as_str()).as_slice());
        assert(l@ =~= env_var_line(pv[i as int].0, pv[i as int].1));
        push_line(&mut out, l);
        i = i + 1;
        assert(lines_view(out@) =~= base + Seq::new(i as nat, |j: int| env_var_line(pv[j].0, pv[j].1)));
    }
    push_lines(&mut out, ls, at, ls.len());
    assert(lines_view(ls@).subrange(0, at as int) =~= lines_view(ls@).take(at as int));
    assert(lines_view(ls@).subrange(at as int, ls@.len() as int) =~= lines_view(ls@).skip(at as int));
    assert(Seq::new(kvs@.len() as nat, |j: int| env_var_line(pv[j].0, pv[j].1)) =~= env_var_lines(pv));
    out
}

/// The rewritten form of one line of an `env:` block, with the index of
/// the variable it sets; `None` when the line stays as it is.
fn rewrite_env_line(l: &Vec<char>, env: &Vec<(String, String)>, ind: u128) -> (r: Option<(Vec<char>, usize)>)
    requires
        ind <= u128::MAX - 2,
    ensures
        match r {
            Some((nl, m)) => {
                &&& !blank(l@)
                &&& first_key_match(pairs_view(env@), trim_start(l@)) == Some(m as int)
                &&& m < env@.len()
                &&& nl@ == env_rewrite(l@, pairs_view(env@), ind as nat)
            },
            None => {
                &&& env_rewrite(l@, pairs_view(env@), ind as nat) == l@
                &&& !(!blank(l@) && first_key_match(pairs_view(env@), trim_start(l@)) is Some)
            },
        },
{
    if is_blank(l) {
        return None;
    }
    let (t, _) = trim_start_chars(l.as_slice());
    match first_key_match_exec(env, &t) {
        Some(m) => {
            let q = string_from_chars(quoted_chars(env[m].1.as_str()).as_slice());
            let nl = kv_line_exec(ind + 2, env[m].0.as_str(), q.as_str());
            Some((nl, m))
        },
        None => None,
    }
}

/// Rewrites the lines strictly between the `env:` line `ei` and `end`;
/// returns the lines and the variable names it set, in order.
fn rewrite_env_children(ls: &Vec<Vec<char>>, ei: usize, end: usize, ind: u128, env: &Vec<(String, String)>) -> (r: (
    Vec<Vec<char>>,
    Vec<String>,
))
    requires
        ei < end <= ls@.len(),
        ind <= u128::MAX - 2,
    ensures
        lines_view(r.0@) == rewrite_env_block(lines_view(ls@), ei as int, end as int, pairs_view(env@), ind as nat),
        strs_view(r.1@) == env_keys_set(lines_view(ls@), ei + 1, end as int, pairs_view(env@)),
{
    let ghost lv = lines_view(ls@);
    let ghost pv = pairs_view(env@);
    let mut mid: Vec<Vec<char>> = Vec::new();
    push_lines(&mut mid, ls, 0, ls.len());
    assert(lines_view(ls@).subrange(0, ls@.len() as int) =~= lines_view(ls@));
    let mut done: Vec<String> = Vec::new();
    assert(strs_view(done@) =~= env_keys_set(lv, ei + 1, ei + 1, pv));
    let mut j = ei + 1;
    while j < end
        invariant
            ei < j <= end,
            end <= ls@.len(),
            ind <= u128::MAX - 2,
            lv == lines_view(ls@),
            pv == pairs_view(env@),
            mid@.len() == ls@.len(),
            forall|x: int| 0 <= x < lv.len() ==> #[trigger] lines_view(mid@)[x] == (if ei < x < j {
                env_rewrite(lv[x], pv, ind as nat)
            } else {
                lv[x]
            }),
            strs_view(done@) == env_keys_set(lv, ei + 1, j as int, pv),
        decreases end - j,
    {
        let ghost before_done = strs_view(done@);
        let ghost before_mid = lines_view(mid@);
        assert(lv[j as int] == ls@[j as int]@);
        match rewrite_env_line(&ls[j], env, ind) {
            Some((nl, m)) => {
                let ghost nv = nl@;
                mid.set(j, nl);
                assert(lines_view(mid@) =~= before_mid.update(j as int, nv));
                done.push(env[m].0.as_str().to_owned());
                assert(strs_view(done@) =~= before_done.push(pv[m as int].0));
            },
            None => {},
        }
        j = j + 1;
    }
    assert(lines_view(mid@) =~= rewrite_env_block(lv, ei as int, end as int, pv, ind as nat));
    (mid, done)
}

/// Writes the variables `env` into the `env:` block of server `name` in a
/// configuration text (see `with_server_env`).
pub fn update_server_env(content: &str, name: &str, env: &Vec<(String, String)>) -> (r: Result<String, String>)
    ensures
        match r {
            Ok(t) => with_server_env(content@, name@, pairs_view(env@)) == Ok::<Seq<char>, Seq<char>>(t@),
            Err(e) => with_server_env(content@, name@, pairs_view(env@)) == Err::<Seq<char>, Seq<char>>(e@),
        },
{
    let ls = text_lines(content);
    let ghost lv = lines_view(ls@);
    let ghost pv = pairs_view(env@);
    let s = match find_server_line(&ls, name) {
        None => {
            return Err("Server '".to_owned().concat(name).concat("' not found in config.yaml"));
        },
        Some(s) => s,
    };
    assert(s < ls.len());
    match find_env_header(&ls, s + 1) {
        Some(ei) => {
            let (_, ind) = trim_start_chars(ls[ei].as_slice());
            let elen = ls[ei].len();
            assert(ind <= 4 * elen);
            let end = find_block_end(&ls, ei + 1, ind);
            let (mid, done) = rewrite_env_children(&ls, ei, end, ind, env);
            let miss = missing_pairs_exec(env, &done);
            if miss.len() == 0 {
                Ok(finish_lines(&mid))
            } else {
                let out = add_env_vars(&mid, ei, &miss);
                Ok(finish_lines(&out))
            }
        },
        None => {
            let none: Vec<String> = Vec::new();
            assert(strs_view(none@) =~= Seq::<Seq<char>>::empty());
            let miss = missing_pairs_exec(env, &none);
            if miss.len() == 0 {
                Ok(finish_lines(&ls))
            } else {
                let mut ls2: Vec<Vec<char>> = Vec::new();
                push_lines(&mut ls2, &ls, 0, s + 1);
                push_line(&mut ls2, chars_of("    env:"));
                push_lines(&mut ls2, &ls, s + 1, ls.len());
                assert(lines_view(ls2@) =~= lv.insert(s + 1, "    env:"@));
                let out = add_env_vars(&ls2, s + 1, &miss);
                Ok(finish_lines(&out))
            }
        },
    }
}

// ── Management operations ─────────────────────────────────────────────────

/// The path of a profile's config.yaml, as components below the Hermes
/// home: `profiles/<name>/config.yaml` for a named profile, `config.yaml`
/// otherwise.
pub fn config_yaml_path(profile: Option<&str>) -> (r: Vec<String>)
    ensures
        strs_view(r@) == (match named_profile(ostr_view(profile)) {
            Some(p) => seq!["profiles"@, p, "config.yaml"@],
            None => seq!["config.yaml"@],
        }),
{
    let mut r = profile_home(profile);
    let ghost before = strs_view(r@);
    r.push("config.yaml".to_owned());
    assert(strs_view(r@) =~= before.push("config.yaml"@));
    r
}

/// Whether a server of that name is configured.
pub open spec fn has_server(servers: Seq<(Seq<char>, McpServerConfigV)>, name: Seq<char>) -> bool {
    exists|i: int| 0 <= i < servers.len() && #[trigger] servers[i].0 == name
}

/// Whether a server of that name is configured.
pub fn server_exists(servers: &Vec<(String, McpServerConfig)>, name: &str) -> (r: bool)
    ensures
        r == has_server(named_configs_view(servers@), name@),
{
    let ghost vs = named_configs_view(servers@);
    let mut i: usize = 0;
    while i < servers.len()
        invariant
            i <= servers@.len(),
            vs == named_configs_view(servers@),
            vs.len() == servers@.len(),
            forall|k: int| 0 <= k < i ==> vs[k].0 != name@,
        decreases servers@.len() - i,
    {
        if str_eq(servers[i].0.as_str(), name) {
            assert(vs[i as int].0 == name@);
            return true;
        }
        i = i + 1;
    }
    false
}

/// How a server that was just added is listed: enabled, with its input's
/// fields and no raw fields.
pub open spec fn added_server(i: McpServerInputV) -> McpServerV {
    McpServerV {
        name: i.name,
        server_type: i.server_type,
        transport: i.server_type,
        enabled: true,
        detail: detail_of(i.url, i.command),
        url: i.url,
        command: i.command,
        args: match i.args {
            Some(a) => a,
            None => Seq::empty(),
        },
        env: match i.env {
            Some(e) => e,
            None => Seq::empty(),
        },
        auth: i.auth,
        tools: None,
        raw_fields: Seq::empty(),
    }
}

/// How a server that was just added is listed (see `added_server`).
pub fn server_from_input(input: &McpServerInput) -> (r: McpServer)
    ensures
        r@ == added_server(input@),
{
    let raw: Vec<(String, Json)> = Vec::new();
    assert(view_entries(raw@) =~= Seq::empty());
    McpServer {
        name: input.name.as_str().to_owned(),
        server_type: input.server_type.as_str().to_owned(),
        transport: input.server_type.as_str().to_owned(),
        enabled: true,
        detail: detail_from(&input.url, &input.command),
        url: clone_opt(&input.url),
        command: clone_opt(&input.command),
        args: strings_or_empty(&input.args),
        env: pairs_or_empty(&input.env),
        auth: clone_opt(&input.auth),
        tools: None,
        raw_fields: raw,
    }
}

/// Adds a server to a configuration text whose `mcp_servers:` block holds
/// `servers`: the error when one of that name exists, else the new text
/// (see `with_server_block`) and the added server as listed.
pub fn add_mcp_server(content: &str, servers: &Vec<(String, McpServerConfig)>, input: &McpServerInput) -> (r: Result<
    (String, McpServer),
    String,
>)
    ensures
        has_server(named_configs_view(servers@), input.name@) <==> r is Err,
        match r {
            Ok((text, added)) => text@ == with_server_block(content@, input@) && added@ == added_server(input@),
            Err(e) => e@ == "Server '"@ + input.name@ + "' already exists"@,
        },
{
    if server_exists(servers, input.name.as_str()) {
        return Err("Server '".to_owned().concat(input.name.as_str()).concat("' already exists"));
    }
    Ok((insert_server_block(content, input), server_from_input(input)))
}

/// Removes a server from a configuration text (see `without_server`).
pub fn remove_mcp_server(content: &str, name: &str) -> (r: Result<String, String>)
    ensures
        match r {
            Ok(t) => without_server(content@, name@) == Ok::<Seq<char>, Seq<char>>(t@),
            Err(e) => without_server(content@, name@) == Err::<Seq<char>, Seq<char>>(e@),
        },
{
    remove_server_block(content, name)
}

/// Marks a server enabled or disabled inside its own entry in a
/// configuration text (see `with_server_enabled`).
pub fn set_mcp_server_enabled(content: &str, name: &str, enabled: bool) -> (r: String)
    ensures
        r@ == with_server_enabled(content@, name@, enabled),
{
    set_server_enabled(content, name, enabled)
}

/// Writes environment variables for a configured server into a
/// configuration text whose `mcp_servers:` block holds `servers`: the
/// error when no such server is configured, else see `with_server_env`.
pub fn update_mcp_server_env(
    content: &str,
    servers: &Vec<(String, McpServerConfig)>,
    server_name: &str,
    env: &Vec<(String, String)>,
) -> (r: Result<String, String>)
    ensures
        !has_server(named_configs_view(servers@), server_name@) ==> (r matches Err(e) && e@ == "Server '"@
            + server_name@ + "' not found"@),
        has_server(named_configs_view(servers@), server_name@) ==> match r {
            Ok(t) => with_server_env(content@, server_name@, pairs_view(env@)) == Ok::<Seq<char>, Seq<char>>(t@),
            Err(e) => with_server_env(content@, server_name@, pairs_view(env@)) == Err::<Seq<char>, Seq<char>>(e@),
        },
{
    if !server_exists(servers, server_name) {
        return Err("Server '".to_owned().concat(server_name).concat("' not found"));
    }
    update_server_env(content, server_name, env)
}

/// A tool that a server offers.
#[derive(Debug, Clone, PartialEq, Eq)]
pub struct McpToolInfo {
    pub name: String,
    pub description: String,
}

/// A variable that a catalog entry asks for.
#[derive(Debug, Clone, PartialEq, Eq)]
pub struct McpEnvVar {
    pub name: String,
    pub prompt: String,
    pub required: bool,
}

/// An installable server of the catalog.
#[derive(Debug, Clone, PartialEq, Eq)]
pub struct McpCatalogEntry {
    pub name: String,
    pub description: String,
    pub source: String,
    pub transport: String,
    pub auth_type: String,
    pub required_env: Vec<McpEnvVar>,
    pub needs_install: bool,
    pub installed: bool,
    pub enabled: bool,
}

/// Probing a server is not available: always the not-implemented error.
pub fn test_mcp_server(name: &str) -> (r: Result<(bool, Option<String>, Option<Vec<McpToolInfo>>), String>)
    ensures
        r matches Err(e) && e@ == "NotImplemented: MCP server test probe not yet implemented"@,
{
    Err("NotImplemented: MCP server test probe not yet implemented".to_owned())
}

/// The catalog of installable servers: empty.
pub fn list_mcp_catalog() -> (r: Result<Vec<McpCatalogEntry>, String>)
    ensures
        r matches Ok(v) && v@.len() == 0,
{
    Ok(Vec::new())
}

/// Installing from the catalog is not available: always the
/// not-implemented error.
pub fn install_mcp_catalog_entry(name: &str, env: Option<Vec<(String, String)>>) -> (r: Result<
    (bool, Option<String>, Option<String>, Option<String>),
    String,
>)
    ensures
        r matches Err(e) && e@ == "NotImplemented: MCP catalog install not yet implemented"@,
{
    Err("NotImplemented: MCP catalog install not yet implemented".to_owned())
}

/// The text after each server's variables are written into the `env:`
/// block of its own entry under `mcp_servers:` (see `with_server_env`), in
/// order; servers without variables, or without an entry, are skipped.
pub open spec fn synced_env(content: Seq<char>, blocks: Seq<(Seq<char>, Seq<(Seq<char>, Seq<char>)>)>) -> Seq<char>
    decreases blocks.len(),
{
    if blocks.len() == 0 {
        content
    } else {
        let c = synced_env(content, blocks.drop_last());
        let b = blocks.last();
        if b.1.len() == 0 {
            c
        } else {
            match with_server_env(c, b.0, b.1) {
                Ok(t) => t,
                Err(_) => c,
            }
        }
    }
}

/// The views of per-server variable lists.
pub open spec fn env_blocks_view(v: Seq<(String, Vec<(String, String)>)>) -> Seq<(Seq<char>, Seq<(Seq<char>, Seq<char>)>)> {
    v.map_values(|b: (String, Vec<(String, String)>)| (b.0@, pairs_view(b.1@)))
}

/// Writes credentials for tool servers into the `env:` blocks of their
/// entries (see `synced_env`), keeping the rest of the configuration.
pub fn sync_mcp_env_blocks(content: &str, blocks: &Vec<(String, Vec<(String, String)>)>) -> (r: String)
    ensures
        r@ == synced_env(content@, env_blocks_view(blocks@)),
{
    let ghost bv = env_blocks_view(blocks@);
    let mut text = content.to_owned();
    let mut i: usize = 0;
    while i < blocks.len()
        invariant
            i <= blocks@.len(),
            bv == env_blocks_view(blocks@),
            bv.len() == blocks@.len(),
            text@ == synced_env(content@, bv.take(i as int)),
        decreases blocks@.len() - i,
    {
        assert(bv.take(i + 1).drop_last() =~= bv.take(i as int));
        assert(bv.take(i + 1).last() == bv[i as int]);
        if blocks[i].1.len() > 0 {
            match update_server_env(text.as_str(), blocks[i].0.as_str(), &blocks[i].1) {
                Ok(t) => {
                    text = t;
                },
                Err(_) => {},
            }
        }
        i = i + 1;
    }
    assert(bv.take(blocks@.len() as int) =~= bv);
    text
}

} // verus!
