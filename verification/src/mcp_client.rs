//! The MCP stdio client's own logic: the JSON-RPC frames it sends, which
//! reply answers a request, how failures are reported, and the process it
//! may launch.

use vstd::prelude::*;
use crate::json::{Json, JsonV, jget, ou64, view_entries, push_entry, jstr, jnum, jobj, opt_u64};
use crate::gateway::dec_text;
use crate::json_text::{json_text_parse, parse_json};
use crate::text::{trim, trim_chars, string_from_chars, contains, contains_chars, chars_of, to_ascii_lowercase, ascii_lowercase, str_eq};
use crate::config::{pairs_view, strs_view};

verus! {

/// The `initialize` request of the MCP handshake.
pub open spec fn initialize_frame(id: u64) -> JsonV {
    JsonV::Object(seq![
        ("jsonrpc"@, JsonV::Str("2.0"@)),
        ("id"@, JsonV::Number(dec_text(id as nat))),
        ("method"@, JsonV::Str("initialize"@)),
        ("params"@, JsonV::Object(seq![
            ("protocolVersion"@, JsonV::Str("2024-11-05"@)),
            ("capabilities"@, JsonV::Object(Seq::empty())),
            ("clientInfo"@, JsonV::Object(seq![
                ("name"@, JsonV::Str("steersman-desktop"@)),
                ("version"@, JsonV::Str("3.3.0"@)),
            ])),
        ])),
    ])
}

/// Builds the `initialize` request.
pub fn build_initialize_request(id: u64) -> (r: Json)
    ensures
        r@ == initialize_frame(id),
{
    proof {
        assert(view_entries(Seq::<(String, Json)>::empty()) =~= Seq::empty());
    }
    let mut info: Vec<(String, Json)> = Vec::new();
    push_entry(&mut info, "name", jstr("steersman-desktop"));
    push_entry(&mut info, "version", jstr("3.3.0"));
    assert(view_entries(info@) =~= seq![
        ("name"@, JsonV::Str("steersman-desktop"@)),
        ("version"@, JsonV::Str("3.3.0"@)),
    ]);
    let empty: Vec<(String, Json)> = Vec::new();
    assert(view_entries(empty@) =~= Seq::<(Seq<char>, JsonV)>::empty());
    let mut params: Vec<(String, Json)> = Vec::new();
    push_entry(&mut params, "protocolVersion", jstr("2024-11-05"));
    push_entry(&mut params, "capabilities", jobj(empty));
    push_entry(&mut params, "clientInfo", jobj(info));
    assert(view_entries(params@) =~= seq![
        ("protocolVersion"@, JsonV::Str("2024-11-05"@)),
        ("capabilities"@, JsonV::Object(Seq::empty())),
        ("clientInfo"@, JsonV::Object(seq![
            ("name"@, JsonV::Str("steersman-desktop"@)),
            ("version"@, JsonV::Str("3.3.0"@)),
        ])),
    ]);
    let mut es: Vec<(String, Json)> = Vec::new();
    push_entry(&mut es, "jsonrpc", jstr("2.0"));
    push_entry(&mut es, "id", jnum(id));
    push_entry(&mut es, "method", jstr("initialize"));
    push_entry(&mut es, "params", jobj(params));
    let r = jobj(es);
    proof {
        assert(view_entries(es@) =~= initialize_frame(id)->Object_0);
    }
    r
}

/// The stateless `server/discover` request, with client metadata.
pub open spec fn discover_frame(id: u64) -> JsonV {
    JsonV::Object(seq![
        ("jsonrpc"@, JsonV::Str("2.0"@)),
        ("id"@, JsonV::Number(dec_text(id as nat))),
        ("method"@, JsonV::Str("server/discover"@)),
        ("params"@, JsonV::Object(seq![("protocolVersion"@, JsonV::Str("2026-07-28"@))])),
        ("_meta"@, JsonV::Object(seq![
            ("client"@, JsonV::Str("steersman-desktop"@)),
            ("protocolVersion"@, JsonV::Str("2026-07-28"@)),
        ])),
    ])
}

/// Builds the stateless discovery request.
pub fn build_discover_request(id: u64) -> (r: Json)
    ensures
        r@ == discover_frame(id),
{
    proof {
        assert(view_entries(Seq::<(String, Json)>::empty()) =~= Seq::empty());
    }
    let mut params: Vec<(String, Json)> = Vec::new();
    push_entry(&mut params, "protocolVersion", jstr("2026-07-28"));
    assert(view_entries(params@) =~= seq![("protocolVersion"@, JsonV::Str("2026-07-28"@))]);
    let mut meta: Vec<(String, Json)> = Vec::new();
    push_entry(&mut meta, "client", jstr("steersman-desktop"));
    push_entry(&mut meta, "protocolVersion", jstr("2026-07-28"));
    assert(view_entries(meta@) =~= seq![
        ("client"@, JsonV::Str("steersman-desktop"@)),
        ("protocolVersion"@, JsonV::Str("2026-07-28"@)),
    ]);
    let mut es: Vec<(String, Json)> = Vec::new();
    push_entry(&mut es, "jsonrpc", jstr("2.0"));
    push_entry(&mut es, "id", jnum(id));
    push_entry(&mut es, "method", jstr("server/discover"));
    push_entry(&mut es, "params", jobj(params));
    push_entry(&mut es, "_meta", jobj(meta));
    let r = jobj(es);
    proof {
        assert(view_entries(es@) =~= discover_frame(id)->Object_0);
    }
    r
}

/// The `tools/call` request for a tool with its arguments.
pub open spec fn tools_call_frame(id: u64, tool: Seq<char>, args: JsonV) -> JsonV {
    JsonV::Object(seq![
        ("jsonrpc"@, JsonV::Str("2.0"@)),
        ("id"@, JsonV::Number(dec_text(id as nat))),
        ("method"@, JsonV::Str("tools/call"@)),
        ("params"@, JsonV::Object(seq![("name"@, JsonV::Str(tool)), ("arguments"@, args)])),
    ])
}

/// Builds a `tools/call` request.
pub fn build_tools_call_request(id: u64, tool_name: &str, arguments: &Json) -> (r: Json)
    ensures
        r@ == tools_call_frame(id, tool_name@, arguments@),
{
    proof {
        assert(view_entries(Seq::<(String, Json)>::empty()) =~= Seq::empty());
    }
    let mut params: Vec<(String, Json)> = Vec::new();
    push_entry(&mut params, "name", jstr(tool_name));
    push_entry(&mut params, "arguments", arguments.deep_clone());
    assert(view_entries(params@) =~= seq![("name"@, JsonV::Str(tool_name@)), ("arguments"@, arguments@)]);
    let mut es: Vec<(String, Json)> = Vec::new();
    push_entry(&mut es, "jsonrpc", jstr("2.0"));
    push_entry(&mut es, "id", jnum(id));
    push_entry(&mut es, "method", jstr("tools/call"));
    push_entry(&mut es, "params", jobj(params));
    let r = jobj(es);
    proof {
        assert(view_entries(es@) =~= tools_call_frame(id, tool_name@, arguments@)->Object_0);
    }
    r
}

/// True when a reply answers the request with id `expected`: its `id` is
/// that integer.
pub fn answers_request(reply: &Json, expected: u64) -> (r: bool)
    ensures
        r == (ou64(jget(reply@, "id"@)) == Some(expected)),
{
    match opt_u64(reply.get("id")) {
        Some(v) => v == expected,
        None => false,
    }
}

/// The error that a rejected discovery reports, from the error object's
/// text (lowercased): a protocol rejection, an authentication failure, or
/// a plain rejection. The server's own text is never passed on.
pub open spec fn discover_rejection(e: Seq<char>) -> Seq<char> {
    if contains(e, "method not found"@) || contains(e, "unsupported"@) || contains(e, "protocol"@) {
        "MCP discover rejected: protocol unsupported"@
    } else if contains(e, "401"@) || contains(e, "auth"@) || contains(e, "unauthorized"@) {
        "MCP discover rejected: authentication"@
    } else {
        "MCP discover rejected"@
    }
}

fn has(e: &Vec<char>, p: &str) -> (r: bool)
    ensures
        r == contains(e@, p@),
{
    contains_chars(e.as_slice(), chars_of(p).as_slice())
}

/// Classifies a discovery error object by its JSON text.
pub fn classify_discover_error(error_text: &str) -> (r: &'static str)
    ensures
        r@ == discover_rejection(ascii_lowercase(error_text@)),
{
    let e = to_ascii_lowercase(error_text);
    if has(&e, "method not found") || has(&e, "unsupported") || has(&e, "protocol") {
        "MCP discover rejected: protocol unsupported"
    } else if has(&e, "401") || has(&e, "auth") || has(&e, "unauthorized") {
        "MCP discover rejected: authentication"
    } else {
        "MCP discover rejected"
    }
}

/// The error of a failed tool call, naming the tool and the error object's
/// JSON text.
pub fn tool_call_error(tool_name: &str, error_text: &str) -> (r: String)
    ensures
        r@ == "tools/call '"@ + tool_name@ + "' error: "@ + error_text@,
{
    "tools/call '".to_owned().concat(tool_name).concat("' error: ").concat(error_text)
}

/// The environment of a spawned server: the given variables, then
/// unbuffered output and UTF-8 standard streams.
pub open spec fn spawn_env_of(env: Seq<(Seq<char>, Seq<char>)>) -> Seq<(Seq<char>, Seq<char>)> {
    env + seq![("PYTHONUNBUFFERED"@, "1"@), ("PYTHONIOENCODING"@, "utf-8"@)]
}

/// The variables set for a spawned server (see `spawn_env_of`).
pub fn spawn_env(env: &Vec<(String, String)>) -> (r: Vec<(String, String)>)
    ensures
        pairs_view(r@) == spawn_env_of(pairs_view(env@)),
{
    let mut out: Vec<(String, String)> = Vec::new();
    let mut i: usize = 0;
    while i < env.len()
        invariant
            i <= env@.len(),
            pairs_view(out@) == pairs_view(env@).take(i as int),
        decreases env@.len() - i,
    {
        let ghost before = pairs_view(out@);
        out.push((env[i].0.as_str().to_owned(), env[i].1.as_str().to_owned()));
        assert(pairs_view(out@) =~= before.push(pairs_view(env@)[i as int]));
        assert(pairs_view(env@).take(i + 1) =~= pairs_view(env@).take(i as int).push(pairs_view(env@)[i as int]));
        i = i + 1;
    }
    let ghost mid = pairs_view(out@);
    out.push(("PYTHONUNBUFFERED".to_owned(), "1".to_owned()));
    out.push(("PYTHONIOENCODING".to_owned(), "utf-8".to_owned()));
    assert(pairs_view(env@).take(env@.len() as int) =~= pairs_view(env@));
    assert(pairs_view(out@) =~= spawn_env_of(pairs_view(env@)));
    out
}

/// True when a text holds a NUL, carriage return or line feed.
pub open spec fn has_control(s: Seq<char>) -> bool {
    exists|i: int| 0 <= i < s.len() && (s[i] == '\0' || s[i] == '\r' || s[i] == '\n')
}

fn has_control_exec(s: &str) -> (r: bool)
    ensures
        r == has_control(s@),
{
    let cs = chars_of(s);
    let mut i: usize = 0;
    while i < cs.len()
        invariant
            cs@ == s@,
            i <= cs@.len(),
            forall|j: int| 0 <= j < i ==> !(cs@[j] == '\0' || cs@[j] == '\r' || cs@[j] == '\n'),
        decreases cs@.len() - i,
    {
        if cs[i] == '\0' || cs[i] == '\r' || cs[i] == '\n' {
            return true;
        }
        i = i + 1;
    }
    false
}

/// The launcher of MCP server processes. It holds no credentials and never
/// runs a command through a shell.
#[derive(Debug, Default)]
pub struct McpClientPool;

impl McpClientPool {
    /// A launcher.
    pub fn new() -> (r: Self) {
        McpClientPool
    }

    /// Checks what a server is launched with: a non-empty executable, and
    /// no NUL or line break in it or in any argument.
    pub fn check_spawn(&self, executable: &str, args: &Vec<String>) -> (r: Result<(), String>)
        ensures
            r is Ok <==> (executable@.len() > 0 && !has_control(executable@) && forall|i: int|
                0 <= i < args@.len() ==> !has_control(#[trigger] args@[i]@)),
            r matches Err(m) ==> m@ == "invalid MCP process configuration"@,
    {
        if executable.unicode_len() == 0 || has_control_exec(executable) {
            return Err("invalid MCP process configuration".to_owned());
        }
        let mut i: usize = 0;
        while i < args.len()
            invariant
                i <= args@.len(),
                forall|j: int| 0 <= j < i ==> !has_control(#[trigger] args@[j]@),
            decreases args@.len() - i,
        {
            if has_control_exec(args[i].as_str()) {
                return Err("invalid MCP process configuration".to_owned());
            }
            i = i + 1;
        }
        Ok(())
    }
}

/// What one line read from a server's output means while waiting for the
/// reply to request `expected`: `Ok(None)` to keep reading (a blank line,
/// or a message that answers another request), `Ok(Some(v))` for the
/// reply, or the error when the line is not JSON text (the reader's error
/// text after a fixed prefix).
pub open spec fn reply_line(line: Seq<char>, expected: u64) -> Result<Option<JsonV>, Seq<char>> {
    if trim(line).len() == 0 {
        Ok(None)
    } else {
        match json_text_parse(trim(line)) {
            Ok(v) => if ou64(jget(v, "id"@)) == Some(expected) {
                Ok(Some(v))
            } else {
                Ok(None)
            },
            Err(m) => Err("MCP response JSON parse error: "@ + m),
        }
    }
}

/// Reads one line of a server's output while waiting for a reply (see
/// `reply_line`).
pub fn read_reply_line(line: &str, expected: u64) -> (r: Result<Option<Json>, String>)
    ensures
        match r {
            Ok(Some(v)) => reply_line(line@, expected) == Ok::<Option<JsonV>, Seq<char>>(Some(v@)),
            Ok(None) => reply_line(line@, expected) == Ok::<Option<JsonV>, Seq<char>>(None),
            Err(e) => reply_line(line@, expected) == Err::<Option<JsonV>, Seq<char>>(e@),
        },
{
    let t = trim_chars(&chars_of(line));
    if t.len() == 0 {
        return Ok(None);
    }
    let text = string_from_chars(t.as_slice());
    match parse_json(text.as_str()) {
        Ok(v) => if answers_request(&v, expected) {
            Ok(Some(v))
        } else {
            Ok(None)
        },
        Err(m) => Err("MCP response JSON parse error: ".to_owned().concat(m.as_str())),
    }
}

} // verus!
