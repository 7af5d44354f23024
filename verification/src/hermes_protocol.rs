//! Typed requests, results and compatibility rules of the Hermes JSON-RPC
//! WebSocket protocol.

use vstd::prelude::*;
use crate::json::{Json, JsonV, jget, ostr, ostring, ojson, view_items, view_entries, push_entry,
    lemma_view_items, lemma_view_entries, strings_view, clone_opt, empty_object, opt_str};
use crate::text::str_eq;
use crate::wire::{missing_msg, not_object_msg, type_msg, type_error, unit_variant_error, unit_variant_check, names_view, err_of, first_err, f_str, f_ostr,
    f_dstr, f_dbool, f_obool, f_ou64, f_ou32, f_u32, f_usize, f_onum, f_djson, f_ojson, f_dstrs,
    f_jsons, missing_error, not_object_error, d_str, d_ostr, d_dstr, d_dbool,
    d_obool, d_ou64, d_ou32, d_u32, d_usize, d_onum, d_djson, d_ojson, d_dstrs, d_jsons};

verus! {

/// JSON-RPC 2.0 version string.
pub const JSONRPC_VERSION: &'static str = "2.0";

/// Lowest desktop contract version of Hermes that this build works with.
pub const MIN_HERMES_DESKTOP_CONTRACT: u32 = 4;

/// Highest desktop contract version of Hermes that this build works with.
pub const MAX_HERMES_DESKTOP_CONTRACT: u32 = 4;

/// Result of the compatibility handshake with the connected backend.
#[derive(Debug, Clone, PartialEq, Eq, Structural)]
pub enum RuntimeCompatibility {
    Unknown,
    Checking,
    Compatible { contract: u32 },
    HermesUpgradeRequired { received: u32, minimum: u32 },
    DesktopUpgradeRequired { received: u32, maximum: u32 },
}

/// The compatibility verdict for a backend's desktop contract.
pub open spec fn spec_evaluate(received: u32) -> RuntimeCompatibility {
    if received < MIN_HERMES_DESKTOP_CONTRACT {
        RuntimeCompatibility::HermesUpgradeRequired { received, minimum: MIN_HERMES_DESKTOP_CONTRACT }
    } else if received > MAX_HERMES_DESKTOP_CONTRACT {
        RuntimeCompatibility::DesktopUpgradeRequired { received, maximum: MAX_HERMES_DESKTOP_CONTRACT }
    } else {
        RuntimeCompatibility::Compatible { contract: received }
    }
}

impl RuntimeCompatibility {
    /// Evaluates a received desktop contract against the supported range.
    pub fn evaluate(received: u32) -> (r: Self)
        ensures
            r == spec_evaluate(received),
    {
        if received < MIN_HERMES_DESKTOP_CONTRACT {
            RuntimeCompatibility::HermesUpgradeRequired { received, minimum: MIN_HERMES_DESKTOP_CONTRACT }
        } else if received > MAX_HERMES_DESKTOP_CONTRACT {
            RuntimeCompatibility::DesktopUpgradeRequired { received, maximum: MAX_HERMES_DESKTOP_CONTRACT }
        } else {
            RuntimeCompatibility::Compatible { contract: received }
        }
    }

    /// True when the backend is compatible and user work may proceed.
    pub fn is_compatible(&self) -> (r: bool)
        ensures
            r == (*self is Compatible),
    {
        match self {
            RuntimeCompatibility::Compatible { .. } => true,
            _ => false,
        }
    }
}

/// A backend is accepted exactly when its contract lies in the supported
/// range; otherwise the verdict names which side must upgrade.
pub proof fn lemma_compatibility_range(received: u32)
    ensures
        (spec_evaluate(received) is Compatible) <==> (MIN_HERMES_DESKTOP_CONTRACT <= received
            && received <= MAX_HERMES_DESKTOP_CONTRACT),
        (spec_evaluate(received) is HermesUpgradeRequired) <==> received
            < MIN_HERMES_DESKTOP_CONTRACT,
        (spec_evaluate(received) is DesktopUpgradeRequired) <==> received
            > MAX_HERMES_DESKTOP_CONTRACT,
        !(spec_evaluate(received) is Unknown) && !(spec_evaluate(received) is Checking),
{
}

/// The source of JSON-RPC request ids: each id is handed out once, counting
/// up from 1 (wrapping at the end of `u64`).
#[derive(Debug)]
pub struct RequestCounter {
    pub next: u64,
}

impl RequestCounter {
    /// A counter whose first id is 1.
    pub fn new() -> (r: Self)
        ensures
            r.next == 1,
    {
        RequestCounter { next: 1 }
    }
}

/// Hands out the next JSON-RPC request id.
pub fn next_request_id(counter: &mut RequestCounter) -> (r: u64)
    ensures
        r == old(counter).next,
        final(counter).next == (if old(counter).next == u64::MAX {
            0
        } else {
            (old(counter).next + 1) as u64
        }),
{
    let r = counter.next;
    counter.next = if r == u64::MAX { 0 } else { r + 1 };
    r
}

/// A JSON-RPC 2.0 request.
#[derive(Debug)]
pub struct JsonRpcRequest<P> {
    pub jsonrpc: &'static str,
    pub id: u64,
    pub method: &'static str,
    pub params: P,
}

impl<P> JsonRpcRequest<P> {
    /// A request with the protocol's version string.
    pub fn new(id: u64, method: &'static str, params: P) -> (r: Self)
        ensures
            r.jsonrpc@ == JSONRPC_VERSION@,
            r.id == id,
            r.method@ == method@,
            r.params == params,
    {
        JsonRpcRequest { jsonrpc: JSONRPC_VERSION, id, method, params }
    }
}

/// A successful JSON-RPC 2.0 response.
#[derive(Debug)]
pub struct JsonRpcResponse<R> {
    pub jsonrpc: String,
    pub id: u64,
    pub result: R,
}

/// A JSON-RPC 2.0 error object.
#[derive(Debug)]
pub struct JsonRpcError {
    pub code: i32,
    pub message: String,
    pub data: Option<Json>,
}

/// A JSON-RPC 2.0 response that may be a success or an error.
#[derive(Debug)]
pub enum JsonRpcResult<R> {
    Success(JsonRpcResponse<R>),
    Error { jsonrpc: String, id: u64, error: JsonRpcError },
}

impl<R> JsonRpcResult<R> {
    /// The result, or the error object.
    pub fn into_result(self) -> (r: Result<R, JsonRpcError>)
        ensures
            match self {
                JsonRpcResult::Success(resp) => r == Ok::<R, JsonRpcError>(resp.result),
                JsonRpcResult::Error { error, .. } => r == Err::<R, JsonRpcError>(error),
            },
    {
        match self {
            JsonRpcResult::Success(resp) => Ok(resp.result),
            JsonRpcResult::Error { error, .. } => Err(error),
        }
    }
}

/// Parameters of `session.create`.
#[derive(Debug)]
pub struct SessionCreateParams {
    pub source: String,
    pub cols: u16,
    pub profile: Option<String>,
}

/// Builds a `session.create` request.
pub fn build_session_create_request(id: u64, source: &str, cols: u16, profile: Option<&str>) -> (r:
    JsonRpcRequest<SessionCreateParams>)
    ensures
        r.jsonrpc@ == JSONRPC_VERSION@,
        r.id == id,
        r.method@ == "session.create"@,
        r.params.source@ == source@,
        r.params.cols == cols,
        ostring(r.params.profile) == (match profile {
            Some(p) => Some(p@),
            None => None::<Seq<char>>,
        }),
{
    let profile = match profile {
        Some(p) => Some(p.to_owned()),
        None => None,
    };
    JsonRpcRequest::new(
        id,
        "session.create",
        SessionCreateParams { source: source.to_owned(), cols, profile },
    )
}

/// Parameters of `session.resume`; `session_id` carries the durable id.
#[derive(Debug)]
pub struct SessionResumeParams {
    pub session_id: String,
    pub profile: Option<String>,
    pub cols: Option<u16>,
}

impl SessionResumeResult {
    /// The durable stored session id: `resumed`, else `session_key`, else
    /// empty.
    pub fn durable_id(&self) -> (r: &str)
        ensures
            r@ == (if self.resumed@.len() > 0 {
                self.resumed@
            } else {
                match self.session_key {
                    Some(k) => k@,
                    None => Seq::<char>::empty(),
                }
            }),
    {
        if self.resumed.as_str().unicode_len() > 0 {
            self.resumed.as_str()
        } else {
            match &self.session_key {
                Some(k) => k.as_str(),
                None => {
                    proof {
                        reveal_strlit("");
                    }
                    ""
                },
            }
        }
    }
}

/// Parameters of `prompt.submit`.
#[derive(Debug)]
pub struct PromptSubmitParams {
    pub session_id: String,
    pub text: String,
}

/// Builds a `prompt.submit` request.
pub fn build_prompt_submit_request(id: u64, session_id: &str, text: &str) -> (r: JsonRpcRequest<
    PromptSubmitParams,
>)
    ensures
        r.jsonrpc@ == JSONRPC_VERSION@,
        r.id == id,
        r.method@ == "prompt.submit"@,
        r.params.session_id@ == session_id@,
        r.params.text@ == text@,
{
    JsonRpcRequest::new(
        id,
        "prompt.submit",
        PromptSubmitParams { session_id: session_id.to_owned(), text: text.to_owned() },
    )
}

/// The JSON object of a request with the given parameters object: its
/// `jsonrpc`, `id`, `method` and `params` members, in that order.
pub open spec fn request_frame(jsonrpc: Seq<char>, id: u64, method: Seq<char>, params: JsonV) -> JsonV {
    JsonV::Object(
        seq![
            ("jsonrpc"@, JsonV::Str(jsonrpc)),
            ("id"@, JsonV::Number(crate::gateway::dec_text(id as nat))),
            ("method"@, JsonV::Str(method)),
            ("params"@, params),
        ],
    )
}

/// The JSON of `session.create` parameters: `source` and `cols`, and
/// `profile` only when one is given.
pub open spec fn create_params_json(source: Seq<char>, cols: u16, profile: Option<Seq<char>>) -> JsonV {
    let base = seq![("source"@, JsonV::Str(source)), ("cols"@, JsonV::Number(crate::gateway::dec_text(cols as nat)))];
    JsonV::Object(
        match profile {
            Some(p) => base.push(("profile"@, JsonV::Str(p))),
            None => base,
        },
    )
}

/// The JSON of `prompt.submit` parameters.
pub open spec fn prompt_params_json(session_id: Seq<char>, text: Seq<char>) -> JsonV {
    JsonV::Object(seq![("session_id"@, JsonV::Str(session_id)), ("text"@, JsonV::Str(text))])
}

fn frame_json(jsonrpc: &str, id: u64, method: &str, params: Json) -> (r: Json)
    ensures
        r@ == request_frame(jsonrpc@, id, method@, params@),
{
    let mut es: Vec<(String, Json)> = Vec::new();
    push_entry(&mut es, "jsonrpc", crate::json::jstr(jsonrpc));
    push_entry(&mut es, "id", crate::json::jnum(id));
    push_entry(&mut es, "method", crate::json::jstr(method));
    let ghost pv = params@;
    push_entry(&mut es, "params", params);
    assert(view_entries(es@) =~= request_frame(jsonrpc@, id, method@, pv)->Object_0);
    crate::json::jobj(es)
}

/// The JSON wire form of a `session.create` request; an absent profile is
/// left out (see `create_params_json`).
pub fn session_create_request_json(req: &JsonRpcRequest<SessionCreateParams>) -> (r: Json)
    ensures
        r@ == request_frame(
            req.jsonrpc@,
            req.id,
            req.method@,
            create_params_json(req.params.source@, req.params.cols, ostring(req.params.profile)),
        ),
{
    let mut es: Vec<(String, Json)> = Vec::new();
    push_entry(&mut es, "source", crate::json::jstr(req.params.source.as_str()));
    push_entry(&mut es, "cols", crate::json::jnum(req.params.cols as u64));
    match &req.params.profile {
        Some(p) => push_entry(&mut es, "profile", crate::json::jstr(p.as_str())),
        None => {},
    }
    assert(view_entries(es@) =~= create_params_json(req.params.source@, req.params.cols, ostring(req.params.profile))->Object_0);
    let params = crate::json::jobj(es);
    frame_json(req.jsonrpc, req.id, req.method, params)
}

/// The JSON wire form of a `prompt.submit` request.
pub fn prompt_submit_request_json(req: &JsonRpcRequest<PromptSubmitParams>) -> (r: Json)
    ensures
        r@ == request_frame(req.jsonrpc@, req.id, req.method@, prompt_params_json(req.params.session_id@, req.params.text@)),
{
    let mut es: Vec<(String, Json)> = Vec::new();
    push_entry(&mut es, "session_id", crate::json::jstr(req.params.session_id.as_str()));
    push_entry(&mut es, "text", crate::json::jstr(req.params.text.as_str()));
    assert(view_entries(es@) =~= prompt_params_json(req.params.session_id@, req.params.text@)->Object_0);
    let params = crate::json::jobj(es);
    frame_json(req.jsonrpc, req.id, req.method, params)
}

/// How the backend accepted a prompt.
#[derive(Debug, Clone, Copy, PartialEq, Eq, Structural)]
pub enum PromptSubmitStatus {
    Streaming,
    Queued,
    Steered,
    Rejected,
}

/// The status that a variant name stands for.
pub open spec fn status_named(s: Seq<char>) -> Option<PromptSubmitStatus> {
    if s == "streaming"@ {
        Some(PromptSubmitStatus::Streaming)
    } else if s == "queued"@ {
        Some(PromptSubmitStatus::Queued)
    } else if s == "steered"@ {
        Some(PromptSubmitStatus::Steered)
    } else if s == "rejected"@ {
        Some(PromptSubmitStatus::Rejected)
    } else {
        None
    }
}

/// The snake_case name under which a prompt status is written.
pub open spec fn status_wire_name(st: PromptSubmitStatus) -> Seq<char> {
    match st {
        PromptSubmitStatus::Streaming => "streaming"@,
        PromptSubmitStatus::Queued => "queued"@,
        PromptSubmitStatus::Steered => "steered"@,
        PromptSubmitStatus::Rejected => "rejected"@,
    }
}

/// Reading a status name gives exactly the status written under that
/// name: every status reads back from its own name, and a name that reads
/// as a status is that status's name (so distinct names give distinct
/// statuses).
pub proof fn lemma_status_names(st: PromptSubmitStatus, n: Seq<char>)
    ensures
        status_named(status_wire_name(st)) == Some(st),
        status_named(n) matches Some(x) ==> status_wire_name(x) == n,
{
    reveal_strlit("streaming");
    reveal_strlit("queued");
    reveal_strlit("steered");
    reveal_strlit("rejected");
    assert("streaming"@.len() == 9 && "queued"@.len() == 6 && "steered"@.len() == 7 && "rejected"@.len() == 8);
    assert("queued"@ != "streaming"@ && "steered"@ != "streaming"@ && "rejected"@ != "streaming"@);
    assert("steered"@ != "queued"@ && "rejected"@ != "queued"@ && "rejected"@ != "steered"@);
}

/// The variant name that a unit variant is written as: a string, or an
/// object whose single entry maps the name to `null`.
pub open spec fn variant_name(v: JsonV) -> Option<Seq<char>> {
    match v {
        JsonV::Str(s) => Some(s),
        JsonV::Object(es) => if es.len() == 1 && es[0].1 is Null {
            Some(es[0].0)
        } else {
            None
        },
        _ => None,
    }
}

/// The names of the prompt statuses.
pub open spec fn status_names() -> Seq<Seq<char>> {
    seq!["streaming"@, "queued"@, "steered"@, "rejected"@]
}

/// A value that reads as a known unit variant has that variant's name.
pub proof fn lemma_known_variant(v: JsonV, ns: Seq<Seq<char>>)
    requires
        unit_variant_error(v, ns) is None,
    ensures
        variant_name(v) is Some,
        ns.contains(variant_name(v)->0),
{
}

/// A required status field: a missing field, or the reader's error for a
/// value that is no status variant.
pub open spec fn f_status(o: Option<JsonV>, name: Seq<char>) -> Result<PromptSubmitStatus, Seq<char>> {
    match o {
        None => Err(missing_msg(name)),
        Some(v) => match unit_variant_error(v, status_names()) {
            Some(e) => Err(e),
            None => Ok(status_named(variant_name(v)->0)->0),
        },
    }
}

/// The variant name of a unit variant value.
fn variant_name_of(v: &Json) -> (r: Option<&str>)
    ensures
        match r {
            Some(s) => variant_name(v@) == Some(s@),
            None => variant_name(v@) is None,
        },
{
    match v {
        Json::Str(s) => Some(s.as_str()),
        Json::Object(es) => {
            proof {
                lemma_view_entries(es@);
            }
            if es.len() == 1 && es[0].1.is_null() {
                Some(es[0].0.as_str())
            } else {
                None
            }
        },
        _ => None,
    }
}

fn status_from_name(s: &str) -> (r: Option<PromptSubmitStatus>)
    ensures
        r == status_named(s@),
{
    if str_eq(s, "streaming") {
        Some(PromptSubmitStatus::Streaming)
    } else if str_eq(s, "queued") {
        Some(PromptSubmitStatus::Queued)
    } else if str_eq(s, "steered") {
        Some(PromptSubmitStatus::Steered)
    } else if str_eq(s, "rejected") {
        Some(PromptSubmitStatus::Rejected)
    } else {
        None
    }
}

/// Reads a required status field.
pub fn d_status(p: &Json, name: &str) -> (r: Result<PromptSubmitStatus, String>)
    ensures
        match r {
            Ok(v) => f_status(jget(p@, name@), name@) == Ok::<PromptSubmitStatus, Seq<char>>(v),
            Err(e) => f_status(jget(p@, name@), name@) == Err::<PromptSubmitStatus, Seq<char>>(e@),
        },
{
    let ns: Vec<&str> = vec!["streaming", "queued", "steered", "rejected"];
    assert(names_view(ns@) =~= status_names());
    match p.get(name) {
        None => Err(missing_error(name)),
        Some(v) => match unit_variant_check(v, &ns) {
            Some(e) => Err(e),
            None => {
                proof {
                    lemma_known_variant(v@, status_names());
                }
                let n = variant_name_of(v).unwrap();
                Ok(status_from_name(n).unwrap())
            },
        },
    }
}

/// An approval choice that the backend offers.
#[derive(Debug, Clone, Copy, PartialEq, Eq, Structural)]
pub enum ApprovalChoice {
    Once,
    Session,
    Always,
    Deny,
}

/// The choice that a variant name stands for.
pub open spec fn choice_named(s: Seq<char>) -> Option<ApprovalChoice> {
    if s == "once"@ {
        Some(ApprovalChoice::Once)
    } else if s == "session"@ {
        Some(ApprovalChoice::Session)
    } else if s == "always"@ {
        Some(ApprovalChoice::Always)
    } else if s == "deny"@ {
        Some(ApprovalChoice::Deny)
    } else {
        None
    }
}

/// The snake_case name under which an approval choice is written.
pub open spec fn choice_wire_name(c: ApprovalChoice) -> Seq<char> {
    match c {
        ApprovalChoice::Once => "once"@,
        ApprovalChoice::Session => "session"@,
        ApprovalChoice::Always => "always"@,
        ApprovalChoice::Deny => "deny"@,
    }
}

/// Reading a choice name gives exactly the choice written under that
/// name, and a name that reads as a choice is that choice's name.
pub proof fn lemma_choice_names(c: ApprovalChoice, n: Seq<char>)
    ensures
        choice_named(choice_wire_name(c)) == Some(c),
        choice_named(n) matches Some(x) ==> choice_wire_name(x) == n,
{
    reveal_strlit("once");
    reveal_strlit("session");
    reveal_strlit("always");
    reveal_strlit("deny");
    assert("once"@.len() == 4 && "session"@.len() == 7 && "always"@.len() == 6 && "deny"@.len() == 4);
    assert("once"@[0] != "deny"@[0]);
    assert("session"@ != "once"@ && "always"@ != "once"@ && "deny"@ != "once"@);
    assert("always"@ != "session"@ && "deny"@ != "session"@ && "deny"@ != "always"@);
}

/// The choice that a value stands for.
pub open spec fn choice_of(v: JsonV) -> Option<ApprovalChoice> {
    match variant_name(v) {
        Some(n) => choice_named(n),
        None => None,
    }
}

/// The names of the approval choices.
pub open spec fn choice_names() -> Seq<Seq<char>> {
    seq!["once"@, "session"@, "always"@, "deny"@]
}

/// True when the element reads as an approval choice.
pub open spec fn choice_ok(v: JsonV) -> bool {
    unit_variant_error(v, choice_names()) is None
}

/// The first element that does not read as an approval choice.
pub open spec fn first_bad_choice(items: Seq<JsonV>) -> Option<int> {
    if exists|i: int| 0 <= i < items.len() && !choice_ok(#[trigger] items[i]) {
        Some(
            choose|i: int|
                0 <= i < items.len() && !choice_ok(#[trigger] items[i]) && forall|k: int|
                    0 <= k < i ==> choice_ok(#[trigger] items[k]),
        )
    } else {
        None
    }
}

/// A list of choices; empty when absent; the reader's error for the first
/// element that is no choice, or for a value that is no list.
pub open spec fn f_choices(o: Option<JsonV>, name: Seq<char>) -> Result<Seq<ApprovalChoice>, Seq<char>> {
    match o {
        None => Ok(Seq::empty()),
        Some(JsonV::Array(items)) => match first_bad_choice(items) {
            Some(k) => Err(unit_variant_error(items[k], choice_names())->0),
            None => Ok(items.map_values(|v: JsonV| choice_of(v)->Some_0)),
        },
        Some(v) => Err(type_msg(v, "a sequence"@)),
    }
}

fn choice_from_name(s: &str) -> (r: Option<ApprovalChoice>)
    ensures
        r == choice_named(s@),
{
    if str_eq(s, "once") {
        Some(ApprovalChoice::Once)
    } else if str_eq(s, "session") {
        Some(ApprovalChoice::Session)
    } else if str_eq(s, "always") {
        Some(ApprovalChoice::Always)
    } else if str_eq(s, "deny") {
        Some(ApprovalChoice::Deny)
    } else {
        None
    }
}

/// Reads a list of choices; empty when absent.
pub fn d_choices(p: &Json, name: &str) -> (r: Result<Vec<ApprovalChoice>, String>)
    ensures
        match r {
            Ok(v) => f_choices(jget(p@, name@), name@) == Ok::<Seq<ApprovalChoice>, Seq<char>>(v@),
            Err(e) => f_choices(jget(p@, name@), name@) == Err::<Seq<ApprovalChoice>, Seq<char>>(
                e@,
            ),
        },
{
    match p.get(name) {
        None => {
            let v: Vec<ApprovalChoice> = Vec::new();
            proof {
                assert(v@ =~= Seq::<ApprovalChoice>::empty());
            }
            Ok(v)
        },
        Some(Json::Array(items)) => {
            proof {
                lemma_view_items(items@);
            }
            let ghost vs = view_items(items@);
            let ns: Vec<&str> = vec!["once", "session", "always", "deny"];
            assert(names_view(ns@) =~= choice_names());
            let mut out: Vec<ApprovalChoice> = Vec::new();
            let mut i: usize = 0;
            while i < items.len()
                invariant
                    jget(p@, name@) == Some(JsonV::Array(vs)),
                    vs == view_items(items@),
                    i <= items@.len(),
                    vs.len() == items@.len(),
                    forall|k: int| 0 <= k < items@.len() ==> #[trigger] vs[k] == items@[k]@,
                    names_view(ns@) == choice_names(),
                    out@.len() == i,
                    forall|k: int| 0 <= k < i ==> choice_ok(#[trigger] vs[k]),
                    forall|k: int| 0 <= k < i ==> #[trigger] choice_of(vs[k]) == Some(out@[k]),
                decreases items@.len() - i,
            {
                match unit_variant_check(&items[i], &ns) {
                    Some(e) => {
                        proof {
                            assert(!choice_ok(vs[i as int]));
                            let w = choose|x: int|
                                0 <= x < vs.len() && !choice_ok(#[trigger] vs[x]) && forall|k: int|
                                    0 <= k < x ==> choice_ok(#[trigger] vs[k]);
                            if w > i {
                                assert(choice_ok(vs[i as int]));
                            }
                        }
                        return Err(e);
                    },
                    None => {
                        proof {
                            lemma_known_variant(vs[i as int], choice_names());
                        }
                        let n = variant_name_of(&items[i]).unwrap();
                        let c = choice_from_name(n).unwrap();
                        out.push(c);
                    },
                }
                i = i + 1;
            }
            proof {
                assert(out@ =~= vs.map_values(|v: JsonV| choice_of(v)->Some_0));
            }
            Ok(out)
        },
        Some(v) => Err(type_error(v, "a sequence")),
    }
}

// ── Field errors in the reader's order ────────────────────────────────────
//
// The JSON reader visits an object's members in their order and stops at
// the first member whose value has the wrong type; only when every member
// reads does it report the first missing field, in the record's field
// order.

/// The kind of a record field, which fixes what its value may be.
#[derive(Debug, Clone, Copy, PartialEq, Eq, Structural)]
pub enum FieldKind {
    Str,
    OStr,
    DStr,
    DBool,
    OBool,
    OU64,
    U32,
    OU32,
    USize(bool),
    ONum,
    DStrs,
    Jsons(bool),
    Status,
    Choices,
    Info,
}

/// The error for a present member of a field of kind `k`, if its value is
/// not of that kind.
pub open spec fn kind_err(k: FieldKind, name: Seq<char>, v: JsonV) -> Option<Seq<char>>
    decreases v, 1int,
{
    match k {
        FieldKind::Str => err_of(f_str(Some(v), name)),
        FieldKind::OStr => err_of(f_ostr(Some(v), name)),
        FieldKind::DStr => err_of(f_dstr(Some(v), name)),
        FieldKind::DBool => err_of(f_dbool(Some(v), name)),
        FieldKind::OBool => err_of(f_obool(Some(v), name)),
        FieldKind::OU64 => err_of(f_ou64(Some(v), name)),
        FieldKind::U32 => err_of(f_u32(Some(v), name)),
        FieldKind::OU32 => err_of(f_ou32(Some(v), name)),
        FieldKind::USize(d) => err_of(f_usize(Some(v), name, d)),
        FieldKind::ONum => err_of(f_onum(Some(v), name)),
        FieldKind::DStrs => err_of(f_dstrs(Some(v), name)),
        FieldKind::Jsons(d) => err_of(f_jsons(Some(v), name, d)),
        FieldKind::Status => err_of(f_status(Some(v), name)),
        FieldKind::Choices => err_of(f_choices(Some(v), name)),
        FieldKind::Info => info_error(v),
    }
}

/// The kind of the field named `n` in a record's field table.
pub open spec fn table_kind(table: Seq<(Seq<char>, FieldKind)>, n: Seq<char>) -> Option<FieldKind>
    decreases table.len(),
{
    if table.len() == 0 {
        None
    } else if table[0].0 == n {
        Some(table[0].1)
    } else {
        table_kind(table.drop_first(), n)
    }
}

/// The first member, in the object's order, that names a field of the
/// table and whose value is not of that field's kind: its error.
pub open spec fn type_pass(es: Seq<(Seq<char>, JsonV)>, table: Seq<(Seq<char>, FieldKind)>) -> Option<Seq<char>>
    decreases es, 2int,
{
    if es.len() == 0 {
        None
    } else {
        let rest = type_pass(es.drop_first(), table);
        match table_kind(table, es[0].0) {
            Some(k) => match kind_err(k, es[0].0, es[0].1) {
                Some(e) => Some(e),
                None => rest,
            },
            None => rest,
        }
    }
}

/// The first problem met when the `info` object of a `session.create`
/// result is read from `v`.
pub open spec fn info_error(v: JsonV) -> Option<Seq<char>>
    decreases v, 0int,
{
    match v {
        JsonV::Object(es) => first_err(
            type_pass(es, info_fields()),
            first_err(
                err_of(f_u32(jget(v, "desktop_contract"@), "desktop_contract"@)),
                err_of(f_ostr(jget(v, "profile_name"@), "profile_name"@)),
            ),
        ),
        _ => Some(not_object_msg(v, "SessionCreateInfo"@)),
    }
}

/// The fields of the `info` object of a `session.create` result.
pub open spec fn info_fields() -> Seq<(Seq<char>, FieldKind)> {
    seq![("desktop_contract"@, FieldKind::U32), ("profile_name"@, FieldKind::OStr)]
}

/// The views of a field table.
pub open spec fn table_view(t: Seq<(&str, FieldKind)>) -> Seq<(Seq<char>, FieldKind)> {
    t.map_values(|e: (&str, FieldKind)| (e.0@, e.1))
}

fn table_kind_exec(table: &Vec<(&str, FieldKind)>, n: &str) -> (r: Option<FieldKind>)
    ensures
        r == table_kind(table_view(table@), n@),
{
    let ghost tv = table_view(table@);
    let mut i: usize = 0;
    assert(tv.skip(0) =~= tv);
    while i < table.len()
        invariant
            tv == table_view(table@),
            tv.len() == table@.len(),
            i <= table@.len(),
            table_kind(tv, n@) == table_kind(tv.skip(i as int), n@),
        decreases table@.len() - i,
    {
        assert(tv.skip(i as int)[0] == tv[i as int]);
        assert(tv.skip(i as int).drop_first() =~= tv.skip(i + 1));
        if str_eq(table[i].0, n) {
            return Some(table[i].1);
        }
        i = i + 1;
    }
    assert(tv.skip(i as int).len() == 0);
    None
}

/// The error for a present member of a field of kind `k` (see
/// `kind_err`).
fn kind_check(k: FieldKind, name: &str, v: &Json) -> (r: Option<String>)
    ensures
        match r {
            Some(e) => kind_err(k, name@, v@) == Some(e@),
            None => kind_err(k, name@, v@) is None,
        },
    decreases v, 2int,
{
    if let FieldKind::Info = k {
        return match SessionCreateInfo::decode(v) {
            Ok(_) => None,
            Err(e) => Some(e),
        };
    }
    let mut es: Vec<(String, Json)> = Vec::new();
    push_entry(&mut es, name, v.deep_clone());
    let one = Json::Object(es);
    assert(jget(one@, name@) == Some(v@));
    match k {
        FieldKind::Str => match d_str(&one, name) { Ok(_) => None, Err(e) => Some(e) },
        FieldKind::OStr => match d_ostr(&one, name) { Ok(_) => None, Err(e) => Some(e) },
        FieldKind::DStr => match d_dstr(&one, name) { Ok(_) => None, Err(e) => Some(e) },
        FieldKind::DBool => match d_dbool(&one, name) { Ok(_) => None, Err(e) => Some(e) },
        FieldKind::OBool => match d_obool(&one, name) { Ok(_) => None, Err(e) => Some(e) },
        FieldKind::OU64 => match d_ou64(&one, name) { Ok(_) => None, Err(e) => Some(e) },
        FieldKind::U32 => match d_u32(&one, name) { Ok(_) => None, Err(e) => Some(e) },
        FieldKind::OU32 => match d_ou32(&one, name) { Ok(_) => None, Err(e) => Some(e) },
        FieldKind::USize(d) => match d_usize(&one, name, d) { Ok(_) => None, Err(e) => Some(e) },
        FieldKind::ONum => match d_onum(&one, name) { Ok(_) => None, Err(e) => Some(e) },
        FieldKind::DStrs => match d_dstrs(&one, name) { Ok(_) => None, Err(e) => Some(e) },
        FieldKind::Jsons(d) => match d_jsons(&one, name, d) { Ok(_) => None, Err(e) => Some(e) },
        FieldKind::Status => match d_status(&one, name) { Ok(_) => None, Err(e) => Some(e) },
        FieldKind::Choices => match d_choices(&one, name) { Ok(_) => None, Err(e) => Some(e) },
        FieldKind::Info => None,
    }
}

/// The first type error among the members of an object (see
/// `type_pass`).
fn type_pass_exec(es: &Vec<(String, Json)>, table: &Vec<(&str, FieldKind)>) -> (r: Option<String>)
    ensures
        match r {
            Some(e) => type_pass(view_entries(es@), table_view(table@)) == Some(e@),
            None => type_pass(view_entries(es@), table_view(table@)) is None,
        },
    decreases es, 3int,
{
    let ghost ev = view_entries(es@);
    let ghost tv = table_view(table@);
    proof {
        lemma_view_entries(es@);
    }
    let mut i: usize = 0;
    assert(ev.skip(0) =~= ev);
    while i < es.len()
        invariant
            ev == view_entries(es@),
            tv == table_view(table@),
            ev.len() == es@.len(),
            forall|k: int| 0 <= k < es@.len() ==> #[trigger] ev[k] == (es@[k].0@, es@[k].1@),
            i <= es@.len(),
            type_pass(ev, tv) == type_pass(ev.skip(i as int), tv),
        decreases es@.len() - i,
    {
        assert(ev.skip(i as int)[0] == ev[i as int]);
        assert(ev.skip(i as int).drop_first() =~= ev.skip(i + 1));
        assert(decreases_to!(*es => es@));
        assert(decreases_to!(es@ => es@[i as int]));
        assert(decreases_to!(es@[i as int] => es@[i as int].1));
        match table_kind_exec(table, es[i].0.as_str()) {
            Some(k) => match kind_check(k, es[i].0.as_str(), &es[i].1) {
                Some(e) => {
                    return Some(e);
                },
                None => {},
            },
            None => {},
        }
        i = i + 1;
    }
    assert(ev.skip(i as int).len() == 0);
    None
}

/// The first type error among the members of a record's object `p`, or
/// none when `p` is no object (see `type_pass`).
pub fn member_type_error(p: &Json, table: &Vec<(&str, FieldKind)>) -> (r: Option<String>)
    ensures
        match r {
            Some(e) => p@ is Object && type_pass(p@->Object_0, table_view(table@)) == Some(e@),
            None => !(p@ is Object) || type_pass(p@->Object_0, table_view(table@)) is None,
        },
    decreases p, 0int,
{
    match p {
        Json::Object(es) => {
            assert(decreases_to!(*p => (*p)->Object_0));
            type_pass_exec(es, table)
        },
        _ => None,
    }
}

/// True for the field names that the `session.info` record reads itself.
pub open spec fn session_info_named(k: Seq<char>) -> bool {
    ||| k == "stored_session_id"@
    ||| k == "running"@
    ||| k == "model"@
    ||| k == "provider"@
    ||| k == "tools"@
    ||| k == "skills"@
    ||| k == "usage"@
    ||| k == "desktop_contract"@
}

/// The entries of `es` whose names the `session.info` record does not read,
/// in order.
pub open spec fn unnamed_entries(es: Seq<(Seq<char>, JsonV)>) -> Seq<(Seq<char>, JsonV)>
    decreases es.len(),
{
    if es.len() == 0 {
        Seq::empty()
    } else {
        let rest = unnamed_entries(es.drop_last());
        if session_info_named(es.last().0) {
            rest
        } else {
            rest.push(es.last())
        }
    }
}

/// The entries of a `session.info` payload kept in its `extra` field.
pub open spec fn session_info_extra(p: JsonV) -> Seq<(Seq<char>, JsonV)> {
    match p {
        JsonV::Object(es) => unnamed_entries(es),
        _ => Seq::empty(),
    }
}

fn is_session_info_name(k: &str) -> (r: bool)
    ensures
        r == session_info_named(k@),
{
    str_eq(k, "stored_session_id") || str_eq(k, "running") || str_eq(k, "model") || str_eq(
        k,
        "provider",
    ) || str_eq(k, "tools") || str_eq(k, "skills") || str_eq(k, "usage") || str_eq(
        k,
        "desktop_contract",
    )
}

fn session_info_extra_entries(p: &Json) -> (r: Vec<(String, Json)>)
    ensures
        view_entries(r@) == session_info_extra(p@),
{
    let mut out: Vec<(String, Json)> = Vec::new();
    proof {
        assert(view_entries(out@) =~= Seq::empty());
    }
    match p {
        Json::Object(es) => {
            proof {
                lemma_view_entries(es@);
            }
            let ghost vs = view_entries(es@);
            let mut i: usize = 0;
            while i < es.len()
                invariant
                    p@ == JsonV::Object(vs),
                    vs == view_entries(es@),
                    i <= es@.len(),
                    vs.len() == es@.len(),
                    forall|k: int| 0 <= k < es@.len() ==> #[trigger] vs[k] == (es@[k].0@, es@[k].1@),
                    view_entries(out@) == unnamed_entries(vs.take(i as int)),
                decreases es@.len() - i,
            {
                let ghost before = out@;
                assert(vs.take(i + 1).drop_last() =~= vs.take(i as int));
                assert(vs.take(i + 1).last() == vs[i as int]);
                if !is_session_info_name(es[i].0.as_str()) {
                    out.push((es[i].0.as_str().to_owned(), es[i].1.deep_clone()));
                    proof {
                        lemma_view_entries(before);
                        lemma_view_entries(out@);
                        assert(view_entries(out@) =~= view_entries(before).push(vs[i as int]));
                    }
                }
                i = i + 1;
            }
            assert(vs.take(es@.len() as int) =~= vs);
            out
        },
        _ => out,
    }
}

/// The `info` object of a `session.create` result.
#[derive(Debug)]
pub struct SessionCreateInfo {
    pub desktop_contract: u32,
    pub profile_name: Option<String>,
}

impl SessionCreateInfo {
    /// The first problem met when this record is read from `p`, if any.
    pub open spec fn error_of(p: JsonV) -> Option<Seq<char>> {
        info_error(p)
    }

    /// The fields of the record and their kinds.
    pub open spec fn fields() -> Seq<(Seq<char>, FieldKind)> {
        info_fields()
    }

    fn field_table() -> (r: Vec<(&'static str, FieldKind)>)
        ensures
            table_view(r@) == Self::fields(),
    {
        let r: Vec<(&'static str, FieldKind)> = vec![("desktop_contract", FieldKind::U32), ("profile_name", FieldKind::OStr)];
        assert(table_view(r@) =~= Self::fields());
        r
    }

    /// True when each field holds what `p` gives it.
    pub open spec fn reads(self, p: JsonV) -> bool {
        &&& f_u32(jget(p, "desktop_contract"@), "desktop_contract"@) == Ok::<u32, Seq<char>>(self.desktop_contract)
        &&& f_ostr(jget(p, "profile_name"@), "profile_name"@) == Ok::<Option<Seq<char>>, Seq<char>>(ostring(self.profile_name))
    }

    /// Reads the record from a JSON object.
    pub fn decode(p: &Json) -> (r: Result<Self, String>)
        ensures
            match r {
                Ok(x) => Self::error_of(p@) is None && x.reads(p@),
                Err(e) => Self::error_of(p@) == Some(e@),
            },
        decreases p, 1int,
    {
        if !p.is_object() {
            return Err(not_object_error(p, "SessionCreateInfo"));
        }
        match member_type_error(p, &Self::field_table()) {
            Some(e) => {
                return Err(e);
            },
            None => {},
        }
        let desktop_contract = match d_u32(p, "desktop_contract") {
            Ok(v) => v,
            Err(e) => {
                return Err(e);
            },
        };
        let profile_name = match d_ostr(p, "profile_name") {
            Ok(v) => v,
            Err(e) => {
                return Err(e);
            },
        };
        Ok(SessionCreateInfo { desktop_contract, profile_name })
    }
}

/// Result of `session.create`.
#[derive(Debug)]
pub struct SessionCreateResult {
    pub session_id: String,
    pub stored_session_id: String,
    pub message_count: usize,
    pub messages: Vec<Json>,
    pub info: SessionCreateInfo,
}

impl SessionCreateResult {
    /// The first problem met when this record is read from `p`, if any.
    pub open spec fn error_of(p: JsonV) -> Option<Seq<char>> {
        if !(p is Object) {
            Some(not_object_msg(p, "SessionCreateResult"@))
        } else {
            first_err(
                type_pass(p->Object_0, Self::fields()),
            first_err(
                err_of(f_str(jget(p, "session_id"@), "session_id"@)),
                first_err(
                    err_of(f_str(jget(p, "stored_session_id"@), "stored_session_id"@)),
                    first_err(
                        err_of(f_usize(jget(p, "message_count"@), "message_count"@, false)),
                        first_err(
                            err_of(f_jsons(jget(p, "messages"@), "messages"@, false)),
                            match jget(p, "info"@) {
                            None => Some(missing_msg("info"@)),
                            Some(v) => SessionCreateInfo::error_of(v),
                        },
                        ),
                    ),
                ),
            ),
            )
        }
    }

    /// The fields of the record and their kinds.
    pub open spec fn fields() -> Seq<(Seq<char>, FieldKind)> {
        seq![("session_id"@, FieldKind::Str), ("stored_session_id"@, FieldKind::Str), ("message_count"@, FieldKind::USize(false)), ("messages"@, FieldKind::Jsons(false)), ("info"@, FieldKind::Info)]
    }

    fn field_table() -> (r: Vec<(&'static str, FieldKind)>)
        ensures
            table_view(r@) == Self::fields(),
    {
        let r: Vec<(&'static str, FieldKind)> = vec![("session_id", FieldKind::Str), ("stored_session_id", FieldKind::Str), ("message_count", FieldKind::USize(false)), ("messages", FieldKind::Jsons(false)), ("info", FieldKind::Info)];
        assert(table_view(r@) =~= Self::fields());
        r
    }

    /// True when each field holds what `p` gives it.
    pub open spec fn reads(self, p: JsonV) -> bool {
        &&& f_str(jget(p, "session_id"@), "session_id"@) == Ok::<Seq<char>, Seq<char>>(self.session_id@)
        &&& f_str(jget(p, "stored_session_id"@), "stored_session_id"@) == Ok::<Seq<char>, Seq<char>>(self.stored_session_id@)
        &&& f_usize(jget(p, "message_count"@), "message_count"@, false) == Ok::<usize, Seq<char>>(self.message_count)
        &&& f_jsons(jget(p, "messages"@), "messages"@, false) == Ok::<Seq<JsonV>, Seq<char>>(view_items(self.messages@))
        &&& match jget(p, "info"@) {
            Some(v) => self.info.reads(v),
            None => false,
        }
    }

    /// Reads the record from a JSON object.
    pub fn decode(p: &Json) -> (r: Result<Self, String>)
        ensures
            match r {
                Ok(x) => Self::error_of(p@) is None && x.reads(p@),
                Err(e) => Self::error_of(p@) == Some(e@),
            },
    {
        if !p.is_object() {
            return Err(not_object_error(p, "SessionCreateResult"));
        }
        match member_type_error(p, &Self::field_table()) {
            Some(e) => {
                return Err(e);
            },
            None => {},
        }
        let session_id = match d_str(p, "session_id") {
            Ok(v) => v,
            Err(e) => {
                return Err(e);
            },
        };
        let stored_session_id = match d_str(p, "stored_session_id") {
            Ok(v) => v,
            Err(e) => {
                return Err(e);
            },
        };
        let message_count = match d_usize(p, "message_count", false) {
            Ok(v) => v,
            Err(e) => {
                return Err(e);
            },
        };
        let messages = match d_jsons(p, "messages", false) {
            Ok(v) => v,
            Err(e) => {
                return Err(e);
            },
        };
        let info = match p.get("info") {
            None => {
                return Err(missing_error("info"));
            },
            Some(v) => match SessionCreateInfo::decode(v) {
                Ok(x) => x,
                Err(e) => {
                    return Err(e);
                },
            },
        };
        Ok(SessionCreateResult { session_id, stored_session_id, message_count, messages, info })
    }
}

/// Result of `session.resume`.
#[derive(Debug)]
pub struct SessionResumeResult {
    pub session_id: String,
    pub resumed: String,
    pub session_key: Option<String>,
    pub message_count: usize,
    pub messages: Vec<Json>,
    pub info: Json,
}

impl SessionResumeResult {
    /// The first problem met when this record is read from `p`, if any.
    pub open spec fn error_of(p: JsonV) -> Option<Seq<char>> {
        if !(p is Object) {
            Some(not_object_msg(p, "SessionResumeResult"@))
        } else {
            first_err(
                type_pass(p->Object_0, Self::fields()),
            first_err(
                err_of(f_str(jget(p, "session_id"@), "session_id"@)),
                first_err(
                    err_of(f_dstr(jget(p, "resumed"@), "resumed"@)),
                    first_err(
                        err_of(f_ostr(jget(p, "session_key"@), "session_key"@)),
                        first_err(
                            err_of(f_usize(jget(p, "message_count"@), "message_count"@, true)),
                            err_of(f_jsons(jget(p, "messages"@), "messages"@, true)),
                        ),
                    ),
                ),
            ),
            )
        }
    }

    /// The fields of the record and their kinds.
    pub open spec fn fields() -> Seq<(Seq<char>, FieldKind)> {
        seq![("session_id"@, FieldKind::Str), ("resumed"@, FieldKind::DStr), ("session_key"@, FieldKind::OStr), ("message_count"@, FieldKind::USize(true)), ("messages"@, FieldKind::Jsons(true))]
    }

    fn field_table() -> (r: Vec<(&'static str, FieldKind)>)
        ensures
            table_view(r@) == Self::fields(),
    {
        let r: Vec<(&'static str, FieldKind)> = vec![("session_id", FieldKind::Str), ("resumed", FieldKind::DStr), ("session_key", FieldKind::OStr), ("message_count", FieldKind::USize(true)), ("messages", FieldKind::Jsons(true))];
        assert(table_view(r@) =~= Self::fields());
        r
    }

    /// True when each field holds what `p` gives it.
    pub open spec fn reads(self, p: JsonV) -> bool {
        &&& f_str(jget(p, "session_id"@), "session_id"@) == Ok::<Seq<char>, Seq<char>>(self.session_id@)
        &&& f_dstr(jget(p, "resumed"@), "resumed"@) == Ok::<Seq<char>, Seq<char>>(self.resumed@)
        &&& f_ostr(jget(p, "session_key"@), "session_key"@) == Ok::<Option<Seq<char>>, Seq<char>>(ostring(self.session_key))
        &&& f_usize(jget(p, "message_count"@), "message_count"@, true) == Ok::<usize, Seq<char>>(self.message_count)
        &&& f_jsons(jget(p, "messages"@), "messages"@, true) == Ok::<Seq<JsonV>, Seq<char>>(view_items(self.messages@))
        &&& self.info@ == f_djson(jget(p, "info"@))
    }

    /// Reads the record from a JSON object.
    pub fn decode(p: &Json) -> (r: Result<Self, String>)
        ensures
            match r {
                Ok(x) => Self::error_of(p@) is None && x.reads(p@),
                Err(e) => Self::error_of(p@) == Some(e@),
            },
    {
        if !p.is_object() {
            return Err(not_object_error(p, "SessionResumeResult"));
        }
        match member_type_error(p, &Self::field_table()) {
            Some(e) => {
                return Err(e);
            },
            None => {},
        }
        let session_id = match d_str(p, "session_id") {
            Ok(v) => v,
            Err(e) => {
                return Err(e);
            },
        };
        let resumed = match d_dstr(p, "resumed") {
            Ok(v) => v,
            Err(e) => {
                return Err(e);
            },
        };
        let session_key = match d_ostr(p, "session_key") {
            Ok(v) => v,
            Err(e) => {
                return Err(e);
            },
        };
        let message_count = match d_usize(p, "message_count", true) {
            Ok(v) => v,
            Err(e) => {
                return Err(e);
            },
        };
        let messages = match d_jsons(p, "messages", true) {
            Ok(v) => v,
            Err(e) => {
                return Err(e);
            },
        };
        let info = d_djson(p, "info");
        Ok(SessionResumeResult { session_id, resumed, session_key, message_count, messages, info })
    }
}

/// Result of `prompt.submit`.
#[derive(Debug)]
pub struct PromptSubmitResult {
    pub status: PromptSubmitStatus,
    pub turn_isolation: bool,
    pub text: Option<String>,
}

impl PromptSubmitResult {
    /// The first problem met when this record is read from `p`, if any.
    pub open spec fn error_of(p: JsonV) -> Option<Seq<char>> {
        if !(p is Object) {
            Some(not_object_msg(p, "PromptSubmitResult"@))
        } else {
            first_err(
                type_pass(p->Object_0, Self::fields()),
            first_err(
                err_of(f_status(jget(p, "status"@), "status"@)),
                first_err(
                    err_of(f_dbool(jget(p, "turn_isolation"@), "turn_isolation"@)),
                    err_of(f_ostr(jget(p, "text"@), "text"@)),
                ),
            ),
            )
        }
    }

    /// The fields of the record and their kinds.
    pub open spec fn fields() -> Seq<(Seq<char>, FieldKind)> {
        seq![("status"@, FieldKind::Status), ("turn_isolation"@, FieldKind::DBool), ("text"@, FieldKind::OStr)]
    }

    fn field_table() -> (r: Vec<(&'static str, FieldKind)>)
        ensures
            table_view(r@) == Self::fields(),
    {
        let r: Vec<(&'static str, FieldKind)> = vec![("status", FieldKind::Status), ("turn_isolation", FieldKind::DBool), ("text", FieldKind::OStr)];
        assert(table_view(r@) =~= Self::fields());
        r
    }

    /// True when each field holds what `p` gives it.
    pub open spec fn reads(self, p: JsonV) -> bool {
        &&& f_status(jget(p, "status"@), "status"@) == Ok::<PromptSubmitStatus, Seq<char>>(self.status)
        &&& f_dbool(jget(p, "turn_isolation"@), "turn_isolation"@) == Ok::<bool, Seq<char>>(self.turn_isolation)
        &&& f_ostr(jget(p, "text"@), "text"@) == Ok::<Option<Seq<char>>, Seq<char>>(ostring(self.text))
    }

    /// Reads the record from a JSON object.
    pub fn decode(p: &Json) -> (r: Result<Self, String>)
        ensures
            match r {
                Ok(x) => Self::error_of(p@) is None && x.reads(p@),
                Err(e) => Self::error_of(p@) == Some(e@),
            },
    {
        if !p.is_object() {
            return Err(not_object_error(p, "PromptSubmitResult"));
        }
        match member_type_error(p, &Self::field_table()) {
            Some(e) => {
                return Err(e);
            },
            None => {},
        }
        let status = match d_status(p, "status") {
            Ok(v) => v,
            Err(e) => {
                return Err(e);
            },
        };
        let turn_isolation = match d_dbool(p, "turn_isolation") {
            Ok(v) => v,
            Err(e) => {
                return Err(e);
            },
        };
        let text = match d_ostr(p, "text") {
            Ok(v) => v,
            Err(e) => {
                return Err(e);
            },
        };
        Ok(PromptSubmitResult { status, turn_isolation, text })
    }
}


/// Payload of `gateway.ready`: the skin the backend uses.
#[derive(Debug)]
pub struct GatewayReadyPayload {
    pub skin: Option<String>,
}

impl GatewayReadyPayload {
    /// The first problem met when this record is read from `p`, if any.
    pub open spec fn error_of(p: JsonV) -> Option<Seq<char>> {
        if !(p is Object) {
            Some(not_object_msg(p, "GatewayReadyPayload"@))
        } else {
            first_err(
                type_pass(p->Object_0, Self::fields()),
            err_of(f_ostr(jget(p, "skin"@), "skin"@)),
            )
        }
    }

    /// The fields of the record and their kinds.
    pub open spec fn fields() -> Seq<(Seq<char>, FieldKind)> {
        seq![("skin"@, FieldKind::OStr)]
    }

    fn field_table() -> (r: Vec<(&'static str, FieldKind)>)
        ensures
            table_view(r@) == Self::fields(),
    {
        let r: Vec<(&'static str, FieldKind)> = vec![("skin", FieldKind::OStr)];
        assert(table_view(r@) =~= Self::fields());
        r
    }

    /// True when each field holds what `p` gives it.
    pub open spec fn reads(self, p: JsonV) -> bool {
        &&& f_ostr(jget(p, "skin"@), "skin"@) == Ok::<Option<Seq<char>>, Seq<char>>(ostring(self.skin))
    }

    /// Reads the record from a JSON object.
    pub fn decode(p: &Json) -> (r: Result<Self, String>)
        ensures
            match r {
                Ok(x) => Self::error_of(p@) is None && x.reads(p@),
                Err(e) => Self::error_of(p@) == Some(e@),
            },
    {
        if !p.is_object() {
            return Err(not_object_error(p, "GatewayReadyPayload"));
        }
        match member_type_error(p, &Self::field_table()) {
            Some(e) => {
                return Err(e);
            },
            None => {},
        }
        let skin = match d_ostr(p, "skin") {
            Ok(v) => v,
            Err(e) => {
                return Err(e);
            },
        };
        Ok(GatewayReadyPayload { skin })
    }
}

/// Payload of `message.delta`: one piece of the streamed reply.
#[derive(Debug)]
pub struct MessageDeltaPayload {
    pub text: String,
}

impl MessageDeltaPayload {
    /// The first problem met when this record is read from `p`, if any.
    pub open spec fn error_of(p: JsonV) -> Option<Seq<char>> {
        if !(p is Object) {
            Some(not_object_msg(p, "MessageDeltaPayload"@))
        } else {
            first_err(
                type_pass(p->Object_0, Self::fields()),
            err_of(f_str(jget(p, "text"@), "text"@)),
            )
        }
    }

    /// The fields of the record and their kinds.
    pub open spec fn fields() -> Seq<(Seq<char>, FieldKind)> {
        seq![("text"@, FieldKind::Str)]
    }

    fn field_table() -> (r: Vec<(&'static str, FieldKind)>)
        ensures
            table_view(r@) == Self::fields(),
    {
        let r: Vec<(&'static str, FieldKind)> = vec![("text", FieldKind::Str)];
        assert(table_view(r@) =~= Self::fields());
        r
    }

    /// True when each field holds what `p` gives it.
    pub open spec fn reads(self, p: JsonV) -> bool {
        &&& f_str(jget(p, "text"@), "text"@) == Ok::<Seq<char>, Seq<char>>(self.text@)
    }

    /// Reads the record from a JSON object.
    pub fn decode(p: &Json) -> (r: Result<Self, String>)
        ensures
            match r {
                Ok(x) => Self::error_of(p@) is None && x.reads(p@),
                Err(e) => Self::error_of(p@) == Some(e@),
            },
    {
        if !p.is_object() {
            return Err(not_object_error(p, "MessageDeltaPayload"));
        }
        match member_type_error(p, &Self::field_table()) {
            Some(e) => {
                return Err(e);
            },
            None => {},
        }
        let text = match d_str(p, "text") {
            Ok(v) => v,
            Err(e) => {
                return Err(e);
            },
        };
        Ok(MessageDeltaPayload { text })
    }
}

/// Payload of `message.complete`.
#[derive(Debug)]
pub struct MessageCompletePayload {
    pub text: Option<String>,
}

impl MessageCompletePayload {
    /// The first problem met when this record is read from `p`, if any.
    pub open spec fn error_of(p: JsonV) -> Option<Seq<char>> {
        if !(p is Object) {
            Some(not_object_msg(p, "MessageCompletePayload"@))
        } else {
            first_err(
                type_pass(p->Object_0, Self::fields()),
            err_of(f_ostr(jget(p, "text"@), "text"@)),
            )
        }
    }

    /// The fields of the record and their kinds.
    pub open spec fn fields() -> Seq<(Seq<char>, FieldKind)> {
        seq![("text"@, FieldKind::OStr)]
    }

    fn field_table() -> (r: Vec<(&'static str, FieldKind)>)
        ensures
            table_view(r@) == Self::fields(),
    {
        let r: Vec<(&'static str, FieldKind)> = vec![("text", FieldKind::OStr)];
        assert(table_view(r@) =~= Self::fields());
        r
    }

    /// True when each field holds what `p` gives it.
    pub open spec fn reads(self, p: JsonV) -> bool {
        &&& f_ostr(jget(p, "text"@), "text"@) == Ok::<Option<Seq<char>>, Seq<char>>(ostring(self.text))
    }

    /// Reads the record from a JSON object.
    pub fn decode(p: &Json) -> (r: Result<Self, String>)
        ensures
            match r {
                Ok(x) => Self::error_of(p@) is None && x.reads(p@),
                Err(e) => Self::error_of(p@) == Some(e@),
            },
    {
        if !p.is_object() {
            return Err(not_object_error(p, "MessageCompletePayload"));
        }
        match member_type_error(p, &Self::field_table()) {
            Some(e) => {
                return Err(e);
            },
            None => {},
        }
        let text = match d_ostr(p, "text") {
            Ok(v) => v,
            Err(e) => {
                return Err(e);
            },
        };
        Ok(MessageCompletePayload { text })
    }
}

/// Payload of `reasoning.delta`.
#[derive(Debug)]
pub struct ReasoningDeltaPayload {
    pub text: String,
}

impl ReasoningDeltaPayload {
    /// The first problem met when this record is read from `p`, if any.
    pub open spec fn error_of(p: JsonV) -> Option<Seq<char>> {
        if !(p is Object) {
            Some(not_object_msg(p, "ReasoningDeltaPayload"@))
        } else {
            first_err(
                type_pass(p->Object_0, Self::fields()),
            err_of(f_str(jget(p, "text"@), "text"@)),
            )
        }
    }

    /// The fields of the record and their kinds.
    pub open spec fn fields() -> Seq<(Seq<char>, FieldKind)> {
        seq![("text"@, FieldKind::Str)]
    }

    fn field_table() -> (r: Vec<(&'static str, FieldKind)>)
        ensures
            table_view(r@) == Self::fields(),
    {
        let r: Vec<(&'static str, FieldKind)> = vec![("text", FieldKind::Str)];
        assert(table_view(r@) =~= Self::fields());
        r
    }

    /// True when each field holds what `p` gives it.
    pub open spec fn reads(self, p: JsonV) -> bool {
        &&& f_str(jget(p, "text"@), "text"@) == Ok::<Seq<char>, Seq<char>>(self.text@)
    }

    /// Reads the record from a JSON object.
    pub fn decode(p: &Json) -> (r: Result<Self, String>)
        ensures
            match r {
                Ok(x) => Self::error_of(p@) is None && x.reads(p@),
                Err(e) => Self::error_of(p@) == Some(e@),
            },
    {
        if !p.is_object() {
            return Err(not_object_error(p, "ReasoningDeltaPayload"));
        }
        match member_type_error(p, &Self::field_table()) {
            Some(e) => {
                return Err(e);
            },
            None => {},
        }
        let text = match d_str(p, "text") {
            Ok(v) => v,
            Err(e) => {
                return Err(e);
            },
        };
        Ok(ReasoningDeltaPayload { text })
    }
}

/// Payload of `tool.start`.
#[derive(Debug)]
pub struct ToolStartPayload {
    pub tool_id: String,
    pub name: String,
    pub context: Json,
}

impl ToolStartPayload {
    /// The first problem met when this record is read from `p`, if any.
    pub open spec fn error_of(p: JsonV) -> Option<Seq<char>> {
        if !(p is Object) {
            Some(not_object_msg(p, "ToolStartPayload"@))
        } else {
            first_err(
                type_pass(p->Object_0, Self::fields()),
            first_err(
                err_of(f_str(jget(p, "tool_id"@), "tool_id"@)),
                err_of(f_str(jget(p, "name"@), "name"@)),
            ),
            )
        }
    }

    /// The fields of the record and their kinds.
    pub open spec fn fields() -> Seq<(Seq<char>, FieldKind)> {
        seq![("tool_id"@, FieldKind::Str), ("name"@, FieldKind::Str)]
    }

    fn field_table() -> (r: Vec<(&'static str, FieldKind)>)
        ensures
            table_view(r@) == Self::fields(),
    {
        let r: Vec<(&'static str, FieldKind)> = vec![("tool_id", FieldKind::Str), ("name", FieldKind::Str)];
        assert(table_view(r@) =~= Self::fields());
        r
    }

    /// True when each field holds what `p` gives it.
    pub open spec fn reads(self, p: JsonV) -> bool {
        &&& f_str(jget(p, "tool_id"@), "tool_id"@) == Ok::<Seq<char>, Seq<char>>(self.tool_id@)
        &&& f_str(jget(p, "name"@), "name"@) == Ok::<Seq<char>, Seq<char>>(self.name@)
        &&& self.context@ == f_djson(jget(p, "context"@))
    }

    /// Reads the record from a JSON object.
    pub fn decode(p: &Json) -> (r: Result<Self, String>)
        ensures
            match r {
                Ok(x) => Self::error_of(p@) is None && x.reads(p@),
                Err(e) => Self::error_of(p@) == Some(e@),
            },
    {
        if !p.is_object() {
            return Err(not_object_error(p, "ToolStartPayload"));
        }
        match member_type_error(p, &Self::field_table()) {
            Some(e) => {
                return Err(e);
            },
            None => {},
        }
        let tool_id = match d_str(p, "tool_id") {
            Ok(v) => v,
            Err(e) => {
                return Err(e);
            },
        };
        let name = match d_str(p, "name") {
            Ok(v) => v,
            Err(e) => {
                return Err(e);
            },
        };
        let context = d_djson(p, "context");
        Ok(ToolStartPayload { tool_id, name, context })
    }
}

/// Payload of `tool.complete`; `duration_s` keeps the number's decimal text.
#[derive(Debug)]
pub struct ToolCompletePayload {
    pub tool_id: String,
    pub name: String,
    pub args: Json,
    pub result: Json,
    pub duration_s: Option<String>,
    pub summary: Option<String>,
    pub result_text: Option<String>,
    pub inline_diff: Option<String>,
}

impl ToolCompletePayload {
    /// The first problem met when this record is read from `p`, if any.
    pub open spec fn error_of(p: JsonV) -> Option<Seq<char>> {
        if !(p is Object) {
            Some(not_object_msg(p, "ToolCompletePayload"@))
        } else {
            first_err(
                type_pass(p->Object_0, Self::fields()),
            first_err(
                err_of(f_str(jget(p, "tool_id"@), "tool_id"@)),
                first_err(
                    err_of(f_str(jget(p, "name"@), "name"@)),
                    first_err(
                        err_of(f_onum(jget(p, "duration_s"@), "duration_s"@)),
                        first_err(
                            err_of(f_ostr(jget(p, "summary"@), "summary"@)),
                            first_err(
                                err_of(f_ostr(jget(p, "result_text"@), "result_text"@)),
                                err_of(f_ostr(jget(p, "inline_diff"@), "inline_diff"@)),
                            ),
                        ),
                    ),
                ),
            ),
            )
        }
    }

    /// The fields of the record and their kinds.
    pub open spec fn fields() -> Seq<(Seq<char>, FieldKind)> {
        seq![("tool_id"@, FieldKind::Str), ("name"@, FieldKind::Str), ("duration_s"@, FieldKind::ONum), ("summary"@, FieldKind::OStr), ("result_text"@, FieldKind::OStr), ("inline_diff"@, FieldKind::OStr)]
    }

    fn field_table() -> (r: Vec<(&'static str, FieldKind)>)
        ensures
            table_view(r@) == Self::fields(),
    {
        let r: Vec<(&'static str, FieldKind)> = vec![("tool_id", FieldKind::Str), ("name", FieldKind::Str), ("duration_s", FieldKind::ONum), ("summary", FieldKind::OStr), ("result_text", FieldKind::OStr), ("inline_diff", FieldKind::OStr)];
        assert(table_view(r@) =~= Self::fields());
        r
    }

    /// True when each field holds what `p` gives it.
    pub open spec fn reads(self, p: JsonV) -> bool {
        &&& f_str(jget(p, "tool_id"@), "tool_id"@) == Ok::<Seq<char>, Seq<char>>(self.tool_id@)
        &&& f_str(jget(p, "name"@), "name"@) == Ok::<Seq<char>, Seq<char>>(self.name@)
        &&& self.args@ == f_djson(jget(p, "args"@))
        &&& self.result@ == f_djson(jget(p, "result"@))
        &&& f_onum(jget(p, "duration_s"@), "duration_s"@) == Ok::<Option<Seq<char>>, Seq<char>>(ostring(self.duration_s))
        &&& f_ostr(jget(p, "summary"@), "summary"@) == Ok::<Option<Seq<char>>, Seq<char>>(ostring(self.summary))
        &&& f_ostr(jget(p, "result_text"@), "result_text"@) == Ok::<Option<Seq<char>>, Seq<char>>(ostring(self.result_text))
        &&& f_ostr(jget(p, "inline_diff"@), "inline_diff"@) == Ok::<Option<Seq<char>>, Seq<char>>(ostring(self.inline_diff))
    }

    /// Reads the record from a JSON object.
    pub fn decode(p: &Json) -> (r: Result<Self, String>)
        ensures
            match r {
                Ok(x) => Self::error_of(p@) is None && x.reads(p@),
                Err(e) => Self::error_of(p@) == Some(e@),
            },
    {
        if !p.is_object() {
            return Err(not_object_error(p, "ToolCompletePayload"));
        }
        match member_type_error(p, &Self::field_table()) {
            Some(e) => {
                return Err(e);
            },
            None => {},
        }
        let tool_id = match d_str(p, "tool_id") {
            Ok(v) => v,
            Err(e) => {
                return Err(e);
            },
        };
        let name = match d_str(p, "name") {
            Ok(v) => v,
            Err(e) => {
                return Err(e);
            },
        };
        let args = d_djson(p, "args");
        let result = d_djson(p, "result");
        let duration_s = match d_onum(p, "duration_s") {
            Ok(v) => v,
            Err(e) => {
                return Err(e);
            },
        };
        let summary = match d_ostr(p, "summary") {
            Ok(v) => v,
            Err(e) => {
                return Err(e);
            },
        };
        let result_text = match d_ostr(p, "result_text") {
            Ok(v) => v,
            Err(e) => {
                return Err(e);
            },
        };
        let inline_diff = match d_ostr(p, "inline_diff") {
            Ok(v) => v,
            Err(e) => {
                return Err(e);
            },
        };
        Ok(ToolCompletePayload { tool_id, name, args, result, duration_s, summary, result_text, inline_diff })
    }
}

/// Payload of `approval.request`.
#[derive(Debug)]
pub struct ApprovalRequestPayload {
    pub request_id: String,
    pub tool_id: String,
    pub name: String,
    pub command: Option<String>,
    pub tool_input: Option<String>,
    pub action: Option<String>,
    pub message: Option<String>,
    pub command_class: Option<String>,
    pub smart_denied: Option<bool>,
    pub allow_permanent: Option<bool>,
    pub choices: Vec<ApprovalChoice>,
}

impl ApprovalRequestPayload {
    /// The first problem met when this record is read from `p`, if any.
    pub open spec fn error_of(p: JsonV) -> Option<Seq<char>> {
        if !(p is Object) {
            Some(not_object_msg(p, "ApprovalRequestPayload"@))
        } else {
            first_err(
                type_pass(p->Object_0, Self::fields()),
            first_err(
                err_of(f_str(jget(p, "request_id"@), "request_id"@)),
                first_err(
                    err_of(f_str(jget(p, "tool_id"@), "tool_id"@)),
                    first_err(
                        err_of(f_str(jget(p, "name"@), "name"@)),
                        first_err(
                            err_of(f_ostr(jget(p, "command"@), "command"@)),
                            first_err(
                                err_of(f_ostr(jget(p, "tool_input"@), "tool_input"@)),
                                first_err(
                                    err_of(f_ostr(jget(p, "action"@), "action"@)),
                                    first_err(
                                        err_of(f_ostr(jget(p, "message"@), "message"@)),
                                        first_err(
                                            err_of(f_ostr(jget(p, "command_class"@), "command_class"@)),
                                            first_err(
                                                err_of(f_obool(jget(p, "smart_denied"@), "smart_denied"@)),
                                                first_err(
                                                    err_of(f_obool(jget(p, "allow_permanent"@), "allow_permanent"@)),
                                                    err_of(f_choices(jget(p, "choices"@), "choices"@)),
                                                ),
                                            ),
                                        ),
                                    ),
                                ),
                            ),
                        ),
                    ),
                ),
            ),
            )
        }
    }

    /// The fields of the record and their kinds.
    pub open spec fn fields() -> Seq<(Seq<char>, FieldKind)> {
        seq![("request_id"@, FieldKind::Str), ("tool_id"@, FieldKind::Str), ("name"@, FieldKind::Str), ("command"@, FieldKind::OStr), ("tool_input"@, FieldKind::OStr), ("action"@, FieldKind::OStr), ("message"@, FieldKind::OStr), ("command_class"@, FieldKind::OStr), ("smart_denied"@, FieldKind::OBool), ("allow_permanent"@, FieldKind::OBool), ("choices"@, FieldKind::Choices)]
    }

    fn field_table() -> (r: Vec<(&'static str, FieldKind)>)
        ensures
            table_view(r@) == Self::fields(),
    {
        let r: Vec<(&'static str, FieldKind)> = vec![("request_id", FieldKind::Str), ("tool_id", FieldKind::Str), ("name", FieldKind::Str), ("command", FieldKind::OStr), ("tool_input", FieldKind::OStr), ("action", FieldKind::OStr), ("message", FieldKind::OStr), ("command_class", FieldKind::OStr), ("smart_denied", FieldKind::OBool), ("allow_permanent", FieldKind::OBool), ("choices", FieldKind::Choices)];
        assert(table_view(r@) =~= Self::fields());
        r
    }

    /// True when each field holds what `p` gives it.
    pub open spec fn reads(self, p: JsonV) -> bool {
        &&& f_str(jget(p, "request_id"@), "request_id"@) == Ok::<Seq<char>, Seq<char>>(self.request_id@)
        &&& f_str(jget(p, "tool_id"@), "tool_id"@) == Ok::<Seq<char>, Seq<char>>(self.tool_id@)
        &&& f_str(jget(p, "name"@), "name"@) == Ok::<Seq<char>, Seq<char>>(self.name@)
        &&& f_ostr(jget(p, "command"@), "command"@) == Ok::<Option<Seq<char>>, Seq<char>>(ostring(self.command))
        &&& f_ostr(jget(p, "tool_input"@), "tool_input"@) == Ok::<Option<Seq<char>>, Seq<char>>(ostring(self.tool_input))
        &&& f_ostr(jget(p, "action"@), "action"@) == Ok::<Option<Seq<char>>, Seq<char>>(ostring(self.action))
        &&& f_ostr(jget(p, "message"@), "message"@) == Ok::<Option<Seq<char>>, Seq<char>>(ostring(self.message))
        &&& f_ostr(jget(p, "command_class"@), "command_class"@) == Ok::<Option<Seq<char>>, Seq<char>>(ostring(self.command_class))
        &&& f_obool(jget(p, "smart_denied"@), "smart_denied"@) == Ok::<Option<bool>, Seq<char>>(self.smart_denied)
        &&& f_obool(jget(p, "allow_permanent"@), "allow_permanent"@) == Ok::<Option<bool>, Seq<char>>(self.allow_permanent)
        &&& f_choices(jget(p, "choices"@), "choices"@) == Ok::<Seq<ApprovalChoice>, Seq<char>>(self.choices@)
    }

    /// Reads the record from a JSON object.
    pub fn decode(p: &Json) -> (r: Result<Self, String>)
        ensures
            match r {
                Ok(x) => Self::error_of(p@) is None && x.reads(p@),
                Err(e) => Self::error_of(p@) == Some(e@),
            },
    {
        if !p.is_object() {
            return Err(not_object_error(p, "ApprovalRequestPayload"));
        }
        match member_type_error(p, &Self::field_table()) {
            Some(e) => {
                return Err(e);
            },
            None => {},
        }
        let request_id = match d_str(p, "request_id") {
            Ok(v) => v,
            Err(e) => {
                return Err(e);
            },
        };
        let tool_id = match d_str(p, "tool_id") {
            Ok(v) => v,
            Err(e) => {
                return Err(e);
            },
        };
        let name = match d_str(p, "name") {
            Ok(v) => v,
            Err(e) => {
                return Err(e);
            },
        };
        let command = match d_ostr(p, "command") {
            Ok(v) => v,
            Err(e) => {
                return Err(e);
            },
        };
        let tool_input = match d_ostr(p, "tool_input") {
            Ok(v) => v,
            Err(e) => {
                return Err(e);
            },
        };
        let action = match d_ostr(p, "action") {
            Ok(v) => v,
            Err(e) => {
                return Err(e);
            },
        };
        let message = match d_ostr(p, "message") {
            Ok(v) => v,
            Err(e) => {
                return Err(e);
            },
        };
        let command_class = match d_ostr(p, "command_class") {
            Ok(v) => v,
            Err(e) => {
                return Err(e);
            },
        };
        let smart_denied = match d_obool(p, "smart_denied") {
            Ok(v) => v,
            Err(e) => {
                return Err(e);
            },
        };
        let allow_permanent = match d_obool(p, "allow_permanent") {
            Ok(v) => v,
            Err(e) => {
                return Err(e);
            },
        };
        let choices = match d_choices(p, "choices") {
            Ok(v) => v,
            Err(e) => {
                return Err(e);
            },
        };
        Ok(ApprovalRequestPayload { request_id, tool_id, name, command, tool_input, action, message, command_class, smart_denied, allow_permanent, choices })
    }
}

/// Payload of `status.update`.
#[derive(Debug)]
pub struct StatusUpdatePayload {
    pub text: Option<String>,
    pub kind: Option<String>,
}

impl StatusUpdatePayload {
    /// The first problem met when this record is read from `p`, if any.
    pub open spec fn error_of(p: JsonV) -> Option<Seq<char>> {
        if !(p is Object) {
            Some(not_object_msg(p, "StatusUpdatePayload"@))
        } else {
            first_err(
                type_pass(p->Object_0, Self::fields()),
            first_err(
                err_of(f_ostr(jget(p, "text"@), "text"@)),
                err_of(f_ostr(jget(p, "kind"@), "kind"@)),
            ),
            )
        }
    }

    /// The fields of the record and their kinds.
    pub open spec fn fields() -> Seq<(Seq<char>, FieldKind)> {
        seq![("text"@, FieldKind::OStr), ("kind"@, FieldKind::OStr)]
    }

    fn field_table() -> (r: Vec<(&'static str, FieldKind)>)
        ensures
            table_view(r@) == Self::fields(),
    {
        let r: Vec<(&'static str, FieldKind)> = vec![("text", FieldKind::OStr), ("kind", FieldKind::OStr)];
        assert(table_view(r@) =~= Self::fields());
        r
    }

    /// True when each field holds what `p` gives it.
    pub open spec fn reads(self, p: JsonV) -> bool {
        &&& f_ostr(jget(p, "text"@), "text"@) == Ok::<Option<Seq<char>>, Seq<char>>(ostring(self.text))
        &&& f_ostr(jget(p, "kind"@), "kind"@) == Ok::<Option<Seq<char>>, Seq<char>>(ostring(self.kind))
    }

    /// Reads the record from a JSON object.
    pub fn decode(p: &Json) -> (r: Result<Self, String>)
        ensures
            match r {
                Ok(x) => Self::error_of(p@) is None && x.reads(p@),
                Err(e) => Self::error_of(p@) == Some(e@),
            },
    {
        if !p.is_object() {
            return Err(not_object_error(p, "StatusUpdatePayload"));
        }
        match member_type_error(p, &Self::field_table()) {
            Some(e) => {
                return Err(e);
            },
            None => {},
        }
        let text = match d_ostr(p, "text") {
            Ok(v) => v,
            Err(e) => {
                return Err(e);
            },
        };
        let kind = match d_ostr(p, "kind") {
            Ok(v) => v,
            Err(e) => {
                return Err(e);
            },
        };
        Ok(StatusUpdatePayload { text, kind })
    }
}

/// Payload of `pipeline.status`; `cost_usd` keeps the number's decimal text.
#[derive(Debug)]
pub struct PipelineStatusPayload {
    pub backend: String,
    pub model: Option<String>,
    pub tokens_used: Option<u64>,
    pub tokens_limit: Option<u64>,
    pub cost_usd: Option<String>,
}

impl PipelineStatusPayload {
    /// The first problem met when this record is read from `p`, if any.
    pub open spec fn error_of(p: JsonV) -> Option<Seq<char>> {
        if !(p is Object) {
            Some(not_object_msg(p, "PipelineStatusPayload"@))
        } else {
            first_err(
                type_pass(p->Object_0, Self::fields()),
            first_err(
                err_of(f_str(jget(p, "backend"@), "backend"@)),
                first_err(
                    err_of(f_ostr(jget(p, "model"@), "model"@)),
                    first_err(
                        err_of(f_ou64(jget(p, "tokens_used"@), "tokens_used"@)),
                        first_err(
                            err_of(f_ou64(jget(p, "tokens_limit"@), "tokens_limit"@)),
                            err_of(f_onum(jget(p, "cost_usd"@), "cost_usd"@)),
                        ),
                    ),
                ),
            ),
            )
        }
    }

    /// The fields of the record and their kinds.
    pub open spec fn fields() -> Seq<(Seq<char>, FieldKind)> {
        seq![("backend"@, FieldKind::Str), ("model"@, FieldKind::OStr), ("tokens_used"@, FieldKind::OU64), ("tokens_limit"@, FieldKind::OU64), ("cost_usd"@, FieldKind::ONum)]
    }

    fn field_table() -> (r: Vec<(&'static str, FieldKind)>)
        ensures
            table_view(r@) == Self::fields(),
    {
        let r: Vec<(&'static str, FieldKind)> = vec![("backend", FieldKind::Str), ("model", FieldKind::OStr), ("tokens_used", FieldKind::OU64), ("tokens_limit", FieldKind::OU64), ("cost_usd", FieldKind::ONum)];
        assert(table_view(r@) =~= Self::fields());
        r
    }

    /// True when each field holds what `p` gives it.
    pub open spec fn reads(self, p: JsonV) -> bool {
        &&& f_str(jget(p, "backend"@), "backend"@) == Ok::<Seq<char>, Seq<char>>(self.backend@)
        &&& f_ostr(jget(p, "model"@), "model"@) == Ok::<Option<Seq<char>>, Seq<char>>(ostring(self.model))
        &&& f_ou64(jget(p, "tokens_used"@), "tokens_used"@) == Ok::<Option<u64>, Seq<char>>(self.tokens_used)
        &&& f_ou64(jget(p, "tokens_limit"@), "tokens_limit"@) == Ok::<Option<u64>, Seq<char>>(self.tokens_limit)
        &&& f_onum(jget(p, "cost_usd"@), "cost_usd"@) == Ok::<Option<Seq<char>>, Seq<char>>(ostring(self.cost_usd))
    }

    /// Reads the record from a JSON object.
    pub fn decode(p: &Json) -> (r: Result<Self, String>)
        ensures
            match r {
                Ok(x) => Self::error_of(p@) is None && x.reads(p@),
                Err(e) => Self::error_of(p@) == Some(e@),
            },
    {
        if !p.is_object() {
            return Err(not_object_error(p, "PipelineStatusPayload"));
        }
        match member_type_error(p, &Self::field_table()) {
            Some(e) => {
                return Err(e);
            },
            None => {},
        }
        let backend = match d_str(p, "backend") {
            Ok(v) => v,
            Err(e) => {
                return Err(e);
            },
        };
        let model = match d_ostr(p, "model") {
            Ok(v) => v,
            Err(e) => {
                return Err(e);
            },
        };
        let tokens_used = match d_ou64(p, "tokens_used") {
            Ok(v) => v,
            Err(e) => {
                return Err(e);
            },
        };
        let tokens_limit = match d_ou64(p, "tokens_limit") {
            Ok(v) => v,
            Err(e) => {
                return Err(e);
            },
        };
        let cost_usd = match d_onum(p, "cost_usd") {
            Ok(v) => v,
            Err(e) => {
                return Err(e);
            },
        };
        Ok(PipelineStatusPayload { backend, model, tokens_used, tokens_limit, cost_usd })
    }
}

/// Payload of the streamed `error` event.
#[derive(Debug)]
pub struct ErrorPayload {
    pub message: String,
    pub code: Option<String>,
}

impl ErrorPayload {
    /// The first problem met when this record is read from `p`, if any.
    pub open spec fn error_of(p: JsonV) -> Option<Seq<char>> {
        if !(p is Object) {
            Some(not_object_msg(p, "ErrorPayload"@))
        } else {
            first_err(
                type_pass(p->Object_0, Self::fields()),
            first_err(
                err_of(f_str(jget(p, "message"@), "message"@)),
                err_of(f_ostr(jget(p, "code"@), "code"@)),
            ),
            )
        }
    }

    /// The fields of the record and their kinds.
    pub open spec fn fields() -> Seq<(Seq<char>, FieldKind)> {
        seq![("message"@, FieldKind::Str), ("code"@, FieldKind::OStr)]
    }

    fn field_table() -> (r: Vec<(&'static str, FieldKind)>)
        ensures
            table_view(r@) == Self::fields(),
    {
        let r: Vec<(&'static str, FieldKind)> = vec![("message", FieldKind::Str), ("code", FieldKind::OStr)];
        assert(table_view(r@) =~= Self::fields());
        r
    }

    /// True when each field holds what `p` gives it.
    pub open spec fn reads(self, p: JsonV) -> bool {
        &&& f_str(jget(p, "message"@), "message"@) == Ok::<Seq<char>, Seq<char>>(self.message@)
        &&& f_ostr(jget(p, "code"@), "code"@) == Ok::<Option<Seq<char>>, Seq<char>>(ostring(self.code))
    }

    /// Reads the record from a JSON object.
    pub fn decode(p: &Json) -> (r: Result<Self, String>)
        ensures
            match r {
                Ok(x) => Self::error_of(p@) is None && x.reads(p@),
                Err(e) => Self::error_of(p@) == Some(e@),
            },
    {
        if !p.is_object() {
            return Err(not_object_error(p, "ErrorPayload"));
        }
        match member_type_error(p, &Self::field_table()) {
            Some(e) => {
                return Err(e);
            },
            None => {},
        }
        let message = match d_str(p, "message") {
            Ok(v) => v,
            Err(e) => {
                return Err(e);
            },
        };
        let code = match d_ostr(p, "code") {
            Ok(v) => v,
            Err(e) => {
                return Err(e);
            },
        };
        Ok(ErrorPayload { message, code })
    }
}

/// Payload of `message.end`.
#[derive(Debug)]
pub struct MessageEndPayload {
    pub text: Option<String>,
}

impl MessageEndPayload {
    /// The first problem met when this record is read from `p`, if any.
    pub open spec fn error_of(p: JsonV) -> Option<Seq<char>> {
        if !(p is Object) {
            Some(not_object_msg(p, "MessageEndPayload"@))
        } else {
            first_err(
                type_pass(p->Object_0, Self::fields()),
            err_of(f_ostr(jget(p, "text"@), "text"@)),
            )
        }
    }

    /// The fields of the record and their kinds.
    pub open spec fn fields() -> Seq<(Seq<char>, FieldKind)> {
        seq![("text"@, FieldKind::OStr)]
    }

    fn field_table() -> (r: Vec<(&'static str, FieldKind)>)
        ensures
            table_view(r@) == Self::fields(),
    {
        let r: Vec<(&'static str, FieldKind)> = vec![("text", FieldKind::OStr)];
        assert(table_view(r@) =~= Self::fields());
        r
    }

    /// True when each field holds what `p` gives it.
    pub open spec fn reads(self, p: JsonV) -> bool {
        &&& f_ostr(jget(p, "text"@), "text"@) == Ok::<Option<Seq<char>>, Seq<char>>(ostring(self.text))
    }

    /// Reads the record from a JSON object.
    pub fn decode(p: &Json) -> (r: Result<Self, String>)
        ensures
            match r {
                Ok(x) => Self::error_of(p@) is None && x.reads(p@),
                Err(e) => Self::error_of(p@) == Some(e@),
            },
    {
        if !p.is_object() {
            return Err(not_object_error(p, "MessageEndPayload"));
        }
        match member_type_error(p, &Self::field_table()) {
            Some(e) => {
                return Err(e);
            },
            None => {},
        }
        let text = match d_ostr(p, "text") {
            Ok(v) => v,
            Err(e) => {
                return Err(e);
            },
        };
        Ok(MessageEndPayload { text })
    }
}

/// Payload of `message.start` (usually empty).
#[derive(Debug)]
pub struct MessageStartPayload {
    pub text: Option<String>,
}

impl MessageStartPayload {
    /// The first problem met when this record is read from `p`, if any.
    pub open spec fn error_of(p: JsonV) -> Option<Seq<char>> {
        if !(p is Object) {
            Some(not_object_msg(p, "MessageStartPayload"@))
        } else {
            first_err(
                type_pass(p->Object_0, Self::fields()),
            err_of(f_ostr(jget(p, "text"@), "text"@)),
            )
        }
    }

    /// The fields of the record and their kinds.
    pub open spec fn fields() -> Seq<(Seq<char>, FieldKind)> {
        seq![("text"@, FieldKind::OStr)]
    }

    fn field_table() -> (r: Vec<(&'static str, FieldKind)>)
        ensures
            table_view(r@) == Self::fields(),
    {
        let r: Vec<(&'static str, FieldKind)> = vec![("text", FieldKind::OStr)];
        assert(table_view(r@) =~= Self::fields());
        r
    }

    /// True when each field holds what `p` gives it.
    pub open spec fn reads(self, p: JsonV) -> bool {
        &&& f_ostr(jget(p, "text"@), "text"@) == Ok::<Option<Seq<char>>, Seq<char>>(ostring(self.text))
    }

    /// Reads the record from a JSON object.
    pub fn decode(p: &Json) -> (r: Result<Self, String>)
        ensures
            match r {
                Ok(x) => Self::error_of(p@) is None && x.reads(p@),
                Err(e) => Self::error_of(p@) == Some(e@),
            },
    {
        if !p.is_object() {
            return Err(not_object_error(p, "MessageStartPayload"));
        }
        match member_type_error(p, &Self::field_table()) {
            Some(e) => {
                return Err(e);
            },
            None => {},
        }
        let text = match d_ostr(p, "text") {
            Ok(v) => v,
            Err(e) => {
                return Err(e);
            },
        };
        Ok(MessageStartPayload { text })
    }
}

/// Payload of `thinking.delta`.
#[derive(Debug)]
pub struct ThinkingDeltaPayload {
    pub text: String,
}

impl ThinkingDeltaPayload {
    /// The first problem met when this record is read from `p`, if any.
    pub open spec fn error_of(p: JsonV) -> Option<Seq<char>> {
        if !(p is Object) {
            Some(not_object_msg(p, "ThinkingDeltaPayload"@))
        } else {
            first_err(
                type_pass(p->Object_0, Self::fields()),
            err_of(f_str(jget(p, "text"@), "text"@)),
            )
        }
    }

    /// The fields of the record and their kinds.
    pub open spec fn fields() -> Seq<(Seq<char>, FieldKind)> {
        seq![("text"@, FieldKind::Str)]
    }

    fn field_table() -> (r: Vec<(&'static str, FieldKind)>)
        ensures
            table_view(r@) == Self::fields(),
    {
        let r: Vec<(&'static str, FieldKind)> = vec![("text", FieldKind::Str)];
        assert(table_view(r@) =~= Self::fields());
        r
    }

    /// True when each field holds what `p` gives it.
    pub open spec fn reads(self, p: JsonV) -> bool {
        &&& f_str(jget(p, "text"@), "text"@) == Ok::<Seq<char>, Seq<char>>(self.text@)
    }

    /// Reads the record from a JSON object.
    pub fn decode(p: &Json) -> (r: Result<Self, String>)
        ensures
            match r {
                Ok(x) => Self::error_of(p@) is None && x.reads(p@),
                Err(e) => Self::error_of(p@) == Some(e@),
            },
    {
        if !p.is_object() {
            return Err(not_object_error(p, "ThinkingDeltaPayload"));
        }
        match member_type_error(p, &Self::field_table()) {
            Some(e) => {
                return Err(e);
            },
            None => {},
        }
        let text = match d_str(p, "text") {
            Ok(v) => v,
            Err(e) => {
                return Err(e);
            },
        };
        Ok(ThinkingDeltaPayload { text })
    }
}

/// Payload of `tool.generating`.
#[derive(Debug)]
pub struct ToolGeneratingPayload {
    pub name: String,
    pub tool_id: Option<String>,
    pub text: Option<String>,
}

impl ToolGeneratingPayload {
    /// The first problem met when this record is read from `p`, if any.
    pub open spec fn error_of(p: JsonV) -> Option<Seq<char>> {
        if !(p is Object) {
            Some(not_object_msg(p, "ToolGeneratingPayload"@))
        } else {
            first_err(
                type_pass(p->Object_0, Self::fields()),
            first_err(
                err_of(f_str(jget(p, "name"@), "name"@)),
                first_err(
                    err_of(f_ostr(jget(p, "tool_id"@), "tool_id"@)),
                    err_of(f_ostr(jget(p, "text"@), "text"@)),
                ),
            ),
            )
        }
    }

    /// The fields of the record and their kinds.
    pub open spec fn fields() -> Seq<(Seq<char>, FieldKind)> {
        seq![("name"@, FieldKind::Str), ("tool_id"@, FieldKind::OStr), ("text"@, FieldKind::OStr)]
    }

    fn field_table() -> (r: Vec<(&'static str, FieldKind)>)
        ensures
            table_view(r@) == Self::fields(),
    {
        let r: Vec<(&'static str, FieldKind)> = vec![("name", FieldKind::Str), ("tool_id", FieldKind::OStr), ("text", FieldKind::OStr)];
        assert(table_view(r@) =~= Self::fields());
        r
    }

    /// True when each field holds what `p` gives it.
    pub open spec fn reads(self, p: JsonV) -> bool {
        &&& f_str(jget(p, "name"@), "name"@) == Ok::<Seq<char>, Seq<char>>(self.name@)
        &&& f_ostr(jget(p, "tool_id"@), "tool_id"@) == Ok::<Option<Seq<char>>, Seq<char>>(ostring(self.tool_id))
        &&& f_ostr(jget(p, "text"@), "text"@) == Ok::<Option<Seq<char>>, Seq<char>>(ostring(self.text))
    }

    /// Reads the record from a JSON object.
    pub fn decode(p: &Json) -> (r: Result<Self, String>)
        ensures
            match r {
                Ok(x) => Self::error_of(p@) is None && x.reads(p@),
                Err(e) => Self::error_of(p@) == Some(e@),
            },
    {
        if !p.is_object() {
            return Err(not_object_error(p, "ToolGeneratingPayload"));
        }
        match member_type_error(p, &Self::field_table()) {
            Some(e) => {
                return Err(e);
            },
            None => {},
        }
        let name = match d_str(p, "name") {
            Ok(v) => v,
            Err(e) => {
                return Err(e);
            },
        };
        let tool_id = match d_ostr(p, "tool_id") {
            Ok(v) => v,
            Err(e) => {
                return Err(e);
            },
        };
        let text = match d_ostr(p, "text") {
            Ok(v) => v,
            Err(e) => {
                return Err(e);
            },
        };
        Ok(ToolGeneratingPayload { name, tool_id, text })
    }
}

/// Payload of `clarify.request`.
#[derive(Debug)]
pub struct ClarifyRequestPayload {
    pub request_id: String,
    pub question: String,
    pub choices: Vec<String>,
}

impl ClarifyRequestPayload {
    /// The first problem met when this record is read from `p`, if any.
    pub open spec fn error_of(p: JsonV) -> Option<Seq<char>> {
        if !(p is Object) {
            Some(not_object_msg(p, "ClarifyRequestPayload"@))
        } else {
            first_err(
                type_pass(p->Object_0, Self::fields()),
            first_err(
                err_of(f_str(jget(p, "request_id"@), "request_id"@)),
                first_err(
                    err_of(f_str(jget(p, "question"@), "question"@)),
                    err_of(f_dstrs(jget(p, "choices"@), "choices"@)),
                ),
            ),
            )
        }
    }

    /// The fields of the record and their kinds.
    pub open spec fn fields() -> Seq<(Seq<char>, FieldKind)> {
        seq![("request_id"@, FieldKind::Str), ("question"@, FieldKind::Str), ("choices"@, FieldKind::DStrs)]
    }

    fn field_table() -> (r: Vec<(&'static str, FieldKind)>)
        ensures
            table_view(r@) == Self::fields(),
    {
        let r: Vec<(&'static str, FieldKind)> = vec![("request_id", FieldKind::Str), ("question", FieldKind::Str), ("choices", FieldKind::DStrs)];
        assert(table_view(r@) =~= Self::fields());
        r
    }

    /// True when each field holds what `p` gives it.
    pub open spec fn reads(self, p: JsonV) -> bool {
        &&& f_str(jget(p, "request_id"@), "request_id"@) == Ok::<Seq<char>, Seq<char>>(self.request_id@)
        &&& f_str(jget(p, "question"@), "question"@) == Ok::<Seq<char>, Seq<char>>(self.question@)
        &&& f_dstrs(jget(p, "choices"@), "choices"@) == Ok::<Seq<Seq<char>>, Seq<char>>(strings_view(self.choices@))
    }

    /// Reads the record from a JSON object.
    pub fn decode(p: &Json) -> (r: Result<Self, String>)
        ensures
            match r {
                Ok(x) => Self::error_of(p@) is None && x.reads(p@),
                Err(e) => Self::error_of(p@) == Some(e@),
            },
    {
        if !p.is_object() {
            return Err(not_object_error(p, "ClarifyRequestPayload"));
        }
        match member_type_error(p, &Self::field_table()) {
            Some(e) => {
                return Err(e);
            },
            None => {},
        }
        let request_id = match d_str(p, "request_id") {
            Ok(v) => v,
            Err(e) => {
                return Err(e);
            },
        };
        let question = match d_str(p, "question") {
            Ok(v) => v,
            Err(e) => {
                return Err(e);
            },
        };
        let choices = match d_dstrs(p, "choices") {
            Ok(v) => v,
            Err(e) => {
                return Err(e);
            },
        };
        Ok(ClarifyRequestPayload { request_id, question, choices })
    }
}

/// Payload of `sudo.request`.
#[derive(Debug)]
pub struct SudoRequestPayload {
    pub request_id: String,
    pub reason: Option<String>,
    pub timeout_secs: Option<u64>,
}

impl SudoRequestPayload {
    /// The first problem met when this record is read from `p`, if any.
    pub open spec fn error_of(p: JsonV) -> Option<Seq<char>> {
        if !(p is Object) {
            Some(not_object_msg(p, "SudoRequestPayload"@))
        } else {
            first_err(
                type_pass(p->Object_0, Self::fields()),
            first_err(
                err_of(f_str(jget(p, "request_id"@), "request_id"@)),
                first_err(
                    err_of(f_ostr(jget(p, "reason"@), "reason"@)),
                    err_of(f_ou64(jget(p, "timeout_secs"@), "timeout_secs"@)),
                ),
            ),
            )
        }
    }

    /// The fields of the record and their kinds.
    pub open spec fn fields() -> Seq<(Seq<char>, FieldKind)> {
        seq![("request_id"@, FieldKind::Str), ("reason"@, FieldKind::OStr), ("timeout_secs"@, FieldKind::OU64)]
    }

    fn field_table() -> (r: Vec<(&'static str, FieldKind)>)
        ensures
            table_view(r@) == Self::fields(),
    {
        let r: Vec<(&'static str, FieldKind)> = vec![("request_id", FieldKind::Str), ("reason", FieldKind::OStr), ("timeout_secs", FieldKind::OU64)];
        assert(table_view(r@) =~= Self::fields());
        r
    }

    /// True when each field holds what `p` gives it.
    pub open spec fn reads(self, p: JsonV) -> bool {
        &&& f_str(jget(p, "request_id"@), "request_id"@) == Ok::<Seq<char>, Seq<char>>(self.request_id@)
        &&& f_ostr(jget(p, "reason"@), "reason"@) == Ok::<Option<Seq<char>>, Seq<char>>(ostring(self.reason))
        &&& f_ou64(jget(p, "timeout_secs"@), "timeout_secs"@) == Ok::<Option<u64>, Seq<char>>(self.timeout_secs)
    }

    /// Reads the record from a JSON object.
    pub fn decode(p: &Json) -> (r: Result<Self, String>)
        ensures
            match r {
                Ok(x) => Self::error_of(p@) is None && x.reads(p@),
                Err(e) => Self::error_of(p@) == Some(e@),
            },
    {
        if !p.is_object() {
            return Err(not_object_error(p, "SudoRequestPayload"));
        }
        match member_type_error(p, &Self::field_table()) {
            Some(e) => {
                return Err(e);
            },
            None => {},
        }
        let request_id = match d_str(p, "request_id") {
            Ok(v) => v,
            Err(e) => {
                return Err(e);
            },
        };
        let reason = match d_ostr(p, "reason") {
            Ok(v) => v,
            Err(e) => {
                return Err(e);
            },
        };
        let timeout_secs = match d_ou64(p, "timeout_secs") {
            Ok(v) => v,
            Err(e) => {
                return Err(e);
            },
        };
        Ok(SudoRequestPayload { request_id, reason, timeout_secs })
    }
}

/// Payload of `sudo.expire`.
#[derive(Debug)]
pub struct SudoExpirePayload {
    pub request_id: String,
}

impl SudoExpirePayload {
    /// The first problem met when this record is read from `p`, if any.
    pub open spec fn error_of(p: JsonV) -> Option<Seq<char>> {
        if !(p is Object) {
            Some(not_object_msg(p, "SudoExpirePayload"@))
        } else {
            first_err(
                type_pass(p->Object_0, Self::fields()),
            err_of(f_str(jget(p, "request_id"@), "request_id"@)),
            )
        }
    }

    /// The fields of the record and their kinds.
    pub open spec fn fields() -> Seq<(Seq<char>, FieldKind)> {
        seq![("request_id"@, FieldKind::Str)]
    }

    fn field_table() -> (r: Vec<(&'static str, FieldKind)>)
        ensures
            table_view(r@) == Self::fields(),
    {
        let r: Vec<(&'static str, FieldKind)> = vec![("request_id", FieldKind::Str)];
        assert(table_view(r@) =~= Self::fields());
        r
    }

    /// True when each field holds what `p` gives it.
    pub open spec fn reads(self, p: JsonV) -> bool {
        &&& f_str(jget(p, "request_id"@), "request_id"@) == Ok::<Seq<char>, Seq<char>>(self.request_id@)
    }

    /// Reads the record from a JSON object.
    pub fn decode(p: &Json) -> (r: Result<Self, String>)
        ensures
            match r {
                Ok(x) => Self::error_of(p@) is None && x.reads(p@),
                Err(e) => Self::error_of(p@) == Some(e@),
            },
    {
        if !p.is_object() {
            return Err(not_object_error(p, "SudoExpirePayload"));
        }
        match member_type_error(p, &Self::field_table()) {
            Some(e) => {
                return Err(e);
            },
            None => {},
        }
        let request_id = match d_str(p, "request_id") {
            Ok(v) => v,
            Err(e) => {
                return Err(e);
            },
        };
        Ok(SudoExpirePayload { request_id })
    }
}

/// Payload of `secret.request`.
#[derive(Debug)]
pub struct SecretRequestPayload {
    pub request_id: String,
    pub prompt: String,
    pub env_var: String,
    pub metadata: Option<Json>,
}

impl SecretRequestPayload {
    /// The first problem met when this record is read from `p`, if any.
    pub open spec fn error_of(p: JsonV) -> Option<Seq<char>> {
        if !(p is Object) {
            Some(not_object_msg(p, "SecretRequestPayload"@))
        } else {
            first_err(
                type_pass(p->Object_0, Self::fields()),
            first_err(
                err_of(f_str(jget(p, "request_id"@), "request_id"@)),
                first_err(
                    err_of(f_str(jget(p, "prompt"@), "prompt"@)),
                    err_of(f_str(jget(p, "env_var"@), "env_var"@)),
                ),
            ),
            )
        }
    }

    /// The fields of the record and their kinds.
    pub open spec fn fields() -> Seq<(Seq<char>, FieldKind)> {
        seq![("request_id"@, FieldKind::Str), ("prompt"@, FieldKind::Str), ("env_var"@, FieldKind::Str)]
    }

    fn field_table() -> (r: Vec<(&'static str, FieldKind)>)
        ensures
            table_view(r@) == Self::fields(),
    {
        let r: Vec<(&'static str, FieldKind)> = vec![("request_id", FieldKind::Str), ("prompt", FieldKind::Str), ("env_var", FieldKind::Str)];
        assert(table_view(r@) =~= Self::fields());
        r
    }

    /// True when each field holds what `p` gives it.
    pub open spec fn reads(self, p: JsonV) -> bool {
        &&& f_str(jget(p, "request_id"@), "request_id"@) == Ok::<Seq<char>, Seq<char>>(self.request_id@)
        &&& f_str(jget(p, "prompt"@), "prompt"@) == Ok::<Seq<char>, Seq<char>>(self.prompt@)
        &&& f_str(jget(p, "env_var"@), "env_var"@) == Ok::<Seq<char>, Seq<char>>(self.env_var@)
        &&& ojson(self.metadata) == f_ojson(jget(p, "metadata"@))
    }

    /// Reads the record from a JSON object.
    pub fn decode(p: &Json) -> (r: Result<Self, String>)
        ensures
            match r {
                Ok(x) => Self::error_of(p@) is None && x.reads(p@),
                Err(e) => Self::error_of(p@) == Some(e@),
            },
    {
        if !p.is_object() {
            return Err(not_object_error(p, "SecretRequestPayload"));
        }
        match member_type_error(p, &Self::field_table()) {
            Some(e) => {
                return Err(e);
            },
            None => {},
        }
        let request_id = match d_str(p, "request_id") {
            Ok(v) => v,
            Err(e) => {
                return Err(e);
            },
        };
        let prompt = match d_str(p, "prompt") {
            Ok(v) => v,
            Err(e) => {
                return Err(e);
            },
        };
        let env_var = match d_str(p, "env_var") {
            Ok(v) => v,
            Err(e) => {
                return Err(e);
            },
        };
        let metadata = d_ojson(p, "metadata");
        Ok(SecretRequestPayload { request_id, prompt, env_var, metadata })
    }
}

/// Payload of `secret.expire`.
#[derive(Debug)]
pub struct SecretExpirePayload {
    pub request_id: String,
}

impl SecretExpirePayload {
    /// The first problem met when this record is read from `p`, if any.
    pub open spec fn error_of(p: JsonV) -> Option<Seq<char>> {
        if !(p is Object) {
            Some(not_object_msg(p, "SecretExpirePayload"@))
        } else {
            first_err(
                type_pass(p->Object_0, Self::fields()),
            err_of(f_str(jget(p, "request_id"@), "request_id"@)),
            )
        }
    }

    /// The fields of the record and their kinds.
    pub open spec fn fields() -> Seq<(Seq<char>, FieldKind)> {
        seq![("request_id"@, FieldKind::Str)]
    }

    fn field_table() -> (r: Vec<(&'static str, FieldKind)>)
        ensures
            table_view(r@) == Self::fields(),
    {
        let r: Vec<(&'static str, FieldKind)> = vec![("request_id", FieldKind::Str)];
        assert(table_view(r@) =~= Self::fields());
        r
    }

    /// True when each field holds what `p` gives it.
    pub open spec fn reads(self, p: JsonV) -> bool {
        &&& f_str(jget(p, "request_id"@), "request_id"@) == Ok::<Seq<char>, Seq<char>>(self.request_id@)
    }

    /// Reads the record from a JSON object.
    pub fn decode(p: &Json) -> (r: Result<Self, String>)
        ensures
            match r {
                Ok(x) => Self::error_of(p@) is None && x.reads(p@),
                Err(e) => Self::error_of(p@) == Some(e@),
            },
    {
        if !p.is_object() {
            return Err(not_object_error(p, "SecretExpirePayload"));
        }
        match member_type_error(p, &Self::field_table()) {
            Some(e) => {
                return Err(e);
            },
            None => {},
        }
        let request_id = match d_str(p, "request_id") {
            Ok(v) => v,
            Err(e) => {
                return Err(e);
            },
        };
        Ok(SecretExpirePayload { request_id })
    }
}

/// Payload of `session.info`; fields the record does not name are kept in `extra`, in order.
#[derive(Debug)]
pub struct SessionInfoPayload {
    pub stored_session_id: String,
    pub running: bool,
    pub model: Option<String>,
    pub provider: Option<String>,
    pub tools: Json,
    pub skills: Json,
    pub usage: Option<Json>,
    pub desktop_contract: Option<u32>,
    pub extra: Vec<(String, Json)>,
}

impl SessionInfoPayload {
    /// The first problem met when this record is read from `p`, if any.
    pub open spec fn error_of(p: JsonV) -> Option<Seq<char>> {
        if !(p is Object) {
            Some(not_object_msg(p, "SessionInfoPayload"@))
        } else {
            first_err(
                type_pass(p->Object_0, Self::fields()),
            first_err(
                err_of(f_dstr(jget(p, "stored_session_id"@), "stored_session_id"@)),
                first_err(
                    err_of(f_dbool(jget(p, "running"@), "running"@)),
                    first_err(
                        err_of(f_ostr(jget(p, "model"@), "model"@)),
                        first_err(
                            err_of(f_ostr(jget(p, "provider"@), "provider"@)),
                            err_of(f_ou32(jget(p, "desktop_contract"@), "desktop_contract"@)),
                        ),
                    ),
                ),
            ),
            )
        }
    }

    /// The fields of the record and their kinds.
    pub open spec fn fields() -> Seq<(Seq<char>, FieldKind)> {
        seq![("stored_session_id"@, FieldKind::DStr), ("running"@, FieldKind::DBool), ("model"@, FieldKind::OStr), ("provider"@, FieldKind::OStr), ("desktop_contract"@, FieldKind::OU32)]
    }

    fn field_table() -> (r: Vec<(&'static str, FieldKind)>)
        ensures
            table_view(r@) == Self::fields(),
    {
        let r: Vec<(&'static str, FieldKind)> = vec![("stored_session_id", FieldKind::DStr), ("running", FieldKind::DBool), ("model", FieldKind::OStr), ("provider", FieldKind::OStr), ("desktop_contract", FieldKind::OU32)];
        assert(table_view(r@) =~= Self::fields());
        r
    }

    /// True when each field holds what `p` gives it.
    pub open spec fn reads(self, p: JsonV) -> bool {
        &&& f_dstr(jget(p, "stored_session_id"@), "stored_session_id"@) == Ok::<Seq<char>, Seq<char>>(self.stored_session_id@)
        &&& f_dbool(jget(p, "running"@), "running"@) == Ok::<bool, Seq<char>>(self.running)
        &&& f_ostr(jget(p, "model"@), "model"@) == Ok::<Option<Seq<char>>, Seq<char>>(ostring(self.model))
        &&& f_ostr(jget(p, "provider"@), "provider"@) == Ok::<Option<Seq<char>>, Seq<char>>(ostring(self.provider))
        &&& self.tools@ == f_djson(jget(p, "tools"@))
        &&& self.skills@ == f_djson(jget(p, "skills"@))
        &&& ojson(self.usage) == f_ojson(jget(p, "usage"@))
        &&& f_ou32(jget(p, "desktop_contract"@), "desktop_contract"@) == Ok::<Option<u32>, Seq<char>>(self.desktop_contract)
        &&& view_entries(self.extra@) == session_info_extra(p)
    }

    /// Reads the record from a JSON object.
    pub fn decode(p: &Json) -> (r: Result<Self, String>)
        ensures
            match r {
                Ok(x) => Self::error_of(p@) is None && x.reads(p@),
                Err(e) => Self::error_of(p@) == Some(e@),
            },
    {
        if !p.is_object() {
            return Err(not_object_error(p, "SessionInfoPayload"));
        }
        match member_type_error(p, &Self::field_table()) {
            Some(e) => {
                return Err(e);
            },
            None => {},
        }
        let stored_session_id = match d_dstr(p, "stored_session_id") {
            Ok(v) => v,
            Err(e) => {
                return Err(e);
            },
        };
        let running = match d_dbool(p, "running") {
            Ok(v) => v,
            Err(e) => {
                return Err(e);
            },
        };
        let model = match d_ostr(p, "model") {
            Ok(v) => v,
            Err(e) => {
                return Err(e);
            },
        };
        let provider = match d_ostr(p, "provider") {
            Ok(v) => v,
            Err(e) => {
                return Err(e);
            },
        };
        let tools = d_djson(p, "tools");
        let skills = d_djson(p, "skills");
        let usage = d_ojson(p, "usage");
        let desktop_contract = match d_ou32(p, "desktop_contract") {
            Ok(v) => v,
            Err(e) => {
                return Err(e);
            },
        };
        let extra = session_info_extra_entries(p);
        Ok(SessionInfoPayload { stored_session_id, running, model, provider, tools, skills, usage, desktop_contract, extra })
    }
}

/// Payload of `notification.show`.
#[derive(Debug)]
pub struct NotificationShowPayload {
    pub id: String,
    pub key: String,
    pub text: String,
    pub level: Option<String>,
    pub kind: Option<String>,
    pub ttl_ms: Option<u64>,
}

impl NotificationShowPayload {
    /// The first problem met when this record is read from `p`, if any.
    pub open spec fn error_of(p: JsonV) -> Option<Seq<char>> {
        if !(p is Object) {
            Some(not_object_msg(p, "NotificationShowPayload"@))
        } else {
            first_err(
                type_pass(p->Object_0, Self::fields()),
            first_err(
                err_of(f_str(jget(p, "id"@), "id"@)),
                first_err(
                    err_of(f_str(jget(p, "key"@), "key"@)),
                    first_err(
                        err_of(f_str(jget(p, "text"@), "text"@)),
                        first_err(
                            err_of(f_ostr(jget(p, "level"@), "level"@)),
                            first_err(
                                err_of(f_ostr(jget(p, "kind"@), "kind"@)),
                                err_of(f_ou64(jget(p, "ttl_ms"@), "ttl_ms"@)),
                            ),
                        ),
                    ),
                ),
            ),
            )
        }
    }

    /// The fields of the record and their kinds.
    pub open spec fn fields() -> Seq<(Seq<char>, FieldKind)> {
        seq![("id"@, FieldKind::Str), ("key"@, FieldKind::Str), ("text"@, FieldKind::Str), ("level"@, FieldKind::OStr), ("kind"@, FieldKind::OStr), ("ttl_ms"@, FieldKind::OU64)]
    }

    fn field_table() -> (r: Vec<(&'static str, FieldKind)>)
        ensures
            table_view(r@) == Self::fields(),
    {
        let r: Vec<(&'static str, FieldKind)> = vec![("id", FieldKind::Str), ("key", FieldKind::Str), ("text", FieldKind::Str), ("level", FieldKind::OStr), ("kind", FieldKind::OStr), ("ttl_ms", FieldKind::OU64)];
        assert(table_view(r@) =~= Self::fields());
        r
    }

    /// True when each field holds what `p` gives it.
    pub open spec fn reads(self, p: JsonV) -> bool {
        &&& f_str(jget(p, "id"@), "id"@) == Ok::<Seq<char>, Seq<char>>(self.id@)
        &&& f_str(jget(p, "key"@), "key"@) == Ok::<Seq<char>, Seq<char>>(self.key@)
        &&& f_str(jget(p, "text"@), "text"@) == Ok::<Seq<char>, Seq<char>>(self.text@)
        &&& f_ostr(jget(p, "level"@), "level"@) == Ok::<Option<Seq<char>>, Seq<char>>(ostring(self.level))
        &&& f_ostr(jget(p, "kind"@), "kind"@) == Ok::<Option<Seq<char>>, Seq<char>>(ostring(self.kind))
        &&& f_ou64(jget(p, "ttl_ms"@), "ttl_ms"@) == Ok::<Option<u64>, Seq<char>>(self.ttl_ms)
    }

    /// Reads the record from a JSON object.
    pub fn decode(p: &Json) -> (r: Result<Self, String>)
        ensures
            match r {
                Ok(x) => Self::error_of(p@) is None && x.reads(p@),
                Err(e) => Self::error_of(p@) == Some(e@),
            },
    {
        if !p.is_object() {
            return Err(not_object_error(p, "NotificationShowPayload"));
        }
        match member_type_error(p, &Self::field_table()) {
            Some(e) => {
                return Err(e);
            },
            None => {},
        }
        let id = match d_str(p, "id") {
            Ok(v) => v,
            Err(e) => {
                return Err(e);
            },
        };
        let key = match d_str(p, "key") {
            Ok(v) => v,
            Err(e) => {
                return Err(e);
            },
        };
        let text = match d_str(p, "text") {
            Ok(v) => v,
            Err(e) => {
                return Err(e);
            },
        };
        let level = match d_ostr(p, "level") {
            Ok(v) => v,
            Err(e) => {
                return Err(e);
            },
        };
        let kind = match d_ostr(p, "kind") {
            Ok(v) => v,
            Err(e) => {
                return Err(e);
            },
        };
        let ttl_ms = match d_ou64(p, "ttl_ms") {
            Ok(v) => v,
            Err(e) => {
                return Err(e);
            },
        };
        Ok(NotificationShowPayload { id, key, text, level, kind, ttl_ms })
    }
}

/// Payload of `notification.clear`.
#[derive(Debug)]
pub struct NotificationClearPayload {
    pub key: String,
}

impl NotificationClearPayload {
    /// The first problem met when this record is read from `p`, if any.
    pub open spec fn error_of(p: JsonV) -> Option<Seq<char>> {
        if !(p is Object) {
            Some(not_object_msg(p, "NotificationClearPayload"@))
        } else {
            first_err(
                type_pass(p->Object_0, Self::fields()),
            err_of(f_str(jget(p, "key"@), "key"@)),
            )
        }
    }

    /// The fields of the record and their kinds.
    pub open spec fn fields() -> Seq<(Seq<char>, FieldKind)> {
        seq![("key"@, FieldKind::Str)]
    }

    fn field_table() -> (r: Vec<(&'static str, FieldKind)>)
        ensures
            table_view(r@) == Self::fields(),
    {
        let r: Vec<(&'static str, FieldKind)> = vec![("key", FieldKind::Str)];
        assert(table_view(r@) =~= Self::fields());
        r
    }

    /// True when each field holds what `p` gives it.
    pub open spec fn reads(self, p: JsonV) -> bool {
        &&& f_str(jget(p, "key"@), "key"@) == Ok::<Seq<char>, Seq<char>>(self.key@)
    }

    /// Reads the record from a JSON object.
    pub fn decode(p: &Json) -> (r: Result<Self, String>)
        ensures
            match r {
                Ok(x) => Self::error_of(p@) is None && x.reads(p@),
                Err(e) => Self::error_of(p@) == Some(e@),
            },
    {
        if !p.is_object() {
            return Err(not_object_error(p, "NotificationClearPayload"));
        }
        match member_type_error(p, &Self::field_table()) {
            Some(e) => {
                return Err(e);
            },
            None => {},
        }
        let key = match d_str(p, "key") {
            Ok(v) => v,
            Err(e) => {
                return Err(e);
            },
        };
        Ok(NotificationClearPayload { key })
    }
}


/// A streamed event of a known type, with its typed payload.
#[derive(Debug)]
pub enum GatewayEvent {
    GatewayReady(GatewayReadyPayload),
    MessageDelta(MessageDeltaPayload),
    MessageComplete(MessageCompletePayload),
    MessageStart(MessageStartPayload),
    ReasoningDelta(ReasoningDeltaPayload),
    ThinkingDelta(ThinkingDeltaPayload),
    ToolStart(ToolStartPayload),
    ToolGenerating(ToolGeneratingPayload),
    ToolComplete(ToolCompletePayload),
    ApprovalRequest(ApprovalRequestPayload),
    ClarifyRequest(ClarifyRequestPayload),
    SudoRequest(SudoRequestPayload),
    SudoExpire(SudoExpirePayload),
    SecretRequest(SecretRequestPayload),
    SecretExpire(SecretExpirePayload),
    SessionInfo(SessionInfoPayload),
    StatusUpdate(StatusUpdatePayload),
    PipelineStatus(PipelineStatusPayload),
    Error(ErrorPayload),
    MessageEnd(MessageEndPayload),
    NotificationShow(NotificationShowPayload),
    NotificationClear(NotificationClearPayload),
    Unknown { event_type: String, session_id: Option<String>, payload: Json },
}

/// The payload that a `message.start` event is read from: `null` (the
/// backend sends none) reads as an empty object.
pub open spec fn start_payload(pl: JsonV) -> JsonV {
    if pl is Null {
        JsonV::Object(Seq::empty())
    } else {
        pl
    }
}

/// For an event type that has a typed payload, the first problem met when
/// its payload is read (`Some(None)` when there is none); `None` for
/// other event types.
pub open spec fn known_payload_error(t: Seq<char>, pl: JsonV) -> Option<Option<Seq<char>>> {
    if t == "gateway.ready"@ {
        Some(GatewayReadyPayload::error_of(pl))
    } else if t == "message.delta"@ {
        Some(MessageDeltaPayload::error_of(pl))
    } else if t == "message.complete"@ {
        Some(MessageCompletePayload::error_of(pl))
    } else if t == "message.start"@ {
        Some(MessageStartPayload::error_of(start_payload(pl)))
    } else if t == "reasoning.delta"@ {
        Some(ReasoningDeltaPayload::error_of(pl))
    } else if t == "thinking.delta"@ {
        Some(ThinkingDeltaPayload::error_of(pl))
    } else if t == "tool.start"@ {
        Some(ToolStartPayload::error_of(pl))
    } else if t == "tool.generating"@ {
        Some(ToolGeneratingPayload::error_of(pl))
    } else if t == "tool.complete"@ {
        Some(ToolCompletePayload::error_of(pl))
    } else if t == "approval.request"@ {
        Some(ApprovalRequestPayload::error_of(pl))
    } else if t == "clarify.request"@ {
        Some(ClarifyRequestPayload::error_of(pl))
    } else if t == "sudo.request"@ {
        Some(SudoRequestPayload::error_of(pl))
    } else if t == "sudo.expire"@ {
        Some(SudoExpirePayload::error_of(pl))
    } else if t == "secret.request"@ {
        Some(SecretRequestPayload::error_of(pl))
    } else if t == "secret.expire"@ {
        Some(SecretExpirePayload::error_of(pl))
    } else if t == "session.info"@ {
        Some(SessionInfoPayload::error_of(pl))
    } else if t == "status.update"@ {
        Some(StatusUpdatePayload::error_of(pl))
    } else if t == "pipeline.status"@ {
        Some(PipelineStatusPayload::error_of(pl))
    } else if t == "error"@ {
        Some(ErrorPayload::error_of(pl))
    } else if t == "message.end"@ {
        Some(MessageEndPayload::error_of(pl))
    } else if t == "notification.show"@ {
        Some(NotificationShowPayload::error_of(pl))
    } else if t == "notification.clear"@ {
        Some(NotificationClearPayload::error_of(pl))
    } else {
        None
    }
}

/// True when `e` is the typed event that type `t` and payload `pl` give.
pub open spec fn event_reads(e: GatewayEvent, t: Seq<char>, pl: JsonV) -> bool {
    match e {
        GatewayEvent::GatewayReady(x) => t == "gateway.ready"@ && x.reads(pl),
        GatewayEvent::MessageDelta(x) => t == "message.delta"@ && x.reads(pl),
        GatewayEvent::MessageComplete(x) => t == "message.complete"@ && x.reads(pl),
        GatewayEvent::MessageStart(x) => t == "message.start"@ && x.reads(start_payload(pl)),
        GatewayEvent::ReasoningDelta(x) => t == "reasoning.delta"@ && x.reads(pl),
        GatewayEvent::ThinkingDelta(x) => t == "thinking.delta"@ && x.reads(pl),
        GatewayEvent::ToolStart(x) => t == "tool.start"@ && x.reads(pl),
        GatewayEvent::ToolGenerating(x) => t == "tool.generating"@ && x.reads(pl),
        GatewayEvent::ToolComplete(x) => t == "tool.complete"@ && x.reads(pl),
        GatewayEvent::ApprovalRequest(x) => t == "approval.request"@ && x.reads(pl),
        GatewayEvent::ClarifyRequest(x) => t == "clarify.request"@ && x.reads(pl),
        GatewayEvent::SudoRequest(x) => t == "sudo.request"@ && x.reads(pl),
        GatewayEvent::SudoExpire(x) => t == "sudo.expire"@ && x.reads(pl),
        GatewayEvent::SecretRequest(x) => t == "secret.request"@ && x.reads(pl),
        GatewayEvent::SecretExpire(x) => t == "secret.expire"@ && x.reads(pl),
        GatewayEvent::SessionInfo(x) => t == "session.info"@ && x.reads(pl),
        GatewayEvent::StatusUpdate(x) => t == "status.update"@ && x.reads(pl),
        GatewayEvent::PipelineStatus(x) => t == "pipeline.status"@ && x.reads(pl),
        GatewayEvent::Error(x) => t == "error"@ && x.reads(pl),
        GatewayEvent::MessageEnd(x) => t == "message.end"@ && x.reads(pl),
        GatewayEvent::NotificationShow(x) => t == "notification.show"@ && x.reads(pl),
        GatewayEvent::NotificationClear(x) => t == "notification.clear"@ && x.reads(pl),
        GatewayEvent::Unknown { .. } => false,
    }
}

/// Reads the payload of an event whose type has a typed payload; `None`
/// for other event types.
#[verifier::rlimit(40)]
pub fn decode_known(t: &str, pl: &Json) -> (r: Option<Result<GatewayEvent, String>>)
    ensures
        match r {
            None => known_payload_error(t@, pl@) is None,
            Some(Ok(e)) => known_payload_error(t@, pl@) == Some(None::<Seq<char>>) && event_reads(e, t@, pl@),
            Some(Err(m)) => known_payload_error(t@, pl@) == Some(Some(m@)),
        },
{
    if str_eq(t, "gateway.ready") {
        Some(
            match GatewayReadyPayload::decode(pl) {
                Ok(x) => Ok(GatewayEvent::GatewayReady(x)),
                Err(m) => Err(m),
            },
        )
    } else if str_eq(t, "message.delta") {
        Some(
            match MessageDeltaPayload::decode(pl) {
                Ok(x) => Ok(GatewayEvent::MessageDelta(x)),
                Err(m) => Err(m),
            },
        )
    } else if str_eq(t, "message.complete") {
        Some(
            match MessageCompletePayload::decode(pl) {
                Ok(x) => Ok(GatewayEvent::MessageComplete(x)),
                Err(m) => Err(m),
            },
        )
    } else if str_eq(t, "message.start") {
        let norm = if pl.is_null() {
            empty_object()
        } else {
            pl.deep_clone()
        };
        Some(
            match MessageStartPayload::decode(&norm) {
                Ok(x) => Ok(GatewayEvent::MessageStart(x)),
                Err(m) => Err(m),
            },
        )
    } else if str_eq(t, "reasoning.delta") {
        Some(
            match ReasoningDeltaPayload::decode(pl) {
                Ok(x) => Ok(GatewayEvent::ReasoningDelta(x)),
                Err(m) => Err(m),
            },
        )
    } else if str_eq(t, "thinking.delta") {
        Some(
            match ThinkingDeltaPayload::decode(pl) {
                Ok(x) => Ok(GatewayEvent::ThinkingDelta(x)),
                Err(m) => Err(m),
            },
        )
    } else if str_eq(t, "tool.start") {
        Some(
            match ToolStartPayload::decode(pl) {
                Ok(x) => Ok(GatewayEvent::ToolStart(x)),
                Err(m) => Err(m),
            },
        )
    } else if str_eq(t, "tool.generating") {
        Some(
            match ToolGeneratingPayload::decode(pl) {
                Ok(x) => Ok(GatewayEvent::ToolGenerating(x)),
                Err(m) => Err(m),
            },
        )
    } else if str_eq(t, "tool.complete") {
        Some(
            match ToolCompletePayload::decode(pl) {
                Ok(x) => Ok(GatewayEvent::ToolComplete(x)),
                Err(m) => Err(m),
            },
        )
    } else if str_eq(t, "approval.request") {
        Some(
            match ApprovalRequestPayload::decode(pl) {
                Ok(x) => Ok(GatewayEvent::ApprovalRequest(x)),
                Err(m) => Err(m),
            },
        )
    } else if str_eq(t, "clarify.request") {
        Some(
            match ClarifyRequestPayload::decode(pl) {
                Ok(x) => Ok(GatewayEvent::ClarifyRequest(x)),
                Err(m) => Err(m),
            },
        )
    } else if str_eq(t, "sudo.request") {
        Some(
            match SudoRequestPayload::decode(pl) {
                Ok(x) => Ok(GatewayEvent::SudoRequest(x)),
                Err(m) => Err(m),
            },
        )
    } else if str_eq(t, "sudo.expire") {
        Some(
            match SudoExpirePayload::decode(pl) {
                Ok(x) => Ok(GatewayEvent::SudoExpire(x)),
                Err(m) => Err(m),
            },
        )
    } else if str_eq(t, "secret.request") {
        Some(
            match SecretRequestPayload::decode(pl) {
                Ok(x) => Ok(GatewayEvent::SecretRequest(x)),
                Err(m) => Err(m),
            },
        )
    } else if str_eq(t, "secret.expire") {
        Some(
            match SecretExpirePayload::decode(pl) {
                Ok(x) => Ok(GatewayEvent::SecretExpire(x)),
                Err(m) => Err(m),
            },
        )
    } else if str_eq(t, "session.info") {
        Some(
            match SessionInfoPayload::decode(pl) {
                Ok(x) => Ok(GatewayEvent::SessionInfo(x)),
                Err(m) => Err(m),
            },
        )
    } else if str_eq(t, "status.update") {
        Some(
            match StatusUpdatePayload::decode(pl) {
                Ok(x) => Ok(GatewayEvent::StatusUpdate(x)),
                Err(m) => Err(m),
            },
        )
    } else if str_eq(t, "pipeline.status") {
        Some(
            match PipelineStatusPayload::decode(pl) {
                Ok(x) => Ok(GatewayEvent::PipelineStatus(x)),
                Err(m) => Err(m),
            },
        )
    } else if str_eq(t, "error") {
        Some(
            match ErrorPayload::decode(pl) {
                Ok(x) => Ok(GatewayEvent::Error(x)),
                Err(m) => Err(m),
            },
        )
    } else if str_eq(t, "message.end") {
        Some(
            match MessageEndPayload::decode(pl) {
                Ok(x) => Ok(GatewayEvent::MessageEnd(x)),
                Err(m) => Err(m),
            },
        )
    } else if str_eq(t, "notification.show") {
        Some(
            match NotificationShowPayload::decode(pl) {
                Ok(x) => Ok(GatewayEvent::NotificationShow(x)),
                Err(m) => Err(m),
            },
        )
    } else if str_eq(t, "notification.clear") {
        Some(
            match NotificationClearPayload::decode(pl) {
                Ok(x) => Ok(GatewayEvent::NotificationClear(x)),
                Err(m) => Err(m),
            },
        )
    } else {
        None
    }
}

/// Why an envelope could not be routed.
#[derive(Debug)]
pub enum ProtocolError {
    NotAnEvent,
    InvalidParams(String),
    UnknownType(String),
    MalformedKnown { event_type: String, error: String },
    JsonError(String),
}

impl ProtocolError {
    /// The error's message.
    pub fn message(&self) -> (r: String)
        ensures
            r@ == protocol_error_text(*self),
    {
        match self {
            ProtocolError::NotAnEvent => "Not an event envelope (method != \"event\")".to_owned(),
            ProtocolError::InvalidParams(m) => "Missing or invalid params: ".to_owned().concat(
                m.as_str(),
            ),
            ProtocolError::UnknownType(t) => "Unknown event type: ".to_owned().concat(t.as_str()),
            ProtocolError::MalformedKnown { event_type, error } => "Malformed known event '".to_owned().concat(
                event_type.as_str(),
            ).concat("': ").concat(error.as_str()),
            ProtocolError::JsonError(m) => "JSON deserialization failed: ".to_owned().concat(
                m.as_str(),
            ),
        }
    }
}

/// The message of a protocol error.
pub open spec fn protocol_error_text(e: ProtocolError) -> Seq<char> {
    match e {
        ProtocolError::NotAnEvent => "Not an event envelope (method != \"event\")"@,
        ProtocolError::InvalidParams(m) => "Missing or invalid params: "@ + m@,
        ProtocolError::UnknownType(t) => "Unknown event type: "@ + t@,
        ProtocolError::MalformedKnown { event_type, error } => "Malformed known event '"@
            + event_type@ + "': "@ + error@,
        ProtocolError::JsonError(m) => "JSON deserialization failed: "@ + m@,
    }
}

/// An event envelope sorted into a known typed event, an event of a type
/// this build does not know, or a known type whose payload could not be read.
#[derive(Debug)]
pub enum ParsedGatewayEvent {
    Known(GatewayEvent),
    UnknownType { event_type: String, session_id: Option<String>, payload: Json },
    MalformedKnown { event_type: String, session_id: Option<String>, payload: Json, error: String },
}

/// An event together with the session it belongs to.
#[derive(Debug)]
pub struct RoutedGatewayEvent {
    pub session_id: Option<String>,
    pub event: ParsedGatewayEvent,
}

/// True when the envelope's `method` is `"event"`.
pub open spec fn is_event_envelope(v: JsonV) -> bool {
    ostr(jget(v, "method"@)) == Some("event"@)
}

/// The first problem met when the envelope's `params` are read.
pub open spec fn params_error(p: JsonV) -> Option<Seq<char>> {
    if !(p is Object) {
        Some(not_object_msg(p, "GatewayEventParams"@))
    } else {
        first_err(
            type_pass(p->Object_0, params_fields()),
            first_err(
                err_of(f_str(jget(p, "type"@), "type"@)),
                err_of(f_ostr(jget(p, "session_id"@), "session_id"@)),
            ),
        )
    }
}

/// The typed fields of an event envelope's `params`.
pub open spec fn params_fields() -> Seq<(Seq<char>, FieldKind)> {
    seq![("type"@, FieldKind::Str), ("session_id"@, FieldKind::OStr)]
}

fn params_table() -> (r: Vec<(&'static str, FieldKind)>)
    ensures
        table_view(r@) == params_fields(),
{
    let r: Vec<(&'static str, FieldKind)> = vec![("type", FieldKind::Str), ("session_id", FieldKind::OStr)];
    assert(table_view(r@) =~= params_fields());
    r
}

/// The event type given in well-formed `params`.
pub open spec fn params_type(p: JsonV) -> Seq<char> {
    f_str(jget(p, "type"@), "type"@)->Ok_0
}

/// The session id given in well-formed `params`.
pub open spec fn params_session(p: JsonV) -> Option<Seq<char>> {
    f_ostr(jget(p, "session_id"@), "session_id"@)->Ok_0
}

/// The payload given in `params` (`null` when absent).
pub open spec fn params_payload(p: JsonV) -> JsonV {
    f_djson(jget(p, "payload"@))
}

/// True when `ev` is how an event of type `t` for session `sid` with
/// payload `pl` is sorted.
pub open spec fn sorted_event(ev: ParsedGatewayEvent, t: Seq<char>, sid: Option<Seq<char>>, pl: JsonV) -> bool {
    match known_payload_error(t, pl) {
        None => ev matches ParsedGatewayEvent::UnknownType { event_type, session_id, payload }
            && event_type@ == t && ostring(session_id) == sid && payload@ == pl,
        Some(None) => ev matches ParsedGatewayEvent::Known(e) && event_reads(e, t, pl),
        Some(Some(err)) => ev matches ParsedGatewayEvent::MalformedKnown {
            event_type,
            session_id,
            payload,
            error,
        } && event_type@ == t && ostring(session_id) == sid && payload@ == pl && error@ == err,
    }
}

/// What routing the envelope `v` gives.
pub open spec fn routes_to(v: JsonV, r: Result<Option<RoutedGatewayEvent>, ProtocolError>) -> bool {
    if !is_event_envelope(v) {
        r matches Ok(None)
    } else {
        match jget(v, "params"@) {
            None => r matches Err(ProtocolError::InvalidParams(m)) && m@ == "missing params"@,
            Some(p) => match params_error(p) {
                Some(e) => r matches Err(ProtocolError::JsonError(m)) && m@ == e,
                None => r matches Ok(Some(routed)) && ostring(routed.session_id) == params_session(p)
                    && sorted_event(
                    routed.event,
                    params_type(p),
                    params_session(p),
                    params_payload(p),
                ),
            },
        }
    }
}

/// Routes a JSON-RPC envelope: `Ok(None)` when it is not an event; else the
/// event sorted by its `params.type`, with the session it names. Missing
/// `params` and unreadable `params` are errors.
pub fn parse_gateway_event(value: &Json) -> (r: Result<Option<RoutedGatewayEvent>, ProtocolError>)
    ensures
        routes_to(value@, r),
{
    let is_event = match opt_str(value.get("method")) {
        Some(m) => str_eq(m, "event"),
        None => false,
    };
    if !is_event {
        return Ok(None);
    }
    let params = match value.get("params") {
        None => {
            return Err(ProtocolError::InvalidParams("missing params".to_owned()));
        },
        Some(p) => p,
    };
    if !params.is_object() {
        return Err(ProtocolError::JsonError(not_object_error(params, "GatewayEventParams")));
    }
    match member_type_error(params, &params_table()) {
        Some(e) => {
            return Err(ProtocolError::JsonError(e));
        },
        None => {},
    }
    let event_type = match d_str(params, "type") {
        Ok(t) => t,
        Err(e) => {
            return Err(ProtocolError::JsonError(e));
        },
    };
    let session_id = match d_ostr(params, "session_id") {
        Ok(s) => s,
        Err(e) => {
            return Err(ProtocolError::JsonError(e));
        },
    };
    let payload = d_djson(params, "payload");
    let event = match decode_known(event_type.as_str(), &payload) {
        None => ParsedGatewayEvent::UnknownType {
            event_type: event_type.as_str().to_owned(),
            session_id: clone_opt(&session_id),
            payload,
        },
        Some(Ok(e)) => ParsedGatewayEvent::Known(e),
        Some(Err(m)) => ParsedGatewayEvent::MalformedKnown {
            event_type: event_type.as_str().to_owned(),
            session_id: clone_opt(&session_id),
            payload,
            error: m,
        },
    };
    Ok(Some(RoutedGatewayEvent { session_id, event }))
}

} // verus!
