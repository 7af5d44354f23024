//! Chat streaming: the events the desktop shows while an answer streams in,
//! read from the backend's WebSocket wire envelopes.

use vstd::prelude::*;
use crate::json::{Json, JsonV, jget, oget, ostr, obool, ou64, oarray, oview, ostring, ojson, str_items, strings_view, opt_get, opt_str, opt_bool, opt_u64, opt_clone, opt_owned, owned_or, string_items, empty_object};
use crate::number::{number_ms, number_ms_exec};
use crate::text::{str_eq, chars_of, trim, trim_chars, starts_with, starts_with_chars, string_from_chars};
use crate::json_text::{json_text_parse, parse_json};

verus! {

/// A streaming chat event as the frontend receives it.
#[allow(inconsistent_fields)]
#[derive(Debug)]
pub enum ChatEvent {
    Token { content: String },
    Reasoning { content: String },
    ToolStart { name: String, tool_call_id: String },
    ToolComplete { name: String, tool_call_id: String, output: String, duration_ms: u64 },
    ApprovalRequest {
        request_id: String,
        tool_name: String,
        tool_input: String,
        action: String,
        command_class: String,
    },
    /// Pipeline status; the cost is kept as the JSON number's text.
    PipelineStatus {
        backend: String,
        model: Option<String>,
        tokens_used: Option<u64>,
        tokens_limit: Option<u64>,
        cost_usd: Option<String>,
    },
    Done { session_id: Option<String> },
    Error { message: String },
    Status { status: String },
    SessionInfo {
        session_id: String,
        stored_session_id: String,
        running: bool,
        model: Option<String>,
        provider: Option<String>,
        tools: Json,
        skills: Json,
        usage: Option<Json>,
        desktop_contract: Option<u32>,
    },
    Thinking { content: String },
    ToolGenerating { name: String, tool_call_id: Option<String>, content: Option<String> },
    ClarifyRequest { request_id: String, question: String, choices: Vec<String> },
    SudoRequest { request_id: String, reason: Option<String>, timeout_secs: Option<u64> },
    SudoExpire { request_id: String },
    SecretRequest { request_id: String, prompt: String, env_var: String, metadata: Option<Json> },
    SecretExpire { request_id: String },
    Notification {
        id: String,
        key: String,
        text: String,
        level: Option<String>,
        kind: Option<String>,
        ttl_ms: Option<u64>,
    },
    NotificationClear { key: String },
}

/// The mathematical view of a chat event.
#[allow(inconsistent_fields)]
pub enum ChatEventV {
    Token { content: Seq<char> },
    Reasoning { content: Seq<char> },
    ToolStart { name: Seq<char>, tool_call_id: Seq<char> },
    ToolComplete { name: Seq<char>, tool_call_id: Seq<char>, output: Seq<char>, duration_ms: u64 },
    ApprovalRequest {
        request_id: Seq<char>,
        tool_name: Seq<char>,
        tool_input: Seq<char>,
        action: Seq<char>,
        command_class: Seq<char>,
    },
    PipelineStatus {
        backend: Seq<char>,
        model: Option<Seq<char>>,
        tokens_used: Option<u64>,
        tokens_limit: Option<u64>,
        cost_usd: Option<Seq<char>>,
    },
    Done { session_id: Option<Seq<char>> },
    Error { message: Seq<char> },
    Status { status: Seq<char> },
    SessionInfo {
        session_id: Seq<char>,
        stored_session_id: Seq<char>,
        running: bool,
        model: Option<Seq<char>>,
        provider: Option<Seq<char>>,
        tools: JsonV,
        skills: JsonV,
        usage: Option<JsonV>,
        desktop_contract: Option<u32>,
    },
    Thinking { content: Seq<char> },
    ToolGenerating { name: Seq<char>, tool_call_id: Option<Seq<char>>, content: Option<Seq<char>> },
    ClarifyRequest { request_id: Seq<char>, question: Seq<char>, choices: Seq<Seq<char>> },
    SudoRequest { request_id: Seq<char>, reason: Option<Seq<char>>, timeout_secs: Option<u64> },
    SudoExpire { request_id: Seq<char> },
    SecretRequest {
        request_id: Seq<char>,
        prompt: Seq<char>,
        env_var: Seq<char>,
        metadata: Option<JsonV>,
    },
    SecretExpire { request_id: Seq<char> },
    Notification {
        id: Seq<char>,
        key: Seq<char>,
        text: Seq<char>,
        level: Option<Seq<char>>,
        kind: Option<Seq<char>>,
        ttl_ms: Option<u64>,
    },
    NotificationClear { key: Seq<char> },
}

impl View for ChatEvent {
    type V = ChatEventV;

    open spec fn view(&self) -> ChatEventV {
        match self {
            ChatEvent::Token { content } => ChatEventV::Token { content: content@ },
            ChatEvent::Reasoning { content } => ChatEventV::Reasoning { content: content@ },
            ChatEvent::ToolStart { name, tool_call_id } => ChatEventV::ToolStart {
                name: name@,
                tool_call_id: tool_call_id@,
            },
            ChatEvent::ToolComplete { name, tool_call_id, output, duration_ms } =>
                ChatEventV::ToolComplete {
                name: name@,
                tool_call_id: tool_call_id@,
                output: output@,
                duration_ms: *duration_ms,
            },
            ChatEvent::ApprovalRequest { request_id, tool_name, tool_input, action, command_class } =>
                ChatEventV::ApprovalRequest {
                request_id: request_id@,
                tool_name: tool_name@,
                tool_input: tool_input@,
                action: action@,
                command_class: command_class@,
            },
            ChatEvent::PipelineStatus { backend, model, tokens_used, tokens_limit, cost_usd } =>
                ChatEventV::PipelineStatus {
                backend: backend@,
                model: ostring(*model),
                tokens_used: *tokens_used,
                tokens_limit: *tokens_limit,
                cost_usd: ostring(*cost_usd),
            },
            ChatEvent::Done { session_id } => ChatEventV::Done { session_id: ostring(*session_id) },
            ChatEvent::Error { message } => ChatEventV::Error { message: message@ },
            ChatEvent::Status { status } => ChatEventV::Status { status: status@ },
            ChatEvent::SessionInfo {
                session_id,
                stored_session_id,
                running,
                model,
                provider,
                tools,
                skills,
                usage,
                desktop_contract,
            } => ChatEventV::SessionInfo {
                session_id: session_id@,
                stored_session_id: stored_session_id@,
                running: *running,
                model: ostring(*model),
                provider: ostring(*provider),
                tools: tools@,
                skills: skills@,
                usage: ojson(*usage),
                desktop_contract: *desktop_contract,
            },
            ChatEvent::Thinking { content } => ChatEventV::Thinking { content: content@ },
            ChatEvent::ToolGenerating { name, tool_call_id, content } => ChatEventV::ToolGenerating {
                name: name@,
                tool_call_id: ostring(*tool_call_id),
                content: ostring(*content),
            },
            ChatEvent::ClarifyRequest { request_id, question, choices } =>
                ChatEventV::ClarifyRequest {
                request_id: request_id@,
                question: question@,
                choices: strings_view(choices@),
            },
            ChatEvent::SudoRequest { request_id, reason, timeout_secs } => ChatEventV::SudoRequest {
                request_id: request_id@,
                reason: ostring(*reason),
                timeout_secs: *timeout_secs,
            },
            ChatEvent::SudoExpire { request_id } => ChatEventV::SudoExpire { request_id: request_id@ },
            ChatEvent::SecretRequest { request_id, prompt, env_var, metadata } =>
                ChatEventV::SecretRequest {
                request_id: request_id@,
                prompt: prompt@,
                env_var: env_var@,
                metadata: ojson(*metadata),
            },
            ChatEvent::SecretExpire { request_id } => ChatEventV::SecretExpire {
                request_id: request_id@,
            },
            ChatEvent::Notification { id, key, text, level, kind, ttl_ms } =>
                ChatEventV::Notification {
                id: id@,
                key: key@,
                text: text@,
                level: ostring(*level),
                kind: ostring(*kind),
                ttl_ms: *ttl_ms,
            },
            ChatEvent::NotificationClear { key } => ChatEventV::NotificationClear { key: key@ },
        }
    }
}

/// The optional view of an optional event.
pub open spec fn oevent(o: Option<ChatEvent>) -> Option<ChatEventV> {
    match o {
        Some(e) => Some(e@),
        None => None,
    }
}

/// `params` of an envelope.
pub open spec fn params_of(v: JsonV) -> Option<JsonV> {
    jget(v, "params"@)
}

/// `params.payload` of an envelope.
pub open spec fn payload_of(v: JsonV) -> Option<JsonV> {
    oget(params_of(v), "payload"@)
}

/// `params.payload.<f>`, falling back to `params.<f>` when the payload has
/// no such field.
pub open spec fn pfield(v: JsonV, f: Seq<char>) -> Option<JsonV> {
    match oget(payload_of(v), f) {
        Some(x) => Some(x),
        None => oget(params_of(v), f),
    }
}

/// The string at `params.payload.<f>` (or `params.<f>`).
pub open spec fn pstr(v: JsonV, f: Seq<char>) -> Option<Seq<char>> {
    ostr(pfield(v, f))
}

/// `a.or_else(|| b)`.
pub open spec fn or_opt<A>(a: Option<A>, b: Option<A>) -> Option<A> {
    match a {
        Some(x) => Some(x),
        None => b,
    }
}

/// `o.unwrap_or(d)`.
pub open spec fn or_default<A>(o: Option<A>, d: A) -> A {
    match o {
        Some(x) => x,
        None => d,
    }
}

/// The event's type: `params.type`, else the envelope's `method`.
pub open spec fn event_type_of(v: JsonV) -> Option<Seq<char>> {
    ostr(or_opt(oget(params_of(v), "type"@), jget(v, "method"@)))
}

/// Milliseconds of the tool duration (`duration_s`, seconds), 0 if absent.
pub open spec fn duration_ms_of(v: JsonV) -> u64 {
    match pfield(v, "duration_s"@) {
        Some(JsonV::Number(t)) => number_ms(t),
        _ => 0,
    }
}

/// The chat event that an event envelope carries, if any.
pub open spec fn chat_event_of(v: JsonV) -> Option<ChatEventV> {
    match event_type_of(v) {
        None => None,
        Some(t) => if t == "message.chunk"@ || t == "token"@ || t == "message.delta"@ {
            let c = or_default(pstr(v, "text"@), ""@);
            if c.len() > 0 { Some(ChatEventV::Token { content: c }) } else { None }
        } else if t == "reasoning.delta"@ {
            let c = or_default(pstr(v, "text"@), ""@);
            if c.len() > 0 { Some(ChatEventV::Reasoning { content: c }) } else { None }
        } else if t == "tool.start"@ {
            Some(ChatEventV::ToolStart {
                name: or_default(pstr(v, "name"@), "tool"@),
                tool_call_id: or_default(pstr(v, "tool_id"@), ""@),
            })
        } else if t == "tool.complete"@ {
            Some(ChatEventV::ToolComplete {
                name: or_default(pstr(v, "name"@), "tool"@),
                tool_call_id: or_default(pstr(v, "tool_id"@), ""@),
                output: or_default(pstr(v, "output"@), ""@),
                duration_ms: duration_ms_of(v),
            })
        } else if t == "message.end"@ || t == "message.complete"@ || t == "message.done"@ || t
            == "done"@ {
            Some(ChatEventV::Done { session_id: ostr(oget(params_of(v), "session_id"@)) })
        } else if t == "message.start"@ {
            Some(ChatEventV::Status { status: "streaming"@ })
        } else if t == "error"@ {
            Some(ChatEventV::Error {
                message: or_default(
                    ostr(or_opt(oget(params_of(v), "message"@), oget(jget(v, "error"@), "message"@))),
                    "Unknown error"@,
                ),
            })
        } else if t == "status.update"@ {
            Some(ChatEventV::Status {
                status: or_default(
                    ostr(or_opt(oget(params_of(v), "text"@), oget(params_of(v), "kind"@))),
                    "unknown"@,
                ),
            })
        } else if t == "approval.request"@ {
            Some(ChatEventV::ApprovalRequest {
                request_id: or_default(or_opt(pstr(v, "request_id"@), pstr(v, "tool_id"@)), ""@),
                tool_name: or_default(or_opt(pstr(v, "name"@), pstr(v, "tool_name"@)), "tool"@),
                tool_input: or_default(or_opt(pstr(v, "command"@), pstr(v, "tool_input"@)), ""@),
                action: or_default(or_opt(pstr(v, "action"@), pstr(v, "message"@)), ""@),
                command_class: or_default(pstr(v, "command_class"@), "write"@),
            })
        } else if t == "session.info"@ {
            Some(ChatEventV::SessionInfo {
                session_id: or_default(ostr(oget(params_of(v), "session_id"@)), ""@),
                stored_session_id: or_default(pstr(v, "stored_session_id"@), ""@),
                running: or_default(obool(oget(payload_of(v), "running"@)), false),
                model: pstr(v, "model"@),
                provider: pstr(v, "provider"@),
                tools: or_default(oget(payload_of(v), "tools"@), JsonV::Object(Seq::empty())),
                skills: or_default(oget(payload_of(v), "skills"@), JsonV::Object(Seq::empty())),
                usage: oget(payload_of(v), "usage"@),
                desktop_contract: match ou64(oget(payload_of(v), "desktop_contract"@)) {
                    Some(n) => Some(n as u32),
                    None => None,
                },
            })
        } else if t == "thinking.delta"@ {
            let c = or_default(pstr(v, "text"@), ""@);
            if c.len() > 0 { Some(ChatEventV::Thinking { content: c }) } else { None }
        } else if t == "tool.generating"@ {
            Some(ChatEventV::ToolGenerating {
                name: or_default(pstr(v, "name"@), "tool"@),
                tool_call_id: pstr(v, "tool_id"@),
                content: pstr(v, "text"@),
            })
        } else if t == "clarify.request"@ {
            Some(ChatEventV::ClarifyRequest {
                request_id: or_default(pstr(v, "request_id"@), ""@),
                question: or_default(pstr(v, "question"@), ""@),
                choices: match oarray(oget(payload_of(v), "choices"@)) {
                    Some(items) => str_items(items),
                    None => Seq::empty(),
                },
            })
        } else if t == "sudo.request"@ {
            Some(ChatEventV::SudoRequest {
                request_id: or_default(pstr(v, "request_id"@), ""@),
                reason: pstr(v, "reason"@),
                timeout_secs: ou64(oget(payload_of(v), "timeout_secs"@)),
            })
        } else if t == "sudo.expire"@ {
            Some(ChatEventV::SudoExpire { request_id: or_default(pstr(v, "request_id"@), ""@) })
        } else if t == "secret.request"@ {
            Some(ChatEventV::SecretRequest {
                request_id: or_default(pstr(v, "request_id"@), ""@),
                prompt: or_default(pstr(v, "prompt"@), ""@),
                env_var: or_default(pstr(v, "env_var"@), ""@),
                metadata: oget(payload_of(v), "metadata"@),
            })
        } else if t == "secret.expire"@ {
            Some(ChatEventV::SecretExpire { request_id: or_default(pstr(v, "request_id"@), ""@) })
        } else if t == "notification.show"@ {
            Some(ChatEventV::Notification {
                id: or_default(pstr(v, "id"@), ""@),
                key: or_default(pstr(v, "key"@), ""@),
                text: or_default(pstr(v, "text"@), ""@),
                level: pstr(v, "level"@),
                kind: pstr(v, "kind"@),
                ttl_ms: ou64(oget(payload_of(v), "ttl_ms"@)),
            })
        } else if t == "notification.clear"@ {
            Some(ChatEventV::Notification {
                id: ""@,
                key: or_default(pstr(v, "key"@), ""@),
                text: ""@,
                level: None,
                kind: None,
                ttl_ms: None,
            })
        } else {
            None
        },
    }
}

/// `params.payload.<field>`, falling back to `params.<field>`, as a string.
fn payload_field<'a>(value: &'a Json, field: &str) -> (r: Option<&'a str>)
    ensures
        match r {
            Some(s) => pstr(value@, field@) == Some(s@),
            None => pstr(value@, field@) is None,
        },
{
    let params = value.get("params");
    let pl = opt_get(params, "payload");
    let x = opt_get(pl, field);
    let y = match x {
        Some(j) => Some(j),
        None => opt_get(params, field),
    };
    opt_str(y)
}

/// `payload_field(value, field)` as an owned string, or `d`.
fn field_or(value: &Json, field: &str, d: &str) -> (r: String)
    ensures
        r@ == or_default(pstr(value@, field@), d@),
{
    owned_or(payload_field(value, field), d)
}

/// `payload_field(value, field)` as an owned string.
fn field_opt(value: &Json, field: &str) -> (r: Option<String>)
    ensures
        ostring(r) == pstr(value@, field@),
{
    opt_owned(payload_field(value, field))
}

/// The first of two fields that holds a string, or `d`.
fn field_or2(value: &Json, f1: &str, f2: &str, d: &str) -> (r: String)
    ensures
        r@ == or_default(or_opt(pstr(value@, f1@), pstr(value@, f2@)), d@),
{
    match payload_field(value, f1) {
        Some(s) => s.to_owned(),
        None => owned_or(payload_field(value, f2), d),
    }
}

/// `params.payload.<field>` (payload only).
fn payload_get<'a>(value: &'a Json, field: &str) -> (r: Option<&'a Json>)
    ensures
        oview(r) == oget(payload_of(value@), field@),
{
    opt_get(opt_get(value.get("params"), "payload"), field)
}

/// The event type of an envelope.
fn event_type<'a>(value: &'a Json) -> (r: Option<&'a str>)
    ensures
        match r {
            Some(s) => event_type_of(value@) == Some(s@),
            None => event_type_of(value@) is None,
        },
{
    let t = opt_get(value.get("params"), "type");
    let m = match t {
        Some(j) => Some(j),
        None => value.get("method"),
    };
    opt_str(m)
}

/// Reads the chat event out of an event envelope; `None` for event types
/// the desktop does not show and for empty text deltas.
pub fn parse_gateway_event(value: &Json) -> (r: Option<ChatEvent>)
    ensures
        oevent(r) == chat_event_of(value@),
{
    let et = match event_type(value) {
        Some(t) => t,
        None => return None,
    };
    if str_eq(et, "message.chunk") || str_eq(et, "token") || str_eq(et, "message.delta") {
        let content = field_or(value, "text", "");
        if content.as_str().unicode_len() > 0 {
            Some(ChatEvent::Token { content })
        } else {
            None
        }
    } else if str_eq(et, "reasoning.delta") {
        let content = field_or(value, "text", "");
        if content.as_str().unicode_len() > 0 {
            Some(ChatEvent::Reasoning { content })
        } else {
            None
        }
    } else if str_eq(et, "tool.start") {
        Some(
            ChatEvent::ToolStart {
                name: field_or(value, "name", "tool"),
                tool_call_id: field_or(value, "tool_id", ""),
            },
        )
    } else if str_eq(et, "tool.complete") {
        let params = value.get("params");
        let d = match payload_get(value, "duration_s") {
            Some(j) => Some(j),
            None => opt_get(params, "duration_s"),
        };
        let duration_ms = match d {
            Some(Json::Number(t)) => number_ms_exec(t.as_str()),
            _ => 0,
        };
        Some(
            ChatEvent::ToolComplete {
                name: field_or(value, "name", "tool"),
                tool_call_id: field_or(value, "tool_id", ""),
                output: field_or(value, "output", ""),
                duration_ms,
            },
        )
    } else if str_eq(et, "message.end") || str_eq(et, "message.complete") || str_eq(
        et,
        "message.done",
    ) || str_eq(et, "done") {
        let sid = opt_str(opt_get(value.get("params"), "session_id"));
        Some(ChatEvent::Done { session_id: opt_owned(sid) })
    } else if str_eq(et, "message.start") {
        Some(ChatEvent::Status { status: "streaming".to_owned() })
    } else if str_eq(et, "error") {
        let m = match opt_get(value.get("params"), "message") {
            Some(j) => Some(j),
            None => opt_get(value.get("error"), "message"),
        };
        Some(ChatEvent::Error { message: owned_or(opt_str(m), "Unknown error") })
    } else if str_eq(et, "status.update") {
        let params = value.get("params");
        let s = match opt_get(params, "text") {
            Some(j) => Some(j),
            None => opt_get(params, "kind"),
        };
        Some(ChatEvent::Status { status: owned_or(opt_str(s), "unknown") })
    } else if str_eq(et, "approval.request") {
        Some(
            ChatEvent::ApprovalRequest {
                request_id: field_or2(value, "request_id", "tool_id", ""),
                tool_name: field_or2(value, "name", "tool_name", "tool"),
                tool_input: field_or2(value, "command", "tool_input", ""),
                action: field_or2(value, "action", "message", ""),
                command_class: field_or(value, "command_class", "write"),
            },
        )
    } else if str_eq(et, "session.info") {
        let tools = match payload_get(value, "tools") {
            Some(j) => j.deep_clone(),
            None => empty_object(),
        };
        let skills = match payload_get(value, "skills") {
            Some(j) => j.deep_clone(),
            None => empty_object(),
        };
        let dc = match opt_u64(payload_get(value, "desktop_contract")) {
            Some(n) => Some(n as u32),
            None => None,
        };
        Some(
            ChatEvent::SessionInfo {
                session_id: owned_or(opt_str(opt_get(value.get("params"), "session_id")), ""),
                stored_session_id: field_or(value, "stored_session_id", ""),
                running: match opt_bool(payload_get(value, "running")) {
                    Some(b) => b,
                    None => false,
                },
                model: field_opt(value, "model"),
                provider: field_opt(value, "provider"),
                tools,
                skills,
                usage: opt_clone(payload_get(value, "usage")),
                desktop_contract: dc,
            },
        )
    } else if str_eq(et, "thinking.delta") {
        let content = field_or(value, "text", "");
        if content.as_str().unicode_len() > 0 {
            Some(ChatEvent::Thinking { content })
        } else {
            None
        }
    } else if str_eq(et, "tool.generating") {
        Some(
            ChatEvent::ToolGenerating {
                name: field_or(value, "name", "tool"),
                tool_call_id: field_opt(value, "tool_id"),
                content: field_opt(value, "text"),
            },
        )
    } else if str_eq(et, "clarify.request") {
        let choices = match payload_get(value, "choices") {
            Some(j) => match j.as_array() {
                Some(items) => string_items(items),
                None => Vec::new(),
            },
            None => Vec::new(),
        };
        proof {
            if choices@.len() == 0 {
                assert(strings_view(choices@) =~= Seq::empty());
            }
        }
        Some(
            ChatEvent::ClarifyRequest {
                request_id: field_or(value, "request_id", ""),
                question: field_or(value, "question", ""),
                choices,
            },
        )
    } else if str_eq(et, "sudo.request") {
        Some(
            ChatEvent::SudoRequest {
                request_id: field_or(value, "request_id", ""),
                reason: field_opt(value, "reason"),
                timeout_secs: opt_u64(payload_get(value, "timeout_secs")),
            },
        )
    } else if str_eq(et, "sudo.expire") {
        Some(ChatEvent::SudoExpire { request_id: field_or(value, "request_id", "") })
    } else if str_eq(et, "secret.request") {
        Some(
            ChatEvent::SecretRequest {
                request_id: field_or(value, "request_id", ""),
                prompt: field_or(value, "prompt", ""),
                env_var: field_or(value, "env_var", ""),
                metadata: opt_clone(payload_get(value, "metadata")),
            },
        )
    } else if str_eq(et, "secret.expire") {
        Some(ChatEvent::SecretExpire { request_id: field_or(value, "request_id", "") })
    } else if str_eq(et, "notification.show") {
        Some(
            ChatEvent::Notification {
                id: field_or(value, "id", ""),
                key: field_or(value, "key", ""),
                text: field_or(value, "text", ""),
                level: field_opt(value, "level"),
                kind: field_opt(value, "kind"),
                ttl_ms: opt_u64(payload_get(value, "ttl_ms")),
            },
        )
    } else if str_eq(et, "notification.clear") {
        Some(
            ChatEvent::Notification {
                id: "".to_owned(),
                key: field_or(value, "key", ""),
                text: "".to_owned(),
                level: None,
                kind: None,
                ttl_ms: None,
            },
        )
    } else {
        None
    }
}

/// A WebSocket line can hold a message: after trimming it is a non-empty
/// JSON object text.
pub open spec fn is_envelope_line(raw: Seq<char>) -> bool {
    trim(raw).len() > 0 && trim(raw)[0] == '{'
}

/// Whether a raw WebSocket line is worth reading as a JSON message.
pub fn is_ws_envelope_line(raw: &str) -> (r: bool)
    ensures
        r == is_envelope_line(raw@),
{
    let t = trim_chars(&chars_of(raw));
    t.len() > 0 && t[0] == '{'
}

/// The streaming event carried by one WebSocket message.
pub open spec fn ws_event_of(v: JsonV) -> Option<ChatEventV> {
    if jget(v, "id"@) is Some {
        None
    } else if ostr(jget(v, "method"@)) != Some("event"@) {
        None
    } else {
        chat_event_of(v)
    }
}

/// Reads one JSON message from the WebSocket: JSON-RPC responses (which
/// carry an `id`) and envelopes whose `method` is not `event` give `None`;
/// event envelopes give their chat event.
pub fn parse_ws_envelope(value: &Json) -> (r: Option<ChatEvent>)
    ensures
        oevent(r) == ws_event_of(value@),
{
    if value.get("id").is_some() {
        return None;
    }
    let is_event = match opt_str(value.get("method")) {
        Some(m) => str_eq(m, "event"),
        None => false,
    };
    if !is_event {
        return None;
    }
    parse_gateway_event(value)
}

/// The streaming event in one raw WebSocket line: none unless the trimmed
/// line is a JSON object text that reads as a JSON value (see
/// `json_text_parse`), then as for `ws_event_of`.
pub open spec fn ws_message_event(raw: Seq<char>) -> Option<ChatEventV> {
    if !is_envelope_line(raw) {
        None
    } else {
        match json_text_parse(trim(raw)) {
            Ok(v) => ws_event_of(v),
            Err(_) => None,
        }
    }
}

/// Reads one raw WebSocket line into the streaming event it carries, if
/// any (see `ws_message_event`).
pub fn parse_ws_message(raw: &str) -> (r: Option<ChatEvent>)
    ensures
        oevent(r) == ws_message_event(raw@),
{
    if !is_ws_envelope_line(raw) {
        return None;
    }
    let t = string_from_chars(trim_chars(&chars_of(raw)).as_slice());
    match parse_json(t.as_str()) {
        Ok(v) => parse_ws_envelope(&v),
        Err(_) => None,
    }
}

/// A thinking event carries its text: an envelope whose type (`params.type`,
/// else `method`) is `thinking.delta` and whose text (`params.payload.text`,
/// else `params.text`) is a non-empty string `t` is read as thinking `t`.
pub proof fn lemma_thinking_event(v: JsonV, t: Seq<char>)
    requires
        match oget(jget(v, "params"@), "type"@) {
            Some(x) => x == JsonV::Str("thinking.delta"@),
            None => jget(v, "method"@) == Some(JsonV::Str("thinking.delta"@)),
        },
        match oget(oget(jget(v, "params"@), "payload"@), "text"@) {
            Some(x) => x == JsonV::Str(t),
            None => oget(jget(v, "params"@), "text"@) == Some(JsonV::Str(t)),
        },
        t.len() > 0,
    ensures
        chat_event_of(v) == Some(ChatEventV::Thinking { content: t }),
{
    reveal_strlit("message.chunk");
    reveal_strlit("token");
    reveal_strlit("message.delta");
    reveal_strlit("reasoning.delta");
    reveal_strlit("tool.start");
    reveal_strlit("tool.complete");
    reveal_strlit("message.end");
    reveal_strlit("message.complete");
    reveal_strlit("message.done");
    reveal_strlit("done");
    reveal_strlit("message.start");
    reveal_strlit("error");
    reveal_strlit("status.update");
    reveal_strlit("approval.request");
    reveal_strlit("session.info");
    reveal_strlit("thinking.delta");
    assert("message.chunk"@.len() == 13);
    assert("token"@.len() == 5);
    assert("message.delta"@.len() == 13);
    assert("reasoning.delta"@.len() == 15);
    assert("tool.start"@.len() == 10);
    assert("tool.complete"@.len() == 13);
    assert("message.end"@.len() == 11);
    assert("message.complete"@.len() == 16);
    assert("message.done"@.len() == 12);
    assert("done"@.len() == 4);
    assert("message.start"@.len() == 13);
    assert("error"@.len() == 5);
    assert("status.update"@.len() == 13);
    assert("approval.request"@.len() == 16);
    assert("session.info"@.len() == 12);
    assert("thinking.delta"@.len() == 14);
}

/// Streamed text events carry their text: an envelope whose type
/// (`params.type`, else `method`) is `message.chunk`, `token` or
/// `message.delta` is read as a token of its text, and one of type
/// `reasoning.delta` as reasoning, when the text (`params.payload.text`,
/// else `params.text`) is a non-empty string `t`.
pub proof fn lemma_text_events(v: JsonV, ty: Seq<char>, t: Seq<char>)
    requires
        ty == "message.chunk"@ || ty == "token"@ || ty == "message.delta"@ || ty == "reasoning.delta"@,
        match oget(jget(v, "params"@), "type"@) {
            Some(x) => x == JsonV::Str(ty),
            None => jget(v, "method"@) == Some(JsonV::Str(ty)),
        },
        match oget(oget(jget(v, "params"@), "payload"@), "text"@) {
            Some(x) => x == JsonV::Str(t),
            None => oget(jget(v, "params"@), "text"@) == Some(JsonV::Str(t)),
        },
        t.len() > 0,
    ensures
        ty == "reasoning.delta"@ ==> chat_event_of(v) == Some(ChatEventV::Reasoning { content: t }),
        ty != "reasoning.delta"@ ==> chat_event_of(v) == Some(ChatEventV::Token { content: t }),
{
    reveal_strlit("message.chunk");
    reveal_strlit("token");
    reveal_strlit("message.delta");
    reveal_strlit("reasoning.delta");
    assert("reasoning.delta"@.len() == 15 && "message.chunk"@.len() == 13 && "token"@.len() == 5 && "message.delta"@.len() == 13);
}

/// `http(s)://` URL to `ws(s)://` URL.
pub open spec fn ws_url(url: Seq<char>) -> Seq<char> {
    let t = trim(url);
    if starts_with(t, "https://"@) {
        "wss://"@ + t.skip("https://"@.len() as int)
    } else if starts_with(t, "http://"@) {
        "ws://"@ + t.skip("http://"@.len() as int)
    } else {
        t
    }
}

/// Converting a URL that was already converted changes nothing.
pub proof fn lemma_ws_url_idempotent(url: Seq<char>)
    ensures
        ws_url(ws_url(url)) == ws_url(url),
{
    reveal_strlit("https://");
    reveal_strlit("http://");
    reveal_strlit("wss://");
    reveal_strlit("ws://");
    let t = trim(url);
    crate::text::lemma_trim_ends(url);
    let r = ws_url(url);
    if starts_with(t, "https://"@) || starts_with(t, "http://"@) {
        let skip: int = if starts_with(t, "https://"@) { 8 } else { 7 };
        let prefix = if starts_with(t, "https://"@) { "wss://"@ } else { "ws://"@ };
        assert(r == prefix + t.skip(skip));
        assert(r[0] == 'w');
        assert(r[1] == 's');
        if t.skip(skip).len() > 0 {
            assert(r.last() == t.last());
        } else {
            assert(r.last() == '/');
        }
        crate::text::lemma_trim_fixed(r);
        assert(!starts_with(r, "https://"@)) by {
            if starts_with(r, "https://"@) {
                assert(r.take(8)[1] == 't');
            }
        }
        assert(!starts_with(r, "http://"@)) by {
            if starts_with(r, "http://"@) {
                assert(r.take(7)[1] == 't');
            }
        }
    } else {
        assert(r == t);
    }
}

/// Converts an HTTP(S) URL to a WebSocket URL: `http://` becomes `ws://`,
/// `https://` becomes `wss://`; other URLs pass through (trimmed).
pub fn to_ws_url(url: &str) -> (r: String)
    ensures
        r@ == ws_url(url@),
{
    let t = trim_chars(&chars_of(url));
    let https = chars_of("https://");
    let http = chars_of("http://");
    let mut out: Vec<char>;
    if starts_with_chars(&t, &https) {
        out = chars_of("wss://");
        let mut i = https.len();
        while i < t.len()
            invariant
                https@.len() <= i <= t@.len(),
                out@ == "wss://"@ + t@.subrange(https@.len() as int, i as int),
            decreases t@.len() - i,
        {
            out.push(t[i]);
            i = i + 1;
            assert(out@ =~= "wss://"@ + t@.subrange(https@.len() as int, i as int));
        }
        assert(t@.subrange(https@.len() as int, t@.len() as int) =~= t@.skip(https@.len() as int));
    } else if starts_with_chars(&t, &http) {
        out = chars_of("ws://");
        let mut i = http.len();
        while i < t.len()
            invariant
                http@.len() <= i <= t@.len(),
                out@ == "ws://"@ + t@.subrange(http@.len() as int, i as int),
            decreases t@.len() - i,
        {
            out.push(t[i]);
            i = i + 1;
            assert(out@ =~= "ws://"@ + t@.subrange(http@.len() as int, i as int));
        }
        assert(t@.subrange(http@.len() as int, t@.len() as int) =~= t@.skip(http@.len() as int));
    } else {
        out = t;
    }
    string_from_chars(&out)
}

/// The way the desktop reaches its backend.
#[derive(Debug, Clone, Copy, PartialEq, Eq, Structural)]
pub enum ConnectionMode {
    Local,
    Remote,
    Ssh,
}

/// The connection mode a stored mode name selects: `remote`, `ssh`, and
/// local for anything else.
pub fn connection_mode_of(mode: &str) -> (r: ConnectionMode)
    ensures
        r == (if mode@ == "remote"@ {
            ConnectionMode::Remote
        } else if mode@ == "ssh"@ {
            ConnectionMode::Ssh
        } else {
            ConnectionMode::Local
        }),
{
    if str_eq(mode, "remote") {
        ConnectionMode::Remote
    } else if str_eq(mode, "ssh") {
        ConnectionMode::Ssh
    } else {
        ConnectionMode::Local
    }
}

/// `s.trim_end_matches(p)`: `s` without the copies of `p` that end it.
pub open spec fn trim_end_str(s: Seq<char>, p: Seq<char>) -> Seq<char>
    decreases s.len(),
{
    if p.len() > 0 && crate::text::ends_with(s, p) {
        trim_end_str(s.take(s.len() - p.len()), p)
    } else {
        s
    }
}

/// `s.trim_end_matches(p)` (see `trim_end_str`).
pub fn trim_end_str_exec(s: &[char], p: &[char]) -> (r: Vec<char>)
    ensures
        r@ == trim_end_str(s@, p@),
{
    let mut cur = crate::text::sub_chars(s, 0, s.len());
    assert(cur@ =~= s@);
    while p.len() > 0 && crate::text::ends_with_chars(cur.as_slice(), p)
        invariant
            trim_end_str(cur@, p@) == trim_end_str(s@, p@),
        decreases cur@.len(),
    {
        cur = crate::text::sub_chars(cur.as_slice(), 0, cur.len() - p.len());
    }
    cur
}

/// The WebSocket URL of a remote backend: its base URL without trailing
/// slashes and without a trailing `/api/ws`, as a WebSocket URL, with the
/// endpoint and the session token; an empty token is refused.
pub open spec fn remote_ws_url_of(base_url: Seq<char>, token: Seq<char>) -> Result<Seq<char>, Seq<char>> {
    if token.len() == 0 {
        Err("Remote session token is empty. Set it in Settings → Connection."@)
    } else {
        let base = trim_end_str(trim_end_str(base_url, "/"@), "/api/ws"@);
        Ok(ws_url(base) + "/api/ws?token="@ + token)
    }
}

/// The WebSocket URL of a remote backend (see `remote_ws_url_of`).
pub fn remote_ws_url(base_url: &str, token: &str) -> (r: Result<String, String>)
    ensures
        match r {
            Ok(u) => remote_ws_url_of(base_url@, token@) == Ok::<Seq<char>, Seq<char>>(u@),
            Err(e) => remote_ws_url_of(base_url@, token@) == Err::<Seq<char>, Seq<char>>(e@),
        },
{
    if token.unicode_len() == 0 {
        return Err("Remote session token is empty. Set it in Settings → Connection.".to_owned());
    }
    let b1 = trim_end_str_exec(chars_of(base_url).as_slice(), chars_of("/").as_slice());
    let b2 = trim_end_str_exec(b1.as_slice(), chars_of("/api/ws").as_slice());
    let base = string_from_chars(b2.as_slice());
    Ok(to_ws_url(base.as_str()).concat("/api/ws?token=").concat(token))
}

/// The WebSocket URL of the local backend: it needs the port the backend
/// announced and a session token, the one the desktop started it with or
/// else a non-empty `HERMES_DASHBOARD_SESSION_TOKEN`.
pub open spec fn local_ws_url_of(port: Option<u16>, own_token: Option<Seq<char>>, env_token: Option<Seq<char>>) -> Result<Seq<char>, Seq<char>> {
    match port {
        None => Err("Gateway not available (no port)"@),
        Some(p) => {
            let token = match own_token {
                Some(t) => Some(t),
                None => match env_token {
                    Some(t) => if t.len() > 0 {
                        Some(t)
                    } else {
                        None
                    },
                    None => None,
                },
            };
            match token {
                None => Err(
                    "No dashboard session token: gateway not spawned by Steersman, and HERMES_DASHBOARD_SESSION_TOKEN env is unset."@,
                ),
                Some(t) => Ok(crate::gateway::backend_ws_url(p, t)),
            }
        },
    }
}

/// The WebSocket URL of the local backend (see `local_ws_url_of`).
pub fn local_ws_url(port: Option<u16>, own_token: Option<String>, env_token: Option<String>) -> (r: Result<String, String>)
    ensures
        match r {
            Ok(u) => local_ws_url_of(port, ostring(own_token), ostring(env_token)) == Ok::<Seq<char>, Seq<char>>(u@),
            Err(e) => local_ws_url_of(port, ostring(own_token), ostring(env_token)) == Err::<Seq<char>, Seq<char>>(e@),
        },
{
    match port {
        None => Err("Gateway not available (no port)".to_owned()),
        Some(p) => {
            let token = match own_token {
                Some(t) => Some(t),
                None => match env_token {
                    Some(t) => if t.as_str().unicode_len() > 0 {
                        Some(t)
                    } else {
                        None
                    },
                    None => None,
                },
            };
            match token {
                None => Err(
                    "No dashboard session token: gateway not spawned by Steersman, and HERMES_DASHBOARD_SESSION_TOKEN env is unset.".to_owned(),
                ),
                Some(t) => Ok(crate::gateway::gateway_ws_url(p, t.as_str())),
            }
        },
    }
}

/// One earlier turn of a conversation that the frontend sends along.
#[derive(Debug, Clone)]
pub struct HistoryItem {
    pub role: String,
    pub content: String,
}

/// A message the frontend asks to send.
#[derive(Debug, Clone)]
pub struct SendMessageRequest {
    pub text: String,
    pub session_id: Option<String>,
    /// The conversation the message belongs to; its live session is used
    /// when no session id is given.
    pub conversation_id: Option<String>,
    pub history: Option<Vec<HistoryItem>>,
}

/// Which session a local message goes to.
#[derive(Debug, Clone, PartialEq, Eq)]
pub enum SessionTarget {
    /// The session the frontend named.
    Given(String),
    /// The live session of the named conversation (created if it has none).
    Conversation(String),
    /// A session created for this message.
    Fresh,
}

/// Which session a local message goes to: a non-empty session id, else a
/// non-empty conversation id, else a fresh session.
pub fn session_target(session_id: Option<&str>, conversation_id: Option<&str>) -> (r: SessionTarget)
    ensures
        match r {
            SessionTarget::Given(s) => session_id matches Some(g) && g@.len() > 0 && s@ == g@,
            SessionTarget::Conversation(c) => !(session_id matches Some(g) && g@.len() > 0)
                && (conversation_id matches Some(k) && k@.len() > 0 && c@ == k@),
            SessionTarget::Fresh => !(session_id matches Some(g) && g@.len() > 0)
                && !(conversation_id matches Some(k) && k@.len() > 0),
        },
{
    match session_id {
        Some(s) => if s.unicode_len() > 0 {
            return SessionTarget::Given(s.to_owned());
        },
        None => {},
    }
    match conversation_id {
        Some(c) => if c.unicode_len() > 0 {
            return SessionTarget::Conversation(c.to_owned());
        },
        None => {},
    }
    SessionTarget::Fresh
}

/// The error a local message reports when the backend could not be
/// started: the start attempt's error, or a generic one.
pub fn start_failure_message(error: Option<String>) -> (r: String)
    ensures
        r@ == (match error {
            Some(e) => e@,
            None => "Failed to start gateway"@,
        }),
{
    match error {
        Some(e) => e,
        None => "Failed to start gateway".to_owned(),
    }
}

/// The first key that is present.
pub open spec fn first_present(keys: Seq<Option<Seq<char>>>) -> Seq<char>
    decreases keys.len(),
{
    if keys.len() == 0 {
        Seq::empty()
    } else {
        match keys[0] {
            Some(k) => k,
            None => first_present(keys.drop_first()),
        }
    }
}

/// The views of optional strings.
pub open spec fn opt_views(s: Seq<Option<String>>) -> Seq<Option<Seq<char>>> {
    s.map_values(|o: Option<String>| ostring(o))
}

/// The backend session token for a tunnelled or remote backend: the first
/// of the candidates that is present (the key of the Hermes home, then of
/// `~/.hermes`, then a non-empty `API_SERVER_KEY`), else empty.
pub fn first_token(candidates: Vec<Option<String>>) -> (r: String)
    ensures
        r@ == first_present(opt_views(candidates@)),
{
    let ghost cands = candidates@;
    let ghost all = opt_views(candidates@);
    assert(all.skip(0) =~= all);
    let total = candidates.len();
    let mut rest = candidates;
    let mut i: usize = 0;
    while rest.len() > 0
        invariant
            i + rest@.len() == all.len(),
            all.len() == total,
            all == opt_views(cands),
            cands == candidates@,
            opt_views(rest@) == all.skip(i as int),
            first_present(all) == first_present(all.skip(i as int)),
        decreases rest@.len(),
    {
        let ghost before = rest@;
        let c = rest.remove(0);
        assert(all.skip(i as int).len() > 0);
        assert(all.skip(i as int)[0] == ostring(c));
        assert(all.skip(i as int).drop_first() =~= all.skip(i + 1));
        assert(opt_views(rest@) =~= all.skip(i + 1));
        match c {
            Some(k) => {
                return k;
            },
            None => {},
        }
        i = i + 1;
    }
    assert(all.skip(i as int).len() == 0);
    String::new()
}

/// Which session a request's message goes to (see `session_target`).
pub fn request_target(req: &SendMessageRequest) -> (r: SessionTarget)
    ensures
        match r {
            SessionTarget::Given(s) => req.session_id matches Some(g) && g@.len() > 0 && s@ == g@,
            SessionTarget::Conversation(c) => !(req.session_id matches Some(g) && g@.len() > 0)
                && (req.conversation_id matches Some(k) && k@.len() > 0 && c@ == k@),
            SessionTarget::Fresh => !(req.session_id matches Some(g) && g@.len() > 0)
                && !(req.conversation_id matches Some(k) && k@.len() > 0),
        },
{
    let sid: Option<&str> = match &req.session_id {
        Some(s) => Some(s.as_str()),
        None => None,
    };
    let cid: Option<&str> = match &req.conversation_id {
        Some(c) => Some(c.as_str()),
        None => None,
    };
    session_target(sid, cid)
}

} // verus!
