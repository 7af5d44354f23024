//! Activity-feed sources: reading the replies of the email, Jira and
//! calendar tool servers into feed cards, and the decisions around them.

use vstd::prelude::*;
use crate::mcp::{McpServerConfig, McpServerConfigV, named_configs_view, ostrs, opairs, strings_or_empty, pairs_or_empty};
use crate::config::{pairs_view, strs_view, copy_pairs};
use crate::json::{view_entries, lemma_view_entries, push_entry, jobj, jstr, ostring, clone_opt};
use crate::text::str_eq;
use crate::json_text::{json_text_parse, parse_json};
use crate::json::{Json, JsonV, jget, oget, oindex, ostr, obool, oarray, oview, view_items, lemma_view_items, opt_get, opt_str, opt_bool, owned_or, copy_strings};

verus! {

/// A string value's text, or a default.
pub open spec fn str_or(o: Option<JsonV>, d: Seq<char>) -> Seq<char> {
    match ostr(o) {
        Some(s) => s,
        None => d,
    }
}

/// The text of the first of two fields that holds a string.
pub open spec fn str_either(j: JsonV, a: Seq<char>, b: Seq<char>) -> Option<Seq<char>> {
    match ostr(jget(j, a)) {
        Some(s) => Some(s),
        None => ostr(jget(j, b)),
    }
}

/// The text of the first of three fields that holds a string.
pub open spec fn str_any3(j: JsonV, a: Seq<char>, b: Seq<char>, c: Seq<char>) -> Option<Seq<char>> {
    match str_either(j, a, b) {
        Some(s) => Some(s),
        None => ostr(jget(j, c)),
    }
}

/// An optional text, or the empty text.
pub open spec fn or_empty(o: Option<Seq<char>>) -> Seq<char> {
    match o {
        Some(s) => s,
        None => ""@,
    }
}

/// The view of an optional string slice.
pub open spec fn sview(o: Option<&str>) -> Option<Seq<char>> {
    match o {
        Some(s) => Some(s@),
        None => None,
    }
}

/// The text of a field of an object, when it is a string.
pub fn field_str<'a>(j: &'a Json, key: &str) -> (r: Option<&'a str>)
    ensures
        sview(r) == ostr(jget(j@, key@)),
{
    opt_str(j.get(key))
}

/// The text of the first of two fields that holds a string.
pub fn field_either<'a>(j: &'a Json, a: &str, b: &str) -> (r: Option<&'a str>)
    ensures
        sview(r) == str_either(j@, a@, b@),
{
    match field_str(j, a) {
        Some(s) => Some(s),
        None => field_str(j, b),
    }
}

/// The text of the first of three fields that holds a string.
pub fn field_any3<'a>(j: &'a Json, a: &str, b: &str, c: &str) -> (r: Option<&'a str>)
    ensures
        sview(r) == str_any3(j@, a@, b@, c@),
{
    match field_either(j, a, b) {
        Some(s) => Some(s),
        None => field_str(j, c),
    }
}

/// An owned copy of an optional text, or the default.
pub fn text_or(o: Option<&str>, d: &str) -> (r: String)
    ensures
        r@ == (match sview(o) {
            Some(s) => s,
            None => d@,
        }),
{
    owned_or(o, d)
}

// ── Tool replies ──────────────────────────────────────────────────────────

/// The feed tools whose replies carry a JSON document as text.
#[derive(Debug, Clone, Copy, PartialEq, Eq)]
pub enum FeedTool {
    EmailInbox,
    JiraSearch,
    CalendarList,
    CalendarEvents,
}

/// The prefix of the error for a reply flagged as failed.
pub open spec fn failure_prefix(t: FeedTool) -> Seq<char> {
    match t {
        FeedTool::EmailInbox => "Email MCP error: "@,
        FeedTool::JiraSearch => "Jira MCP error: "@,
        FeedTool::CalendarList => "Calendar MCP error: "@,
        FeedTool::CalendarEvents => "Calendar events error: "@,
    }
}

/// The text used when a failed reply carries none.
pub open spec fn failure_fallback(t: FeedTool) -> Seq<char> {
    match t {
        FeedTool::EmailInbox => "unknown MCP error"@,
        FeedTool::JiraSearch => "unknown Jira error"@,
        FeedTool::CalendarList => "calendar error"@,
        FeedTool::CalendarEvents => "events error"@,
    }
}

/// The error for a successful reply without text.
pub open spec fn missing_text_error(t: FeedTool) -> Seq<char> {
    match t {
        FeedTool::EmailInbox => "MCP response missing content[0].text"@,
        FeedTool::JiraSearch => "Jira response missing content[0].text"@,
        FeedTool::CalendarList => "Calendar response missing content[0].text"@,
        FeedTool::CalendarEvents => "Events response missing content[0].text"@,
    }
}

/// A tool reply is flagged as failed when `isError` is `true`.
pub open spec fn reply_failed(result: JsonV) -> bool {
    obool(jget(result, "isError"@)) == Some(true)
}

/// The text of the first content block of a tool reply.
pub open spec fn reply_text(result: JsonV) -> Option<Seq<char>> {
    ostr(oget(oindex(jget(result, "content"@), 0), "text"@))
}

/// The document text of a tool reply, or the error that it stands for.
pub open spec fn reply_document(result: JsonV, t: FeedTool) -> Result<Seq<char>, Seq<char>> {
    if reply_failed(result) {
        Err(failure_prefix(t) + match reply_text(result) {
            Some(s) => s,
            None => failure_fallback(t),
        })
    } else {
        match reply_text(result) {
            Some(s) => Ok(s),
            None => Err(missing_text_error(t)),
        }
    }
}

/// The view of a string result.
pub open spec fn str_result(r: Result<String, String>) -> Result<Seq<char>, Seq<char>> {
    match r {
        Ok(s) => Ok(s@),
        Err(e) => Err(e@),
    }
}

/// Whether a tool reply is flagged as failed.
pub fn is_failed_reply(result: &Json) -> (r: bool)
    ensures
        r == reply_failed(result@),
{
    match opt_bool(result.get("isError")) {
        Some(b) => b,
        None => false,
    }
}

/// The text of the first content block of a tool reply.
pub fn first_content_text(result: &Json) -> (r: Option<&str>)
    ensures
        sview(r) == reply_text(result@),
{
    let content = result.get("content");
    let first = match content {
        Some(c) => c.index(0),
        None => None,
    };
    opt_str(opt_get(first, "text"))
}

fn prefix_of(t: &FeedTool) -> (r: &'static str)
    ensures
        r@ == failure_prefix(*t),
{
    match t {
        FeedTool::EmailInbox => "Email MCP error: ",
        FeedTool::JiraSearch => "Jira MCP error: ",
        FeedTool::CalendarList => "Calendar MCP error: ",
        FeedTool::CalendarEvents => "Calendar events error: ",
    }
}

fn fallback_of(t: &FeedTool) -> (r: &'static str)
    ensures
        r@ == failure_fallback(*t),
{
    match t {
        FeedTool::EmailInbox => "unknown MCP error",
        FeedTool::JiraSearch => "unknown Jira error",
        FeedTool::CalendarList => "calendar error",
        FeedTool::CalendarEvents => "events error",
    }
}

fn missing_of(t: &FeedTool) -> (r: &'static str)
    ensures
        r@ == missing_text_error(*t),
{
    match t {
        FeedTool::EmailInbox => "MCP response missing content[0].text",
        FeedTool::JiraSearch => "Jira response missing content[0].text",
        FeedTool::CalendarList => "Calendar response missing content[0].text",
        FeedTool::CalendarEvents => "Events response missing content[0].text",
    }
}

/// The JSON document text that a feed tool returned, or the error that
/// its reply stands for: a reply flagged `isError` is an error carrying
/// its text; a reply without text is an error too.
pub fn tool_reply_document(result: &Json, tool: FeedTool) -> (r: Result<String, String>)
    ensures
        str_result(r) == reply_document(result@, tool),
{
    let text = first_content_text(result);
    if is_failed_reply(result) {
        let detail = text_or(text, fallback_of(&tool));
        Err(prefix_of(&tool).to_owned().concat(detail.as_str()))
    } else {
        match text {
            Some(s) => Ok(s.to_owned()),
            None => Err(missing_of(&tool).to_owned()),
        }
    }
}

// ── Email ─────────────────────────────────────────────────────────────────

/// A single email message summary (no body).
#[derive(Debug, Clone, PartialEq, Eq)]
pub struct EmailMessage {
    /// The Message-ID header.
    pub id: String,
    /// The IMAP sequence number that marking as read needs.
    pub uid: String,
    pub subject: String,
    pub from: String,
    pub date: String,
}

/// The mathematical view of an email summary.
pub struct EmailMessageV {
    pub id: Seq<char>,
    pub uid: Seq<char>,
    pub subject: Seq<char>,
    pub from: Seq<char>,
    pub date: Seq<char>,
}

impl View for EmailMessage {
    type V = EmailMessageV;

    open spec fn view(&self) -> EmailMessageV {
        EmailMessageV {
            id: self.id@,
            uid: self.uid@,
            subject: self.subject@,
            from: self.from@,
            date: self.date@,
        }
    }
}

/// The summary that a message object of the inbox listing stands for:
/// missing fields are empty, a missing subject reads "(no subject)".
pub open spec fn email_of(m: JsonV) -> EmailMessageV {
    EmailMessageV {
        id: str_or(jget(m, "id"@), ""@),
        uid: str_or(jget(m, "uid"@), ""@),
        subject: str_or(jget(m, "subject"@), "(no subject)"@),
        from: str_or(jget(m, "from"@), ""@),
        date: str_or(jget(m, "date"@), ""@),
    }
}

/// The views of a list of email summaries.
pub open spec fn emails_view(v: Seq<EmailMessage>) -> Seq<EmailMessageV> {
    v.map_values(|e: EmailMessage| e@)
}

/// The summaries in an inbox listing document, or its error.
pub open spec fn email_payload(p: JsonV) -> Result<Seq<EmailMessageV>, Seq<char>> {
    match oarray(jget(p, "messages"@)) {
        Some(ms) => Ok(ms.map_values(|m: JsonV| email_of(m))),
        None => Err("Email payload missing 'messages' array"@),
    }
}

/// The summary of one message object.
pub fn email_from(m: &Json) -> (r: EmailMessage)
    ensures
        r@ == email_of(m@),
{
    EmailMessage {
        id: text_or(field_str(m, "id"), ""),
        uid: text_or(field_str(m, "uid"), ""),
        subject: text_or(field_str(m, "subject"), "(no subject)"),
        from: text_or(field_str(m, "from"), ""),
        date: text_or(field_str(m, "date"), ""),
    }
}

/// Reads the inner document of an inbox listing, `{"messages": [...]}`,
/// into message summaries, in order.
pub fn parse_email_payload(payload: &Json) -> (r: Result<Vec<EmailMessage>, String>)
    ensures
        match r {
            Ok(v) => email_payload(payload@) == Ok::<Seq<EmailMessageV>, Seq<char>>(emails_view(v@)),
            Err(e) => email_payload(payload@) == Err::<Seq<EmailMessageV>, Seq<char>>(e@),
        },
{
    let messages = match opt_get(Some(payload), "messages") {
        Some(m) => m.as_array(),
        None => None,
    };
    match messages {
        None => Err("Email payload missing 'messages' array".to_owned()),
        Some(ms) => {
            let ghost items = view_items(ms@);
            proof {
                lemma_view_items(ms@);
            }
            let mut out: Vec<EmailMessage> = Vec::new();
            let mut i: usize = 0;
            while i < ms.len()
                invariant
                    i <= ms@.len(),
                    items == view_items(ms@),
                    items.len() == ms@.len(),
                    forall|k: int| 0 <= k < ms@.len() ==> #[trigger] items[k] == ms@[k]@,
                    emails_view(out@) == items.take(i as int).map_values(|m: JsonV| email_of(m)),
                decreases ms@.len() - i,
            {
                let ghost before = out@;
                let e = email_from(&ms[i]);
                out.push(e);
                assert(emails_view(out@) =~= emails_view(before).push(email_of(items[i as int])));
                assert(items.take(i + 1).map_values(|m: JsonV| email_of(m)) =~= items.take(i as int).map_values(|m: JsonV| email_of(m)).push(email_of(items[i as int])));
                i = i + 1;
            }
            assert(items.take(ms@.len() as int) =~= items);
            Ok(out)
        },
    }
}

// ── Jira ──────────────────────────────────────────────────────────────────

/// A Jira issue summary for a feed card.
#[derive(Debug, Clone, PartialEq, Eq)]
pub struct JiraIssue {
    pub key: String,
    pub summary: String,
    pub status: String,
    pub priority: String,
    pub assignee: String,
    pub updated: String,
}

/// The mathematical view of a Jira issue summary.
pub struct JiraIssueV {
    pub key: Seq<char>,
    pub summary: Seq<char>,
    pub status: Seq<char>,
    pub priority: Seq<char>,
    pub assignee: Seq<char>,
    pub updated: Seq<char>,
}

impl View for JiraIssue {
    type V = JiraIssueV;

    open spec fn view(&self) -> JiraIssueV {
        JiraIssueV {
            key: self.key@,
            summary: self.summary@,
            status: self.status@,
            priority: self.priority@,
            assignee: self.assignee@,
            updated: self.updated@,
        }
    }
}

/// The summary that an issue object of a search stands for: missing
/// fields are empty, a missing summary reads "(no summary)", the assignee
/// is read from `assignee_name`.
pub open spec fn issue_of(i: JsonV) -> JiraIssueV {
    JiraIssueV {
        key: str_or(jget(i, "key"@), ""@),
        summary: str_or(jget(i, "summary"@), "(no summary)"@),
        status: str_or(jget(i, "status"@), ""@),
        priority: str_or(jget(i, "priority"@), ""@),
        assignee: str_or(jget(i, "assignee_name"@), ""@),
        updated: str_or(jget(i, "updated"@), ""@),
    }
}

/// The views of a list of issue summaries.
pub open spec fn issues_view(v: Seq<JiraIssue>) -> Seq<JiraIssueV> {
    v.map_values(|e: JiraIssue| e@)
}

/// The issues in a search document, or its error.
pub open spec fn jira_payload(p: JsonV) -> Result<Seq<JiraIssueV>, Seq<char>> {
    match oarray(jget(p, "issues"@)) {
        Some(is) => Ok(is.map_values(|i: JsonV| issue_of(i))),
        None => Err("Jira payload missing 'issues' array"@),
    }
}

/// The text of member `k` of an object, or `d` when it is absent or not a
/// string.
pub open spec fn member_text(o: JsonV, k: Seq<char>, d: Seq<char>) -> Seq<char> {
    match o {
        JsonV::Object(es) => match crate::json::entries_lookup(es, k) {
            Some(JsonV::Str(s)) => s,
            _ => d,
        },
        _ => d,
    }
}

/// Every message read from an inbox document takes each field from its
/// own member of the message object: `id`, `uid`, `subject` (else
/// "(no subject)"), `from` and `date`, each empty when absent or not a
/// string; one message per element, in order.
pub proof fn lemma_email_fields(p: JsonV, items: Seq<JsonV>)
    requires
        jget(p, "messages"@) == Some(JsonV::Array(items)),
    ensures
        email_payload(p) matches Ok(v) && v.len() == items.len() && forall|k: int| 0 <= k < items.len() ==> {
            let x = #[trigger] v[k];
            &&& x.id == member_text(items[k], "id"@, ""@)
            &&& x.uid == member_text(items[k], "uid"@, ""@)
            &&& x.subject == member_text(items[k], "subject"@, "(no subject)"@)
            &&& x.from == member_text(items[k], "from"@, ""@)
            &&& x.date == member_text(items[k], "date"@, ""@)
        },
{
}

/// Every issue read from a search document takes each field from its own
/// member of the issue object: `key`, `summary` (else "(no summary)"),
/// `status`, `priority`, `assignee_name` and `updated`, each empty when
/// absent or not a string; one issue per element, in order.
pub proof fn lemma_jira_issue_fields(p: JsonV, items: Seq<JsonV>)
    requires
        jget(p, "issues"@) == Some(JsonV::Array(items)),
    ensures
        jira_payload(p) matches Ok(v) && v.len() == items.len() && forall|k: int| 0 <= k < items.len() ==> {
            let x = #[trigger] v[k];
            &&& x.key == member_text(items[k], "key"@, ""@)
            &&& x.summary == member_text(items[k], "summary"@, "(no summary)"@)
            &&& x.status == member_text(items[k], "status"@, ""@)
            &&& x.priority == member_text(items[k], "priority"@, ""@)
            &&& x.assignee == member_text(items[k], "assignee_name"@, ""@)
            &&& x.updated == member_text(items[k], "updated"@, ""@)
        },
{
}

/// The summary of one issue object.
pub fn issue_from(i: &Json) -> (r: JiraIssue)
    ensures
        r@ == issue_of(i@),
{
    JiraIssue {
        key: text_or(field_str(i, "key"), ""),
        summary: text_or(field_str(i, "summary"), "(no summary)"),
        status: text_or(field_str(i, "status"), ""),
        priority: text_or(field_str(i, "priority"), ""),
        assignee: text_or(field_str(i, "assignee_name"), ""),
        updated: text_or(field_str(i, "updated"), ""),
    }
}

/// Reads the inner document of a Jira search, `{"issues": [...]}`, into
/// issue summaries, in order.
pub fn parse_jira_payload(payload: &Json) -> (r: Result<Vec<JiraIssue>, String>)
    ensures
        match r {
            Ok(v) => jira_payload(payload@) == Ok::<Seq<JiraIssueV>, Seq<char>>(issues_view(v@)),
            Err(e) => jira_payload(payload@) == Err::<Seq<JiraIssueV>, Seq<char>>(e@),
        },
{
    let issues = match opt_get(Some(payload), "issues") {
        Some(m) => m.as_array(),
        None => None,
    };
    match issues {
        None => Err("Jira payload missing 'issues' array".to_owned()),
        Some(is) => {
            let ghost items = view_items(is@);
            proof {
                lemma_view_items(is@);
            }
            let mut out: Vec<JiraIssue> = Vec::new();
            let mut i: usize = 0;
            while i < is.len()
                invariant
                    i <= is@.len(),
                    items == view_items(is@),
                    items.len() == is@.len(),
                    forall|k: int| 0 <= k < is@.len() ==> #[trigger] items[k] == is@[k]@,
                    issues_view(out@) == items.take(i as int).map_values(|m: JsonV| issue_of(m)),
                decreases is@.len() - i,
            {
                let ghost before = out@;
                let e = issue_from(&is[i]);
                out.push(e);
                assert(issues_view(out@) =~= issues_view(before).push(issue_of(items[i as int])));
                assert(items.take(i + 1).map_values(|m: JsonV| issue_of(m)) =~= items.take(i as int).map_values(|m: JsonV| issue_of(m)).push(issue_of(items[i as int])));
                i = i + 1;
            }
            assert(items.take(is@.len() as int) =~= items);
            Ok(out)
        },
    }
}

// ── Calendar ──────────────────────────────────────────────────────────────

/// The URL of the personal calendar in a calendar listing document: the
/// document's own `url`, else the `url` of its first calendar.
pub open spec fn calendar_url_of(p: JsonV) -> Result<Seq<char>, Seq<char>> {
    match ostr(jget(p, "url"@)) {
        Some(u) => Ok(u),
        None => match oarray(jget(p, "calendars"@)) {
            Some(cs) => if cs.len() > 0 && ostr(jget(cs[0], "url"@)) is Some {
                Ok(ostr(jget(cs[0], "url"@))->0)
            } else {
                Err("No calendar URL found in list_calendars response"@)
            },
            None => Err("No calendar URL found in list_calendars response"@),
        },
    }
}

/// Reads the calendar URL out of a calendar listing document.
pub fn calendar_url_from_payload(payload: &Json) -> (r: Result<String, String>)
    ensures
        str_result(r) == calendar_url_of(payload@),
{
    if let Some(u) = field_str(payload, "url") {
        return Ok(u.to_owned());
    }
    let cals = match payload.get("calendars") {
        Some(c) => c.as_array(),
        None => None,
    };
    if let Some(cs) = cals {
        proof {
            lemma_view_items(cs@);
        }
        if cs.len() > 0 {
            if let Some(u) = field_str(&cs[0], "url") {
                return Ok(u.to_owned());
            }
        }
    }
    Err("No calendar URL found in list_calendars response".to_owned())
}

/// A calendar event summary for a feed card.
#[derive(Debug, Clone, PartialEq, Eq)]
pub struct CalendarEvent {
    /// The iCalendar UID.
    pub uid: String,
    pub summary: String,
    /// The agenda body of the invite.
    pub description: String,
    pub start: String,
    pub end: String,
    pub location: String,
    /// Who sent the invite.
    pub organizer: String,
    pub attendees: Vec<String>,
    /// Whether the event belongs to a recurring series.
    pub recurring: bool,
    /// The RRULE text of a recurring event.
    pub recurrence_rule: String,
}

/// The mathematical view of a calendar event summary.
pub struct CalendarEventV {
    pub uid: Seq<char>,
    pub summary: Seq<char>,
    pub description: Seq<char>,
    pub start: Seq<char>,
    pub end: Seq<char>,
    pub location: Seq<char>,
    pub organizer: Seq<char>,
    pub attendees: Seq<Seq<char>>,
    pub recurring: bool,
    pub recurrence_rule: Seq<char>,
}

impl View for CalendarEvent {
    type V = CalendarEventV;

    open spec fn view(&self) -> CalendarEventV {
        CalendarEventV {
            uid: self.uid@,
            summary: self.summary@,
            description: self.description@,
            start: self.start@,
            end: self.end@,
            location: self.location@,
            organizer: self.organizer@,
            attendees: self.attendees@.map_values(|s: String| s@),
            recurring: self.recurring,
            recurrence_rule: self.recurrence_rule@,
        }
    }
}

/// The name of an attendee entry: the entry itself when it is a string,
/// else its `email`, `display_name` or `name`, the first that is a string.
pub open spec fn attendee_of(a: JsonV) -> Option<Seq<char>> {
    match a {
        JsonV::Str(s) => Some(s),
        _ => str_any3(a, "email"@, "display_name"@, "name"@),
    }
}

/// The names of the attendee entries that have one, in order.
pub open spec fn attendee_names(items: Seq<JsonV>) -> Seq<Seq<char>>
    decreases items.len(),
{
    if items.len() == 0 {
        Seq::empty()
    } else {
        let rest = attendee_names(items.drop_last());
        match attendee_of(items.last()) {
            Some(s) => rest.push(s),
            None => rest,
        }
    }
}

/// The attendees of an event object; none when it has no list.
pub open spec fn attendees_of(e: JsonV) -> Seq<Seq<char>> {
    match oarray(jget(e, "attendees"@)) {
        Some(items) => attendee_names(items),
        None => Seq::empty(),
    }
}

/// Whether an event object is recurring: its `recurring` flag, else
/// whether it has a non-empty `rrule`.
pub open spec fn recurring_of(e: JsonV) -> bool {
    match obool(jget(e, "recurring"@)) {
        Some(b) => b,
        None => match ostr(jget(e, "rrule"@)) {
            Some(s) => s.len() > 0,
            None => false,
        },
    }
}

/// The summary that an event object stands for; each field is read from
/// the first of its alternative names that holds a string.
pub open spec fn event_of(e: JsonV) -> CalendarEventV {
    CalendarEventV {
        uid: or_empty(str_either(e, "uid"@, "id"@)),
        summary: str_or(jget(e, "summary"@), "(no title)"@),
        description: or_empty(str_either(e, "description"@, "body"@)),
        start: or_empty(str_any3(e, "start_local"@, "start"@, "dtstart"@)),
        end: or_empty(str_any3(e, "end_local"@, "end"@, "dtend"@)),
        location: str_or(jget(e, "location"@), ""@),
        organizer: or_empty(str_either(e, "organizer"@, "organizer_email"@)),
        attendees: attendees_of(e),
        recurring: recurring_of(e),
        recurrence_rule: or_empty(str_either(e, "rrule"@, "recurrence_rule"@)),
    }
}

/// The event objects of an events document: its `events` array, the
/// document itself when it is an array, or the document as the one event
/// when it is another object.
pub open spec fn event_items(p: JsonV) -> Option<Seq<JsonV>> {
    match oarray(jget(p, "events"@)) {
        Some(items) => Some(items),
        None => match p {
            JsonV::Array(items) => Some(items),
            JsonV::Object(_) => Some(seq![p]),
            _ => None,
        },
    }
}

/// The events of an events document, or its error.
pub open spec fn events_payload(p: JsonV) -> Result<Seq<CalendarEventV>, Seq<char>> {
    match event_items(p) {
        Some(items) => Ok(items.map_values(|e: JsonV| event_of(e))),
        None => Err("Events payload has no events"@),
    }
}

/// The views of a list of event summaries.
pub open spec fn events_view(v: Seq<CalendarEvent>) -> Seq<CalendarEventV> {
    v.map_values(|e: CalendarEvent| e@)
}

/// The name of one attendee entry.
pub fn attendee_from(a: &Json) -> (r: Option<String>)
    ensures
        match r {
            Some(s) => attendee_of(a@) == Some(s@),
            None => attendee_of(a@) is None,
        },
{
    match a {
        Json::Str(s) => Some(s.as_str().to_owned()),
        _ => match field_any3(a, "email", "display_name", "name") {
            Some(s) => Some(s.to_owned()),
            None => None,
        },
    }
}

/// The names of the attendees of an event object, in order.
pub fn attendees_from(e: &Json) -> (r: Vec<String>)
    ensures
        r@.map_values(|s: String| s@) == attendees_of(e@),
{
    let list = match e.get("attendees") {
        Some(a) => a.as_array(),
        None => None,
    };
    let mut out: Vec<String> = Vec::new();
    match list {
        None => {
            assert(out@.map_values(|s: String| s@) =~= Seq::<Seq<char>>::empty());
            out
        },
        Some(items) => {
            let ghost vs = view_items(items@);
            proof {
                lemma_view_items(items@);
            }
            let mut i: usize = 0;
            while i < items.len()
                invariant
                    i <= items@.len(),
                    vs == view_items(items@),
                    vs.len() == items@.len(),
                    forall|k: int| 0 <= k < items@.len() ==> #[trigger] vs[k] == items@[k]@,
                    out@.map_values(|s: String| s@) == attendee_names(vs.take(i as int)),
                decreases items@.len() - i,
            {
                let ghost before = out@;
                assert(vs.take(i + 1).drop_last() =~= vs.take(i as int));
                assert(vs.take(i + 1).last() == vs[i as int]);
                match attendee_from(&items[i]) {
                    Some(s) => {
                        out.push(s);
                        assert(out@.map_values(|s: String| s@) =~= before.map_values(|s: String| s@).push(attendee_of(vs[i as int])->0));
                    },
                    None => {},
                }
                i = i + 1;
            }
            assert(vs.take(items@.len() as int) =~= vs);
            out
        },
    }
}

/// Whether an event object is recurring.
pub fn recurring_from(e: &Json) -> (r: bool)
    ensures
        r == recurring_of(e@),
{
    match opt_bool(e.get("recurring")) {
        Some(b) => b,
        None => match field_str(e, "rrule") {
            Some(s) => s.unicode_len() > 0,
            None => false,
        },
    }
}

/// The summary of one event object.
pub fn event_from(e: &Json) -> (r: CalendarEvent)
    ensures
        r@ == event_of(e@),
{
    let attendees = attendees_from(e);
    let recurring = recurring_from(e);
    CalendarEvent {
        uid: text_or(field_either(e, "uid", "id"), ""),
        summary: text_or(field_str(e, "summary"), "(no title)"),
        description: text_or(field_either(e, "description", "body"), ""),
        start: text_or(field_any3(e, "start_local", "start", "dtstart"), ""),
        end: text_or(field_any3(e, "end_local", "end", "dtend"), ""),
        location: text_or(field_str(e, "location"), ""),
        organizer: text_or(field_either(e, "organizer", "organizer_email"), ""),
        attendees,
        recurring,
        recurrence_rule: text_or(field_either(e, "rrule", "recurrence_rule"), ""),
    }
}

/// Reads the inner document of an events listing into event summaries,
/// in order. The document may be `{"events": [...]}`, a bare array of
/// events, or a single bare event object.
pub fn parse_calendar_events_payload(payload: &Json) -> (r: Result<Vec<CalendarEvent>, String>)
    ensures
        match r {
            Ok(v) => events_payload(payload@) == Ok::<Seq<CalendarEventV>, Seq<char>>(events_view(v@)),
            Err(e) => events_payload(payload@) == Err::<Seq<CalendarEventV>, Seq<char>>(e@),
        },
{
    let listed = match payload.get("events") {
        Some(e) => e.as_array(),
        None => None,
    };
    let items: &Vec<Json> = match listed {
        Some(a) => a,
        None => match payload {
            Json::Array(a) => a,
            Json::Object(_) => {
                let one = event_from(payload);
                let mut out: Vec<CalendarEvent> = Vec::new();
                out.push(one);
                assert(events_view(out@) =~= seq![payload@].map_values(|e: JsonV| event_of(e)));
                return Ok(out);
            },
            _ => {
                return Err("Events payload has no events".to_owned());
            },
        },
    };
    assert(event_items(payload@) == Some(view_items(items@)));
    let ghost vs = view_items(items@);
    proof {
        lemma_view_items(items@);
    }
    let mut out: Vec<CalendarEvent> = Vec::new();
    let mut i: usize = 0;
    while i < items.len()
        invariant
            i <= items@.len(),
            vs == view_items(items@),
            vs.len() == items@.len(),
            forall|k: int| 0 <= k < items@.len() ==> #[trigger] vs[k] == items@[k]@,
            events_view(out@) == vs.take(i as int).map_values(|m: JsonV| event_of(m)),
        decreases items@.len() - i,
    {
        let ghost before = out@;
        let e = event_from(&items[i]);
        out.push(e);
        assert(events_view(out@) =~= events_view(before).push(event_of(vs[i as int])));
        assert(vs.take(i + 1).map_values(|m: JsonV| event_of(m)) =~= vs.take(i as int).map_values(|m: JsonV| event_of(m)).push(event_of(vs[i as int])));
        i = i + 1;
    }
    assert(vs.take(items@.len() as int) =~= vs);
    Ok(out)
}

// ── Meeting reminders ─────────────────────────────────────────────────────

/// The instant that an RFC 3339 timestamp denotes, as whole seconds since
/// the Unix epoch and the nanoseconds within the second; `None` when the
/// text is not RFC 3339.
pub uninterp spec fn rfc3339_instant(text: Seq<char>) -> Option<(i64, u32)>;

/// The instant that a timestamp without offset denotes when read with a
/// strftime-style format and taken as UTC; `None` when it does not parse.
pub uninterp spec fn naive_utc_instant(text: Seq<char>, format: Seq<char>) -> Option<(i64, u32)>;

/// Reads an RFC 3339 timestamp (`chrono::DateTime::parse_from_rfc3339`).
#[verifier::external_body]
fn parse_rfc3339(text: &str) -> (r: Option<(i64, u32)>)
    ensures
        r == rfc3339_instant(text@),
{
    match chrono::DateTime::parse_from_rfc3339(text) {
        Ok(dt) => Some((dt.timestamp(), dt.timestamp_subsec_nanos())),
        Err(_) => None,
    }
}

/// Reads a timestamp without offset as UTC
/// (`chrono::NaiveDateTime::parse_from_str`).
#[verifier::external_body]
fn parse_naive_utc(text: &str, format: &str) -> (r: Option<(i64, u32)>)
    ensures
        r == naive_utc_instant(text@, format@),
{
    match chrono::NaiveDateTime::parse_from_str(text, format) {
        Ok(dt) => {
            let utc = chrono::DateTime::<chrono::Utc>::from_naive_utc_and_offset(dt, chrono::Utc);
            Some((utc.timestamp(), utc.timestamp_subsec_nanos()))
        },
        Err(_) => None,
    }
}

/// The instant of an ISO-8601 timestamp: RFC 3339 first, then the
/// `T`-separated and the space-separated forms without offset, as UTC.
pub open spec fn iso_instant(ts: Seq<char>) -> Option<(i64, u32)> {
    match rfc3339_instant(ts) {
        Some(t) => Some(t),
        None => match naive_utc_instant(ts, "%Y-%m-%dT%H:%M:%S"@) {
            Some(t) => Some(t),
            None => naive_utc_instant(ts, "%Y-%m-%d %H:%M:%S"@),
        },
    }
}

/// Reads an ISO-8601 timestamp (see `iso_instant`).
pub fn parse_iso(ts: &str) -> (r: Option<(i64, u32)>)
    ensures
        r == iso_instant(ts@),
{
    match parse_rfc3339(ts) {
        Some(t) => Some(t),
        None => match parse_naive_utc(ts, "%Y-%m-%dT%H:%M:%S") {
            Some(t) => Some(t),
            None => parse_naive_utc(ts, "%Y-%m-%d %H:%M:%S"),
        },
    }
}

/// Nanoseconds since the epoch of an instant.
pub open spec fn nanos_of(t: (i64, u32)) -> int {
    t.0 * 1_000_000_000 + t.1
}

/// Division that rounds toward zero.
pub open spec fn div_toward_zero(a: int, b: int) -> int {
    if a >= 0 {
        a / b
    } else {
        -((-a) / b)
    }
}

/// The whole minutes from `now` to `start`, rounded toward zero
/// (negative when `start` is past).
pub open spec fn minutes_between(start: (i64, u32), now: (i64, u32)) -> int {
    div_toward_zero(nanos_of(start) - nanos_of(now), 60_000_000_000)
}

proof fn lemma_minutes_fit(start: (i64, u32), now: (i64, u32))
    ensures
        i64::MIN <= minutes_between(start, now) <= i64::MAX,
{
    let d: int = nanos_of(start) - nanos_of(now);
    let bound: int = 20_000_000_000_000_000_000_000_000_000int;
    assert(-bound <= d <= bound);
    let a: int = if d >= 0 { d } else { -d };
    assert(a / 60_000_000_000int <= 1_000_000_000_000_000_000int) by (nonlinear_arith)
        requires
            0 <= a <= bound,
            bound == 20_000_000_000_000_000_000_000_000_000int,
    ;
    assert(a / 60_000_000_000int >= 0) by (nonlinear_arith)
        requires
            0 <= a,
    ;
}

/// Minutes until an event starts, seen from `now` (seconds since the
/// epoch and nanoseconds): negative once it has started; `None` when its
/// start does not parse.
pub fn minutes_until_start(event: &CalendarEvent, now: (i64, u32)) -> (r: Option<i64>)
    ensures
        r == (match iso_instant(event.start@) {
            Some(s) => Some(minutes_between(s, now) as i64),
            None => None::<i64>,
        }),
{
    match parse_iso(event.start.as_str()) {
        None => None,
        Some(s) => {
            proof {
                lemma_minutes_fit(s, now);
            }
            let d: i128 = ((s.0 as i128) * 1_000_000_000 + (s.1 as i128)) - ((now.0 as i128) * 1_000_000_000 + (now.1 as i128));
            let m: i128 = if d >= 0 {
                d / 60_000_000_000
            } else {
                -((-d) / 60_000_000_000)
            };
            Some(m as i64)
        },
    }
}

/// Whether an event is due for a reminder: it starts within `window`
/// minutes, or started at most five minutes ago.
pub open spec fn is_due(start: Seq<char>, now: (i64, u32), window: i64) -> bool {
    match iso_instant(start) {
        Some(s) => -5 <= minutes_between(s, now) <= window,
        None => false,
    }
}

/// The events that are due for a reminder, in order.
pub open spec fn due_events(es: Seq<CalendarEventV>, now: (i64, u32), window: i64) -> Seq<CalendarEventV>
    decreases es.len(),
{
    if es.len() == 0 {
        Seq::empty()
    } else {
        let rest = due_events(es.drop_last(), now, window);
        if is_due(es.last().start, now, window) {
            rest.push(es.last())
        } else {
            rest
        }
    }
}

/// A copy of an event summary.
pub fn copy_event(e: &CalendarEvent) -> (r: CalendarEvent)
    ensures
        r@ == e@,
{
    CalendarEvent {
        uid: e.uid.as_str().to_owned(),
        summary: e.summary.as_str().to_owned(),
        description: e.description.as_str().to_owned(),
        start: e.start.as_str().to_owned(),
        end: e.end.as_str().to_owned(),
        location: e.location.as_str().to_owned(),
        organizer: e.organizer.as_str().to_owned(),
        attendees: copy_strings(&e.attendees),
        recurring: e.recurring,
        recurrence_rule: e.recurrence_rule.as_str().to_owned(),
    }
}

/// The events that are due for a meeting reminder at `now`: those that
/// start within `reminder_minutes`, or started at most five minutes ago;
/// events whose start does not parse are never due.
pub fn due_reminders(events: &Vec<CalendarEvent>, now: (i64, u32), reminder_minutes: i64) -> (r: Vec<CalendarEvent>)
    ensures
        events_view(r@) == due_events(events_view(events@), now, reminder_minutes),
{
    let ghost es = events_view(events@);
    let mut out: Vec<CalendarEvent> = Vec::new();
    let mut i: usize = 0;
    while i < events.len()
        invariant
            i <= events@.len(),
            es == events_view(events@),
            es.len() == events@.len(),
            events_view(out@) == due_events(es.take(i as int), now, reminder_minutes),
        decreases events@.len() - i,
    {
        let ghost before = out@;
        assert(es.take(i + 1).drop_last() =~= es.take(i as int));
        assert(es.take(i + 1).last() == events@[i as int]@);
        let mins = minutes_until_start(&events[i], now);
        match mins {
            Some(m) => {
                if -5 <= m && m <= reminder_minutes {
                    out.push(copy_event(&events[i]));
                    assert(events_view(out@) =~= events_view(before).push(events@[i as int]@));
                }
            },
            None => {},
        }
        i = i + 1;
    }
    assert(es.take(events@.len() as int) =~= es);
    out
}

// ── Calls into the feed servers ───────────────────────────────────────────

/// What the feed asks of a tool server.
#[derive(Debug, Clone, PartialEq, Eq)]
pub enum FeedRequest {
    /// Unread messages of the last week.
    EmailInbox,
    MarkEmailRead { uid: String, read: bool },
    SendEmail { to: String, subject: String, body: String },
    /// The user's open issues, most recently updated first.
    JiraMyActive,
    JiraTransition { issue_key: String, transition_name: String },
    JiraComment { issue_key: String, body: String },
    /// The calendars of the user.
    CalendarList,
    /// The events of a calendar in a time range.
    CalendarEvents { calendar_url: String, since: String, until: String },
}

/// Whether a request changes something on the server, and so answers
/// only with success or an error.
pub open spec fn is_action(r: FeedRequest) -> bool {
    ||| r is MarkEmailRead
    ||| r is SendEmail
    ||| r is JiraTransition
    ||| r is JiraComment
}

/// The configured server that answers a request.
pub open spec fn request_server(r: FeedRequest) -> Seq<char> {
    match r {
        FeedRequest::EmailInbox | FeedRequest::MarkEmailRead { .. } | FeedRequest::SendEmail { .. } => "email"@,
        FeedRequest::JiraMyActive | FeedRequest::JiraTransition { .. } | FeedRequest::JiraComment { .. } => "jira"@,
        FeedRequest::CalendarList | FeedRequest::CalendarEvents { .. } => "rupost_calendar"@,
    }
}

/// The tool that a request calls.
pub open spec fn request_tool(r: FeedRequest) -> Seq<char> {
    match r {
        FeedRequest::EmailInbox => "list_inbox"@,
        FeedRequest::MarkEmailRead { .. } => "mark_read"@,
        FeedRequest::SendEmail { .. } => "send_email"@,
        FeedRequest::JiraMyActive => "jira_search_jql"@,
        FeedRequest::JiraTransition { .. } => "jira_transition_issue"@,
        FeedRequest::JiraComment { .. } => "jira_add_comment"@,
        FeedRequest::CalendarList => "list_calendars"@,
        FeedRequest::CalendarEvents { .. } => "list_events"@,
    }
}

/// The search that lists the user's open issues.
pub open spec fn my_active_jql() -> Seq<char> {
    "assignee = currentUser() AND statusCategory != Done ORDER BY updated DESC"@
}

/// The arguments that a request passes to its tool.
pub open spec fn request_arguments(r: FeedRequest) -> JsonV {
    match r {
        FeedRequest::EmailInbox => JsonV::Object(seq![
            ("days"@, JsonV::Number("7"@)),
            ("limit"@, JsonV::Number("20"@)),
            ("unread_only"@, JsonV::Bool(true)),
        ]),
        FeedRequest::MarkEmailRead { uid, read } => JsonV::Object(seq![
            ("folder"@, JsonV::Str("INBOX"@)),
            ("read"@, JsonV::Bool(read)),
            ("uid"@, JsonV::Str(uid@)),
        ]),
        FeedRequest::SendEmail { to, subject, body } => JsonV::Object(seq![
            ("body"@, JsonV::Str(body@)),
            ("subject"@, JsonV::Str(subject@)),
            ("to"@, JsonV::Str(to@)),
        ]),
        FeedRequest::JiraMyActive => JsonV::Object(seq![
            ("jql"@, JsonV::Str(my_active_jql())),
            ("max_results"@, JsonV::Number("10"@)),
        ]),
        FeedRequest::JiraTransition { issue_key, transition_name } => JsonV::Object(seq![
            ("issue_key"@, JsonV::Str(issue_key@)),
            ("transition_name"@, JsonV::Str(transition_name@)),
        ]),
        FeedRequest::JiraComment { issue_key, body } => JsonV::Object(seq![
            ("body"@, JsonV::Str(body@)),
            ("issue_key"@, JsonV::Str(issue_key@)),
        ]),
        FeedRequest::CalendarList => JsonV::Object(Seq::empty()),
        FeedRequest::CalendarEvents { calendar_url, since, until } => JsonV::Object(seq![
            ("calendar_url"@, JsonV::Str(calendar_url@)),
            ("limit"@, JsonV::Number("10"@)),
            ("since"@, JsonV::Str(since@)),
            ("until"@, JsonV::Str(until@)),
        ]),
    }
}

/// The error when the request's server is not configured.
pub open spec fn not_configured_error(r: FeedRequest) -> Seq<char> {
    match r {
        FeedRequest::EmailInbox => "Email MCP server not configured"@,
        FeedRequest::MarkEmailRead { .. } | FeedRequest::SendEmail { .. } => "Email MCP not configured"@,
        FeedRequest::JiraMyActive => "Jira MCP server not configured"@,
        FeedRequest::JiraTransition { .. } | FeedRequest::JiraComment { .. } => "Jira MCP not configured"@,
        FeedRequest::CalendarList | FeedRequest::CalendarEvents { .. } => "Calendar MCP server not configured"@,
    }
}

/// The error when the request's server has no command.
pub open spec fn no_command_error(r: FeedRequest) -> Seq<char> {
    match r {
        FeedRequest::EmailInbox | FeedRequest::MarkEmailRead { .. } | FeedRequest::SendEmail { .. } => "Email MCP: no command"@,
        FeedRequest::JiraMyActive | FeedRequest::JiraTransition { .. } | FeedRequest::JiraComment { .. } => "Jira MCP: no command"@,
        FeedRequest::CalendarList | FeedRequest::CalendarEvents { .. } => "Calendar MCP: no command"@,
    }
}

/// A prepared tool call.
#[derive(Debug)]
pub struct FeedCall {
    pub server: String,
    pub tool: String,
    pub arguments: Json,
}

/// Prepares the tool call that a request makes (see `request_server`,
/// `request_tool` and `request_arguments`).
pub fn feed_call(request: &FeedRequest) -> (r: FeedCall)
    ensures
        r.server@ == request_server(*request),
        r.tool@ == request_tool(*request),
        r.arguments@ == request_arguments(*request),
{
    let mut es: Vec<(String, Json)> = Vec::new();
    let (server, tool) = match request {
        FeedRequest::EmailInbox => {
            push_entry(&mut es, "days", Json::Number("7".to_owned()));
            push_entry(&mut es, "limit", Json::Number("20".to_owned()));
            push_entry(&mut es, "unread_only", Json::Bool(true));
            ("email", "list_inbox")
        },
        FeedRequest::MarkEmailRead { uid, read } => {
            push_entry(&mut es, "folder", jstr("INBOX"));
            push_entry(&mut es, "read", Json::Bool(*read));
            push_entry(&mut es, "uid", jstr(uid.as_str()));
            ("email", "mark_read")
        },
        FeedRequest::SendEmail { to, subject, body } => {
            push_entry(&mut es, "body", jstr(body.as_str()));
            push_entry(&mut es, "subject", jstr(subject.as_str()));
            push_entry(&mut es, "to", jstr(to.as_str()));
            ("email", "send_email")
        },
        FeedRequest::JiraMyActive => {
            push_entry(&mut es, "jql", jstr("assignee = currentUser() AND statusCategory != Done ORDER BY updated DESC"));
            push_entry(&mut es, "max_results", Json::Number("10".to_owned()));
            ("jira", "jira_search_jql")
        },
        FeedRequest::JiraTransition { issue_key, transition_name } => {
            push_entry(&mut es, "issue_key", jstr(issue_key.as_str()));
            push_entry(&mut es, "transition_name", jstr(transition_name.as_str()));
            ("jira", "jira_transition_issue")
        },
        FeedRequest::JiraComment { issue_key, body } => {
            push_entry(&mut es, "body", jstr(body.as_str()));
            push_entry(&mut es, "issue_key", jstr(issue_key.as_str()));
            ("jira", "jira_add_comment")
        },
        FeedRequest::CalendarList => ("rupost_calendar", "list_calendars"),
        FeedRequest::CalendarEvents { calendar_url, since, until } => {
            push_entry(&mut es, "calendar_url", jstr(calendar_url.as_str()));
            push_entry(&mut es, "limit", Json::Number("10".to_owned()));
            push_entry(&mut es, "since", jstr(since.as_str()));
            push_entry(&mut es, "until", jstr(until.as_str()));
            ("rupost_calendar", "list_events")
        },
    };
    assert(view_entries(es@) =~= (match request_arguments(*request) {
        JsonV::Object(e) => e,
        _ => Seq::empty(),
    }));
    FeedCall { server: server.to_owned(), tool: tool.to_owned(), arguments: jobj(es) }
}

/// How a tool server is launched: its command, arguments and environment.
#[derive(Debug, Clone, PartialEq, Eq)]
pub struct McpLaunch {
    pub command: String,
    pub args: Vec<String>,
    pub env: Vec<(String, String)>,
}

/// The first configured server of that name.
pub open spec fn find_server(servers: Seq<(Seq<char>, McpServerConfigV)>, name: Seq<char>, k: int) -> Option<McpServerConfigV>
    decreases servers.len() - k,
{
    if k < 0 || k >= servers.len() {
        None
    } else if servers[k].0 == name {
        Some(servers[k].1)
    } else {
        find_server(servers, name, k + 1)
    }
}

/// The launch of the server that answers a request, or the error when it
/// is not configured or has no command; a server without arguments or
/// environment gets none.
pub open spec fn launch_for(servers: Seq<(Seq<char>, McpServerConfigV)>, r: FeedRequest) -> Result<
    (Seq<char>, Seq<Seq<char>>, Seq<(Seq<char>, Seq<char>)>),
    Seq<char>,
> {
    match find_server(servers, request_server(r), 0) {
        None => Err(not_configured_error(r)),
        Some(c) => match c.command {
            None => Err(no_command_error(r)),
            Some(cmd) => Ok((
                cmd,
                match c.args {
                    Some(a) => a,
                    None => Seq::empty(),
                },
                match c.env {
                    Some(e) => e,
                    None => Seq::empty(),
                },
            )),
        },
    }
}

fn not_configured_text(r: &FeedRequest) -> (t: &'static str)
    ensures
        t@ == not_configured_error(*r),
{
    match r {
        FeedRequest::EmailInbox => "Email MCP server not configured",
        FeedRequest::MarkEmailRead { .. } | FeedRequest::SendEmail { .. } => "Email MCP not configured",
        FeedRequest::JiraMyActive => "Jira MCP server not configured",
        FeedRequest::JiraTransition { .. } | FeedRequest::JiraComment { .. } => "Jira MCP not configured",
        FeedRequest::CalendarList | FeedRequest::CalendarEvents { .. } => "Calendar MCP server not configured",
    }
}

fn no_command_text(r: &FeedRequest) -> (t: &'static str)
    ensures
        t@ == no_command_error(*r),
{
    match r {
        FeedRequest::EmailInbox | FeedRequest::MarkEmailRead { .. } | FeedRequest::SendEmail { .. } => "Email MCP: no command",
        FeedRequest::JiraMyActive | FeedRequest::JiraTransition { .. } | FeedRequest::JiraComment { .. } => "Jira MCP: no command",
        FeedRequest::CalendarList | FeedRequest::CalendarEvents { .. } => "Calendar MCP: no command",
    }
}

/// How to launch the server that answers a request (see `launch_for`).
pub fn feed_launch(servers: &Vec<(String, McpServerConfig)>, request: &FeedRequest) -> (r: Result<McpLaunch, String>)
    ensures
        match r {
            Ok(l) => launch_for(named_configs_view(servers@), *request) == Ok::<
                (Seq<char>, Seq<Seq<char>>, Seq<(Seq<char>, Seq<char>)>),
                Seq<char>,
            >((l.command@, strs_view(l.args@), pairs_view(l.env@))),
            Err(e) => launch_for(named_configs_view(servers@), *request) == Err::<
                (Seq<char>, Seq<Seq<char>>, Seq<(Seq<char>, Seq<char>)>),
                Seq<char>,
            >(e@),
        },
{
    let call = feed_call(request);
    let ghost vs = named_configs_view(servers@);
    let mut i: usize = 0;
    while i < servers.len()
        invariant
            i <= servers@.len(),
            vs == named_configs_view(servers@),
            vs.len() == servers@.len(),
            call.server@ == request_server(*request),
            find_server(vs, request_server(*request), 0) == find_server(vs, request_server(*request), i as int),
        decreases servers@.len() - i,
    {
        if str_eq(servers[i].0.as_str(), call.server.as_str()) {
            let c = &servers[i].1;
            assert(vs[i as int].1 == c@);
            return match &c.command {
                None => Err(no_command_text(request).to_owned()),
                Some(cmd) => {
                    let args = strings_or_empty(&c.args);
                    let env = pairs_or_empty(&c.env);
                    Ok(McpLaunch { command: cmd.as_str().to_owned(), args, env })
                },
            };
        }
        i = i + 1;
    }
    Err(not_configured_text(request).to_owned())
}

/// The error prefix of a request's server.
pub open spec fn action_prefix(r: FeedRequest) -> Seq<char> {
    match r {
        FeedRequest::JiraMyActive | FeedRequest::JiraTransition { .. } | FeedRequest::JiraComment { .. } => "Jira MCP: "@,
        _ => "Email MCP: "@,
    }
}

/// The text used when a failed action reply carries none.
pub open spec fn action_fallback(r: FeedRequest) -> Seq<char> {
    match r {
        FeedRequest::MarkEmailRead { .. } => "mark_read error"@,
        FeedRequest::SendEmail { .. } => "send_email error"@,
        FeedRequest::JiraTransition { .. } => "transition error"@,
        _ => "comment error"@,
    }
}

/// What an action's reply means: success, unless it is flagged as failed;
/// then an error carrying its text.
pub open spec fn action_result(result: JsonV, r: FeedRequest) -> Result<(), Seq<char>> {
    if reply_failed(result) {
        Err(action_prefix(r) + match reply_text(result) {
            Some(s) => s,
            None => action_fallback(r),
        })
    } else {
        Ok(())
    }
}

/// What the reply to an action means (see `action_result`).
pub fn action_outcome(result: &Json, request: &FeedRequest) -> (r: Result<(), String>)
    requires
        is_action(*request),
    ensures
        match r {
            Ok(()) => action_result(result@, *request) == Ok::<(), Seq<char>>(()),
            Err(e) => action_result(result@, *request) == Err::<(), Seq<char>>(e@),
        },
{
    if !is_failed_reply(result) {
        return Ok(());
    }
    let (prefix, fallback) = match request {
        FeedRequest::MarkEmailRead { .. } => ("Email MCP: ", "mark_read error"),
        FeedRequest::SendEmail { .. } => ("Email MCP: ", "send_email error"),
        FeedRequest::JiraTransition { .. } => ("Jira MCP: ", "transition error"),
        _ => ("Jira MCP: ", "comment error"),
    };
    let detail = text_or(first_content_text(result), fallback);
    Err(prefix.to_owned().concat(detail.as_str()))
}

// ── Whole tool replies ────────────────────────────────────────────────────

/// The prefix of the error when a reply's document text is not JSON.
pub open spec fn parse_failure_prefix(t: FeedTool) -> Seq<char> {
    match t {
        FeedTool::EmailInbox => "Failed to parse email payload: "@,
        FeedTool::JiraSearch => "Jira payload parse error: "@,
        FeedTool::CalendarList => "Calendar payload parse error: "@,
        FeedTool::CalendarEvents => "Events payload parse error: "@,
    }
}

/// The JSON document that a tool reply carries as text (read as
/// `json_text_parse` names), or the error: the reply's own error (see
/// `reply_document`), or the reader's error text after the tool's prefix.
pub open spec fn reply_payload(result: JsonV, t: FeedTool) -> Result<JsonV, Seq<char>> {
    match reply_document(result, t) {
        Err(e) => Err(e),
        Ok(text) => match json_text_parse(text) {
            Ok(v) => Ok(v),
            Err(m) => Err(parse_failure_prefix(t) + m),
        },
    }
}

fn parse_prefix_of(t: &FeedTool) -> (r: &'static str)
    ensures
        r@ == parse_failure_prefix(*t),
{
    match t {
        FeedTool::EmailInbox => "Failed to parse email payload: ",
        FeedTool::JiraSearch => "Jira payload parse error: ",
        FeedTool::CalendarList => "Calendar payload parse error: ",
        FeedTool::CalendarEvents => "Events payload parse error: ",
    }
}

/// Reads the JSON document of a tool reply (see `reply_payload`).
pub fn tool_reply_payload(result: &Json, tool: FeedTool) -> (r: Result<Json, String>)
    ensures
        crate::json_text::json_result(r) == reply_payload(result@, tool),
{
    match tool_reply_document(result, tool) {
        Err(e) => Err(e),
        Ok(text) => match parse_json(text.as_str()) {
            Ok(v) => Ok(v),
            Err(m) => Err(parse_prefix_of(&tool).to_owned().concat(m.as_str())),
        },
    }
}

/// The summaries in an inbox listing reply, or its error.
pub open spec fn email_response(result: JsonV) -> Result<Seq<EmailMessageV>, Seq<char>> {
    match reply_payload(result, FeedTool::EmailInbox) {
        Ok(p) => email_payload(p),
        Err(e) => Err(e),
    }
}

/// Reads an inbox listing reply into message summaries (see
/// `email_response`).
pub fn parse_email_list_response(result: &Json) -> (r: Result<Vec<EmailMessage>, String>)
    ensures
        match r {
            Ok(v) => email_response(result@) == Ok::<Seq<EmailMessageV>, Seq<char>>(emails_view(v@)),
            Err(e) => email_response(result@) == Err::<Seq<EmailMessageV>, Seq<char>>(e@),
        },
{
    match tool_reply_payload(result, FeedTool::EmailInbox) {
        Ok(p) => parse_email_payload(&p),
        Err(e) => Err(e),
    }
}

/// The issues in an issue-search reply, or its error.
pub open spec fn jira_response(result: JsonV) -> Result<Seq<JiraIssueV>, Seq<char>> {
    match reply_payload(result, FeedTool::JiraSearch) {
        Ok(p) => jira_payload(p),
        Err(e) => Err(e),
    }
}

/// Reads an issue-search reply into issues (see `jira_response`).
pub fn parse_jira_search_response(result: &Json) -> (r: Result<Vec<JiraIssue>, String>)
    ensures
        match r {
            Ok(v) => jira_response(result@) == Ok::<Seq<JiraIssueV>, Seq<char>>(issues_view(v@)),
            Err(e) => jira_response(result@) == Err::<Seq<JiraIssueV>, Seq<char>>(e@),
        },
{
    match tool_reply_payload(result, FeedTool::JiraSearch) {
        Ok(p) => parse_jira_payload(&p),
        Err(e) => Err(e),
    }
}

/// The calendar URL in a calendar-listing reply, or its error.
pub open spec fn calendar_url_response(result: JsonV) -> Result<Seq<char>, Seq<char>> {
    match reply_payload(result, FeedTool::CalendarList) {
        Ok(p) => calendar_url_of(p),
        Err(e) => Err(e),
    }
}

/// Reads a calendar-listing reply into the URL of its first calendar (see
/// `calendar_url_response`).
pub fn parse_calendar_url(result: &Json) -> (r: Result<String, String>)
    ensures
        str_result(r) == calendar_url_response(result@),
{
    match tool_reply_payload(result, FeedTool::CalendarList) {
        Ok(p) => calendar_url_from_payload(&p),
        Err(e) => Err(e),
    }
}

/// The events in an event-listing reply, or its error.
pub open spec fn events_response(result: JsonV) -> Result<Seq<CalendarEventV>, Seq<char>> {
    match reply_payload(result, FeedTool::CalendarEvents) {
        Ok(p) => events_payload(p),
        Err(e) => Err(e),
    }
}

/// Reads an event-listing reply into calendar events (see
/// `events_response`).
pub fn parse_calendar_events_response(result: &Json) -> (r: Result<Vec<CalendarEvent>, String>)
    ensures
        match r {
            Ok(v) => events_response(result@) == Ok::<Seq<CalendarEventV>, Seq<char>>(events_view(v@)),
            Err(e) => events_response(result@) == Err::<Seq<CalendarEventV>, Seq<char>>(e@),
        },
{
    match tool_reply_payload(result, FeedTool::CalendarEvents) {
        Ok(p) => parse_calendar_events_payload(&p),
        Err(e) => Err(e),
    }
}

} // verus!
