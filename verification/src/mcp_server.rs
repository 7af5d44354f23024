//! The tool server that gives the agent access to the productivity store:
//! its tool catalogue, the JSON-RPC requests it answers, the checks on a
//! tool call's arguments, and the replies it builds from what the store
//! returned.

use vstd::prelude::*;
use crate::json::{
    Json, JsonV, view_items, view_entries, jget, oget, ostr, oi64, oview, opt_get, opt_str, opt_i64,
    push_entry, push_item, jstr, jobj, empty_object, ostring,
};
use crate::json_text::{json_text_parse, parse_json};
use crate::text::{trim, trim_chars, str_eq, chars_of, string_from_chars, contains, find_char, find_char_exec, sub_chars, contains_chars};
use crate::config::{lowercase, to_lowercase};
use crate::auth::{signed_text, signed_decimal_i64};
use crate::feed_sources::CalendarEvent;

verus! {

// ---------------------------------------------------------------------------
// The tool catalogue
// ---------------------------------------------------------------------------

/// A tool as the server lists it.
#[derive(Debug)]
pub struct ToolDef {
    pub name: String,
    pub description: String,
    pub input_schema: Json,
}

/// The mathematical view of a tool.
pub struct ToolDefV {
    pub name: Seq<char>,
    pub description: Seq<char>,
    pub input_schema: JsonV,
}

impl View for ToolDef {
    type V = ToolDefV;

    open spec fn view(&self) -> ToolDefV {
        ToolDefV { name: self.name@, description: self.description@, input_schema: self.input_schema@ }
    }
}

/// A property of an input schema: its name, JSON type and description.
pub open spec fn prop_v(name: Seq<char>, ty: Seq<char>, desc: Seq<char>) -> (Seq<char>, JsonV) {
    (name, JsonV::Object(seq![("type"@, JsonV::Str(ty)), ("description"@, JsonV::Str(desc))]))
}

/// JSON strings for a list of texts.
pub open spec fn str_values(s: Seq<Seq<char>>) -> Seq<JsonV> {
    s.map_values(|x: Seq<char>| JsonV::Str(x))
}

/// An object schema with the given properties and, when there are any,
/// the required ones.
pub open spec fn schema_v(props: Seq<(Seq<char>, JsonV)>, required: Seq<Seq<char>>) -> JsonV {
    let base = seq![("type"@, JsonV::Str("object"@)), ("properties"@, JsonV::Object(props))];
    JsonV::Object(
        if required.len() == 0 {
            base
        } else {
            base.push(("required"@, JsonV::Array(str_values(required))))
        },
    )
}

pub open spec fn list_tasks_tool() -> ToolDefV {
    ToolDefV {
        name: "steersman_list_tasks"@,
        description: "List tasks from the Steersman productivity database. Returns active tasks (not done) by default. Use status='all' to include completed tasks."@,
        input_schema: schema_v(
            seq![
                prop_v("status"@, "string"@, "Filter: 'active' (default), 'done', or 'all'"@),
                prop_v("limit"@, "integer"@, "Max tasks to return (default 20)"@),
            ],
            Seq::empty(),
        ),
    }
}

pub open spec fn create_task_tool() -> ToolDefV {
    ToolDefV {
        name: "steersman_create_task"@,
        description: "Create a new task in the Steersman productivity database."@,
        input_schema: schema_v(
            seq![
                prop_v("title"@, "string"@, "Task title"@),
                prop_v("priority"@, "integer"@, "Priority 1-5 (default 3)"@),
                prop_v("due_date"@, "string"@, "Due date ISO 8601 (optional)"@),
                prop_v("assignee"@, "string"@, "Assignee (optional)"@),
            ],
            seq!["title"@],
        ),
    }
}

pub open spec fn update_task_status_tool() -> ToolDefV {
    ToolDefV {
        name: "steersman_update_task_status"@,
        description: "Update a task's status (e.g. mark done, in_progress)."@,
        input_schema: schema_v(
            seq![
                prop_v("id"@, "integer"@, "Task ID"@),
                prop_v("status"@, "string"@, "New status: todo, in_progress, done"@),
            ],
            seq!["id"@, "status"@],
        ),
    }
}

pub open spec fn list_goals_tool() -> ToolDefV {
    ToolDefV {
        name: "steersman_list_goals"@,
        description: "List goals (epics) from the Steersman productivity database."@,
        input_schema: schema_v(Seq::empty(), Seq::empty()),
    }
}

pub open spec fn create_goal_tool() -> ToolDefV {
    ToolDefV {
        name: "steersman_create_goal"@,
        description: "Create a new goal (epic)."@,
        input_schema: schema_v(
            seq![
                prop_v("title"@, "string"@, "Goal title"@),
                prop_v("target_date"@, "string"@, "Target date ISO 8601 (optional)"@),
            ],
            seq!["title"@],
        ),
    }
}

pub open spec fn search_sessions_tool() -> ToolDefV {
    ToolDefV {
        name: "steersman_search_sessions"@,
        description: "Search past chat sessions in state.db by text query."@,
        input_schema: schema_v(
            seq![
                prop_v("query"@, "string"@, "Search query"@),
                prop_v("limit"@, "integer"@, "Max results (default 10)"@),
            ],
            seq!["query"@],
        ),
    }
}

pub open spec fn link_session_tool() -> ToolDefV {
    ToolDefV {
        name: "steersman_link_session"@,
        description: "Link a chat session to a task, project, or goal (ADR-009). The agent uses this to connect a conversation to the work it produced."@,
        input_schema: schema_v(
            seq![
                prop_v("session_id"@, "string"@, "Chat session ID (from state.db or search_sessions)"@),
                prop_v("task_id"@, "integer"@, "Task ID to link to (optional)"@),
                prop_v("project_id"@, "integer"@, "Project ID to link to (optional)"@),
                prop_v("goal_id"@, "integer"@, "Goal ID to link to (optional)"@),
                prop_v("note"@, "string"@, "Optional note about why this was linked"@),
            ],
            seq!["session_id"@],
        ),
    }
}

pub open spec fn meeting_context_tool() -> ToolDefV {
    ToolDefV {
        name: "steersman_get_meeting_context"@,
        description: "L8: gather context for a calendar meeting — related tasks (by title/attendee keyword match) and recent chat session previews. Does NOT call the LLM; returns the raw context for the agent to build a briefing."@,
        input_schema: schema_v(
            seq![
                prop_v("event_uid"@, "string"@, "Calendar event UID (from list_calendar_today / list_meeting_reminders)"@),
                prop_v("keyword"@, "string"@, "Optional keyword to match task titles (e.g. customer name from organizer). Defaults to organizer handle."@),
            ],
            seq!["event_uid"@],
        ),
    }
}

/// Every tool the server offers, in the order it lists them.
pub open spec fn tool_catalogue() -> Seq<ToolDefV> {
    seq![
        list_tasks_tool(),
        create_task_tool(),
        update_task_status_tool(),
        list_goals_tool(),
        create_goal_tool(),
        search_sessions_tool(),
        link_session_tool(),
        meeting_context_tool(),
    ]
}

pub open spec fn tools_view(s: Seq<ToolDef>) -> Seq<ToolDefV> {
    s.map_values(|t: ToolDef| t@)
}

fn push_prop(props: &mut Vec<(String, Json)>, name: &str, ty: &str, desc: &str)
    ensures
        view_entries(final(props)@) == view_entries(old(props)@).push(prop_v(name@, ty@, desc@)),
{
    let mut es: Vec<(String, Json)> = Vec::new();
    push_entry(&mut es, "type", jstr(ty));
    push_entry(&mut es, "description", jstr(desc));
    assert(view_entries(es@) =~= seq![("type"@, JsonV::Str(ty@)), ("description"@, JsonV::Str(desc@))]);
    push_entry(props, name, jobj(es));
}

fn str_array(items: &Vec<&str>) -> (r: Json)
    ensures
        r@ == JsonV::Array(str_values(items@.map_values(|s: &str| s@))),
{
    let mut out: Vec<Json> = Vec::new();
    let mut i: usize = 0;
    while i < items.len()
        invariant
            i <= items@.len(),
            view_items(out@) == str_values(items@.map_values(|s: &str| s@)).take(i as int),
        decreases items@.len() - i,
    {
        push_item(&mut out, jstr(items[i]));
        assert(str_values(items@.map_values(|s: &str| s@)).take(i + 1) =~= str_values(items@.map_values(|s: &str| s@)).take(i as int).push(JsonV::Str(items@[i as int]@)));
        i = i + 1;
    }
    assert(str_values(items@.map_values(|s: &str| s@)).take(items@.len() as int) =~= str_values(items@.map_values(|s: &str| s@)));
    Json::Array(out)
}

fn schema(props: Vec<(String, Json)>, required: Vec<&str>) -> (r: Json)
    ensures
        r@ == schema_v(view_entries(props@), required@.map_values(|s: &str| s@)),
{
    let ghost pv = view_entries(props@);
    let mut es: Vec<(String, Json)> = Vec::new();
    push_entry(&mut es, "type", jstr("object"));
    push_entry(&mut es, "properties", jobj(props));
    if required.len() > 0 {
        push_entry(&mut es, "required", str_array(&required));
    }
    assert(view_entries(es@) =~= schema_v(pv, required@.map_values(|s: &str| s@))->Object_0);
    jobj(es)
}

fn tool_def(name: &str, description: &str, input_schema: Json) -> (r: ToolDef)
    ensures
        r@ == (ToolDefV { name: name@, description: description@, input_schema: input_schema@ }),
{
    ToolDef { name: name.to_owned(), description: description.to_owned(), input_schema }
}

fn list_tasks_def() -> (r: ToolDef)
    ensures
        r@ == list_tasks_tool(),
{
    let mut ps: Vec<(String, Json)> = Vec::new();
    push_prop(&mut ps, "status", "string", "Filter: 'active' (default), 'done', or 'all'");
    push_prop(&mut ps, "limit", "integer", "Max tasks to return (default 20)");
    let ghost pv = view_entries(ps@);
    let req: Vec<&str> = Vec::new();
    assert(req@.map_values(|s: &str| s@) =~= Seq::<Seq<char>>::empty());
    let s = schema(ps, req);
    assert(pv =~= list_tasks_tool().input_schema->Object_0[1].1->Object_0);
    tool_def(
        "steersman_list_tasks",
        "List tasks from the Steersman productivity database. Returns active tasks (not done) by default. Use status='all' to include completed tasks.",
        s,
    )
}

fn create_task_def() -> (r: ToolDef)
    ensures
        r@ == create_task_tool(),
{
    let mut ps: Vec<(String, Json)> = Vec::new();
    push_prop(&mut ps, "title", "string", "Task title");
    push_prop(&mut ps, "priority", "integer", "Priority 1-5 (default 3)");
    push_prop(&mut ps, "due_date", "string", "Due date ISO 8601 (optional)");
    push_prop(&mut ps, "assignee", "string", "Assignee (optional)");
    let ghost pv = view_entries(ps@);
    let req: Vec<&str> = vec!["title"];
    assert(req@.map_values(|s: &str| s@) =~= seq!["title"@]);
    let s = schema(ps, req);
    assert(pv =~= create_task_tool().input_schema->Object_0[1].1->Object_0);
    tool_def("steersman_create_task", "Create a new task in the Steersman productivity database.", s)
}

fn update_task_status_def() -> (r: ToolDef)
    ensures
        r@ == update_task_status_tool(),
{
    let mut ps: Vec<(String, Json)> = Vec::new();
    push_prop(&mut ps, "id", "integer", "Task ID");
    push_prop(&mut ps, "status", "string", "New status: todo, in_progress, done");
    let ghost pv = view_entries(ps@);
    let req: Vec<&str> = vec!["id", "status"];
    assert(req@.map_values(|s: &str| s@) =~= seq!["id"@, "status"@]);
    let s = schema(ps, req);
    assert(pv =~= update_task_status_tool().input_schema->Object_0[1].1->Object_0);
    tool_def("steersman_update_task_status", "Update a task's status (e.g. mark done, in_progress).", s)
}

fn list_goals_def() -> (r: ToolDef)
    ensures
        r@ == list_goals_tool(),
{
    let ps: Vec<(String, Json)> = Vec::new();
    assert(view_entries(ps@) =~= Seq::<(Seq<char>, JsonV)>::empty());
    let req: Vec<&str> = Vec::new();
    assert(req@.map_values(|s: &str| s@) =~= Seq::<Seq<char>>::empty());
    let s = schema(ps, req);
    tool_def("steersman_list_goals", "List goals (epics) from the Steersman productivity database.", s)
}

fn create_goal_def() -> (r: ToolDef)
    ensures
        r@ == create_goal_tool(),
{
    let mut ps: Vec<(String, Json)> = Vec::new();
    push_prop(&mut ps, "title", "string", "Goal title");
    push_prop(&mut ps, "target_date", "string", "Target date ISO 8601 (optional)");
    let ghost pv = view_entries(ps@);
    let req: Vec<&str> = vec!["title"];
    assert(req@.map_values(|s: &str| s@) =~= seq!["title"@]);
    let s = schema(ps, req);
    assert(pv =~= create_goal_tool().input_schema->Object_0[1].1->Object_0);
    tool_def("steersman_create_goal", "Create a new goal (epic).", s)
}

fn search_sessions_def() -> (r: ToolDef)
    ensures
        r@ == search_sessions_tool(),
{
    let mut ps: Vec<(String, Json)> = Vec::new();
    push_prop(&mut ps, "query", "string", "Search query");
    push_prop(&mut ps, "limit", "integer", "Max results (default 10)");
    let ghost pv = view_entries(ps@);
    let req: Vec<&str> = vec!["query"];
    assert(req@.map_values(|s: &str| s@) =~= seq!["query"@]);
    let s = schema(ps, req);
    assert(pv =~= search_sessions_tool().input_schema->Object_0[1].1->Object_0);
    tool_def("steersman_search_sessions", "Search past chat sessions in state.db by text query.", s)
}

fn link_session_def() -> (r: ToolDef)
    ensures
        r@ == link_session_tool(),
{
    let mut ps: Vec<(String, Json)> = Vec::new();
    push_prop(&mut ps, "session_id", "string", "Chat session ID (from state.db or search_sessions)");
    push_prop(&mut ps, "task_id", "integer", "Task ID to link to (optional)");
    push_prop(&mut ps, "project_id", "integer", "Project ID to link to (optional)");
    push_prop(&mut ps, "goal_id", "integer", "Goal ID to link to (optional)");
    push_prop(&mut ps, "note", "string", "Optional note about why this was linked");
    let ghost pv = view_entries(ps@);
    let req: Vec<&str> = vec!["session_id"];
    assert(req@.map_values(|s: &str| s@) =~= seq!["session_id"@]);
    let s = schema(ps, req);
    assert(pv =~= link_session_tool().input_schema->Object_0[1].1->Object_0);
    tool_def(
        "steersman_link_session",
        "Link a chat session to a task, project, or goal (ADR-009). The agent uses this to connect a conversation to the work it produced.",
        s,
    )
}

fn meeting_context_def() -> (r: ToolDef)
    ensures
        r@ == meeting_context_tool(),
{
    let mut ps: Vec<(String, Json)> = Vec::new();
    push_prop(&mut ps, "event_uid", "string", "Calendar event UID (from list_calendar_today / list_meeting_reminders)");
    push_prop(
        &mut ps,
        "keyword",
        "string",
        "Optional keyword to match task titles (e.g. customer name from organizer). Defaults to organizer handle.",
    );
    let ghost pv = view_entries(ps@);
    let req: Vec<&str> = vec!["event_uid"];
    assert(req@.map_values(|s: &str| s@) =~= seq!["event_uid"@]);
    let s = schema(ps, req);
    assert(pv =~= meeting_context_tool().input_schema->Object_0[1].1->Object_0);
    tool_def(
        "steersman_get_meeting_context",
        "L8: gather context for a calendar meeting — related tasks (by title/attendee keyword match) and recent chat session previews. Does NOT call the LLM; returns the raw context for the agent to build a briefing.",
        s,
    )
}

/// All the tools the server exposes to the agent (see `tool_catalogue`).
pub fn tools() -> (r: Vec<ToolDef>)
    ensures
        tools_view(r@) == tool_catalogue(),
{
    let mut r: Vec<ToolDef> = Vec::new();
    r.push(list_tasks_def());
    r.push(create_task_def());
    r.push(update_task_status_def());
    r.push(list_goals_def());
    r.push(create_goal_def());
    r.push(search_sessions_def());
    r.push(link_session_def());
    r.push(meeting_context_def());
    assert(tools_view(r@) =~= tool_catalogue());
    r
}

// ---------------------------------------------------------------------------
// Tool calls
// ---------------------------------------------------------------------------

/// A tool call whose arguments passed the checks, with its defaults
/// filled in.
#[derive(Debug, Clone, PartialEq, Eq)]
pub enum ToolCall {
    ListTasks { status: String, limit: i64 },
    CreateTask { title: String, priority: i64, due_date: Option<String>, assignee: String },
    UpdateTaskStatus { id: i64, status: String },
    ListGoals,
    CreateGoal { title: String, target_date: Option<String> },
    SearchSessions { query: String, limit: i64 },
    LinkSession {
        session_id: String,
        task_id: Option<i64>,
        project_id: Option<i64>,
        goal_id: Option<i64>,
        note: Option<String>,
    },
    MeetingContext { event_uid: String, keyword: Option<String> },
}

/// The mathematical view of a tool call.
pub enum ToolCallV {
    ListTasks { status: Seq<char>, limit: i64 },
    CreateTask { title: Seq<char>, priority: i64, due_date: Option<Seq<char>>, assignee: Seq<char> },
    UpdateTaskStatus { id: i64, status: Seq<char> },
    ListGoals,
    CreateGoal { title: Seq<char>, target_date: Option<Seq<char>> },
    SearchSessions { query: Seq<char>, limit: i64 },
    LinkSession {
        session_id: Seq<char>,
        task_id: Option<i64>,
        project_id: Option<i64>,
        goal_id: Option<i64>,
        note: Option<Seq<char>>,
    },
    MeetingContext { event_uid: Seq<char>, keyword: Option<Seq<char>> },
}

impl View for ToolCall {
    type V = ToolCallV;

    open spec fn view(&self) -> ToolCallV {
        match self {
            ToolCall::ListTasks { status, limit } => ToolCallV::ListTasks { status: status@, limit: *limit },
            ToolCall::CreateTask { title, priority, due_date, assignee } => ToolCallV::CreateTask {
                title: title@,
                priority: *priority,
                due_date: ostring(*due_date),
                assignee: assignee@,
            },
            ToolCall::UpdateTaskStatus { id, status } => ToolCallV::UpdateTaskStatus { id: *id, status: status@ },
            ToolCall::ListGoals => ToolCallV::ListGoals,
            ToolCall::CreateGoal { title, target_date } => ToolCallV::CreateGoal {
                title: title@,
                target_date: ostring(*target_date),
            },
            ToolCall::SearchSessions { query, limit } => ToolCallV::SearchSessions { query: query@, limit: *limit },
            ToolCall::LinkSession { session_id, task_id, project_id, goal_id, note } => ToolCallV::LinkSession {
                session_id: session_id@,
                task_id: *task_id,
                project_id: *project_id,
                goal_id: *goal_id,
                note: ostring(*note),
            },
            ToolCall::MeetingContext { event_uid, keyword } => ToolCallV::MeetingContext {
                event_uid: event_uid@,
                keyword: ostring(*keyword),
            },
        }
    }
}

/// The text under `key` in the arguments, if it is a string.
pub open spec fn arg_text(args: JsonV, key: Seq<char>) -> Option<Seq<char>> {
    ostr(jget(args, key))
}

/// The integer under `key` in the arguments, if it is one within `i64`.
pub open spec fn arg_int(args: JsonV, key: Seq<char>) -> Option<i64> {
    oi64(jget(args, key))
}

pub open spec fn text_or(o: Option<Seq<char>>, d: Seq<char>) -> Seq<char> {
    match o {
        Some(t) => t,
        None => d,
    }
}

pub open spec fn int_or(o: Option<i64>, d: i64) -> i64 {
    match o {
        Some(n) => n,
        None => d,
    }
}

/// What a call of the named tool with these arguments asks for, or the
/// message that rejects it: a missing required argument, a link without
/// any target, or an unknown tool.
pub open spec fn tool_call_of(name: Seq<char>, args: JsonV) -> Result<ToolCallV, Seq<char>> {
    if name == "steersman_list_tasks"@ {
        Ok(ToolCallV::ListTasks {
            status: text_or(arg_text(args, "status"@), "active"@),
            limit: int_or(arg_int(args, "limit"@), 20),
        })
    } else if name == "steersman_create_task"@ {
        match arg_text(args, "title"@) {
            None => Err("title required"@),
            Some(title) => Ok(ToolCallV::CreateTask {
                title,
                priority: int_or(arg_int(args, "priority"@), 3),
                due_date: arg_text(args, "due_date"@),
                assignee: text_or(arg_text(args, "assignee"@), ""@),
            }),
        }
    } else if name == "steersman_update_task_status"@ {
        match arg_int(args, "id"@) {
            None => Err("id required"@),
            Some(id) => match arg_text(args, "status"@) {
                None => Err("status required"@),
                Some(status) => Ok(ToolCallV::UpdateTaskStatus { id, status }),
            },
        }
    } else if name == "steersman_list_goals"@ {
        Ok(ToolCallV::ListGoals)
    } else if name == "steersman_create_goal"@ {
        match arg_text(args, "title"@) {
            None => Err("title required"@),
            Some(title) => Ok(ToolCallV::CreateGoal { title, target_date: arg_text(args, "target_date"@) }),
        }
    } else if name == "steersman_search_sessions"@ {
        match arg_text(args, "query"@) {
            None => Err("query required"@),
            Some(query) => Ok(ToolCallV::SearchSessions { query, limit: int_or(arg_int(args, "limit"@), 10) }),
        }
    } else if name == "steersman_link_session"@ {
        match arg_text(args, "session_id"@) {
            None => Err("session_id required"@),
            Some(session_id) => {
                let task_id = arg_int(args, "task_id"@);
                let project_id = arg_int(args, "project_id"@);
                let goal_id = arg_int(args, "goal_id"@);
                if task_id is None && project_id is None && goal_id is None {
                    Err("at least one of task_id/project_id/goal_id required"@)
                } else {
                    Ok(ToolCallV::LinkSession { session_id, task_id, project_id, goal_id, note: arg_text(args, "note"@) })
                }
            },
        }
    } else if name == "steersman_get_meeting_context"@ {
        match arg_text(args, "event_uid"@) {
            None => Err("event_uid required"@),
            Some(event_uid) => Ok(ToolCallV::MeetingContext { event_uid, keyword: arg_text(args, "keyword"@) }),
        }
    } else {
        Err("unknown tool: "@ + name)
    }
}

fn text_arg(args: &Json, key: &str) -> (r: Option<String>)
    ensures
        ostring(r) == arg_text(args@, key@),
{
    match opt_str(args.get(key)) {
        Some(s) => Some(s.to_owned()),
        None => None,
    }
}

fn int_arg(args: &Json, key: &str) -> (r: Option<i64>)
    ensures
        r == arg_int(args@, key@),
{
    opt_i64(args.get(key))
}

/// Checks a call of the named tool and reads its arguments (see
/// `tool_call_of`).
pub fn dispatch_tool(name: &str, args: &Json) -> (r: Result<ToolCall, String>)
    ensures
        match r {
            Ok(c) => tool_call_of(name@, args@) == Ok::<ToolCallV, Seq<char>>(c@),
            Err(e) => tool_call_of(name@, args@) == Err::<ToolCallV, Seq<char>>(e@),
        },
{
    if str_eq(name, "steersman_list_tasks") {
        let status = match text_arg(args, "status") {
            Some(s) => s,
            None => "active".to_owned(),
        };
        let limit = match int_arg(args, "limit") {
            Some(n) => n,
            None => 20,
        };
        Ok(ToolCall::ListTasks { status, limit })
    } else if str_eq(name, "steersman_create_task") {
        match text_arg(args, "title") {
            None => Err("title required".to_owned()),
            Some(title) => {
                let priority = match int_arg(args, "priority") {
                    Some(n) => n,
                    None => 3,
                };
                let due_date = text_arg(args, "due_date");
                let assignee = match text_arg(args, "assignee") {
                    Some(s) => s,
                    None => "".to_owned(),
                };
                Ok(ToolCall::CreateTask { title, priority, due_date, assignee })
            },
        }
    } else if str_eq(name, "steersman_update_task_status") {
        match int_arg(args, "id") {
            None => Err("id required".to_owned()),
            Some(id) => match text_arg(args, "status") {
                None => Err("status required".to_owned()),
                Some(status) => Ok(ToolCall::UpdateTaskStatus { id, status }),
            },
        }
    } else if str_eq(name, "steersman_list_goals") {
        Ok(ToolCall::ListGoals)
    } else if str_eq(name, "steersman_create_goal") {
        match text_arg(args, "title") {
            None => Err("title required".to_owned()),
            Some(title) => Ok(ToolCall::CreateGoal { title, target_date: text_arg(args, "target_date") }),
        }
    } else if str_eq(name, "steersman_search_sessions") {
        match text_arg(args, "query") {
            None => Err("query required".to_owned()),
            Some(query) => {
                let limit = match int_arg(args, "limit") {
                    Some(n) => n,
                    None => 10,
                };
                Ok(ToolCall::SearchSessions { query, limit })
            },
        }
    } else if str_eq(name, "steersman_link_session") {
        match text_arg(args, "session_id") {
            None => Err("session_id required".to_owned()),
            Some(session_id) => {
                let task_id = int_arg(args, "task_id");
                let project_id = int_arg(args, "project_id");
                let goal_id = int_arg(args, "goal_id");
                if task_id.is_none() && project_id.is_none() && goal_id.is_none() {
                    Err("at least one of task_id/project_id/goal_id required".to_owned())
                } else {
                    Ok(ToolCall::LinkSession { session_id, task_id, project_id, goal_id, note: text_arg(args, "note") })
                }
            },
        }
    } else if str_eq(name, "steersman_get_meeting_context") {
        match text_arg(args, "event_uid") {
            None => Err("event_uid required".to_owned()),
            Some(event_uid) => Ok(ToolCall::MeetingContext { event_uid, keyword: text_arg(args, "keyword") }),
        }
    } else {
        Err("unknown tool: ".to_owned().concat(name))
    }
}

// ---------------------------------------------------------------------------
// Requests and replies
// ---------------------------------------------------------------------------

/// A JSON-RPC reply with the given id and a `result` or `error` member.
pub open spec fn rpc_v(id: JsonV, key: Seq<char>, body: JsonV) -> JsonV {
    JsonV::Object(seq![("jsonrpc"@, JsonV::Str("2.0"@)), ("id"@, id), (key, body)])
}

/// A text content item.
pub open spec fn text_item_v(text: Seq<char>) -> JsonV {
    JsonV::Object(seq![("type"@, JsonV::Str("text"@)), ("text"@, JsonV::Str(text))])
}

/// The reply to a tool call: its result as text, or the error marked as
/// one.
pub open spec fn tool_reply_v(id: JsonV, outcome: Result<Seq<char>, Seq<char>>) -> JsonV {
    match outcome {
        Ok(text) => rpc_v(id, "result"@, JsonV::Object(seq![("content"@, JsonV::Array(seq![text_item_v(text)]))])),
        Err(e) => rpc_v(
            id,
            "result"@,
            JsonV::Object(seq![
                ("content"@, JsonV::Array(seq![text_item_v("ERROR: "@ + e)])),
                ("isError"@, JsonV::Bool(true)),
            ]),
        ),
    }
}

/// The reply to `initialize`.
pub open spec fn initialize_reply_v(id: JsonV, version: Seq<char>) -> JsonV {
    rpc_v(
        id,
        "result"@,
        JsonV::Object(seq![
            ("protocolVersion"@, JsonV::Str("2024-11-05"@)),
            ("capabilities"@, JsonV::Object(seq![("tools"@, JsonV::Object(Seq::empty()))])),
            ("serverInfo"@, JsonV::Object(seq![("name"@, JsonV::Str("steersman-mcp"@)), ("version"@, JsonV::Str(version))])),
        ]),
    )
}

/// A tool as `tools/list` describes it.
pub open spec fn tool_entry_v(t: ToolDefV) -> JsonV {
    JsonV::Object(seq![
        ("name"@, JsonV::Str(t.name)),
        ("description"@, JsonV::Str(t.description)),
        ("inputSchema"@, t.input_schema),
    ])
}

/// The reply to `tools/list`: every tool of the catalogue.
pub open spec fn tools_list_reply_v(id: JsonV) -> JsonV {
    rpc_v(
        id,
        "result"@,
        JsonV::Object(seq![("tools"@, JsonV::Array(tool_catalogue().map_values(|t: ToolDefV| tool_entry_v(t))))]),
    )
}

/// The reply to a method the server does not have.
pub open spec fn method_not_found_v(id: JsonV, method: Seq<char>) -> JsonV {
    rpc_v(
        id,
        "error"@,
        JsonV::Object(seq![("code"@, JsonV::Number("-32601"@)), ("message"@, JsonV::Str("method not found: "@ + method))]),
    )
}

/// What the server does with a request: reply at once, or run a checked
/// tool call against the store and then reply with `tool_reply`.
#[derive(Debug)]
pub enum McpStep {
    Reply(Json),
    Call { id: Json, call: ToolCall },
}

/// The mathematical view of a step.
pub enum McpStepV {
    Reply(JsonV),
    Call { id: JsonV, call: ToolCallV },
}

impl View for McpStep {
    type V = McpStepV;

    open spec fn view(&self) -> McpStepV {
        match self {
            McpStep::Reply(j) => McpStepV::Reply(j@),
            McpStep::Call { id, call } => McpStepV::Call { id: id@, call: call@ },
        }
    }
}

/// The request's id, `null` when it has none.
pub open spec fn request_id(req: JsonV) -> JsonV {
    match jget(req, "id"@) {
        Some(v) => v,
        None => JsonV::Null,
    }
}

/// The request's method, empty when it has none.
pub open spec fn request_method(req: JsonV) -> Seq<char> {
    text_or(ostr(jget(req, "method"@)), ""@)
}

/// The tool a `tools/call` names, empty when it names none.
pub open spec fn call_name(req: JsonV) -> Seq<char> {
    text_or(ostr(oget(jget(req, "params"@), "name"@)), ""@)
}

/// The arguments of a `tools/call`, an empty object when it has none.
pub open spec fn call_args(req: JsonV) -> JsonV {
    match oget(jget(req, "params"@), "arguments"@) {
        Some(a) => a,
        None => JsonV::Object(Seq::empty()),
    }
}

/// How the server answers a request: `initialize` and `tools/list` at
/// once; a `tools/call` with an error when the data directory is unknown
/// or the call fails its checks, else by running it; any other method
/// with "method not found".
pub open spec fn step_of(req: JsonV, version: Seq<char>, home_error: Option<Seq<char>>) -> McpStepV {
    let id = request_id(req);
    let method = request_method(req);
    if method == "initialize"@ {
        McpStepV::Reply(initialize_reply_v(id, version))
    } else if method == "tools/list"@ {
        McpStepV::Reply(tools_list_reply_v(id))
    } else if method == "tools/call"@ {
        match home_error {
            Some(e) => McpStepV::Reply(tool_reply_v(id, Err(e))),
            None => match tool_call_of(call_name(req), call_args(req)) {
                Err(e) => McpStepV::Reply(tool_reply_v(id, Err(e))),
                Ok(call) => McpStepV::Call { id, call },
            },
        }
    } else {
        McpStepV::Reply(method_not_found_v(id, method))
    }
}

pub open spec fn outcome_view(o: Result<String, String>) -> Result<Seq<char>, Seq<char>> {
    match o {
        Ok(t) => Ok(t@),
        Err(e) => Err(e@),
    }
}

fn rpc_reply(id: Json, key: &str, body: Json) -> (r: Json)
    ensures
        r@ == rpc_v(id@, key@, body@),
{
    let mut es: Vec<(String, Json)> = Vec::new();
    push_entry(&mut es, "jsonrpc", jstr("2.0"));
    push_entry(&mut es, "id", id);
    push_entry(&mut es, key, body);
    assert(view_entries(es@) =~= rpc_v(id@, key@, body@)->Object_0);
    jobj(es)
}

fn text_item(text: &str) -> (r: Json)
    ensures
        r@ == text_item_v(text@),
{
    let mut es: Vec<(String, Json)> = Vec::new();
    push_entry(&mut es, "type", jstr("text"));
    push_entry(&mut es, "text", jstr(text));
    assert(view_entries(es@) =~= text_item_v(text@)->Object_0);
    jobj(es)
}

/// The reply to a tool call (see `tool_reply_v`); the result is passed as
/// the text of its JSON.
pub fn tool_reply(id: Json, outcome: Result<String, String>) -> (r: Json)
    ensures
        r@ == tool_reply_v(id@, outcome_view(outcome)),
{
    let mut es: Vec<(String, Json)> = Vec::new();
    let mut items: Vec<Json> = Vec::new();
    match outcome {
        Ok(text) => {
            push_item(&mut items, text_item(text.as_str()));
            assert(view_items(items@) =~= seq![text_item_v(text@)]);
            push_entry(&mut es, "content", Json::Array(items));
            assert(view_entries(es@) =~= tool_reply_v(id@, Ok(text@))->Object_0[2].1->Object_0);
        },
        Err(e) => {
            let msg = "ERROR: ".to_owned().concat(e.as_str());
            push_item(&mut items, text_item(msg.as_str()));
            push_entry(&mut es, "content", Json::Array(items));
            push_entry(&mut es, "isError", Json::Bool(true));
            assert(view_entries(es@) =~= tool_reply_v(id@, Err(e@))->Object_0[2].1->Object_0);
        },
    }
    rpc_reply(id, "result", jobj(es))
}

fn initialize_reply(id: Json, version: &str) -> (r: Json)
    ensures
        r@ == initialize_reply_v(id@, version@),
{
    let mut caps: Vec<(String, Json)> = Vec::new();
    push_entry(&mut caps, "tools", empty_object());
    assert(view_entries(caps@) =~= seq![("tools"@, JsonV::Object(Seq::empty()))]);
    let mut info: Vec<(String, Json)> = Vec::new();
    push_entry(&mut info, "name", jstr("steersman-mcp"));
    push_entry(&mut info, "version", jstr(version));
    assert(view_entries(info@) =~= seq![("name"@, JsonV::Str("steersman-mcp"@)), ("version"@, JsonV::Str(version@))]);
    let mut es: Vec<(String, Json)> = Vec::new();
    push_entry(&mut es, "protocolVersion", jstr("2024-11-05"));
    push_entry(&mut es, "capabilities", jobj(caps));
    push_entry(&mut es, "serverInfo", jobj(info));
    assert(view_entries(es@) =~= initialize_reply_v(id@, version@)->Object_0[2].1->Object_0);
    rpc_reply(id, "result", jobj(es))
}

fn tool_entry(t: ToolDef) -> (r: Json)
    ensures
        r@ == tool_entry_v(t@),
{
    let mut es: Vec<(String, Json)> = Vec::new();
    push_entry(&mut es, "name", jstr(t.name.as_str()));
    push_entry(&mut es, "description", jstr(t.description.as_str()));
    push_entry(&mut es, "inputSchema", t.input_schema);
    assert(view_entries(es@) =~= tool_entry_v(t@)->Object_0);
    jobj(es)
}

fn tools_list_reply(id: Json) -> (r: Json)
    ensures
        r@ == tools_list_reply_v(id@),
{
    let mut defs = tools();
    let ghost all = tools_view(defs@);
    let ghost entries = all.map_values(|t: ToolDefV| tool_entry_v(t));
    let mut items: Vec<Json> = Vec::new();
    let mut i: usize = 0;
    while defs.len() > 0
        invariant
            all == tool_catalogue(),
            entries == all.map_values(|t: ToolDefV| tool_entry_v(t)),
            i + defs@.len() == all.len(),
            tools_view(defs@) == all.skip(i as int),
            view_items(items@) == entries.take(i as int),
        decreases defs@.len(),
    {
        let ghost before = defs@;
        let t = defs.remove(0);
        assert(tools_view(before)[0] == t@);
        assert(tools_view(defs@) =~= all.skip(i + 1)) by {
            assert(tools_view(defs@) =~= tools_view(before).drop_first());
        }
        push_item(&mut items, tool_entry(t));
        assert(entries.take(i + 1) =~= entries.take(i as int).push(tool_entry_v(all[i as int])));
        i = i + 1;
    }
    assert(entries.take(i as int) =~= entries);
    let mut es: Vec<(String, Json)> = Vec::new();
    push_entry(&mut es, "tools", Json::Array(items));
    assert(view_entries(es@) =~= tools_list_reply_v(id@)->Object_0[2].1->Object_0);
    rpc_reply(id, "result", jobj(es))
}

fn method_not_found(id: Json, method: &str) -> (r: Json)
    ensures
        r@ == method_not_found_v(id@, method@),
{
    let mut es: Vec<(String, Json)> = Vec::new();
    push_entry(&mut es, "code", Json::Number("-32601".to_owned()));
    push_entry(&mut es, "message", jstr("method not found: ".to_owned().concat(method).as_str()));
    assert(view_entries(es@) =~= method_not_found_v(id@, method@)->Object_0[2].1->Object_0);
    rpc_reply(id, "error", jobj(es))
}

/// Answers one JSON-RPC request (see `step_of`). `server_version` is the
/// version the server reports; `home_error` is set when the data
/// directory could not be found.
pub fn handle_request(req: &Json, server_version: &str, home_error: Option<&str>) -> (r: McpStep)
    ensures
        r@ == step_of(req@, server_version@, match home_error {
            Some(e) => Some(e@),
            None => None,
        }),
{
    let id = match req.get("id") {
        Some(v) => v.deep_clone(),
        None => Json::Null,
    };
    let method = match opt_str(req.get("method")) {
        Some(m) => m,
        None => "",
    };
    if str_eq(method, "initialize") {
        McpStep::Reply(initialize_reply(id, server_version))
    } else if str_eq(method, "tools/list") {
        McpStep::Reply(tools_list_reply(id))
    } else if str_eq(method, "tools/call") {
        match home_error {
            Some(e) => McpStep::Reply(tool_reply(id, Err(e.to_owned()))),
            None => {
                let params = req.get("params");
                let name = match opt_str(opt_get(params, "name")) {
                    Some(n) => n,
                    None => "",
                };
                let args = match opt_get(params, "arguments") {
                    Some(a) => a.deep_clone(),
                    None => empty_object(),
                };
                match dispatch_tool(name, &args) {
                    Err(e) => McpStep::Reply(tool_reply(id, Err(e))),
                    Ok(call) => McpStep::Call { id, call },
                }
            },
        }
    } else {
        McpStep::Reply(method_not_found(id, method))
    }
}

// ---------------------------------------------------------------------------
// What the tools make of the store's answers
// ---------------------------------------------------------------------------

/// The indices below `n` that satisfy `p`, in order.
pub open spec fn indices_where(n: int, p: spec_fn(int) -> bool) -> Seq<int>
    decreases n,
{
    if n <= 0 {
        Seq::empty()
    } else {
        let r = indices_where(n - 1, p);
        if p(n - 1) {
            r.push(n - 1)
        } else {
            r
        }
    }
}

pub open spec fn index_view(v: Seq<usize>) -> Seq<int> {
    v.map_values(|i: usize| i as int)
}

/// Whether a task status counts as finished.
pub open spec fn is_done(status: Seq<char>) -> bool {
    status == "done"@ || status == "completed"@
}

/// Whether a task with this status passes the listing filter: `all`
/// passes every task, `done` the finished ones, anything else the open
/// ones.
pub open spec fn status_passes(filter: Seq<char>, status: Seq<char>) -> bool {
    if filter == "all"@ {
        true
    } else if filter == "done"@ {
        is_done(status)
    } else {
        !is_done(status)
    }
}

/// The tasks that a listing returns, by index: those that pass the
/// filter, at most `limit` of them (the limit taken as a `usize`, so that
/// a negative one on a 64-bit machine keeps them all).
pub open spec fn selected_tasks(statuses: Seq<Seq<char>>, filter: Seq<char>, limit: i64) -> Seq<int> {
    let m = indices_where(statuses.len() as int, |i: int| status_passes(filter, statuses[i]));
    let cap = (limit as usize) as int;
    if cap <= m.len() {
        m.take(cap)
    } else {
        m
    }
}

fn is_done_exec(status: &str) -> (r: bool)
    ensures
        r == is_done(status@),
{
    str_eq(status, "done") || str_eq(status, "completed")
}

/// The tasks a `steersman_list_tasks` call returns, given the statuses of
/// the stored tasks in order (see `selected_tasks`).
pub fn select_tasks(statuses: &Vec<String>, filter: &str, limit: i64) -> (r: Vec<usize>)
    ensures
        index_view(r@) == selected_tasks(crate::config::strs_view(statuses@), filter@, limit),
{
    let ghost sv = crate::config::strs_view(statuses@);
    let ghost p = |i: int| status_passes(filter@, sv[i]);
    let all = str_eq(filter, "all");
    let done = str_eq(filter, "done");
    let mut out: Vec<usize> = Vec::new();
    let mut i: usize = 0;
    while i < statuses.len()
        invariant
            i <= statuses@.len(),
            sv == crate::config::strs_view(statuses@),
            sv.len() == statuses@.len(),
            p == (|i: int| status_passes(filter@, sv[i])),
            all == (filter@ == "all"@),
            done == (filter@ == "done"@),
            index_view(out@) == indices_where(i as int, p),
        decreases statuses@.len() - i,
    {
        assert(sv[i as int] == statuses@[i as int]@);
        let finished = is_done_exec(statuses[i].as_str());
        let pass = if all {
            true
        } else if done {
            finished
        } else {
            !finished
        };
        assert(pass == p(i as int));
        if pass {
            out.push(i);
            assert(index_view(out@) =~= indices_where(i as int, p).push(i as int));
        }
        i = i + 1;
    }
    let ghost m = index_view(out@);
    #[verifier::truncate]
    let cap = limit as usize;
    out.truncate(cap);
    assert(index_view(out@) =~= (if (cap as int) <= m.len() { m.take(cap as int) } else { m }));
    out
}

/// The JSON form of a 64-bit integer.
pub fn jint(n: i64) -> (r: Json)
    ensures
        r@ == JsonV::Number(signed_text(n as int)),
{
    Json::Number(signed_decimal_i64(n))
}

/// The result of creating a task or a goal.
pub open spec fn created_v(id: i64, title: Seq<char>) -> JsonV {
    JsonV::Object(seq![
        ("id"@, JsonV::Number(signed_text(id as int))),
        ("title"@, JsonV::Str(title)),
        ("status"@, JsonV::Str("created"@)),
    ])
}

/// The result of creating a task or a goal (see `created_v`).
pub fn created_result(id: i64, title: &str) -> (r: Json)
    ensures
        r@ == created_v(id, title@),
{
    let mut es: Vec<(String, Json)> = Vec::new();
    push_entry(&mut es, "id", jint(id));
    push_entry(&mut es, "title", jstr(title));
    push_entry(&mut es, "status", jstr("created"));
    assert(view_entries(es@) =~= created_v(id, title@)->Object_0);
    jobj(es)
}

/// The result of changing a task's status.
pub open spec fn status_updated_v(id: i64, status: Seq<char>) -> JsonV {
    JsonV::Object(seq![
        ("id"@, JsonV::Number(signed_text(id as int))),
        ("status"@, JsonV::Str(status)),
        ("updated"@, JsonV::Bool(true)),
    ])
}

/// The result of changing a task's status (see `status_updated_v`).
pub fn status_updated_result(id: i64, status: &str) -> (r: Json)
    ensures
        r@ == status_updated_v(id, status@),
{
    let mut es: Vec<(String, Json)> = Vec::new();
    push_entry(&mut es, "id", jint(id));
    push_entry(&mut es, "status", jstr(status));
    push_entry(&mut es, "updated", Json::Bool(true));
    assert(view_entries(es@) =~= status_updated_v(id, status@)->Object_0);
    jobj(es)
}

/// The result of linking a session.
pub open spec fn linked_v(link_id: i64, session_id: Seq<char>) -> JsonV {
    JsonV::Object(seq![
        ("id"@, JsonV::Number(signed_text(link_id as int))),
        ("session_id"@, JsonV::Str(session_id)),
        ("linked"@, JsonV::Bool(true)),
    ])
}

/// The result of linking a session (see `linked_v`).
pub fn linked_result(link_id: i64, session_id: &str) -> (r: Json)
    ensures
        r@ == linked_v(link_id, session_id@),
{
    let mut es: Vec<(String, Json)> = Vec::new();
    push_entry(&mut es, "id", jint(link_id));
    push_entry(&mut es, "session_id", jstr(session_id));
    push_entry(&mut es, "linked", Json::Bool(true));
    assert(view_entries(es@) =~= linked_v(link_id, session_id@)->Object_0);
    jobj(es)
}

/// The first event with the given uid.
pub open spec fn event_index(uids: Seq<Seq<char>>, uid: Seq<char>) -> Option<int> {
    if exists|i: int| 0 <= i < uids.len() && uids[i] == uid {
        Some(choose|i: int| 0 <= i < uids.len() && uids[i] == uid && forall|j: int| 0 <= j < i ==> uids[j] != uid)
    } else {
        None
    }
}

pub open spec fn event_uids(events: Seq<CalendarEvent>) -> Seq<Seq<char>> {
    events.map_values(|e: CalendarEvent| e.uid@)
}

/// Finds today's meeting with the given uid: its index, or the error that
/// it is not on the calendar.
pub fn find_meeting(events: &Vec<CalendarEvent>, event_uid: &str) -> (r: Result<usize, String>)
    ensures
        match r {
            Ok(i) => event_index(event_uids(events@), event_uid@) == Some(i as int),
            Err(e) => event_index(event_uids(events@), event_uid@) is None && e@ == "meeting not found in calendar"@,
        },
{
    let ghost uids = event_uids(events@);
    let mut i: usize = 0;
    while i < events.len()
        invariant
            i <= events@.len(),
            uids == event_uids(events@),
            forall|j: int| 0 <= j < i ==> uids[j] != event_uid@,
        decreases events@.len() - i,
    {
        if str_eq(events[i].uid.as_str(), event_uid) {
            assert(uids[i as int] == event_uid@);
            let ghost k = choose|k: int| 0 <= k < uids.len() && uids[k] == event_uid@ && forall|j: int| 0 <= j < k ==> uids[j] != event_uid@;
            assert(k == i) by {
                if k < i {
                    assert(uids[k] != event_uid@);
                } else if k > i {
                    assert(uids[i as int] != event_uid@);
                }
            }
            return Ok(i);
        }
        i = i + 1;
    }
    assert(!exists|k: int| 0 <= k < uids.len() && uids[k] == event_uid@);
    Err("meeting not found in calendar".to_owned())
}

/// The keyword that relates tasks to a meeting: the one given, else the
/// organizer's handle (what precedes the first `@`).
pub open spec fn meeting_keyword_of(keyword: Option<Seq<char>>, organizer: Seq<char>) -> Seq<char> {
    match keyword {
        Some(k) => k,
        None => match find_char(organizer, '@') {
            Some(i) => organizer.take(i),
            None => organizer,
        },
    }
}

/// The keyword that relates tasks to a meeting (see `meeting_keyword_of`).
pub fn meeting_keyword(keyword: Option<&str>, organizer: &str) -> (r: String)
    ensures
        r@ == meeting_keyword_of(match keyword {
            Some(k) => Some(k@),
            None => None,
        }, organizer@),
{
    match keyword {
        Some(k) => k.to_owned(),
        None => {
            let cs = chars_of(organizer);
            match find_char_exec(cs.as_slice(), '@') {
                Some(i) => {
                    let head = sub_chars(cs.as_slice(), 0, i);
                    assert(head@ =~= organizer@.take(i as int));
                    string_from_chars(head.as_slice())
                },
                None => organizer.to_owned(),
            }
        },
    }
}

/// Whether a task title relates to a meeting: it contains the meeting's
/// summary, or the keyword when there is one, compared in lowercase.
pub open spec fn title_related(title: Seq<char>, summary: Seq<char>, keyword: Seq<char>) -> bool {
    contains(lowercase(title), lowercase(summary))
        || (keyword.len() > 0 && contains(lowercase(title), lowercase(keyword)))
}

/// The tasks related to a meeting, by index, given the stored task titles
/// in order (see `title_related`).
pub fn related_tasks(titles: &Vec<String>, summary: &str, keyword: &str) -> (r: Vec<usize>)
    ensures
        index_view(r@) == indices_where(titles@.len() as int, |i: int| title_related(titles@[i]@, summary@, keyword@)),
{
    let ghost p = |i: int| title_related(titles@[i]@, summary@, keyword@);
    let s = chars_of(to_lowercase(summary).as_str());
    let k = chars_of(to_lowercase(keyword).as_str());
    let has_keyword = keyword.unicode_len() > 0;
    let mut out: Vec<usize> = Vec::new();
    let mut i: usize = 0;
    while i < titles.len()
        invariant
            i <= titles@.len(),
            s@ == lowercase(summary@),
            k@ == lowercase(keyword@),
            has_keyword == (keyword@.len() > 0),
            p == (|i: int| title_related(titles@[i]@, summary@, keyword@)),
            index_view(out@) == indices_where(i as int, p),
        decreases titles@.len() - i,
    {
        let t = chars_of(to_lowercase(titles[i].as_str()).as_str());
        let related = contains_chars(t.as_slice(), s.as_slice())
            || (has_keyword && contains_chars(t.as_slice(), k.as_slice()));
        assert(related == p(i as int));
        if related {
            out.push(i);
            assert(index_view(out@) =~= indices_where(i as int, p).push(i as int));
        }
        i = i + 1;
    }
    out
}

/// A related task as the meeting context lists it.
pub open spec fn related_task_v(id: i64, title: Seq<char>, status: Seq<char>, priority: i64) -> JsonV {
    JsonV::Object(seq![
        ("id"@, JsonV::Number(signed_text(id as int))),
        ("title"@, JsonV::Str(title)),
        ("status"@, JsonV::Str(status)),
        ("priority"@, JsonV::Number(signed_text(priority as int))),
    ])
}

/// A related task as the meeting context lists it (see `related_task_v`).
pub fn related_task_entry(id: i64, title: &str, status: &str, priority: i64) -> (r: Json)
    ensures
        r@ == related_task_v(id, title@, status@, priority),
{
    let mut es: Vec<(String, Json)> = Vec::new();
    push_entry(&mut es, "id", jint(id));
    push_entry(&mut es, "title", jstr(title));
    push_entry(&mut es, "status", jstr(status));
    push_entry(&mut es, "priority", jint(priority));
    assert(view_entries(es@) =~= related_task_v(id, title@, status@, priority)->Object_0);
    jobj(es)
}

/// The context gathered for a meeting.
pub open spec fn meeting_context_v(
    event_uid: Seq<char>,
    summary: Seq<char>,
    organizer: Seq<char>,
    attendees: Seq<Seq<char>>,
    related: Seq<JsonV>,
    sessions: JsonV,
) -> JsonV {
    JsonV::Object(seq![
        ("event_uid"@, JsonV::Str(event_uid)),
        ("summary"@, JsonV::Str(summary)),
        ("organizer"@, JsonV::Str(organizer)),
        ("attendees"@, JsonV::Array(str_values(attendees))),
        ("related_tasks"@, JsonV::Array(related)),
        ("recent_sessions"@, sessions),
    ])
}

fn strings_array(v: &Vec<String>) -> (r: Json)
    ensures
        r@ == JsonV::Array(str_values(v@.map_values(|s: String| s@))),
{
    let ghost want = str_values(v@.map_values(|s: String| s@));
    let mut out: Vec<Json> = Vec::new();
    let mut i: usize = 0;
    while i < v.len()
        invariant
            i <= v@.len(),
            want == str_values(v@.map_values(|s: String| s@)),
            view_items(out@) == want.take(i as int),
        decreases v@.len() - i,
    {
        push_item(&mut out, jstr(v[i].as_str()));
        assert(want.take(i + 1) =~= want.take(i as int).push(JsonV::Str(v@[i as int]@)));
        i = i + 1;
    }
    assert(want.take(v@.len() as int) =~= want);
    Json::Array(out)
}

/// The context gathered for a meeting (see `meeting_context_v`): the
/// event, the related tasks and the recent session previews.
pub fn meeting_context(event_uid: &str, event: &CalendarEvent, related: Vec<Json>, sessions: Json) -> (r: Json)
    ensures
        r@ == meeting_context_v(event_uid@, event.summary@, event.organizer@, event@.attendees, view_items(related@), sessions@),
{
    let ghost rv = view_items(related@);
    let ghost sv = sessions@;
    let mut es: Vec<(String, Json)> = Vec::new();
    push_entry(&mut es, "event_uid", jstr(event_uid));
    push_entry(&mut es, "summary", jstr(event.summary.as_str()));
    push_entry(&mut es, "organizer", jstr(event.organizer.as_str()));
    push_entry(&mut es, "attendees", strings_array(&event.attendees));
    push_entry(&mut es, "related_tasks", Json::Array(related));
    push_entry(&mut es, "recent_sessions", sessions);
    assert(view_entries(es@) =~= meeting_context_v(event_uid@, event.summary@, event.organizer@, event@.attendees, rv, sv)->Object_0);
    jobj(es)
}

/// Where the server keeps its data: the directory that `HERMES_HOME`
/// names, else `.hermes` in the home directory.
pub open spec fn server_home_of(env_dir: Option<Seq<char>>, home_dir: Option<Seq<char>>) -> Result<Seq<Seq<char>>, Seq<char>> {
    match env_dir {
        Some(d) => Ok(seq![d]),
        None => match home_dir {
            Some(h) => Ok(seq![h, ".hermes"@]),
            None => Err("HERMES_HOME not set and ~/.hermes not found"@),
        },
    }
}

/// Where the server keeps its data, as path components (see
/// `server_home_of`); `env_dir` is the value of `HERMES_HOME` when it
/// names an existing directory.
pub fn server_home(env_dir: Option<&str>, home_dir: Option<&str>) -> (r: Result<Vec<String>, String>)
    ensures
        match r {
            Ok(p) => server_home_of(crate::config::ostr_view(env_dir), crate::config::ostr_view(home_dir))
                == Ok::<Seq<Seq<char>>, Seq<char>>(crate::config::strs_view(p@)),
            Err(e) => server_home_of(crate::config::ostr_view(env_dir), crate::config::ostr_view(home_dir))
                == Err::<Seq<Seq<char>>, Seq<char>>(e@),
        },
{
    match env_dir {
        Some(d) => {
            let mut p: Vec<String> = Vec::new();
            p.push(d.to_owned());
            assert(crate::config::strs_view(p@) =~= seq![d@]);
            Ok(p)
        },
        None => match home_dir {
            Some(h) => {
                let mut p: Vec<String> = Vec::new();
                p.push(h.to_owned());
                p.push(".hermes".to_owned());
                assert(crate::config::strs_view(p@) =~= seq![h@, ".hermes"@]);
                Ok(p)
            },
            None => Err("HERMES_HOME not set and ~/.hermes not found".to_owned()),
        },
    }
}

/// What the server does with one line of its input: blank lines and lines
/// that are not JSON text (see `json_text_parse`) are skipped; a request
/// is handled as `step_of` says.
pub open spec fn line_step(line: Seq<char>, server_version: Seq<char>, home_error: Option<Seq<char>>) -> Option<McpStepV> {
    if trim(line).len() == 0 {
        None
    } else {
        match json_text_parse(trim(line)) {
            Ok(req) => Some(step_of(req, server_version, home_error)),
            Err(_) => None,
        }
    }
}

/// Handles one line of the server's input (see `line_step`).
pub fn handle_line(line: &str, server_version: &str, home_error: Option<&str>) -> (r: Option<McpStep>)
    ensures
        match r {
            Some(st) => line_step(line@, server_version@, match home_error {
                Some(e) => Some(e@),
                None => None,
            }) == Some(st@),
            None => line_step(line@, server_version@, match home_error {
                Some(e) => Some(e@),
                None => None,
            }) is None,
        },
{
    let t = trim_chars(&chars_of(line));
    if t.len() == 0 {
        return None;
    }
    let text = string_from_chars(t.as_slice());
    match parse_json(text.as_str()) {
        Ok(req) => Some(handle_request(&req, server_version, home_error)),
        Err(_) => None,
    }
}

} // verus!
