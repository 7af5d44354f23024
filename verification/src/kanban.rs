//! Kanban boards and tasks: the board columns, the task statements that
//! the task store runs, and the records that it returns.

use vstd::prelude::*;
use crate::json::{Json, ostring};
use crate::config::{EnvMap, strs_view, named_profile, ostr_view, profile_home};
use crate::text::{str_eq, chars_of, split_on, split_chars, string_from_chars};

verus! {

/// A task of a board. Times are seconds since the Unix epoch.
#[derive(Debug, Clone, PartialEq, Eq)]
pub struct KanbanTask {
    pub id: String,
    pub title: String,
    pub body: Option<String>,
    pub assignee: Option<String>,
    pub status: String,
    pub priority: i32,
    pub board_slug: String,
    pub created_by: Option<String>,
    pub created_at: Option<i64>,
    pub started_at: Option<i64>,
    pub completed_at: Option<i64>,
    pub result: Option<String>,
    pub skills: Vec<String>,
    pub max_retries: Option<i32>,
}

/// A board, with its task counts (in total and per status).
#[derive(Debug, Clone, PartialEq, Eq)]
pub struct KanbanBoard {
    pub slug: String,
    pub name: String,
    pub description: Option<String>,
    pub icon: Option<String>,
    pub color: Option<String>,
    pub is_current: bool,
    pub archived: bool,
    pub total: i32,
    pub counts: Vec<(String, i32)>,
}

/// A run of a task by an agent.
#[derive(Debug, Clone, PartialEq, Eq)]
pub struct KanbanRun {
    pub id: i64,
    pub task_id: String,
    pub profile: Option<String>,
    pub status: Option<String>,
    pub outcome: Option<String>,
    pub summary: Option<String>,
    pub error: Option<String>,
    pub started_at: Option<i64>,
    pub ended_at: Option<i64>,
    pub last_heartbeat_at: Option<i64>,
}

/// A comment on a task.
#[derive(Debug, Clone, PartialEq, Eq)]
pub struct KanbanComment {
    pub id: i64,
    pub task_id: String,
    pub author: Option<String>,
    pub body: String,
    pub created_at: i64,
}

/// An event of a task.
#[derive(Debug)]
pub struct KanbanEvent {
    pub id: i64,
    pub task_id: String,
    pub kind: String,
    pub payload: Option<Json>,
    pub created_at: i64,
    pub run_id: Option<i64>,
}

/// A task with its history and relations.
#[derive(Debug)]
pub struct KanbanTaskDetail {
    pub task: KanbanTask,
    pub comments: Vec<KanbanComment>,
    pub events: Vec<KanbanEvent>,
    pub parents: Vec<String>,
    pub children: Vec<String>,
    pub runs: Vec<KanbanRun>,
    pub latest_summary: Option<String>,
}

/// One column of a board: the tasks of one status.
#[derive(Debug, Clone, PartialEq, Eq)]
pub struct KanbanColumn {
    pub key: String,
    pub label: String,
    pub tasks: Vec<KanbanTask>,
}

/// A board with its columns.
#[derive(Debug, Clone, PartialEq, Eq)]
pub struct KanbanBoardView {
    pub board: KanbanBoard,
    pub columns: Vec<KanbanColumn>,
}

/// The columns of a board, in order.
pub open spec fn default_columns() -> Seq<Seq<char>> {
    seq!["backlog"@, "todo"@, "in_progress"@, "review"@, "done"@]
}

/// The column keys of a board, in order.
pub fn default_column_keys() -> (r: Vec<String>)
    ensures
        strs_view(r@) == default_columns(),
{
    let mut r: Vec<String> = Vec::new();
    r.push("backlog".to_owned());
    r.push("todo".to_owned());
    r.push("in_progress".to_owned());
    r.push("review".to_owned());
    r.push("done".to_owned());
    assert(strs_view(r@) =~= default_columns());
    r
}

/// The label of a column; an unknown key is its own label.
pub open spec fn column_label(key: Seq<char>) -> Seq<char> {
    if key == "backlog"@ {
        "Backlog"@
    } else if key == "todo"@ {
        "To Do"@
    } else if key == "in_progress"@ {
        "In Progress"@
    } else if key == "review"@ {
        "Review"@
    } else if key == "done"@ {
        "Done"@
    } else {
        key
    }
}

/// The label of a column (see `column_label`).
pub fn col_label(key: &str) -> (r: String)
    ensures
        r@ == column_label(key@),
{
    if str_eq(key, "backlog") {
        "Backlog".to_owned()
    } else if str_eq(key, "todo") {
        "To Do".to_owned()
    } else if str_eq(key, "in_progress") {
        "In Progress".to_owned()
    } else if str_eq(key, "review") {
        "Review".to_owned()
    } else if str_eq(key, "done") {
        "Done".to_owned()
    } else {
        key.to_owned()
    }
}

/// The path of a profile's task store, as components below the Hermes
/// home.
pub fn kanban_db_path(profile: Option<&str>) -> (r: Vec<String>)
    ensures
        strs_view(r@) == (match named_profile(ostr_view(profile)) {
            Some(p) => seq!["profiles"@, p],
            None => Seq::<Seq<char>>::empty(),
        }).push("kanban.db"@),
{
    let mut r = profile_home(profile);
    let ghost before = strs_view(r@);
    r.push("kanban.db".to_owned());
    assert(strs_view(r@) =~= before.push("kanban.db"@));
    r
}

/// The skills of a stored task: none for an empty list, else the pieces
/// between commas.
pub open spec fn skills_of(stored: Seq<char>) -> Seq<Seq<char>> {
    if stored.len() == 0 {
        Seq::empty()
    } else {
        split_on(stored, ',')
    }
}

/// Reads the comma-separated skills of a stored task (see `skills_of`).
pub fn parse_skills(stored: &str) -> (r: Vec<String>)
    ensures
        strs_view(r@) == skills_of(stored@),
{
    let cs = chars_of(stored);
    let mut out: Vec<String> = Vec::new();
    if cs.len() == 0 {
        assert(strs_view(out@) =~= skills_of(stored@));
        return out;
    }
    let pieces = split_chars(cs.as_slice(), ',');
    let mut i: usize = 0;
    while i < pieces.len()
        invariant
            i <= pieces@.len(),
            cs@ == stored@,
            pieces@.len() == split_on(cs@, ',').len(),
            forall|k: int| 0 <= k < pieces@.len() ==> (#[trigger] pieces@[k])@ == split_on(cs@, ',')[k],
            strs_view(out@) == split_on(cs@, ',').take(i as int),
        decreases pieces@.len() - i,
    {
        let ghost before = strs_view(out@);
        out.push(string_from_chars(pieces[i].as_slice()));
        assert(strs_view(out@) =~= before.push(split_on(cs@, ',')[i as int]));
        assert(split_on(cs@, ',').take(i + 1) =~= split_on(cs@, ',').take(i as int).push(split_on(cs@, ',')[i as int]));
        i = i + 1;
    }
    assert(split_on(cs@, ',').take(pieces@.len() as int) =~= split_on(cs@, ','));
    out
}

/// The editable task fields, in the order the update sets them.
pub open spec fn update_fields() -> Seq<Seq<char>> {
    seq!["title"@, "body"@, "status"@, "priority"@, "assignee"@]
}

/// The `column = ?` clauses and values for the given fields, in the order
/// of `update_fields`, over the first `n` of them.
pub open spec fn set_clauses(fields: Map<Seq<char>, Seq<char>>, n: int) -> Seq<(Seq<char>, Seq<char>)>
    decreases n,
{
    if n <= 0 {
        Seq::empty()
    } else {
        let r = set_clauses(fields, n - 1);
        let f = update_fields()[n - 1];
        if fields.contains_key(f) {
            r.push((f + " = ?"@, fields[f]))
        } else {
            r
        }
    }
}

/// Clauses joined with `", "`.
pub open spec fn join_clauses(cs: Seq<(Seq<char>, Seq<char>)>) -> Seq<char>
    decreases cs.len(),
{
    if cs.len() == 0 {
        Seq::empty()
    } else if cs.len() == 1 {
        cs[0].0
    } else {
        join_clauses(cs.drop_last()) + ", "@ + cs.last().0
    }
}

/// The statement that updates a task's given fields and its parameters
/// (the values, then the task id); `None` when no editable field is given.
pub open spec fn update_statement_of(fields: Map<Seq<char>, Seq<char>>, task_id: Seq<char>) -> Option<(Seq<char>, Seq<Seq<char>>)> {
    let cs = set_clauses(fields, 5);
    if cs.len() == 0 {
        None
    } else {
        Some((
            "UPDATE tasks SET "@ + join_clauses(cs) + " WHERE id = ?"@,
            cs.map_values(|c: (Seq<char>, Seq<char>)| c.1).push(task_id),
        ))
    }
}

fn field_name(i: usize) -> (r: &'static str)
    requires
        i < 5,
    ensures
        r@ == update_fields()[i as int],
{
    if i == 0 {
        "title"
    } else if i == 1 {
        "body"
    } else if i == 2 {
        "status"
    } else if i == 3 {
        "priority"
    } else {
        "assignee"
    }
}

/// The statement that updates a task's given fields (see
/// `update_statement_of`).
pub fn update_statement(fields: &EnvMap, task_id: &str) -> (r: Option<(String, Vec<String>)>)
    ensures
        match r {
            Some((sql, params)) => update_statement_of(fields@, task_id@) == Some((sql@, strs_view(params@))),
            None => update_statement_of(fields@, task_id@) is None,
        },
{
    let mut sets = String::new();
    let mut params: Vec<String> = Vec::new();
    let mut i: usize = 0;
    while i < 5
        invariant
            i <= 5,
            sets@ == join_clauses(set_clauses(fields@, i as int)),
            strs_view(params@) == set_clauses(fields@, i as int).map_values(|c: (Seq<char>, Seq<char>)| c.1),
        decreases 5 - i,
    {
        let f = field_name(i);
        let ghost prev = set_clauses(fields@, i as int);
        if let Some(v) = fields.get(f) {
            let clause = f.to_owned().concat(" = ?");
            if params.len() > 0 {
                sets = sets.concat(", ");
            }
            sets = sets.concat(clause.as_str());
            let ghost before = strs_view(params@);
            params.push(v.to_owned());
            assert(strs_view(params@) =~= before.push(v@));
            assert(params@.len() == prev.len() + 1);
            assert(set_clauses(fields@, i + 1) == prev.push((f@ + " = ?"@, v@)));
            assert(set_clauses(fields@, i + 1).map_values(|c: (Seq<char>, Seq<char>)| c.1) =~= prev.map_values(
                |c: (Seq<char>, Seq<char>)| c.1,
            ).push(v@));
            proof {
                reveal_strlit(" = ?");
                reveal_strlit(", ");
                if prev.len() == 0 {
                    assert(sets@ =~= join_clauses(set_clauses(fields@, i + 1)));
                } else {
                    assert(set_clauses(fields@, i + 1).drop_last() =~= prev);
                    assert(sets@ =~= join_clauses(set_clauses(fields@, i + 1)));
                }
            }
        }
        i = i + 1;
    }
    if params.len() == 0 {
        return None;
    }
    let sql = "UPDATE tasks SET ".to_owned().concat(sets.as_str()).concat(" WHERE id = ?");
    let ghost before = strs_view(params@);
    params.push(task_id.to_owned());
    assert(strs_view(params@) =~= before.push(task_id@));
    Some((sql, params))
}

/// The statement that moves a task to a status, and its parameters: a
/// move to `in_progress` records the start time, a move to `done` the
/// completion time.
pub open spec fn move_statement_of(new_status: Seq<char>, task_id: Seq<char>, now: i64) -> (Seq<char>, Seq<Seq<char>>) {
    if new_status == "in_progress"@ {
        ("UPDATE tasks SET status = ?1, started_at = ?2 WHERE id = ?3"@, seq![new_status, crate::auth::signed_text(now as int), task_id])
    } else if new_status == "done"@ {
        ("UPDATE tasks SET status = ?1, completed_at = ?2 WHERE id = ?3"@, seq![new_status, crate::auth::signed_text(now as int), task_id])
    } else {
        ("UPDATE tasks SET status = ?1 WHERE id = ?2"@, seq![new_status, task_id])
    }
}

/// The statement that moves a task (see `move_statement_of`); the time is
/// passed as its decimal text.
pub fn move_statement(new_status: &str, task_id: &str, now: i64) -> (r: (String, Vec<String>))
    ensures
        (r.0@, strs_view(r.1@)) == move_statement_of(new_status@, task_id@, now),
{
    let mut params: Vec<String> = Vec::new();
    params.push(new_status.to_owned());
    if str_eq(new_status, "in_progress") {
        params.push(crate::auth::signed_decimal_i64(now));
        params.push(task_id.to_owned());
        assert(strs_view(params@) =~= seq![new_status@, crate::auth::signed_text(now as int), task_id@]);
        ("UPDATE tasks SET status = ?1, started_at = ?2 WHERE id = ?3".to_owned(), params)
    } else if str_eq(new_status, "done") {
        params.push(crate::auth::signed_decimal_i64(now));
        params.push(task_id.to_owned());
        assert(strs_view(params@) =~= seq![new_status@, crate::auth::signed_text(now as int), task_id@]);
        ("UPDATE tasks SET status = ?1, completed_at = ?2 WHERE id = ?3".to_owned(), params)
    } else {
        params.push(task_id.to_owned());
        assert(strs_view(params@) =~= seq![new_status@, task_id@]);
        ("UPDATE tasks SET status = ?1 WHERE id = ?2".to_owned(), params)
    }
}

/// The record of a task just created: priority 0, created at `now`, with
/// no history.
pub fn new_task(id: &str, board_slug: &str, title: &str, body: Option<&str>, status: &str, now: i64) -> (r: KanbanTask)
    ensures
        r.id@ == id@,
        r.title@ == title@,
        ostring(r.body) == ostr_view(body),
        r.assignee is None,
        r.status@ == status@,
        r.priority == 0,
        r.board_slug@ == board_slug@,
        r.created_by is None,
        r.created_at == Some(now),
        r.started_at is None && r.completed_at is None && r.result is None,
        r.skills@.len() == 0,
        r.max_retries is None,
{
    KanbanTask {
        id: id.to_owned(),
        title: title.to_owned(),
        body: match body {
            Some(b) => Some(b.to_owned()),
            None => None,
        },
        assignee: None,
        status: status.to_owned(),
        priority: 0,
        board_slug: board_slug.to_owned(),
        created_by: None,
        created_at: Some(now),
        started_at: None,
        completed_at: None,
        result: None,
        skills: Vec::new(),
        max_retries: None,
    }
}

/// The record of a board just created: not current, not archived, empty.
pub fn new_board(slug: &str, name: &str, description: Option<&str>) -> (r: KanbanBoard)
    ensures
        r.slug@ == slug@,
        r.name@ == name@,
        ostring(r.description) == ostr_view(description),
        r.icon is None && r.color is None,
        !r.is_current && !r.archived,
        r.total == 0,
        r.counts@.len() == 0,
{
    KanbanBoard {
        slug: slug.to_owned(),
        name: name.to_owned(),
        description: match description {
            Some(d) => Some(d.to_owned()),
            None => None,
        },
        icon: None,
        color: None,
        is_current: false,
        archived: false,
        total: 0,
        counts: Vec::new(),
    }
}

/// The view of a board: one column per default key, in order, labelled,
/// with the tasks that the store gave for that status.
pub fn board_view(board: KanbanBoard, tasks_by_column: Vec<Vec<KanbanTask>>) -> (r: KanbanBoardView)
    requires
        tasks_by_column@.len() == default_columns().len(),
    ensures
        r.board == board,
        r.columns@.len() == default_columns().len(),
        forall|i: int| 0 <= i < r.columns@.len() ==> {
            &&& (#[trigger] r.columns@[i]).key@ == default_columns()[i]
            &&& r.columns@[i].label@ == column_label(default_columns()[i])
            &&& r.columns@[i].tasks == tasks_by_column@[i]
        },
{
    let keys = default_column_keys();
    assert(strs_view(keys@).len() == keys@.len());
    let ghost all = tasks_by_column@;
    let mut rest = tasks_by_column;
    let mut columns: Vec<KanbanColumn> = Vec::new();
    let mut i: usize = 0;
    while i < 5
        invariant
            i <= 5,
            strs_view(keys@) == default_columns(),
            keys@.len() == 5,
            all.len() == 5,
            rest@ == all.skip(i as int),
            columns@.len() == i,
            forall|k: int| 0 <= k < i ==> {
                &&& (#[trigger] columns@[k]).key@ == default_columns()[k]
                &&& columns@[k].label@ == column_label(default_columns()[k])
                &&& columns@[k].tasks == all[k]
            },
        decreases 5 - i,
    {
        let ghost before = rest@;
        let tasks = rest.remove(0);
        assert(rest@ =~= all.skip(i + 1));
        assert(strs_view(keys@)[i as int] == keys@[i as int]@);
        assert(keys@[i as int]@ == default_columns()[i as int]);
        columns.push(KanbanColumn {
            key: keys[i].as_str().to_owned(),
            label: col_label(keys[i].as_str()),
            tasks,
        });
        i = i + 1;
    }
    KanbanBoardView { board, columns }
}

} // verus!
