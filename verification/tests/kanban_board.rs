use steersman_core::briefing::{briefing_prompt, briefing_session_id, MID, PREFIX, SUFFIX};
use steersman_core::config::EnvMap;
use steersman_core::kanban::{
    board_view, col_label, default_column_keys, kanban_db_path, move_statement, new_board, new_task,
    parse_skills, update_statement,
};
use steersman_core::mcp::McpServerConfig;

fn server(enabled: Option<bool>) -> McpServerConfig {
    McpServerConfig {
        server_type: "stdio".into(),
        url: None,
        command: Some("python".into()),
        args: None,
        env: None,
        auth: None,
        enabled,
        raw_fields: Vec::new(),
    }
}

#[test]
fn column_labels_name_known_columns_and_keep_unknown_keys() {
    assert_eq!(col_label("backlog"), "Backlog");
    assert_eq!(col_label("todo"), "To Do");
    assert_eq!(col_label("in_progress"), "In Progress");
    assert_eq!(col_label("review"), "Review");
    assert_eq!(col_label("done"), "Done");
    assert_eq!(col_label("blocked"), "blocked");
    assert_eq!(
        default_column_keys(),
        vec!["backlog", "todo", "in_progress", "review", "done"]
    );
}

#[test]
fn kanban_db_lives_in_the_profile_home() {
    assert_eq!(kanban_db_path(None), vec!["kanban.db"]);
    assert_eq!(kanban_db_path(Some("work")), vec!["profiles", "work", "kanban.db"]);
}

#[test]
fn skills_are_split_on_commas() {
    assert!(parse_skills("").is_empty());
    assert_eq!(parse_skills("rust"), vec!["rust"]);
    assert_eq!(parse_skills("rust,sql,,ops"), vec!["rust", "sql", "", "ops"]);
}

#[test]
fn update_statement_sets_given_fields_in_fixed_order() {
    let mut fields = EnvMap::new();
    fields.insert("status", "done");
    fields.insert("title", "Ship it");
    fields.insert("unknown", "x");
    let (sql, params) = update_statement(&fields, "t-1").unwrap();
    assert_eq!(sql, "UPDATE tasks SET title = ?, status = ? WHERE id = ?");
    assert_eq!(params, vec!["Ship it", "done", "t-1"]);

    let mut all = EnvMap::new();
    all.insert("assignee", "ann");
    all.insert("priority", "2");
    all.insert("body", "b");
    let (sql, params) = update_statement(&all, "t-2").unwrap();
    assert_eq!(sql, "UPDATE tasks SET body = ?, priority = ?, assignee = ? WHERE id = ?");
    assert_eq!(params, vec!["b", "2", "ann", "t-2"]);
}

#[test]
fn update_statement_without_editable_fields_is_none() {
    let mut fields = EnvMap::new();
    fields.insert("color", "red");
    assert!(update_statement(&fields, "t-1").is_none());
    assert!(update_statement(&EnvMap::new(), "t-1").is_none());
}

#[test]
fn move_statement_records_start_and_completion_times() {
    let (sql, params) = move_statement("in_progress", "t-9", 1700000000);
    assert_eq!(sql, "UPDATE tasks SET status = ?1, started_at = ?2 WHERE id = ?3");
    assert_eq!(params, vec!["in_progress", "1700000000", "t-9"]);
    let (sql, params) = move_statement("done", "t-9", -5);
    assert_eq!(sql, "UPDATE tasks SET status = ?1, completed_at = ?2 WHERE id = ?3");
    assert_eq!(params, vec!["done", "-5", "t-9"]);
    let (sql, params) = move_statement("review", "t-9", 12);
    assert_eq!(sql, "UPDATE tasks SET status = ?1 WHERE id = ?2");
    assert_eq!(params, vec!["review", "t-9"]);
}

#[test]
fn board_view_has_one_labelled_column_per_status() {
    let board = new_board("main", "Main", Some("desc"));
    assert_eq!(board.total, 0);
    assert!(!board.is_current);
    let t = new_task("t-1", "main", "Write", None, "todo", 42);
    assert_eq!(t.priority, 0);
    assert_eq!(t.created_at, Some(42));
    assert!(t.skills.is_empty());
    let view = board_view(
        board.clone(),
        vec![Vec::new(), vec![t.clone()], Vec::new(), Vec::new(), Vec::new()],
    );
    assert_eq!(view.board, board);
    assert_eq!(view.columns.len(), 5);
    assert_eq!(view.columns[1].key, "todo");
    assert_eq!(view.columns[1].label, "To Do");
    assert_eq!(view.columns[1].tasks, vec![t]);
    assert_eq!(view.columns[4].label, "Done");
    assert!(view.columns[0].tasks.is_empty());
}

#[test]
fn briefing_prompt_lists_enabled_sources_sorted() {
    let servers = vec![
        ("jira".to_string(), server(None)),
        ("calendar".to_string(), server(Some(true))),
        ("email".to_string(), server(Some(false))),
    ];
    let prompt = briefing_prompt(&servers, 7);
    let expected = format!("{}7{}- calendar\n- jira{}", PREFIX, MID, SUFFIX);
    assert_eq!(prompt, expected);
    assert!(prompt.contains("за последние 7 дней."));
}

#[test]
fn briefing_prompt_without_sources_says_so() {
    let servers = vec![("email".to_string(), server(Some(false)))];
    let prompt = briefing_prompt(&servers, 3);
    assert!(prompt.contains("Настроенные MCP-источники:\n- Нет настроенных MCP-источников.\n\nШАГ 1."));
    assert!(briefing_prompt(&Vec::new(), 1).contains("- Нет настроенных MCP-источников."));
}

#[test]
fn briefing_session_is_per_profile() {
    assert_eq!(briefing_session_id(None), "smart_briefing:default");
    assert_eq!(briefing_session_id(Some("work")), "smart_briefing:work");
}
