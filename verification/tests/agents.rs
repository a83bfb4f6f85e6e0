use multiplexer::agents::{
    orchestration_list, orchestration_list_json, orchestration_spawn_missing, AgentRow,
    ThreadStatus,
};
use multiplexer::workspace::Workspace;

#[test]
fn status_parse_is_narrow() {
    assert_eq!(ThreadStatus::parse("idle"), ThreadStatus::Idle);
    assert_eq!(ThreadStatus::parse("running"), ThreadStatus::Running);
    assert_eq!(ThreadStatus::parse("BUSY"), ThreadStatus::Running);
    assert_eq!(ThreadStatus::parse("error"), ThreadStatus::Error);
    assert_eq!(ThreadStatus::parse("failed"), ThreadStatus::Error);
    assert_eq!(ThreadStatus::parse("nope"), ThreadStatus::Idle);
    assert_eq!(ThreadStatus::parse(""), ThreadStatus::Idle);
    assert_ne!(ThreadStatus::Idle, ThreadStatus::Running);
    assert_eq!(ThreadStatus::Running.as_str(), "running");
    assert_eq!(ThreadStatus::Error.label(), "error");
}

#[test]
fn agent_row_uses_leaf_title_not_raw_id() {
    let ws = Workspace::new("p", "m");
    let row = AgentRow::from_thread(0, &ws.threads[0], true);
    assert_eq!(row.title, "New chat");
    assert_ne!(row.title, row.id);
    assert!(!row.title.starts_with("thr-"));
    assert_eq!(row.status, ThreadStatus::Idle);
    assert_eq!(row.model, "m");
    assert!(row.selected);
    assert_eq!(row.messages, 0);
    assert!(!row.pinned);
    assert!(!row.unread);
}

#[test]
fn agent_rows_are_threads_not_session_ids() {
    let mut ws = Workspace::new("p", "m");
    let before = ws.agent_rows().len();
    ws.connect(vec!["sess-1".into()]);
    assert_eq!(ws.agent_rows().len(), before);
    assert_eq!(ws.agent_rows()[0].0, ws.threads[0].id);
    assert_ne!(ws.agent_rows()[0].0, "sess-1");
}

#[test]
fn orchestration_list_is_empty_subagents() {
    let list = orchestration_list(3);
    assert_eq!(list.threads, 3);
    assert!(list.subagents.is_empty());
    assert!(list.note.contains("not wired"));
    let raw = orchestration_list_json(&list);
    assert!(raw.contains("\"subagents\":[]"));
    assert!(raw.contains("\"threads\":3"));
    assert!(!raw.contains("spawned"));
    assert_eq!(
        orchestration_spawn_missing(),
        "method not found: orchestration.spawn"
    );
    assert_ne!(orchestration_list(0).threads, list.threads);
}
