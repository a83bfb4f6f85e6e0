use multiplexer::inspector_model::{inspector_rows, CoreSample};
use multiplexer::workspace::{InspectorTab, McpLife, McpRow, Workspace};

#[test]
fn session_rows_include_project() {
    let ws = Workspace::new("demo", "grok");
    let rows = inspector_rows(&ws, &Vec::new());
    assert!(rows.iter().any(|r| r.id == "session:project"));
    assert!(rows.iter().any(|r| r.subtitle.contains("demo")));
}

#[test]
fn mcp_row_uses_brand_slug_when_known() {
    let mut ws = Workspace::new("p", "m");
    ws.inspector = InspectorTab::Mcp;
    ws.mcp.push(McpRow {
        name: "github".into(),
        command: "npx".into(),
        transport: "stdio".into(),
        state: McpLife::Stopped,
    });
    let rows = inspector_rows(&ws, &Vec::new());
    assert_eq!(rows[0].id, "mcp:github");
    assert_eq!(rows[0].icon, "github-light");
}

#[test]
fn expand_flag_follows_workspace() {
    let mut ws = Workspace::new("p", "m");
    let cores = vec![CoreSample {
        index: 0,
        load: "10.0%".into(),
        bar: "█░░░░░░░░░".into(),
        reserved: true,
    }];
    ws.inspector = InspectorTab::Resources;
    ws.toggle_right_row("core:0");
    let rows = inspector_rows(&ws, &cores);
    assert!(rows.iter().any(|r| r.id == "core:0" && r.expanded));
}

#[test]
fn terminal_rows_list_newest_first_after_the_draft() {
    let mut ws = Workspace::new("p", "m");
    ws.inspector = InspectorTab::Terminal;
    for i in 0..14 {
        ws.push_terminal(&format!("line {i}"));
    }
    let rows = inspector_rows(&ws, &Vec::new());
    assert_eq!(rows.len(), 13);
    assert_eq!(rows[0].id, "term:draft");
    assert_eq!(rows[0].subtitle, "(empty)");
    assert_eq!(rows[1].id, "term:13");
    assert_eq!(rows[1].title, "line 13");
    assert_eq!(rows[12].id, "term:2");
}

#[test]
fn git_rows_fall_back_to_a_placeholder() {
    let mut ws = Workspace::new("p", "m");
    ws.inspector = InspectorTab::Git;
    let rows = inspector_rows(&ws, &Vec::new());
    assert_eq!(rows.len(), 1);
    assert_eq!(rows[0].id, "git:empty");
    ws.set_git_status("main · clean\nM src/lib.rs");
    let rows = inspector_rows(&ws, &Vec::new());
    assert_eq!(rows.len(), 1);
    assert_eq!(rows[0].id, "git:status");
    assert_eq!(rows[0].subtitle, "main · clean");
}
