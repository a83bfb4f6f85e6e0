use multiplexer::workbench::{
    activity_items, filter_files, join_project_path, linux_terminal_candidates_in,
    macos_terminal_candidates_in, merge_mcp, windows_terminal_candidates_in,
};
use multiplexer::notices::NoticeKind;
use multiplexer::workspace::Workspace;
use multiplexer::workspace::{McpLife, McpRow};

#[test]
fn filter_files_empty_and_narrow() {
    let files = vec![
        "src/main.rs".into(),
        "Cargo.toml".into(),
        "src/lib.rs".into(),
    ];
    assert_eq!(filter_files(&files, "").len(), 3);
    assert_eq!(filter_files(&files, "  ").len(), 3);
    let rs = filter_files(&files, "LIB");
    assert_eq!(rs, vec!["src/lib.rs".to_owned()]);
    assert!(filter_files(&files, "zzz").is_empty());
    assert_ne!(filter_files(&files, "src"), filter_files(&files, "toml"));
}

#[test]
fn join_project_keeps_leaf() {
    let p = join_project_path("C:/repo", "src/main.rs");
    assert!(p.ends_with("main.rs"));
    let dir = join_project_path("C:/repo", "src/");
    assert!(dir.ends_with("src"));
}

#[test]
fn merge_mcp_keeps_ready_by_name() {
    let existing = vec![McpRow {
        name: "linear".into(),
        command: "old".into(),
        transport: "stdio".into(),
        state: McpLife::Ready,
    }];
    let incoming = vec![
        McpRow {
            name: "linear".into(),
            command: "npx".into(),
            transport: "stdio".into(),
            state: McpLife::Stopped,
        },
        McpRow {
            name: "gh".into(),
            command: "gh".into(),
            transport: "stdio".into(),
            state: McpLife::Stopped,
        },
    ];
    let merged = merge_mcp(&existing, incoming);
    assert_eq!(merged.len(), 2);
    assert_eq!(merged[0].command, "npx");
    assert_eq!(merged[0].state, McpLife::Ready);
    assert_eq!(merged[1].state, McpLife::Stopped);
    let fresh = merge_mcp(&[], vec![existing[0].clone()]);
    assert_eq!(fresh[0].state, McpLife::Ready);
}

#[test]
fn activity_includes_reminder_notice_and_empty() {
    let mut ws = Workspace::new("p", "m");
    let empty = activity_items(&ws);
    assert_eq!(empty.len(), 1);
    assert_eq!(empty[0].id, "act:empty");
    ws.set_reminder("main", "C:/repo");
    ws.push_notice(NoticeKind::Info, "hi".into());
    ws.busy = true;
    ws.terminal_log.push("$ git status".into());
    let items = activity_items(&ws);
    assert!(items.iter().any(|i| i.id == "act:reminder"));
    assert!(items.iter().any(|i| i.id == "act:busy"));
    assert!(items.iter().any(|i| i.id.starts_with("act:notice:")));
    assert!(items.iter().any(|i| i.id.starts_with("act:log:")));
    assert!(items.iter().all(|i| i.id != "act:empty"));
    assert!(items.len() <= 20);
}

#[test]
fn activity_lists_newest_notices_and_log_lines_first() {
    let mut ws = Workspace::new("p", "m");
    for i in 0..7 {
        ws.push_notice(NoticeKind::Warn, format!("n{i}"));
    }
    for i in 0..10 {
        ws.push_terminal(&format!("line {i}"));
    }
    let items = activity_items(&ws);
    assert_eq!(items.len(), 13);
    assert_eq!(items[0].id, "act:notice:7");
    assert_eq!(items[0].title, "n6");
    assert_eq!(items[0].hint, "Warn");
    assert_eq!(items[4].id, "act:notice:3");
    assert_eq!(items[5].id, "act:log:0");
    assert_eq!(items[5].title, "line 9");
    assert_eq!(items[5].hint, "term");
    assert_eq!(items[12].title, "line 2");
}

#[test]
fn terminal_candidates_put_grok_first() {
    let win = windows_terminal_candidates_in(r"C:\Users\me\AppData\Local", Some("C:\\bin\\grok.exe".into()));
    assert_eq!(win.len(), 4);
    assert_eq!(win[0], ("grok".to_string(), "Grok".to_string(), "C:\\bin\\grok.exe".to_string()));
    assert_eq!(win[1].0, "cmd");
    assert_eq!(win[3].2, r"C:\Users\me\AppData\Local\Microsoft\WindowsApps\pwsh.exe");
    let mac = macos_terminal_candidates_in("/Users/me", None);
    assert_eq!(mac.len(), 5);
    assert_eq!(mac[0].0, "zsh");
    assert_eq!(mac[4].2, "/Users/me/.local/bin/fish");
    let linux = linux_terminal_candidates_in("/home/me", None);
    assert_eq!(linux[0].2, "/bin/bash");
    assert_eq!(linux[3].2, "/usr/bin/fish");
    assert_eq!(linux[4].2, "/home/me/.local/bin/fish");
}
