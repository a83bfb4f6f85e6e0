use multiplexer::theme::Motion;
use multiplexer::workspace::{
    CheckpointRow, InspectorTab, LeftSection, McpLife, McpRow, Role, Workspace,
};

#[test]
fn inspector_all_is_ten_tabs() {
    let all = InspectorTab::all();
    assert_eq!(all.len(), 10);
    assert_eq!(
        all,
        [
            InspectorTab::Session,
            InspectorTab::Resources,
            InspectorTab::Mcp,
            InspectorTab::Checkpoints,
            InspectorTab::Git,
            InspectorTab::Terminal,
            InspectorTab::Skills,
            InspectorTab::Files,
            InspectorTab::Activity,
            InspectorTab::Agents,
        ]
    );
    assert_eq!(
        all.map(InspectorTab::label),
        [
            "Session", "Cores", "MCP", "Points", "Git", "Term", "Skills", "Files", "Activity",
            "Agents"
        ]
    );
}

#[test]
fn new_workspace_has_one_empty_thread() {
    let ws = Workspace::new("Multiplexer", "fake");
    assert_eq!(ws.threads.len(), 1);
    assert_eq!(ws.threads[0].title, "New chat");
    assert_eq!(ws.selected, 0);
    assert!(ws.draft.is_empty());
    assert_eq!(ws.inspector, InspectorTab::Session);
    assert!(ws.title_bar().contains("Multiplexer"));
    assert!(ws.title_bar().contains("fake"));
    assert!(ws.title_bar().contains("disconnected"));
    assert_eq!(ws.cursor, 0);
    assert_eq!(ws.models.as_slice(), ["fake"]);
    assert!(ws.files.is_empty());
    assert!(ws.skills.is_empty());
    assert!(ws.git_status.is_empty());
    assert!(ws.term_draft.is_empty());
    assert!(!ws.palette_open);
    assert!(!ws.help_open);
    assert!(ws.selected_checkpoint.is_none());
    assert!(ws.selected_worktree.is_none());
}

#[test]
fn send_draft_creates_user_message_and_renames_thread() {
    let mut ws = Workspace::new("p", "m");
    assert_eq!(ws.send_draft(), None);
    ws.set_draft("  hello world  ");
    assert_eq!(ws.send_draft().as_deref(), Some("hello world"));
    let t = ws.selected_thread().unwrap();
    assert_eq!(t.title, "hello world");
    assert_eq!(t.messages.len(), 1);
    assert_eq!(t.messages[0].role, Role::User);
    assert_eq!(t.status, "running");
    assert!(ws.draft.is_empty());
}

#[test]
fn type_and_backspace_edit_draft() {
    let mut ws = Workspace::new("p", "m");
    ws.type_char('a');
    ws.type_char('\n');
    ws.type_char('b');
    assert_eq!(ws.draft, "ab");
    ws.backspace();
    assert_eq!(ws.draft, "a");
}

#[test]
fn new_thread_selects_the_new_one() {
    let mut ws = Workspace::new("p", "m");
    ws.set_draft("x");
    ws.send_draft();
    let id = ws.new_thread();
    assert_eq!(id, "thr-2");
    assert_eq!(ws.selected, 1);
    assert_eq!(ws.threads.len(), 2);
    assert!(ws.draft.is_empty());
    assert!(ws.select(0));
    assert_eq!(ws.selected, 0);
    assert!(!ws.select(ws.threads.len()));
    assert_eq!(ws.selected, 0);
    assert!(!ws.select(9));
    assert_eq!(ws.selected, 0);
}

#[test]
fn assistant_and_error_update_status() {
    let mut ws = Workspace::new("p", "m");
    ws.set_draft("q");
    ws.send_draft();
    ws.push_assistant("answer");
    assert_eq!(ws.selected_thread().unwrap().status, "idle");
    assert_eq!(
        ws.selected_thread().unwrap().messages[1].role,
        Role::Assistant
    );
    ws.mark_error("boom");
    assert_eq!(ws.selected_thread().unwrap().status, "error");
}

#[test]
fn send_draft_without_thread_still_returns_text() {
    let mut ws = Workspace::new("p", "m");
    ws.threads.clear();
    ws.set_draft("orphan");
    assert_eq!(ws.send_draft().as_deref(), Some("orphan"));
    assert!(ws.draft.is_empty());
    ws.set_draft("later");
    ws.push_assistant("no thread");
    ws.mark_error("no thread");
    assert!(ws.selected_thread().is_none());
}

#[test]
fn send_draft_does_not_rename_custom_title() {
    let mut ws = Workspace::new("p", "m");
    ws.set_draft("first title that is definitely longer than forty characters");
    ws.send_draft();
    assert_eq!(ws.selected_thread().unwrap().title.chars().count(), 40);
    ws.set_draft("second");
    ws.send_draft();
    assert_eq!(ws.selected_thread().unwrap().title.chars().count(), 40);
    assert_eq!(ws.selected_thread().unwrap().messages.len(), 2);
}

#[test]
fn inspector_labels_and_connect() {
    assert_eq!(InspectorTab::Session.label(), "Session");
    assert_eq!(InspectorTab::Resources.label(), "Cores");
    assert_eq!(InspectorTab::Mcp.label(), "MCP");
    assert_eq!(InspectorTab::Checkpoints.label(), "Points");
    assert_eq!(InspectorTab::Git.label(), "Git");
    assert_eq!(InspectorTab::Terminal.label(), "Term");
    assert_eq!(InspectorTab::Skills.label(), "Skills");
    assert_eq!(InspectorTab::Files.label(), "Files");
    assert_eq!(InspectorTab::Activity.label(), "Activity");
    assert_eq!(InspectorTab::Agents.label(), "Agents");
    assert_eq!(InspectorTab::all().len(), 10);
    let mut ws = Workspace::new("p", "m");
    ws.connect(vec!["sess-1".into()]);
    assert!(ws.connection.is_connected());
    assert_eq!(ws.connection.session_count(), 1);
    assert!(ws.title_bar().contains("connected"));
    assert_eq!(Workspace::thread_preview(&ws.threads[0]), "Empty thread");
    ws.set_draft("hello");
    ws.send_draft();
    assert!(Workspace::thread_preview(ws.selected_thread().unwrap()).starts_with("You:"));
    assert!(ws.session_detail(Some("sess-1")).contains("sess-1"));
    assert!(ws.resource_detail(&Vec::new()).contains("Worktrees"));
    assert!(ws.mcp_detail().contains("No MCP servers"));
    ws.mcp.push(McpRow {
        name: "linear".into(),
        command: "npx".into(),
        transport: "stdio".into(),
        state: McpLife::Stopped,
    });
    assert!(ws.mcp_detail().contains("linear"));
    let cores = vec!["[R] cpu0   12.0% █░░░░░░░".to_string()];
    assert!(ws.resource_detail(&cores).contains("cpu0"));
    ws.checkpoints.push(CheckpointRow {
        id: "cp-1".into(),
        label: "start".into(),
    });
    assert!(ws.checkpoint_detail().contains("cp-1"));
    ws.set_reminder("main", "C:/repo");
    assert_eq!(ws.reminder.as_ref().map(|r| r.0.as_str()), Some("main"));
    ws.dismiss_reminder();
    assert!(ws.reminder.is_none());
    ws.push_terminal("ready");
    assert_eq!(ws.terminal_log.last().map(String::as_str), Some("ready"));
    assert!(ws.busy);
    ws.mark_interrupted();
    assert!(!ws.busy);
}





#[test]
fn mcp_start_sets_ready_and_stop_releases() {
    let mut ws = Workspace::new("p", "m");
    assert!(!ws.start_mcp("linear"));
    ws.mcp.push(McpRow {
        name: "linear".into(),
        command: "npx".into(),
        transport: "stdio".into(),
        state: McpLife::Stopped,
    });
    assert!(ws.start_mcp("linear"));
    assert_eq!(ws.mcp[0].state, McpLife::Ready);
    assert!(ws.mcp_detail().contains("ready"));
    assert!(ws.stop_mcp("linear"));
    assert_eq!(ws.mcp[0].state, McpLife::Stopped);
    assert!(ws.mcp_detail().contains("stopped"));
}

#[test]
fn file_tree_select_expand_and_mention() {
    let mut ws = Workspace::new("p", "m");
    ws.set_files(vec!["src/lib.rs".into(), "Cargo.toml".into()]);
    assert!(!ws.select_file("missing.rs"));
    assert!(ws.select_file("src/lib.rs"));
    assert_eq!(ws.selected_file.as_deref(), Some("src/lib.rs"));
    ws.set_draft("see");
    assert!(ws.insert_file_mention());
    assert!(ws.draft.contains("`@src/lib.rs`"));
}

#[test]
fn left_section_and_bottom_drawer() {
    let mut ws = Workspace::new("p", "m");
    assert_eq!(ws.left_section, LeftSection::Threads);
    assert!(!ws.bottom_open);
    assert!(!ws.select_left_section(LeftSection::Threads));
    assert!(ws.select_left_section(LeftSection::Files));
    assert_eq!(ws.left_section, LeftSection::Files);
    ws.toggle_bottom();
    assert!(ws.bottom_open);
    ws.toggle_bottom();
    assert!(!ws.bottom_open);
}

#[test]
fn right_row_accordion_and_tab_clears() {
    let mut ws = Workspace::new("p", "m");
    ws.toggle_right_row("core:0");
    assert_eq!(ws.right_expanded_id.as_deref(), Some("core:0"));
    ws.toggle_right_row("core:1");
    assert_eq!(ws.right_expanded_id.as_deref(), Some("core:1"));
    ws.toggle_right_row("core:1");
    assert!(ws.right_expanded_id.is_none());
    ws.toggle_right_row("mcp:linear");
    assert!(ws.select_inspector(InspectorTab::Mcp));
    assert!(ws.right_expanded_id.is_none());
    assert!(!ws.select_inspector(InspectorTab::Mcp));
    ws.collapse_right_row();
    assert!(ws.right_expanded_id.is_none());
    assert_eq!(LeftSection::all().len(), 4);
    assert_eq!(LeftSection::Threads.rail_label(), "Chats");
    assert_eq!(LeftSection::Files.rail_label(), "Projects");
}

#[test]
fn delete_thread_refuses_last() {
    let mut ws = Workspace::new("p", "m");
    let id = ws.threads[0].id.clone();
    assert_eq!(ws.threads.len(), 1);
    assert!(!ws.delete_thread(0));
    assert_eq!(ws.threads.len(), 1);
    assert_eq!(ws.threads[0].id, id);
    assert_eq!(ws.selected, 0);
    assert!(!ws.delete_thread(1));
    assert!(!ws.delete_thread(99));
    assert_eq!(ws.threads.len(), 1);
}

#[test]
fn delete_thread_reselects() {
    let mut ws = Workspace::new("p", "m");
    ws.new_thread();
    ws.new_thread();
    assert_eq!(ws.threads.len(), 3);
    assert_eq!(ws.selected, 2);
    assert!(ws.rename_thread(1, "kept"));
    assert_eq!(ws.threads[1].title, "kept");
    assert!(!ws.rename_thread(9, "nope"));

    assert!(ws.delete_thread(2));
    assert_eq!(ws.threads.len(), 2);
    assert_eq!(ws.selected, 1);
    assert_eq!(ws.threads[1].title, "kept");

    let keep_id = ws.threads[1].id.clone();
    assert!(ws.delete_thread(0));
    assert_eq!(ws.threads.len(), 1);
    assert_eq!(ws.selected, 0);
    assert_eq!(ws.threads[0].id, keep_id);
    assert_eq!(ws.threads[0].title, "kept");

    ws.new_thread();
    ws.new_thread();
    assert!(ws.select(1));
    let prev_id = ws.threads[0].id.clone();
    assert!(ws.delete_thread(1));
    assert_eq!(ws.selected, 0);
    assert_eq!(ws.threads[0].id, prev_id);
    assert!(!ws.delete_thread(ws.threads.len()));
}

#[test]
fn cycle_model_rotates() {
    let mut ws = Workspace::new("p", "m");
    assert_eq!(ws.models.as_slice(), ["m"]);
    assert_eq!(ws.model, "m");
    assert_eq!(ws.cycle_model(), "m");
    assert_eq!(ws.model, "m");

    ws.set_models(vec!["alpha".into(), "beta".into(), "gamma".into()]);
    assert_eq!(ws.models.as_slice(), ["alpha", "beta", "gamma"]);
    assert_eq!(ws.model, "alpha");
    assert_eq!(ws.cycle_model(), "beta");
    assert_eq!(ws.model, "beta");
    assert_eq!(ws.cycle_model(), "gamma");
    assert_eq!(ws.cycle_model(), "alpha");
    assert_eq!(ws.model, "alpha");

    ws.set_models(Vec::new());
    assert_eq!(ws.models.as_slice(), ["alpha"]);
    assert_eq!(ws.model, "alpha");
    assert_eq!(ws.cycle_model(), "alpha");

    ws.set_models(vec!["alpha".into(), "delta".into()]);
    assert_eq!(ws.model, "alpha");
    assert_eq!(ws.cycle_model(), "delta");
}

#[test]
fn cursor_insert_and_backspace_middle() {
    let mut ws = Workspace::new("p", "m");
    ws.type_char('a');
    ws.type_char('b');
    ws.type_char('c');
    assert_eq!(ws.draft, "abc");
    assert_eq!(ws.cursor, 3);

    ws.move_cursor_left();
    ws.move_cursor_left();
    assert_eq!(ws.cursor, 1);
    ws.type_char('X');
    assert_eq!(ws.draft, "aXbc");
    assert_eq!(ws.cursor, 2);

    ws.backspace();
    assert_eq!(ws.draft, "abc");
    assert_eq!(ws.cursor, 1);

    ws.move_cursor_home();
    assert_eq!(ws.cursor, 0);
    ws.backspace();
    assert_eq!(ws.draft, "abc");
    assert_eq!(ws.cursor, 0);

    ws.type_char('Z');
    assert_eq!(ws.draft, "Zabc");
    assert_eq!(ws.cursor, 1);

    ws.move_cursor_end();
    assert_eq!(ws.cursor, 4);
    ws.move_cursor_right();
    assert_eq!(ws.cursor, 4);
    ws.type_char('!');
    assert_eq!(ws.draft, "Zabc!");
    assert_eq!(ws.cursor, 5);

    ws.set_draft("éx");
    assert_eq!(ws.cursor, 2);
    ws.move_cursor_left();
    ws.backspace();
    assert_eq!(ws.draft, "x");
    assert_eq!(ws.cursor, 0);
}

#[test]
fn palette_and_help_toggle() {
    let mut ws = Workspace::new("p", "m");
    assert!(!ws.palette_open);
    assert!(!ws.help_open);
    let closed = ws.session_detail(None);
    assert!(closed.contains("Palette\nclosed"));
    assert!(closed.contains("Help\nclosed"));
    assert!(closed.contains("Models\nm"));

    ws.toggle_palette();
    assert!(ws.palette_open);
    assert!(ws.session_detail(None).contains("Palette\nopen"));
    ws.toggle_palette();
    assert!(!ws.palette_open);
    ws.toggle_palette();
    ws.close_palette();
    assert!(!ws.palette_open);
    ws.close_palette();
    assert!(!ws.palette_open);

    ws.toggle_help();
    assert!(ws.help_open);
    assert!(!ws.palette_open);
    assert!(ws.session_detail(None).contains("Help\nopen"));
    ws.toggle_help();
    assert!(!ws.help_open);
}

#[test]
fn take_term_draft_trims() {
    let mut ws = Workspace::new("p", "m");
    assert_eq!(ws.take_term_draft(), None);
    assert!(ws.term_draft.is_empty());

    ws.set_term_draft("  ls -la  ");
    assert_eq!(ws.take_term_draft().as_deref(), Some("ls -la"));
    assert!(ws.term_draft.is_empty());

    ws.set_term_draft("   ");
    assert_eq!(ws.take_term_draft(), None);
    assert!(ws.term_draft.is_empty());

    ws.type_term_char('e');
    ws.type_term_char('c');
    ws.type_term_char('h');
    ws.type_term_char('o');
    ws.type_term_char('\n');
    assert_eq!(ws.term_draft, "echo");
    ws.backspace_term();
    assert_eq!(ws.term_draft, "ech");
    assert_eq!(ws.take_term_draft().as_deref(), Some("ech"));
    assert!(ws.term_draft.is_empty());
}

#[test]
fn git_terminal_skills_detail_copy() {
    let mut ws = Workspace::new("p", "m");
    assert_eq!(ws.skills_detail(), "No skills found under .grok/skills");
    ws.set_skills(vec!["review".into(), "tdd".into()]);
    let skills = ws.skills_detail();
    assert!(skills.contains("review"));
    assert!(skills.contains("tdd"));
    assert!(!skills.contains("No skills found under .grok/skills"));

    ws.worktrees.push("wt-a".into());
    ws.worktrees.push("wt-b".into());
    ws.selected_worktree = Some(1);
    ws.set_git_status("main · clean");
    let git = ws.git_detail();
    assert!(git.contains("wt-a"));
    assert!(git.contains("wt-b"));
    assert!(git.contains("main · clean"));
    assert!(git.contains("Worktrees"));
    assert!(git.contains("Status"));

    ws.push_terminal("ready");
    ws.push_terminal("compiled");
    ws.set_term_draft("git status");
    let term = ws.terminal_detail();
    assert!(term.contains("ready"));
    assert!(term.contains("compiled"));
    assert!(term.contains("git status"));

    ws.set_files(vec!["src/lib.rs".into()]);
    assert!(ws.resource_detail(&Vec::new()).contains("src/lib.rs"));
    assert!(ws.resource_detail(&Vec::new()).contains("Files"));

    ws.create_local_checkpoint("cp-local", "snap");
    assert!(ws.checkpoint_detail().contains("cp-local"));
    assert!(ws.checkpoint_detail().contains("snap"));
    ws.select_checkpoint(Some("cp-local".into()));
    assert_eq!(ws.selected_checkpoint.as_deref(), Some("cp-local"));
    assert!(ws.checkpoint_detail().contains("cp-local"));
    ws.select_checkpoint(None);
    assert!(ws.selected_checkpoint.is_none());
}

#[test]
fn motion_steps_grow() {
    assert!(Motion::fast().ms < Motion::normal().ms);
    assert!(Motion::normal().ms < Motion::slow().ms);
    assert_eq!(Motion::fast().easing, "ease-out");
    assert_eq!(Motion::slow().easing, "ease-in-out");
}
