use multiplexer::actions::ClientAction;
use multiplexer::palette::{default_items, filter_items, PaletteItem, PaletteState};
use multiplexer::workspace::InspectorTab;

fn require(id: &str) -> PaletteItem {
    default_items()
        .into_iter()
        .find(|item| item.id == id)
        .unwrap_or_else(|| panic!("missing palette item {id}"))
}

#[test]
fn default_has_new_chat() {
    let item = require("new-chat");
    assert_eq!(item.label, "New chat");
    assert_eq!(item.hint, "Ctrl+N");
    assert_eq!(item.action, ClientAction::NewThread);
    assert_eq!(default_items()[0].id, "new-chat");
}

#[test]
fn default_catalog_covers_required_ids() {
    let expected: &[(&str, &str, ClientAction)] = &[
        ("new-chat", "Ctrl+N", ClientAction::NewThread),
        ("toggle-chats", "Ctrl+[", ClientAction::ToggleLeft),
        ("toggle-inspector", "Ctrl+]", ClientAction::ToggleRight),
        ("toggle-terminal", "Ctrl+`", ClientAction::ToggleBottom),
        ("send", "Enter", ClientAction::Send),
        ("stop", "Ctrl+.", ClientAction::Interrupt),
        ("checkpoint", "Ctrl+S", ClientAction::CreateCheckpoint),
        (
            "cores",
            "g c",
            ClientAction::SelectTab(InspectorTab::Resources),
        ),
        ("mcp", "g m", ClientAction::SelectTab(InspectorTab::Mcp)),
        (
            "points",
            "g p",
            ClientAction::SelectTab(InspectorTab::Checkpoints),
        ),
        ("help", "?", ClientAction::ToggleHelp),
        ("close-palette", "Esc", ClientAction::ClosePalette),
    ];
    let items = default_items();
    for (id, hint, action) in expected {
        let item = items
            .iter()
            .find(|row| row.id == *id)
            .unwrap_or_else(|| panic!("missing {id}"));
        assert_eq!(item.hint, *hint, "{id} hint");
        assert_eq!(item.action, *action, "{id} action");
    }
    let ids: Vec<_> = items.iter().map(|item| item.id).collect();
    let mut unique = ids.clone();
    unique.sort_unstable();
    unique.dedup();
    assert_eq!(ids.len(), unique.len(), "duplicate palette ids: {ids:?}");
    let term = require("toggle-terminal");
    assert_eq!(term.label, "Toggle terminal");
    assert_eq!(term.hint, "Ctrl+`");
    assert_eq!(term.action, ClientAction::ToggleBottom);
}

#[test]
fn filter_narrows() {
    let all = filter_items("");
    assert_eq!(all.len(), default_items().len());
    assert!(all.len() >= 9);

    let mcp = filter_items("mcp");
    assert!(mcp.iter().any(|item| item.id == "mcp"));
    assert!(mcp.len() < all.len());
    assert!(mcp.iter().all(|item| {
        item.id.to_lowercase().contains("mcp")
            || item.label.to_lowercase().contains("mcp")
            || item.hint.to_lowercase().contains("mcp")
    }));

    assert!(filter_items("zzz-no-such-command").is_empty());
    let by_id = filter_items("NEW-CHAT");
    assert_eq!(by_id.len(), 1);
    assert_eq!(by_id[0].id, "new-chat");
}

#[test]
fn filter_matches_id_label_or_hint() {
    let by_hint = filter_items("ctrl+n");
    assert_eq!(by_hint.len(), 1);
    assert_eq!(by_hint[0].id, "new-chat");

    let by_label = filter_items("toggle inspector");
    assert_eq!(by_label.len(), 1);
    assert_eq!(by_label[0].id, "toggle-inspector");

    let by_id = filter_items("toggle-chats");
    assert_eq!(by_id.len(), 1);
    assert_eq!(by_id[0].action, ClientAction::ToggleLeft);
}

#[test]
fn move_wraps() {
    let mut state = PaletteState::new();
    let n = filter_items(&state.query).len();
    assert!(n >= 2);
    assert_eq!(state.selected, 0);

    state.move_up();
    assert_eq!(state.selected, n - 1);
    assert_eq!(
        state.active_item().map(|item| item.id),
        Some(filter_items("")[n - 1].id)
    );

    state.move_down();
    assert_eq!(state.selected, 0);
    assert_eq!(state.active_item().unwrap().id, "new-chat");

    for _ in 0..n {
        state.move_down();
    }
    assert_eq!(state.selected, 0);

    state.selected = n + 3;
    state.move_down();
    assert_eq!(state.selected, 1);
    state.selected = n + 3;
    state.move_up();
    assert_eq!(state.selected, n - 1);
}

#[test]
fn close_clears_query() {
    let mut state = PaletteState::new();
    state.toggle();
    assert!(state.open);
    state.set_query("mcp");
    state.selected = 2;
    assert!(!state.query.is_empty());
    assert_ne!(state.selected, 0);

    state.close();
    assert!(!state.open);
    assert!(state.query.is_empty());
    assert_eq!(state.selected, 0);

    state.toggle();
    state.set_query("points");
    state.selected = 2;
    state.toggle();
    assert!(!state.open);
    assert!(state.query.is_empty());
    assert_eq!(state.selected, 0);
}

#[test]
fn set_query_resets_selected_and_active_item() {
    let mut state = PaletteState::new();
    state.selected = 4;
    state.set_query("points");
    assert_eq!(state.selected, 0);
    let active = state.active_item().expect("points row");
    assert_eq!(active.id, "points");
    assert_eq!(
        active.action,
        ClientAction::SelectTab(InspectorTab::Checkpoints)
    );

    state.set_query("zzz-no-such-command");
    assert_eq!(state.selected, 0);
    assert_eq!(state.active_item(), None);
    state.move_down();
    state.move_up();
    assert_eq!(state.selected, 0);
    assert_eq!(state.active_item(), None);
}

#[test]
fn default_state_is_closed() {
    let state = PaletteState::new();
    assert_eq!(state, PaletteState::default());
    assert!(!state.open);
    assert!(state.query.is_empty());
    assert_eq!(state.selected, 0);
}

#[test]
fn palette_filter_includes_files_and_threads() {
    let mut ws = multiplexer::workspace::Workspace::new("p", "m");
    ws.threads[0].title = "Fix search".into();
    ws.set_files(vec!["src/main.rs".into()]);

    let search_hits = multiplexer::palette::palette_hits(&ws, "search");
    assert!(search_hits
        .iter()
        .any(|h| { h.kind == multiplexer::search::SearchKind::Thread && h.title == "Fix search" }));

    let file_hits = multiplexer::palette::palette_hits(&ws, "main.rs");
    assert!(file_hits
        .iter()
        .any(|h| h.kind == multiplexer::search::SearchKind::File && h.title.contains("main.rs")));

    let empty = multiplexer::palette::palette_hits(&ws, "");
    assert!(empty.iter().any(|h| h.kind == multiplexer::search::SearchKind::Command));
}

#[test]
fn no_select_tab_rows_for_git_terminal_or_skills() {
    let items = default_items();
    for tab in [InspectorTab::Git, InspectorTab::Terminal, InspectorTab::Skills] {
        assert!(items.iter().all(|it| it.action != ClientAction::SelectTab(tab)));
    }
    assert!(items.iter().any(|it| it.action == ClientAction::RunTerminal));
    assert!(items.iter().any(|it| it.action == ClientAction::RefreshGit));
}
