use multiplexer::menus::{items, menu_for, MenuKind};

#[test]
fn thread_menu_has_open_pin_delete() {
    let m = menu_for(MenuKind::Thread, "thr-1");
    assert_eq!(m.target, "thr-1");
    let ids: Vec<_> = m.items.iter().map(|i| i.id).collect();
    assert!(ids.contains(&"open"));
    assert!(ids.contains(&"pin"));
    assert!(ids.contains(&"delete"));
    assert!(ids.contains(&"copy-id"));
    assert!(!ids.contains(&"apply"));
    assert_eq!(m.kind, MenuKind::Thread);
}

#[test]
fn file_mcp_diff_menus_are_distinct() {
    let f = items(MenuKind::File);
    let m = items(MenuKind::Mcp);
    let d = items(MenuKind::Diff);
    assert!(f.iter().any(|i| i.id == "reveal"));
    assert!(m.iter().any(|i| i.id == "start"));
    assert!(d.iter().any(|i| i.label == "Open external"));
    assert_ne!(f.len(), m.len());
    assert!(m.len() > d.len());
    assert!(f.iter().all(|i| !i.label.is_empty()));
}
