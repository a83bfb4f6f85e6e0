use multiplexer::center::{CenterMode, GrokTuiHost, TuiLife};

#[test]
fn toggle_swaps_gui_and_tui() {
    assert_eq!(CenterMode::Gui.label(), "Chat log");
    assert_eq!(CenterMode::GrokTui.label(), "Grok TUI");
    assert_eq!(CenterMode::Gui.toggle(), CenterMode::GrokTui);
    assert_eq!(CenterMode::GrokTui.toggle(), CenterMode::Gui);
    assert_ne!(CenterMode::Gui, CenterMode::GrokTui);
    assert_eq!(CenterMode::default(), CenterMode::Gui);
}

#[test]
fn host_lifecycle_is_supervised_not_embedded() {
    let mut host = GrokTuiHost::idle("C:/repo");
    assert_eq!(host.life, TuiLife::Stopped);
    assert!(host.pid.is_none());
    assert!(host.note.contains("real console"));
    assert!(host.summary().contains("stopped"));

    host.mark_running(4242, "grok");
    assert_eq!(host.life, TuiLife::Running);
    assert_eq!(host.pid, Some(4242));
    assert!(host.summary().contains("4242"));
    assert!(host.summary().contains("running"));

    host.mark_exited();
    assert_eq!(host.life, TuiLife::Exited);
    assert!(host.pid.is_none());

    host.mark_failed("grok not on PATH");
    assert_eq!(host.life, TuiLife::Stopped);
    assert!(host.note.contains("PATH"));
    assert_ne!(
        host.note,
        "Grok owns the agent TUI. Multiplexer hosts it in a real console."
    );
}
