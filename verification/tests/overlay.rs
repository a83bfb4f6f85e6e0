use multiplexer::overlay::{OverlayFlags, OverlayKind};

#[test]
fn exclusive_replaces_stack() {
    let mut f = OverlayFlags::default();
    f.open(OverlayKind::Palette);
    f.open(OverlayKind::Help);
    assert!(f.palette && f.help);
    assert!(!f.is_exclusive());
    assert_eq!(f.top(), Some(OverlayKind::Palette));

    f.open(OverlayKind::Settings);
    assert!(f.settings);
    assert!(!f.palette && !f.help && !f.search);
    assert!(f.is_exclusive());
    assert_eq!(f.top(), Some(OverlayKind::Settings));

    f.open(OverlayKind::Search);
    assert!(f.search && !f.settings);
    assert_eq!(f.top(), Some(OverlayKind::Search));

    f.open(OverlayKind::Palette);
    assert!(f.palette && !f.search && !f.settings);
    assert_eq!(f.top(), Some(OverlayKind::Palette));
}

#[test]
fn help_and_palette_stack() {
    let mut f = OverlayFlags::default();
    f.open(OverlayKind::Help);
    f.open(OverlayKind::Palette);
    assert!(f.palette && f.help);
    assert_eq!(f.top(), Some(OverlayKind::Palette));
    assert_eq!(f.pop(), Some(OverlayKind::Palette));
    assert!(f.help && !f.palette);
    assert_eq!(f.pop(), Some(OverlayKind::Help));
    assert_eq!(f.pop(), None);
    assert!(!f.any());
}

#[test]
fn toggle_closes_same_kind() {
    let mut f = OverlayFlags::default();
    f.toggle(OverlayKind::Settings);
    assert!(f.settings);
    f.toggle(OverlayKind::Settings);
    assert!(!f.settings);
    f.toggle(OverlayKind::Search);
    assert!(f.search);
    f.toggle(OverlayKind::Palette);
    assert!(f.palette && !f.search);
}

#[test]
fn close_only_that_flag() {
    let mut f = OverlayFlags {
        palette: true,
        help: true,
        settings: false,
        search: false,
    };
    f.close(OverlayKind::Help);
    assert!(f.palette && !f.help);
    f.close(OverlayKind::Palette);
    assert!(!f.any());
    f.close(OverlayKind::Settings);
    assert!(!f.settings);
}

#[test]
fn contains_and_default() {
    let f = OverlayFlags::default();
    assert!(!f.contains(OverlayKind::Palette));
    assert!(!f.contains(OverlayKind::Help));
    assert!(!f.contains(OverlayKind::Settings));
    assert!(!f.contains(OverlayKind::Search));
    assert_eq!(f.top(), None);
    assert!(!f.any());
    assert!(!f.is_exclusive());
    assert!(OverlayFlags {
        palette: true,
        ..OverlayFlags::default()
    }
    .any());
    assert!(OverlayFlags {
        help: true,
        ..OverlayFlags::default()
    }
    .any());
    assert!(OverlayFlags {
        settings: true,
        ..OverlayFlags::default()
    }
    .any());
    assert!(OverlayFlags {
        search: true,
        ..OverlayFlags::default()
    }
    .any());
}

#[test]
fn settings_beats_search_on_top_if_both() {
    let f = OverlayFlags {
        palette: true,
        help: true,
        settings: true,
        search: true,
    };
    assert_eq!(f.top(), Some(OverlayKind::Settings));
    let search_only = OverlayFlags {
        palette: true,
        help: true,
        settings: false,
        search: true,
    };
    assert_eq!(search_only.top(), Some(OverlayKind::Search));
}
