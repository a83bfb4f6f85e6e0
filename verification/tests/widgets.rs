use multiplexer::widgets::{
    empty_state_tiles, BadgeSpec, ButtonKind, ButtonSpec, EmptyStateSpec, ListRowSpec, TabSpec, Tone,
    HEIGHT_CARD, HEIGHT_COMFORT, HEIGHT_COMPACT, HEIGHT_RAIL, HEIGHT_ROW, HEIGHT_TITLE,
};

#[test]
fn selected_row_is_not_equal_idle() {
    let idle = ListRowSpec::new("a", "Alpha");
    let mut on = idle.clone();
    on.selected = true;
    assert_ne!(idle, on);
    assert_eq!(idle.height(), HEIGHT_CARD);
    assert_eq!(
        ListRowSpec {
            expanded: true,
            ..idle.clone()
        }
        .height(),
        HEIGHT_CARD
    );
}

#[test]
fn badge_tone_changes_label() {
    let n = BadgeSpec::new(Tone::Neutral, "idle");
    let g = BadgeSpec::new(Tone::Good, "ready");
    assert_ne!(n.tone, g.tone);
    assert_ne!(n.text, g.text);
    assert_eq!(g.tone, Tone::Good);
}

#[test]
fn empty_state_has_action() {
    let e = EmptyStateSpec::chat();
    assert!(!e.action.is_empty());
    assert!(!e.title.is_empty());
    assert_eq!(empty_state_tiles().len(), 4);
    assert_eq!(ButtonSpec::icon("⌘", "palette").height(), HEIGHT_COMPACT);
    assert_eq!(
        ButtonSpec::primary("Send", "enter").kind,
        ButtonKind::Primary
    );
}

#[test]
fn kit_heights_are_32_36_44_56() {
    assert_eq!(HEIGHT_COMPACT, 32);
    assert_eq!(HEIGHT_ROW, 36);
    assert_eq!(HEIGHT_COMFORT, 44);
    assert_eq!(HEIGHT_TITLE, 48);
    assert_eq!(HEIGHT_RAIL, 48);
    assert_eq!(HEIGHT_CARD, 56);
    assert_eq!(TabSpec::height(), HEIGHT_ROW);
    assert_eq!(ButtonSpec::icon("⌘", "palette").height(), HEIGHT_COMPACT);
    assert_eq!(ButtonSpec::ghost("Hide", "h").height(), HEIGHT_COMPACT);
    assert_eq!(
        ButtonSpec::primary("Send", "enter").height(),
        HEIGHT_COMFORT
    );
    let danger = ButtonSpec {
        kind: ButtonKind::Danger,
        label: "Deny".into(),
        hint: "n".into(),
        icon: String::new(),
        enabled: true,
        busy: false,
    };
    assert_eq!(danger.height(), HEIGHT_COMFORT);
    let idle = ListRowSpec::new("a", "Alpha");
    assert_eq!(idle.height(), HEIGHT_CARD);
    assert_eq!(
        ListRowSpec {
            expanded: true,
            ..idle
        }
        .height(),
        HEIGHT_CARD
    );
}

#[test]
fn empty_tiles_include_run_the_tests() {
    let tiles = empty_state_tiles();
    assert_eq!(
        tiles,
        [
            "What can you do?",
            "Summarize this repo",
            "git status",
            "Run the tests",
        ]
    );
    assert_eq!(EmptyStateSpec::tiles(), tiles);
    assert!(tiles.contains(&"Run the tests"));
}
