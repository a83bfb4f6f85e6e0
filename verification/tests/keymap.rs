use multiplexer::actions::ClientAction;
use multiplexer::keymap::{action_from_id, action_id, is_tui_hatch, BindingTable, Chord};
use multiplexer::workspace::{InspectorTab, LeftSection};

const DEFAULT_BINDINGS: &[(&str, ClientAction)] = &[
    ("ctrl-k", ClientAction::TogglePalette),
    ("ctrl-shift-p", ClientAction::TogglePalette),
    ("ctrl-p", ClientAction::ToggleSearch),
    ("ctrl-shift-f", ClientAction::ToggleSearch),
    ("ctrl-,", ClientAction::ToggleSettings),
    ("f2", ClientAction::ToggleSettings),
    ("f1", ClientAction::ToggleHelp),
    ("ctrl-n", ClientAction::NewThread),
    ("ctrl-[", ClientAction::ToggleLeft),
    ("ctrl-]", ClientAction::ToggleRight),
    ("ctrl-b", ClientAction::ToggleLeft),
    ("ctrl-`", ClientAction::ToggleBottom),
    ("ctrl-.", ClientAction::Interrupt),
    ("ctrl-s", ClientAction::CreateCheckpoint),
    ("ctrl-shift-g", ClientAction::ToggleCenterMode),
    ("ctrl-shift-l", ClientAction::ResetOutlook),
    ("ctrl-shift-h", ClientAction::FocusLayout),
    ("ctrl-1", ClientAction::SelectLeftSection(LeftSection::Threads)),
    ("ctrl-2", ClientAction::SelectLeftSection(LeftSection::Agents)),
    ("ctrl-3", ClientAction::SelectLeftSection(LeftSection::Files)),
    ("ctrl-4", ClientAction::SelectLeftSection(LeftSection::Activity)),
    ("escape", ClientAction::CloseOverlay),
    ("enter", ClientAction::Send),
    ("ctrl-shift-d", ClientAction::PopOutInspector),
    ("ctrl-shift-e", ClientAction::DockInspector),
    ("ctrl-w", ClientAction::ClosePopOut),
    ("ctrl-tab", ClientAction::NextRegion),
    ("ctrl-alt-up", ClientAction::NudgeBottomUp),
    ("ctrl-alt-down", ClientAction::NudgeBottomDown),
];

#[test]
fn parse_roundtrip_and_normalize() {
    let p = Chord::parse("ctrl-shift-p").unwrap();
    assert!(p.ctrl && p.shift && !p.alt);
    assert_eq!(p.key, "p");
    assert_eq!(p.encode(), "ctrl-shift-p");
    assert_eq!(Chord::parse("CTRL-SHIFT-P"), Some(p.clone()));
    assert_ne!(Chord::parse("ctrl-p").unwrap(), p);

    let tick = Chord::parse("ctrl-`").unwrap();
    assert_eq!(tick.encode(), "ctrl-`");
    let oem = Chord::new("oem_3", true, false, false);
    assert_eq!(oem, tick);

    assert_eq!(Chord::parse(""), None);
    assert_eq!(Chord::parse("   "), None);
    assert_eq!(Chord::parse("ctrl-"), None);
    assert_eq!(Chord::parse("ctrl-shift-p-x"), None);
    assert!(Chord::parse("f1").unwrap().key == "f1");
    assert_eq!(Chord::parse("ctrl-,").unwrap().encode(), "ctrl-,");
    assert_eq!(Chord::parse("escape").unwrap().encode(), "escape");
    let alt = Chord::parse("ctrl-alt-shift-l").unwrap();
    assert_eq!(alt.encode(), "ctrl-shift-alt-l");
}

#[test]
fn defaults_split_ctrl_p_and_shift_p() {
    let t = BindingTable::defaults();
    assert_eq!(t.lookup_spec("ctrl-k"), Some(ClientAction::TogglePalette));
    assert_eq!(
        t.lookup_spec("ctrl-shift-p"),
        Some(ClientAction::TogglePalette)
    );
    assert_eq!(t.lookup_spec("ctrl-p"), Some(ClientAction::ToggleSearch));
    assert_eq!(
        t.lookup_spec("ctrl-shift-f"),
        Some(ClientAction::ToggleSearch)
    );
    assert_eq!(t.lookup_spec("ctrl-,"), Some(ClientAction::ToggleSettings));
    assert_eq!(t.lookup_spec("f2"), Some(ClientAction::ToggleSettings));
    assert_ne!(t.lookup_spec("ctrl-p"), t.lookup_spec("ctrl-shift-p"));
    assert_eq!(
        t.lookup_spec("ctrl-1"),
        Some(ClientAction::SelectLeftSection(LeftSection::Threads))
    );
    assert_eq!(
        t.lookup_spec("ctrl-4"),
        Some(ClientAction::SelectLeftSection(LeftSection::Activity))
    );
    assert_eq!(t.lookup_spec("escape"), Some(ClientAction::CloseOverlay));
    assert_eq!(
        t.lookup_spec("ctrl-shift-d"),
        Some(ClientAction::PopOutInspector)
    );
    assert_eq!(
        t.lookup_spec("ctrl-shift-e"),
        Some(ClientAction::DockInspector)
    );
    assert_eq!(t.lookup_spec("ctrl-w"), Some(ClientAction::ClosePopOut));
    assert_eq!(t.lookup_spec("ctrl-tab"), Some(ClientAction::NextRegion));
    assert_eq!(
        t.lookup_spec("ctrl-alt-up"),
        Some(ClientAction::NudgeBottomUp)
    );
    assert_eq!(
        t.lookup_spec("ctrl-alt-down"),
        Some(ClientAction::NudgeBottomDown)
    );
    assert_eq!(
        t.lookup_spec("ctrl-shift-l"),
        Some(ClientAction::ResetOutlook)
    );
    assert_eq!(t.lookup_spec("ctrl-b"), Some(ClientAction::ToggleLeft));
    assert!(t.len() >= 20);
    assert!(!t.is_empty());
    assert_eq!(BindingTable::default(), t);
    let empty = BindingTable::empty();
    assert!(empty.is_empty());
    assert_eq!(empty.len(), 0);
    assert_eq!(empty.lookup_spec("ctrl-k"), None);
}

#[test]
fn last_bind_wins() {
    let mut t = BindingTable::defaults();
    t.bind(Chord::parse("ctrl-p").unwrap(), ClientAction::TogglePalette);
    assert_eq!(t.lookup_spec("ctrl-p"), Some(ClientAction::TogglePalette));
    t.bind(Chord::parse("ctrl-p").unwrap(), ClientAction::ToggleSearch);
    assert_eq!(t.lookup_spec("ctrl-p"), Some(ClientAction::ToggleSearch));
    assert_eq!(
        t.lookup(&Chord::new("P", true, false, false)),
        Some(ClientAction::ToggleSearch)
    );
}

#[test]
fn from_pairs_overlays_defaults() {
    let pairs = vec![
        ("ctrl-p".into(), "command_palette".into()),
        ("nope".into(), "send".into()),
        ("ctrl-k".into(), "not-an-action".into()),
    ];
    let t = BindingTable::from_pairs(&pairs);
    assert_eq!(t.lookup_spec("ctrl-p"), Some(ClientAction::TogglePalette));
    assert_eq!(t.lookup_spec("ctrl-k"), Some(ClientAction::TogglePalette));
    assert_eq!(t.lookup_spec("f1"), Some(ClientAction::ToggleHelp));
    let encoded = t.pairs();
    assert!(encoded
        .iter()
        .any(|(c, a)| c == "ctrl-p" && a == "command_palette"));
}

#[test]
fn action_id_roundtrip_defaults() {
    for (spec, action) in DEFAULT_BINDINGS {
        let id = action_id(*action).unwrap_or_else(|| panic!("id for {spec}"));
        let back = action_from_id(id).unwrap_or_else(|| panic!("from {id}"));
        assert_eq!(back, *action, "{spec} {id}");
    }
    assert_eq!(
        action_from_id("toggle_palette"),
        Some(ClientAction::TogglePalette)
    );
    assert_eq!(action_from_id("missing"), None);
    assert_eq!(action_id(ClientAction::SelectThread(2)), None);
    assert_eq!(action_id(ClientAction::Send), Some("send"));
    assert_ne!(
        action_id(ClientAction::Send),
        action_id(ClientAction::Interrupt)
    );
}

#[test]
fn tui_hatch_is_narrow() {
    assert!(is_tui_hatch(ClientAction::ToggleCenterMode));
    assert!(is_tui_hatch(ClientAction::TogglePalette));
    assert!(is_tui_hatch(ClientAction::ToggleSettings));
    assert!(is_tui_hatch(ClientAction::ResetOutlook));
    assert!(!is_tui_hatch(ClientAction::NewThread));
    assert!(!is_tui_hatch(ClientAction::Send));
    assert!(!is_tui_hatch(ClientAction::ToggleSearch));
}

#[test]
fn written_chords_read_back() {
    for key in ["k", "p", "tab", "f5", "`", "enter"] {
        for mask in 0..8u8 {
            let c = Chord::new(key, mask & 1 != 0, mask & 2 != 0, mask & 4 != 0);
            assert_eq!(Chord::parse(&c.encode()), Some(c.clone()));
        }
    }
    assert_eq!(Chord::new("k", true, true, false).encode(), "ctrl-shift-k");
}

#[test]
fn bind_grows_only_for_a_new_chord() {
    let mut t = BindingTable::empty();
    t.bind(Chord::new("k", true, false, false), ClientAction::TogglePalette);
    assert_eq!(t.len(), 1);
    t.bind(Chord::new("k", true, false, false), ClientAction::ToggleSearch);
    assert_eq!(t.len(), 1);
    assert_eq!(t.lookup(&Chord::new("k", true, false, false)), Some(ClientAction::ToggleSearch));
    t.bind(Chord::new("j", true, false, false), ClientAction::ToggleHelp);
    assert_eq!(t.len(), 2);
    let copy = t.clone();
    assert_eq!(copy, t);
}
