use multiplexer::actions::ClientAction;
use multiplexer::settings::{settings_from_json, settings_to_json, SettingsSection, UiSettings};
use multiplexer::theme::{Density, ThemeMode};

#[test]
fn settings_cycle_mode_and_density() {
    let mut s = UiSettings::default();
    assert_eq!(s.mode, ThemeMode::Dark);
    s.cycle_mode();
    assert_eq!(s.mode, ThemeMode::Light);
    s.cycle_mode();
    assert_eq!(s.mode, ThemeMode::Dark);
    s.cycle_density();
    assert_eq!(s.density, Density::Compact);
    s.set_default_model("grok-4.6");
    assert_eq!(s.default_model, "grok-4.6");
    s.set_default_model("  ");
    assert_eq!(s.default_model, "grok-4.6");
    assert!(!s.bindings.is_empty());
    assert_eq!(
        s.binding_table().lookup_spec("ctrl-p"),
        Some(multiplexer::actions::ClientAction::ToggleSearch)
    );
}

#[test]
fn settings_section_labels() {
    assert_eq!(SettingsSection::all().len(), 7);
    assert_eq!(SettingsSection::Appearance.label(), "Appearance");
    assert_eq!(SettingsSection::Remotes.label(), "Remotes");
    assert_eq!(SettingsSection::About.label(), "About");
    assert_ne!(
        SettingsSection::Models.label(),
        SettingsSection::Bindings.label()
    );
    assert_ne!(SettingsSection::Inspector.label(), "");
}

#[test]
fn empty_bindings_uses_defaults() {
    let mut s = UiSettings::default();
    s.bindings.clear();
    assert_eq!(
        s.binding_table().lookup_spec("ctrl-k"),
        Some(multiplexer::actions::ClientAction::TogglePalette)
    );
}

#[test]
fn json_roundtrip_and_invalid() {
    let mut s = UiSettings::default();
    s.cycle_mode();
    s.cycle_density();
    s.set_default_model("grok-4.6");
    let raw = settings_to_json(&s);
    assert!(raw.contains("\"light\""));
    assert!(raw.contains("\"compact\""));
    assert!(raw.contains("grok-4.6"));
    assert!(!raw.to_lowercase().contains("secret"));
    assert!(!raw.contains("op://"));
    let back = settings_from_json(&raw);
    assert_eq!(back.mode, ThemeMode::Light);
    assert_eq!(back.density, Density::Compact);
    assert_eq!(back.default_model, "grok-4.6");
    assert_eq!(
        back.binding_table().lookup_spec("ctrl-shift-p"),
        Some(ClientAction::TogglePalette)
    );

    let broken = settings_from_json("not-json");
    assert_eq!(broken, UiSettings::default());
    let empty_model =
        settings_from_json(r#"{"mode":"nope","density":"nope","default_model":"  "}"#);
    assert_eq!(empty_model.mode, ThemeMode::Dark);
    assert_eq!(empty_model.density, Density::Comfortable);
    assert_eq!(empty_model.default_model, "grok");
    let light_only = settings_from_json(r#"{"mode":"light"}"#);
    assert_eq!(light_only.mode, ThemeMode::Light);
    assert_eq!(light_only.density, Density::Comfortable);
    let rebound = settings_from_json(
        r#"{"bindings":[["ctrl-p","command_palette"],["not-a-pair"],["ctrl-k","help"]]}"#,
    );
    assert_eq!(
        rebound.binding_table().lookup_spec("ctrl-p"),
        Some(ClientAction::TogglePalette)
    );
    assert_eq!(
        rebound.binding_table().lookup_spec("ctrl-k"),
        Some(ClientAction::ToggleHelp)
    );
    let custom = UiSettings {
        bindings: vec![("ctrl-p".into(), "command_palette".into())],
        ..UiSettings::default()
    };
    assert_eq!(
        custom.binding_table().lookup_spec("ctrl-p"),
        Some(ClientAction::TogglePalette)
    );
    assert_ne!(
        custom.binding_table().lookup_spec("ctrl-p"),
        UiSettings::default().binding_table().lookup_spec("ctrl-p")
    );
}

#[test]
fn a11y_fields_clamp_and_toggle() {
    let mut s = UiSettings::default();
    assert!(!s.reduce_motion);
    assert!(!s.high_contrast);
    assert_eq!(s.ui_scale, 100);
    s.toggle_reduce_motion();
    s.toggle_high_contrast();
    s.set_ui_scale(50);
    assert_eq!(s.ui_scale, 100);
    s.set_ui_scale(250);
    assert_eq!(s.ui_scale, 200);
    s.set_ui_scale(125);
    assert_eq!(s.ui_scale, 125);
    s.ui_scale = 200;
    s.bump_ui_scale();
    assert_eq!(s.ui_scale, 100);
    s.bump_ui_scale();
    assert_eq!(s.ui_scale, 125);
    let raw = settings_to_json(&s);
    assert!(raw.contains("reduce_motion"));
    assert!(raw.contains("ui_scale"));
    let back = settings_from_json(&raw);
    assert!(back.reduce_motion);
    assert!(back.high_contrast);
    let scaled = settings_from_json(r#"{"ui_scale":180,"reduce_motion":true}"#);
    assert_eq!(scaled.ui_scale, 180);
    assert!(scaled.reduce_motion);
}

#[test]
fn settings_roundtrip_keeps_every_field() {
    let mut s = UiSettings::default();
    s.cycle_mode();
    s.toggle_high_contrast();
    s.set_ui_scale(175);
    s.set_default_model("grok \"beta\"");
    let back = settings_from_json(&settings_to_json(&s));
    assert_eq!(back, s);
    let big = settings_from_json(r#"{"ui_scale":70000}"#);
    assert_eq!(big.ui_scale, 200);
    let wrapped = settings_from_json(r#"{"ui_scale":65661}"#);
    assert_eq!(wrapped.ui_scale, 125);
}
