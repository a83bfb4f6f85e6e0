use multiplexer::icons::{lucide_for_gpui, BrandIcon, ChromeGlyph};

#[test]
fn brand_from_name_github() {
    assert_eq!(BrandIcon::from_name("github"), Some(BrandIcon::Github));
    assert_eq!(
        BrandIcon::from_name("npx @linear/mcp"),
        Some(BrandIcon::Linear)
    );
    assert_eq!(BrandIcon::from_name("unknown-tool"), None);
    assert_ne!(
        BrandIcon::from_name("docker"),
        BrandIcon::from_name("slack")
    );
}

#[test]
fn chrome_glyph_catalog() {
    assert_eq!(ChromeGlyph::all().len(), 24);
    assert_eq!(ChromeGlyph::Palette.mark(), "⌘");
    assert!(!ChromeGlyph::Chat.mark().is_empty());
    let mut files = std::collections::BTreeSet::new();
    for g in ChromeGlyph::all() {
        assert!(!g.mark().is_empty());
        let file = g.icon_file();
        assert!(file.starts_with("icons/"), "{file}");
        assert!(file.ends_with(".svg"), "{file}");
        assert!(files.insert(file), "duplicate icon {file}");
    }
    assert_eq!(ChromeGlyph::Chat.icon_file(), "icons/message-square.svg");
    assert_ne!(
        ChromeGlyph::Chat.icon_file(),
        ChromeGlyph::Folder.icon_file()
    );
    let painted = lucide_for_gpui("stroke=\"currentColor\" fill=\"none\"");
    assert!(painted.contains("#000000"));
    assert!(!painted.contains("currentColor"));
    assert_ne!(painted, "stroke=\"currentColor\" fill=\"none\"");
}

#[test]
fn brand_asset_path_uses_slug() {
    assert_eq!(
        BrandIcon::Github.asset_path(),
        "assets/brands/github-light.png"
    );
    assert_eq!(BrandIcon::all().len(), 10);
}
