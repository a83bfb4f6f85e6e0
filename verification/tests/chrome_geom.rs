use multiplexer::chrome_geom::remotes_pill_label;

#[test]
fn remotes_pill_is_detect_not_connected() {
    assert_eq!(remotes_pill_label(false), "local");
    assert_eq!(remotes_pill_label(true), "ts detected");
    assert_ne!(remotes_pill_label(true), "local+ts");
    assert!(!remotes_pill_label(true).contains("connected"));
}
