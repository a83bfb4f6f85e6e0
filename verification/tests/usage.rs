use multiplexer::usage::UsageSnapshot;

#[test]
fn usage_snapshot_formats_session_detail() {
    let mut snap = UsageSnapshot::local();
    assert_eq!(snap.turns, 0);
    assert_eq!(snap.tokens, 0);
    assert_eq!(snap.note, "local snapshot only");

    snap.bump_turn(10);
    snap.bump_turn(20);
    assert_eq!(snap.turns, 2);
    assert_eq!(snap.tokens, 30);

    let text = snap.format_lines();
    assert!(text.contains("Turns"), "session detail must name Turns");
    assert!(text.contains("Tokens"), "session detail must name Tokens");
    assert!(
        text.contains("local snapshot only"),
        "session detail must include the note"
    );
    assert!(text.contains("Turns: 2"), "{text}");
    assert!(text.contains("Tokens: 30"), "{text}");
    assert!(
        !text.contains("n/a"),
        "local snapshot prints counts, not n/a"
    );
}
