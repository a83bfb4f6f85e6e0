use multiplexer::connection::ConnectionState;
use multiplexer::review::{
    cap_text, context_strip, git_ahead_behind, git_diff_line, git_dirty, git_header,
    handshake_state, working_copy, DIFF_TEXT_CAP,
};

#[test]
fn working_copy_formats_seconds_and_minutes() {
    assert_eq!(working_copy(0), "Grok is working · 0s");
    assert_eq!(working_copy(9), "Grok is working · 9s");
    assert_eq!(working_copy(60), "Grok is working · 1m 0s");
    assert_eq!(working_copy(75), "Grok is working · 1m 15s");
    assert_ne!(working_copy(5), working_copy(6));
    assert!(context_strip().contains("new process"));
    assert!(!context_strip().contains("streaming"));
}

#[test]
fn handshake_needs_both() {
    assert_eq!(handshake_state(true, true), ConnectionState::Ready);
    assert_eq!(handshake_state(true, false), ConnectionState::Connecting);
    assert_eq!(handshake_state(false, true), ConnectionState::Connecting);
    assert_eq!(handshake_state(false, false), ConnectionState::Disconnected);
    assert_ne!(handshake_state(true, false), handshake_state(true, true));
}

#[test]
fn ahead_behind_and_dirty() {
    let st = "## main...origin/main [ahead 2, behind 1]\n M src/lib.rs\n";
    assert_eq!(git_ahead_behind(st), Some((2, 1)));
    assert_eq!(
        git_ahead_behind("## main...origin/main [ahead 3]"),
        Some((3, 0))
    );
    assert_eq!(
        git_ahead_behind("## main...origin/main [behind 4]"),
        Some((0, 4))
    );
    assert!(git_dirty(st));
    assert_eq!(git_ahead_behind("## main"), None);
    assert!(!git_dirty("## main\n"));
    assert!(!git_dirty(""));
    let header = git_header("C:/repo", "feat", st);
    assert!(header.contains("C:/repo"));
    assert!(header.contains("feat"));
    assert!(header.contains("dirty"));
    assert!(header.contains("ahead 2 behind 1"));
    let clean = git_header("C:/repo", "main", "## main");
    assert!(clean.contains("clean"));
    assert!(clean.contains("even"));
}

#[test]
fn cap_text_and_diff_line() {
    assert_eq!(cap_text("abc", 8), "abc");
    assert_eq!(cap_text("abcdef", 3), "abc…");
    let clipped = cap_text("ééé", 2);
    assert!(clipped.ends_with('…'));
    assert!(clipped.starts_with('é'));
    assert_ne!(clipped, "ééé");
    assert!(cap_text("", 10).is_empty());
    assert!(cap_text("abc", 0).is_empty());
    assert_eq!(git_diff_line("src/a.rs"), "git diff -- src/a.rs");
    assert_ne!(git_diff_line("a"), git_diff_line("b"));
    assert_eq!(DIFF_TEXT_CAP, 64 * 1024);
}
