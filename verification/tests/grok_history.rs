use multiplexer::grok_history::{
    apply_grok_history, encode_session_cwd, grok_history_path, grok_session_uuid,
    parse_chat_history,
};
use multiplexer::workspace::{ChatMessage, Role};

#[test]
fn uuid_is_stable_and_shaped() {
    let a = grok_session_uuid("C:/repo", "thr-1");
    let b = grok_session_uuid("C:/repo", "thr-1");
    let c = grok_session_uuid("C:/repo", "thr-2");
    assert_eq!(a, "15e1198a-711f-41cf-a080-7cc7bdfd8a5b");
    assert_eq!(a, b);
    assert_ne!(a, c);
    assert_eq!(a.len(), 36);
    assert_eq!(a.chars().filter(|ch| *ch == '-').count(), 4);
    assert_eq!(&a[14..15], "4");
    assert_ne!(grok_session_uuid("D:/x", "thr-1"), a);
    let mixed = grok_session_uuid("C:/repo", "thr-1X");
    assert_ne!(mixed, a);
    assert_ne!(&a[0..8], &c[0..8]);
}

#[test]
fn cwd_encode_matches_grok_windows_dir() {
    let got = encode_session_cwd(r"C:\Users\gollum\Development\PremierStudio\Multiplexer");
    assert!(got.starts_with("C%3A%5CUsers%5C"));
    assert!(got.ends_with("Multiplexer"));
    assert!(!got.contains('\\'));
    assert_ne!(
        got,
        r"C:\Users\gollum\Development\PremierStudio\Multiplexer"
    );
    assert_eq!(encode_session_cwd("abc"), "abc");
}

#[test]
fn history_path_joins_session_id() {
    let p = grok_history_path("H", "C:/w", "sid-1");
    assert!(
        p.ends_with("sid-1/chat_history.jsonl") || p.ends_with("sid-1\\chat_history.jsonl")
    );
    assert!(p.contains("sessions"));
}

#[test]
fn parse_user_and_assistant_and_skip_synthetic() {
    let raw = r#"
{"type":"system","content":"ignore"}
{"type":"user","content":[{"type":"text","text":"<user_query>hello there</user_query>"}]}
{"type":"user","content":"nope","synthetic_reason":"auto_continue"}
{"type":"assistant","content":[{"type":"text","text":"hi back"}]}
{"type":"tool_result","content":"no"}
"#;
    let got = parse_chat_history(raw);
    assert_eq!(got.len(), 2);
    assert_eq!(got[0].role, Role::User);
    assert_eq!(got[0].text, "hello there");
    assert_eq!(got[1].role, Role::Assistant);
    assert_eq!(got[1].text, "hi back");
    assert_ne!(got[0].text, "nope");
}

#[test]
fn apply_history_replaces_when_changed() {
    let incoming = parse_chat_history(
        r#"{"type":"user","content":"q"}
{"type":"assistant","content":"a"}"#,
    );
    let mut msgs = vec![ChatMessage {
        role: Role::User,
        text: "q".into(),
    }];
    assert!(apply_grok_history(&mut msgs, &incoming));
    assert_eq!(msgs.len(), 2);
    assert_eq!(msgs[1].text, "a");
    assert!(!apply_grok_history(&mut msgs, &incoming));
    assert!(!apply_grok_history(&mut msgs, &[]));
}

#[test]
fn history_joins_blocks_and_reads_role_field() {
    let raw = [
        r#"{"role":"assistant","content":[{"type":"text","text":"  one "},"two",{"type":"image"},"   "]}"#,
        "not json",
        r#"{"type":"user","content":"before <user_query> inner text "}"#,
        r#"{"type":"user","content":"   "}"#,
    ]
    .join("\n");
    let raw = raw.as_str();
    let got = parse_chat_history(raw);
    assert_eq!(got.len(), 2);
    assert_eq!(got[0].role, Role::Assistant);
    assert_eq!(got[0].text, "one\ntwo");
    assert_eq!(got[1].role, Role::User);
    assert_eq!(got[1].text, "inner text");
}
