use multiplexer::persist::{
    about_info, apply_deep_link, first_run_done_in, parse_rail, rail_name, crash_journal_from_json, crash_journal_to_json,
    crash_restore_notice, CrashJournal, CrashThread, first_run_keychain_notice,
    journal_from_workspace, leaf_name, parse_deep_link, thread_leaf_title, DeepLink,
};
use multiplexer::workspace::{RailVis, Workspace};

#[test]
fn leaf_name_takes_last_segment() {
    assert_eq!(leaf_name("C:\\repo\\src\\main.rs"), "main.rs");
    assert_eq!(leaf_name("/home/u/proj/lib.rs"), "lib.rs");
    assert_eq!(leaf_name("src/"), "src");
    assert_eq!(leaf_name("plain"), "plain");
    assert_ne!(leaf_name("a/b/c"), "a/b/c");
    assert_eq!(leaf_name(""), "");
    assert_eq!(leaf_name("  "), "");
}

#[test]
fn thread_leaf_never_shows_raw_id() {
    assert_eq!(thread_leaf_title("Hello", "thr-1"), "Hello");
    assert_eq!(thread_leaf_title("thr-2", "thr-2"), "New chat");
    assert_eq!(thread_leaf_title("thr-9", "other"), "New chat");
    assert_eq!(thread_leaf_title("", "thr-9"), "New chat");
    assert_eq!(thread_leaf_title("  ", "thr-9"), "New chat");
    assert_ne!(thread_leaf_title("Build it", "thr-1"), "thr-1");
}

#[test]
fn deep_links_parse_three_kinds() {
    assert_eq!(
        parse_deep_link("multiplexer://pair"),
        Some(DeepLink::Pair { hint: None })
    );
    assert_eq!(
        parse_deep_link("multiplexer://pair?code=abc"),
        Some(DeepLink::Pair {
            hint: Some("abc".into())
        })
    );
    assert_eq!(
        parse_deep_link("multiplexer://session?id=thr-1"),
        Some(DeepLink::Session {
            id: Some("thr-1".into())
        })
    );
    assert_eq!(
        parse_deep_link("multiplexer://open?path=src/lib.rs"),
        Some(DeepLink::Open {
            path: Some("src/lib.rs".into())
        })
    );
    assert_eq!(
        parse_deep_link("multiplexer://pair?code="),
        Some(DeepLink::Pair { hint: None })
    );
    assert_eq!(
        parse_deep_link("multiplexer://pair?foo=bar"),
        Some(DeepLink::Pair { hint: None })
    );
    assert_eq!(
        parse_deep_link("multiplexer://pair?&x"),
        Some(DeepLink::Pair {
            hint: Some("x".into())
        })
    );
    assert_eq!(parse_deep_link("https://example.com"), None);
    assert_eq!(parse_deep_link("multiplexer://"), None);
    assert_eq!(parse_deep_link("multiplexer://nope"), None);
    assert_eq!(
        parse_deep_link("  multiplexer://PAIR/  ")
            .unwrap()
            .kind_label(),
        "pair"
    );
}

#[test]
fn about_never_claims_updates() {
    let a = about_info(None);
    assert_eq!(a.updates, "not shipped");
    assert_eq!(a.license, "Apache-2.0");
    assert!(a.grok_path.contains("not detected"));
    assert!(!a.lines().to_lowercase().contains("up to date"));
    let with = about_info(Some("C:\\bin\\grok.exe"));
    assert!(with.grok_path.contains("grok.exe"));
    assert_ne!(with.grok_path, a.grok_path);
    assert!(!a.version.is_empty());
    assert_eq!(a.sha, "dev");
    let lines = a.lines();
    assert!(lines.contains(&a.version));
    assert!(lines.contains("Apache-2.0"));
    assert!(lines.contains("not shipped"));
    assert!(lines.contains("SHA"));
    assert!(!lines.is_empty());
    assert_ne!(lines, "xyzzy");
}

#[test]
fn first_run_and_crash_notices_are_honest() {
    assert!(first_run_keychain_notice().contains("keychain"));
    assert!(first_run_keychain_notice().contains("never"));
    assert!(!first_run_keychain_notice().to_lowercase().contains("paste"));
    assert!(crash_restore_notice().contains("drafts"));
    assert!(crash_restore_notice().contains("not replayed"));
    assert!(!crash_restore_notice().contains("resumed"));
}

#[test]
fn pair_link_is_honest_stub() {
    let mut ws = Workspace::new("p", "m");
    let note = apply_deep_link(&mut ws, &DeepLink::Pair { hint: None });
    assert!(note.contains("later"));
    assert!(ws.notices.iter().any(|n| n.text.contains("later")));
    assert!(!note.to_lowercase().contains("paired"));
}

#[test]
fn session_and_open_links_mutate() {
    let mut ws = Workspace::new("p", "m");
    ws.new_thread();
    let id = ws.threads[0].id.clone();
    let note = apply_deep_link(
        &mut ws,
        &DeepLink::Session {
            id: Some(id.clone()),
        },
    );
    assert!(note.contains("opened"));
    assert_eq!(ws.selected, 0);
    ws.set_files(vec!["src/lib.rs".into()]);
    let open = apply_deep_link(
        &mut ws,
        &DeepLink::Open {
            path: Some("src/lib.rs".into()),
        },
    );
    assert!(open.contains("src/lib.rs"));
    assert_eq!(ws.selected_file.as_deref(), Some("src/lib.rs"));
    assert_eq!(
        apply_deep_link(&mut ws, &DeepLink::Session { id: None }),
        "session link missing id"
    );
    assert_eq!(
        apply_deep_link(&mut ws, &DeepLink::Open { path: None }),
        "open link missing path"
    );
}

#[test]
fn unknown_session_link_connects_instead() {
    let mut ws = Workspace::new("p", "m");
    let note = apply_deep_link(
        &mut ws,
        &DeepLink::Session {
            id: Some("sess-9".into()),
        },
    );
    assert_eq!(note, "session id noted sess-9");
    assert!(ws.connection.is_connected());
    assert_eq!(ws.connection.session_count(), 1);
    assert_eq!(ws.selected, 0);
}

#[test]
fn journal_copies_threads_and_drafts() {
    let mut ws = Workspace::new("p", "grok");
    ws.set_draft("hello");
    ws.send_draft();
    ws.push_assistant("hi there");
    ws.thread_drafts.push(("thr-1".into(), "next".into(), 4));
    let j = journal_from_workspace(&ws);
    assert!(j.marker);
    assert_eq!(j.threads.len(), 1);
    assert_eq!(j.threads[0].id, "thr-1");
    assert_eq!(j.threads[0].title, "hello");
    assert_eq!(j.threads[0].model, "grok");
    assert_eq!(
        j.threads[0].messages,
        vec![
            ("user".to_string(), "hello".to_string()),
            ("assistant".to_string(), "hi there".to_string())
        ]
    );
    assert_eq!(j.drafts, vec![("thr-1".to_string(), "next".to_string(), 4)]);
}

#[test]
fn crash_journal_roundtrip_and_invalid() {
    let j = CrashJournal {
        threads: vec![CrashThread {
            id: "thr-1".into(),
            title: "Hello".into(),
            status: "idle".into(),
            model: "grok".into(),
            messages: vec![("user".into(), "hi".into())],
        }],
        drafts: vec![("thr-1".into(), "draft".into(), 2)],
        marker: true,
    };
    let raw = crash_journal_to_json(&j);
    assert!(raw.contains("thr-1"));
    assert!(raw.contains("draft"));
    assert!(!raw.contains("op://"));
    let back = crash_journal_from_json(&raw);
    assert_eq!(back.threads.len(), 1);
    assert_eq!(back.threads[0].title, "Hello");
    assert_eq!(back.drafts[0].1, "draft");
    assert!(back.marker);
    assert_eq!(crash_journal_from_json("nope"), CrashJournal::default());
    let empty_id = crash_journal_from_json(r#"{"threads":[{"id":""}],"marker":false}"#);
    assert!(empty_id.threads.is_empty());
    assert!(!empty_id.marker);
    let short_msg = crash_journal_from_json(
        r#"{"threads":[{"id":"t","messages":[["only"]]}],"drafts":[["id"]],"marker":true}"#,
    );
    assert!(short_msg.threads[0].messages.is_empty());
    assert!(short_msg.drafts.is_empty());
}

#[test]
fn crash_journal_text_is_compact_sorted_json() {
    let j = CrashJournal {
        threads: vec![CrashThread {
            id: "thr-1".into(),
            title: "Say \"hi\"".into(),
            status: "idle".into(),
            model: "grok".into(),
            messages: vec![("user".into(), "a\nb".into())],
        }],
        drafts: vec![("thr-1".into(), "d".into(), 7)],
        marker: false,
    };
    assert_eq!(
        crash_journal_to_json(&j),
        r#"{"drafts":[["thr-1","d",7]],"marker":false,"threads":[{"id":"thr-1","messages":[["user","a\nb"]],"model":"grok","status":"idle","title":"Say \"hi\""}]}"#
    );
    let back = crash_journal_from_json(&crash_journal_to_json(&j));
    assert_eq!(back, j);
}

#[test]
fn crash_journal_fills_missing_fields() {
    let j = crash_journal_from_json(r#"{"threads":[{"id":"t9"}],"drafts":[["t9","x",-1],["t9","y","3"]]}"#);
    assert_eq!(j.threads.len(), 1);
    assert_eq!(j.threads[0].title, "New chat");
    assert_eq!(j.threads[0].status, "idle");
    assert_eq!(j.threads[0].model, "grok");
    assert_eq!(j.drafts, vec![("t9".to_string(), "x".to_string(), 0), ("t9".to_string(), "y".to_string(), 0)]);
    assert!(!j.marker);
}

#[test]
fn rail_names_read_back() {
    for v in [RailVis::Open, RailVis::IconRail, RailVis::Hidden] {
        assert_eq!(parse_rail(&rail_name(v)), v);
    }
    assert_eq!(rail_name(RailVis::IconRail), "icon");
    assert_eq!(parse_rail("sideways"), RailVis::Open);
}

#[test]
fn first_run_flag_text() {
    assert!(first_run_done_in(r#"{"done":true}"#));
    assert!(first_run_done_in(r#"{ "done": true }"#));
    assert!(!first_run_done_in(r#"{"done":false}"#));
    assert!(!first_run_done_in(""));
}
