use multiplexer::notices::{
    auto_dismisses, dismiss_newest, dismiss_notice, push_notice, visible_notices, NoticeKind,
    NOTICE_AUTO_MS, NOTICE_CAP, NOTICE_PAINT,
};

#[test]
fn push_caps_at_eight_and_dismisses() {
    let mut notices = Vec::new();
    let mut next = 1;
    for i in 0..9 {
        push_notice(&mut notices, &mut next, NoticeKind::Info, format!("n{i}"));
    }
    assert_eq!(notices.len(), NOTICE_CAP);
    assert_eq!(notices[0].text, "n1");
    assert_eq!(notices[7].text, "n8");
    assert!(dismiss_notice(&mut notices, 3));
    assert_eq!(notices.len(), 7);
    assert!(!dismiss_notice(&mut notices, 3));
    assert_ne!(notices[0].kind, NoticeKind::Danger);
    assert_eq!(NOTICE_CAP, 8);
    assert_eq!(NOTICE_PAINT, 3);
    assert_eq!(NOTICE_AUTO_MS, 4000);
}

#[test]
fn visible_is_last_three() {
    let mut notices = Vec::new();
    let mut next = 1;
    assert!(visible_notices(&notices).is_empty());
    for i in 0..5 {
        push_notice(&mut notices, &mut next, NoticeKind::Warn, format!("n{i}"));
    }
    let vis = visible_notices(&notices);
    assert_eq!(vis.len(), 3);
    assert_eq!(vis[0].text, "n2");
    assert_eq!(vis[2].text, "n4");
    assert!(dismiss_newest(&mut notices));
    assert_eq!(notices.last().map(|n| n.text.as_str()), Some("n3"));
    notices.clear();
    assert!(!dismiss_newest(&mut notices));
}

#[test]
fn auto_dismiss_kinds() {
    assert!(auto_dismisses(NoticeKind::Info));
    assert!(auto_dismisses(NoticeKind::Good));
    assert!(!auto_dismisses(NoticeKind::Warn));
    assert!(!auto_dismisses(NoticeKind::Danger));
}
