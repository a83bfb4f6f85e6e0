use multiplexer::connection::ConnectionState;
use multiplexer::desktop::{DesktopChrome, DEFAULT_WINDOW_TITLE};

#[test]
fn default_title_is_multiplexer_literal() {
    assert_eq!(DEFAULT_WINDOW_TITLE, "Multiplexer");
    assert_eq!(DesktopChrome::default_outlook().title, "Multiplexer");
    assert_ne!(DesktopChrome::default_outlook().title, "multiplexer");
    assert_ne!(DesktopChrome::default_outlook().title, "");
}

#[test]
fn default_connection_is_disconnected() {
    let chrome = DesktopChrome::default_outlook();
    assert_eq!(chrome.connection, ConnectionState::Disconnected);
    assert!(!chrome.connection.is_connected());
    assert_eq!(chrome.connection.session_count(), 0);
    assert_eq!(chrome.connection_label(), "Multiplexer · disconnected");
}

#[test]
fn connection_lifecycle_updates_label_and_count() {
    let mut chrome = DesktopChrome::default_outlook();
    chrome.mark_connecting();
    assert_eq!(chrome.connection.status_label(), "connecting");
    chrome.mark_connected(vec!["sess-1".into(), "sess-2".into()]);
    assert!(chrome.connection.is_connected());
    assert_eq!(chrome.connection.session_count(), 2);
    assert_eq!(chrome.connection_label(), "Multiplexer · connected");
    chrome.mark_disconnected();
    assert!(!chrome.connection.is_connected());
    assert_eq!(chrome.connection.session_count(), 0);
}

#[test]
fn hello_frame_uses_title() {
    let chrome = DesktopChrome::default_outlook();
    assert_eq!(chrome.hello_frame_label(), "Hello, Multiplexer");
    let custom = DesktopChrome {
        title: "Other".to_owned(),
        connection: ConnectionState::Disconnected,
    };
    assert_eq!(custom.hello_frame_label(), "Hello, Other");
}

#[test]
fn connecting_without_sessions_is_ready() {
    let mut chrome = DesktopChrome::default_outlook();
    chrome.mark_connected(Vec::new());
    assert_eq!(chrome.connection, ConnectionState::Ready);
    assert_eq!(chrome.connection_label(), "Multiplexer · ready");
}

#[test]
fn shell_chrome_title_is_multiplexer() {
    let chrome = DesktopChrome::default_outlook();
    assert_eq!(DEFAULT_WINDOW_TITLE, "Multiplexer");
    assert_eq!(chrome.title, "Multiplexer");
    assert_eq!(chrome.title, DEFAULT_WINDOW_TITLE);
}
