use multiplexer::keys::{pty_input, pty_key_bytes, pty_paste_bytes, validate_pty_size};
use multiplexer::terminal::{command_line, visible_pty_text, TerminalError, TerminalId, TerminalSpec};

#[test]
fn simple_argv_is_space_separated() {
    assert_eq!(
        command_line("cmd.exe", &["/C", "echo", "mux-conpty"]),
        "cmd.exe /C echo mux-conpty"
    );
    assert_ne!(
        command_line("cmd.exe", &["/C", "echo", "mux-conpty"]),
        "cmd.exe /C echo"
    );
}

#[test]
fn spaces_and_empty_are_quoted() {
    assert_eq!(
        command_line(r"C:\Program Files\grok.exe", &[]),
        r#""C:\Program Files\grok.exe""#
    );
    assert_eq!(command_line("grok", &[""]), "grok \"\"");
    assert_eq!(command_line("grok", &["say hi"]), "grok \"say hi\"");
    assert_ne!(command_line("grok", &["say hi"]), "grok say hi");
}

#[test]
fn embedded_quotes_are_escaped() {
    assert_eq!(
        command_line("grok", &[r#"say "hi""#]),
        r#"grok "say \"hi\"""#
    );
    assert_eq!(command_line("p", &[r#"a \"b"#]), "p \"a \\\\\\\"b\"");
    assert_eq!(
        command_line("p", &[r"C:\Program Files\"]),
        "p \"C:\\Program Files\\\\\""
    );
    assert_ne!(
        command_line("p", &[r"C:\Program Files\"]),
        "p \"C:\\Program Files\\\""
    );
    assert_ne!(command_line("p", &[r#"a \"b"#]), "p \"a \\\"b\"");
}

#[test]
fn display_includes_id() {
    let err = TerminalError::NotFound(TerminalId::from("term-9"));
    assert_eq!(err.to_string(), "not found: term-9");
    assert_eq!(err, TerminalError::NotFound(TerminalId::from("term-9")));
    assert_ne!(err, TerminalError::NotFound(TerminalId::from("term-1")));
}

#[test]
fn spawn_and_io_display() {
    let spawn = TerminalError::Spawn {
        program: "cmd.exe".into(),
        message: "not found".into(),
    };
    assert_eq!(spawn.to_string(), "spawn `cmd.exe`: not found");
    assert_eq!(
        TerminalError::Io("stdin closed".into()).to_string(),
        "stdin closed"
    );
    assert_ne!(spawn, TerminalError::Io("stdin closed".into()));
}

#[test]
fn display_and_from() {
    let id = TerminalId::from("term-1");
    assert_eq!(id.as_str(), "term-1");
    assert_eq!(id.to_string(), "term-1");
    assert_eq!(id.0, "term-1");
    assert_eq!(TerminalId::from(&String::from("term-2")).0, "term-2");
    assert_eq!(format!("{}", id.to_string()), "term-1");
    assert_ne!(TerminalId::from("term-1"), TerminalId::from("term-2"));
}

#[test]
fn named_keys_are_control_bytes() {
    assert_eq!(pty_key_bytes("enter", None).unwrap(), b"\r");
    assert_eq!(pty_key_bytes("backspace", None).unwrap(), vec![0x7f]);
    assert_eq!(pty_key_bytes("tab", None).unwrap(), b"\t");
    assert_eq!(pty_key_bytes("space", Some("x")).unwrap(), b" ");
    assert_eq!(pty_key_bytes("escape", None).unwrap(), b"\x1b");
    assert_eq!(pty_key_bytes("left", None).unwrap(), b"\x1b[D");
    assert_eq!(pty_key_bytes("right", None).unwrap(), b"\x1b[C");
    assert_eq!(pty_key_bytes("up", None).unwrap(), b"\x1b[A");
    assert_eq!(pty_key_bytes("down", None).unwrap(), b"\x1b[B");
    assert_eq!(pty_key_bytes("home", None).unwrap(), b"\x1b[H");
    assert_eq!(pty_key_bytes("end", None).unwrap(), b"\x1b[F");
    assert_eq!(pty_key_bytes("delete", None).unwrap(), b"\x1b[3~");
    assert_eq!(pty_key_bytes("pageup", None).unwrap(), b"\x1b[5~");
    assert_eq!(pty_key_bytes("pagedown", None).unwrap(), b"\x1b[6~");
    assert_ne!(pty_key_bytes("enter", None).unwrap(), b"\n");
    assert_ne!(pty_key_bytes("left", None).unwrap(), b"\x1b[C");
    assert_ne!(pty_key_bytes("up", None).unwrap(), b"\x1b[B");
    assert!(pty_key_bytes("f1", None).is_none());
    assert_eq!(pty_key_bytes("x", Some("a")).unwrap(), b"a");
    assert_eq!(pty_key_bytes("x", Some("\n")).unwrap(), b"\r");
    assert_eq!(pty_key_bytes("x", Some("\r")).unwrap(), b"\r");
    assert!(pty_key_bytes("x", Some("")).is_none());
    assert!(pty_key_bytes("x", None).is_none());
    assert_eq!(pty_input("c", None, true).unwrap(), vec![0x03]);
    assert_eq!(pty_input("d", None, true).unwrap(), vec![0x04]);
    assert_eq!(pty_input("z", None, true).unwrap(), vec![0x1a]);
    assert_eq!(pty_input("unknown", Some("c"), true).unwrap(), vec![0x03]);
    assert_ne!(pty_input("c", None, true).unwrap(), b"c");
    assert!(pty_input("c", None, false).is_none());
    assert!(pty_input("1", None, true).is_none());
    assert!(pty_input("left", None, true).is_none());
    assert_eq!(pty_paste_bytes("ab\ncd\r\nef\r"), b"ab\rcd\ref\r");
    assert_eq!(pty_paste_bytes("plain"), b"plain");
    assert_ne!(pty_paste_bytes("a\nb"), b"a\nb");
    assert_ne!(pty_paste_bytes("a\r\nb"), b"a\r\nb");
}

#[test]
fn pty_size_rejects_zero_and_i16_overflow() {
    assert!(validate_pty_size(0, 24).is_err());
    assert!(validate_pty_size(80, 0).is_err());
    assert_eq!(validate_pty_size(80, 24).unwrap(), (80, 24));
    assert!(validate_pty_size(i16::MAX as u16, 1).is_ok());
    assert!(validate_pty_size(1, i16::MAX as u16).is_ok());
    assert!(validate_pty_size(i16::MAX as u16 + 1, 1).is_err());
    assert!(validate_pty_size(1, i16::MAX as u16 + 1).is_err());
    assert_eq!(
        validate_pty_size(i16::MAX as u16, i16::MAX as u16).unwrap(),
        (i16::MAX as u16, i16::MAX as u16)
    );
    assert_ne!(validate_pty_size(80, 24).unwrap(), (0, 0));
}

#[test]
fn visible_pty_text_strips_csi() {
    assert_eq!(visible_pty_text("\u{1b}[32mhello\u{1b}[0m\r\n"), "hello\n");
    assert_eq!(visible_pty_text("plain"), "plain");
    assert_eq!(visible_pty_text(""), "");
    assert_eq!(visible_pty_text("\r\r"), "");
    assert_eq!(visible_pty_text("\u{1b}]0;title\u{7}ok"), "ok");
    assert_eq!(visible_pty_text("a\u{1b}[1mb"), "ab");
    assert_ne!(visible_pty_text("\u{1b}[1mX"), "\u{1b}[1mX");
    assert_ne!(visible_pty_text("hi\r\n"), "hi\r\n");
}

#[test]
fn new_stores_fields() {
    let spec = TerminalSpec::new(80, 24, "/tmp");
    assert_eq!(spec.cols, 80);
    assert_eq!(spec.rows, 24);
    assert_eq!(std::path::PathBuf::from(&spec.cwd), std::path::PathBuf::from("/tmp"));
    assert_ne!(spec, TerminalSpec::new(81, 24, "/tmp"));
    assert_ne!(spec, TerminalSpec::new(80, 25, "/tmp"));
    assert_ne!(spec, TerminalSpec::new(80, 24, "/other"));
}

#[test]
fn captured_lines_drop_their_endings() {
    assert_eq!(multiplexer::terminal::capture_line(b"mux ok\r\n"), "mux ok");
    assert_eq!(multiplexer::terminal::capture_line(b"plain\n"), "plain");
    assert_eq!(multiplexer::terminal::capture_line(b"no end"), "no end");
    assert_eq!(multiplexer::terminal::capture_line(b"cr only\r"), "cr only");
    assert_eq!(multiplexer::terminal::capture_line(b"two\n\n"), "two\n");
    assert_eq!(multiplexer::terminal::capture_line(b"bad \xff byte\n"), "bad \u{fffd} byte");
}
