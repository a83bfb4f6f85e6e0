use multiplexer::embed::{embed_from_selection, embed_grok, embed_surface, live_pty_takes_gui_send};
use multiplexer::workbench::SystemTerminal;

fn term(id: &str, label: &str, path: &str) -> SystemTerminal {
    SystemTerminal { id: id.into(), label: label.into(), path: path.into() }
}

#[test]
fn selection_uses_path_and_label() {
    let t = term("cmd", "Command Prompt", r"C:\Windows\System32\cmd.exe");
    let got = embed_from_selection(Some(&t), "C:/repo");
    assert_eq!(got.program, t.path);
    assert!(got.args.is_empty());
    assert_eq!(got.label, "Command Prompt");
    assert_ne!(got.program, "grok");
    assert_eq!(embed_surface(&got.label), "in-app Command Prompt");
}

#[test]
fn empty_or_missing_falls_back_to_grok() {
    assert_eq!(embed_from_selection(None, "C:/repo"), embed_grok("C:/repo"));
    let blank = term("x", "X", "   ");
    assert_eq!(
        embed_from_selection(Some(&blank), "C:/repo").program,
        "grok"
    );
    let no_label = term("zsh", "  ", "/bin/zsh");
    assert_eq!(embed_from_selection(Some(&no_label), ".").label, "zsh");
    assert_eq!(embed_grok("C:/repo").program, "grok");
    assert_eq!(embed_grok("C:/repo").label, "Grok");
    assert_ne!(embed_grok("C:/repo").label, "grok");
    assert_eq!(embed_surface("Grok"), "in-app Grok");
    assert_ne!(embed_surface("Grok"), "Grok");
}

#[test]
fn grok_skips_folder_gate_and_tool_prompts() {
    let got = embed_grok("C:/work/app");
    assert_eq!(
        got.args,
        vec!["--always-approve", "--trust", "--cwd", "C:/work/app"]
    );
    assert!(!got.args.iter().any(|a| a == "-p"));
    assert_ne!(got.args, embed_grok("D:/other").args);
    assert_eq!(embed_grok("   ").args.last().map(String::as_str), Some("."));
    assert_eq!(embed_grok("").args[2], "--cwd");
    assert_ne!(embed_grok("C:/work/app").args.len(), 0);
}

#[test]
fn gui_send_uses_live_pty_only_when_alive() {
    assert!(live_pty_takes_gui_send(true));
    assert!(!live_pty_takes_gui_send(false));
    assert_ne!(
        live_pty_takes_gui_send(true),
        live_pty_takes_gui_send(false)
    );
}
