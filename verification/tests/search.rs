use multiplexer::search::{search_workspace, SearchKind};
use multiplexer::workspace::Workspace;

#[test]
fn search_finds_thread_file_and_command() {
    let mut ws = Workspace::new("p", "m");
    ws.threads[0].title = "Fix palette".into();
    ws.set_files(vec!["src/lib.rs".into(), "Cargo.toml".into()]);
    assert!(search_workspace(&ws, "").is_empty());
    let hits = search_workspace(&ws, "pal");
    assert!(hits.iter().any(|h| h.kind == SearchKind::Thread));
    assert!(hits.iter().any(|h| h.kind == SearchKind::Command));
    let files = search_workspace(&ws, "lib.rs");
    assert_eq!(files.len(), 1);
    assert_eq!(files[0].kind, SearchKind::File);
    assert!(search_workspace(&ws, "zzz-none").is_empty());
}

#[test]
fn search_hits_rank_files_threads_commands() {
    let mut ws = Workspace::new("p", "m");
    ws.threads[0].title = "Alpha thread".into();
    ws.set_files(vec!["src/main.rs".into(), "Cargo.toml".into()]);
    let hits = search_workspace(&ws, "a");
    assert!(hits.iter().any(|h| h.kind == SearchKind::File));
    assert!(hits.iter().any(|h| h.kind == SearchKind::Thread));
    assert!(hits.iter().any(|h| h.kind == SearchKind::Command));
}

#[test]
fn search_trims_and_ignores_ascii_case() {
    let mut ws = Workspace::new("p", "m");
    ws.threads[0].title = "Refactor Parser".into();
    let hits = search_workspace(&ws, "  PARSER ");
    assert_eq!(hits.len(), 1);
    assert_eq!(hits[0].kind, SearchKind::Thread);
    assert_eq!(hits[0].id, "thr-1");
    assert_eq!(hits[0].hint, "thread");
    assert!(search_workspace(&ws, "   ").is_empty());
}
