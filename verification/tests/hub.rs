use multiplexer::hub::TerminalHub;
use multiplexer::terminal::{TerminalError, TerminalId, TerminalSpec};
use std::path::PathBuf;

fn spec(cols: u16, rows: u16) -> TerminalSpec {
    TerminalSpec::new(cols, rows, "/work")
}

#[test]
fn empty_hub_lists_nothing() {
    let hub = TerminalHub::new();
    assert!(hub.list().is_empty());
    assert_eq!(hub.get(&TerminalId::from("term-1")), None);
    assert!(!hub.is_alive(&TerminalId::from("term-1")));
    assert_eq!(hub.input_buffer(&TerminalId::from("term-1")), None);
}

#[test]
fn default_matches_new() {
    let mut a = TerminalHub::default();
    let mut b = TerminalHub::new();
    let ia = a.create(spec(80, 24));
    let ib = b.create(spec(80, 24));
    assert_eq!(ia.0, "term-1");
    assert_eq!(ib.0, "term-1");
    assert_eq!(ia.as_str(), "term-1");
    assert_eq!(ia.to_string(), "term-1");
}

#[test]
fn create_assigns_global_term_ids() {
    let mut hub = TerminalHub::new();
    let a = hub.create(spec(80, 24));
    let b = hub.create(spec(100, 30));
    let c = hub.create(spec(40, 12));
    assert_eq!(a.0, "term-1");
    assert_eq!(b.0, "term-2");
    assert_eq!(c.0, "term-3");
    assert_ne!(a, b);
    assert_ne!(b, c);
    assert_eq!(hub.list(), vec![a, b, c]);
}

#[test]
fn create_records_spec_and_starts_alive() {
    let mut hub = TerminalHub::new();
    let id = hub.create(TerminalSpec::new(132, 43, "C:\\proj"));
    let snap = hub.get(&id).expect("created");
    assert_eq!(snap.id, id);
    assert_eq!(snap.spec.cols, 132);
    assert_eq!(snap.spec.rows, 43);
    assert_eq!(PathBuf::from(&snap.spec.cwd), PathBuf::from("C:\\proj"));
    assert!(snap.alive);
    assert!(snap.input.is_empty());
    assert!(hub.is_alive(&id));
}

#[test]
fn list_is_creation_order_and_live_only() {
    let mut hub = TerminalHub::new();
    let a = hub.create(spec(80, 24));
    let b = hub.create(spec(80, 24));
    let c = hub.create(spec(80, 24));
    hub.kill(&b).expect("kill b");
    assert_eq!(hub.list(), vec![a.clone(), c.clone()]);
    assert!(!hub.list().iter().any(|id| id == &b));
    assert_eq!(hub.list().len(), 2);
}

#[test]
fn resize_updates_cols_and_rows_independently() {
    let mut hub = TerminalHub::new();
    let id = hub.create(spec(80, 24));
    hub.resize(&id, 120, 24).expect("cols");
    let after_cols = hub.get(&id).expect("snap");
    assert_eq!(after_cols.spec.cols, 120);
    assert_eq!(after_cols.spec.rows, 24);
    hub.resize(&id, 120, 40).expect("rows");
    let after_rows = hub.get(&id).expect("snap");
    assert_eq!(after_rows.spec.cols, 120);
    assert_eq!(after_rows.spec.rows, 40);
    assert_eq!(PathBuf::from(&after_rows.spec.cwd), PathBuf::from("/work"));
}

#[test]
fn input_appends_to_buffer() {
    let mut hub = TerminalHub::new();
    let id = hub.create(spec(80, 24));
    hub.input(&id, b"ab").expect("first");
    hub.input(&id, b"cd").expect("second");
    hub.input(&id, b"").expect("empty");
    assert_eq!(hub.input_buffer(&id).as_deref(), Some(&b"abcd"[..]));
    let snap = hub.get(&id).expect("snap");
    assert_eq!(snap.input, b"abcd");
    assert_ne!(snap.input, b"ab");
    assert_ne!(snap.input, b"cd");
}

#[test]
fn kill_marks_dead_and_rejects_further_commands() {
    let mut hub = TerminalHub::new();
    let id = hub.create(spec(80, 24));
    hub.input(&id, b"keep").expect("buffer before kill");
    hub.kill(&id).expect("kill");
    assert!(!hub.is_alive(&id));
    assert!(hub.list().is_empty());
    let snap = hub.get(&id).expect("still snapshotable");
    assert!(!snap.alive);
    assert_eq!(snap.input, b"keep");
    assert_eq!(hub.input_buffer(&id).as_deref(), Some(&b"keep"[..]));
    assert_eq!(hub.kill(&id).expect_err("already dead"), TerminalError::NotFound(id.clone()));
    assert_eq!(hub.resize(&id, 10, 10).expect_err("dead"), TerminalError::NotFound(id.clone()));
    assert_eq!(hub.input(&id, b"x").expect_err("dead"), TerminalError::NotFound(id.clone()));
}

#[test]
fn unknown_id_is_not_found() {
    let mut hub = TerminalHub::new();
    let missing = TerminalId::from("term-99");
    assert_eq!(hub.resize(&missing, 80, 24).unwrap_err(), TerminalError::NotFound(missing.clone()));
    assert_eq!(hub.input(&missing, b"x").unwrap_err(), TerminalError::NotFound(missing.clone()));
    assert_eq!(hub.kill(&missing).unwrap_err(), TerminalError::NotFound(missing.clone()));
    assert_eq!(hub.kill(&missing).unwrap_err().to_string(), "not found: term-99");
    assert!(!hub.is_alive(&missing));
    assert_eq!(hub.get(&missing), None);
}

#[test]
fn independent_hubs_do_not_share_counters() {
    let mut a = TerminalHub::new();
    let mut b = TerminalHub::new();
    let _ = a.create(spec(80, 24));
    let _ = a.create(spec(80, 24));
    let first_b = b.create(spec(80, 24));
    assert_eq!(first_b.0, "term-1");
}

#[test]
fn resize_unknown_does_not_create() {
    let mut hub = TerminalHub::new();
    let _ = hub.resize(&TerminalId::from("term-1"), 1, 1);
    assert!(hub.list().is_empty());
}

#[test]
fn killed_terminal_stays_dead_for_every_command() {
    let mut hub = TerminalHub::new();
    let id = hub.create(spec(80, 24));
    hub.kill(&id).expect("kill");
    for _ in 0..2 {
        assert!(hub.kill(&id).is_err());
        assert!(hub.resize(&id, 1, 1).is_err());
        assert!(hub.input(&id, b"z").is_err());
        assert!(!hub.is_alive(&id));
    }
    assert_eq!(hub.get(&id).expect("snap").spec.cols, 80);
}

#[test]
fn kill_drops_only_that_id_and_ids_keep_counting() {
    let mut hub = TerminalHub::new();
    let a = hub.create(spec(80, 24));
    let b = hub.create(spec(80, 24));
    assert_eq!(hub.kill(&a), Ok(()));
    assert_eq!(hub.list(), vec![b.clone()]);
    let c = hub.create(spec(80, 24));
    assert_eq!(c.0, "term-3");
    assert_eq!(hub.list(), vec![b, c]);
    assert_eq!(hub.get(&a).map(|s| s.alive), Some(false));
}

#[test]
fn kill_all_marks_every_terminal_dead() {
    let mut hub = TerminalHub::new();
    let a = hub.create(spec(80, 24));
    let b = hub.create(spec(100, 30));
    hub.kill_all();
    assert!(hub.list().is_empty());
    assert!(!hub.is_alive(&a));
    assert_eq!(hub.get(&b).map(|s| (s.alive, s.spec.cols)), Some((false, 100)));
    assert_eq!(hub.create(spec(80, 24)).0, "term-3");
}
