use multiplexer::diff_view::{
    changes_headline, hunks_for_path, is_diff_meta, mark_last_turn, parse_porcelain,
    parse_unified_diff, path_from_git_header, path_from_plus_line,
    sort_diffs, status_mark, DiffSort, HunkLineKind,
};

#[test]
fn porcelain_parses_status_and_rename() {
    let rows = parse_porcelain(
        " M src/lib.rs\n?? new.rs\nR  old.rs -> renamed.rs\n M a\nshort\nxy\n\n",
    );
    assert_eq!(rows.len(), 4);
    assert_eq!(rows[3].path, "a");
    assert_eq!(rows[0].path, "src/lib.rs");
    assert_eq!(rows[0].status, "M");
    assert!(!rows[0].last_turn);
    assert_eq!(rows[1].path, "new.rs");
    assert_eq!(rows[1].status, "??");
    assert_eq!(rows[2].path, "renamed.rs");
    assert_eq!(rows[2].status, "R");
    assert!(parse_porcelain("").is_empty());
    assert!(parse_porcelain("??\n").is_empty());
}

#[test]
fn sort_last_turn_then_name() {
    let mut rows = parse_porcelain(" M zebra.rs\n M alpha.rs\n M mid.rs\n");
    mark_last_turn(&mut rows, &["zebra.rs".into(), "mid.rs".into()]);
    let by_name = sort_diffs(rows.clone(), DiffSort::FileName);
    assert_eq!(
        by_name.iter().map(|r| r.path.as_str()).collect::<Vec<_>>(),
        ["alpha.rs", "mid.rs", "zebra.rs"]
    );
    let by_turn = sort_diffs(rows, DiffSort::LastTurn);
    assert_eq!(
        by_turn.iter().map(|r| r.path.as_str()).collect::<Vec<_>>(),
        ["mid.rs", "zebra.rs", "alpha.rs"]
    );
    assert!(by_turn[0].last_turn && by_turn[1].last_turn);
    assert!(!by_turn[2].last_turn);
    assert_eq!(DiffSort::LastTurn.toggle(), DiffSort::FileName);
    assert_eq!(DiffSort::LastTurn.label(), "Last turn");
    assert_eq!(DiffSort::FileName.label(), "File name");
    assert_eq!(changes_headline(&[]), "No working-tree changes");
    assert_eq!(changes_headline(&by_name[..1]), "1 file changed");
    assert_eq!(changes_headline(&by_name), "3 files changed");
    assert_eq!(status_mark("M"), "M");
    assert_eq!(status_mark("??"), "A");
    assert_eq!(status_mark(" D"), "D");
    assert_eq!(status_mark("R"), "R");
}

#[test]
fn unified_diff_splits_hunks_and_kinds() {
    let text = "\
diff --git a/src/lib.rs b/src/lib.rs
index 111..222 100644
--- a/src/lib.rs
+++ b/src/lib.rs
@@ -1,3 +1,4 @@
 fn a() {}
-fn b() {}
+fn c() {}
 fn d() {}
diff --git a/gone.rs b/gone.rs
deleted file mode 100644
--- a/gone.rs
+++ /dev/null
@@ -1 +0,0 @@
-old
";
    let hunks = parse_unified_diff(text);
    assert_eq!(hunks.len(), 2);
    assert_eq!(hunks[0].path, "src/lib.rs");
    assert!(hunks[0].header.starts_with("@@"));
    assert_eq!(hunks[0].lines.len(), 4);
    assert_eq!(hunks[0].lines[1].kind, HunkLineKind::Del);
    assert_eq!(hunks[0].lines[2].kind, HunkLineKind::Add);
    assert_eq!(hunks[0].lines[0].kind, HunkLineKind::Context);
    assert_ne!(hunks[0].lines[1].kind, HunkLineKind::Add);
    assert_eq!(hunks[1].path, "gone.rs");
    assert_eq!(hunks[1].lines[0].kind, HunkLineKind::Del);
    assert_eq!(hunks_for_path(&hunks, "src/lib.rs").len(), 1);
    assert!(hunks_for_path(&hunks, "missing.rs").is_empty());
    assert!(parse_unified_diff("").is_empty());
    assert!(parse_unified_diff("loading foo…").is_empty());
    assert!(parse_unified_diff("diff --git a/x b/x\n--- a/x\n+++ b/x\n").is_empty());
    let plus_only = "+++ b/only.rs\n@@ -0,0 +1 @@\n+hi\n";
    let plus = parse_unified_diff(plus_only);
    assert_eq!(plus.len(), 1);
    assert_eq!(plus[0].path, "only.rs");
    assert_eq!(plus[0].lines[0].kind, HunkLineKind::Add);
    assert_eq!(path_from_plus_line("b/only.rs").as_deref(), Some("only.rs"));
    assert_eq!(path_from_plus_line("/dev/null"), None);
    assert_ne!(path_from_plus_line("b/only.rs"), None);
    assert_eq!(path_from_git_header("a/foo.rs b/foo.rs"), "foo.rs");
    assert_eq!(path_from_git_header("foo.rs"), "foo.rs");
    assert_ne!(path_from_git_header("a/foo.rs b/bar.rs"), "foo.rs");
    assert!(is_diff_meta("--- a/x"));
    assert!(is_diff_meta("index 111..222 100644"));
    assert!(is_diff_meta("new file mode 100644"));
    assert!(is_diff_meta("deleted file mode 100644"));
    assert!(is_diff_meta("similarity index 90%"));
    assert!(is_diff_meta("rename from old.rs"));
    assert!(is_diff_meta("old mode 100644"));
    assert!(is_diff_meta("new mode 100755"));
    assert!(!is_diff_meta("+added"));
    assert!(!is_diff_meta("@@ -1 +1 @@"));
    assert!(!is_diff_meta(" context"));
}
