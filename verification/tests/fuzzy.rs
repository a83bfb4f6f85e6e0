use multiplexer::fuzzy::{fuzzy_best, fuzzy_score, is_word_break};

#[test]
fn empty_query_scores_zero() {
    assert_eq!(fuzzy_score("", "Create checkpoint"), Some(0));
    assert_eq!(fuzzy_score("", ""), Some(0));
    assert_ne!(fuzzy_score("", "x"), None);
}

#[test]
fn subsequence_required() {
    assert!(fuzzy_score("cp", "Create checkpoint").is_some());
    assert!(fuzzy_score("CP", "create checkpoint").is_some());
    assert_eq!(fuzzy_score("zzz", "Create checkpoint"), None);
    assert_eq!(fuzzy_score("xyz", "abc"), None);
    assert_eq!(fuzzy_score("abcd", "abc"), None);
}

#[test]
fn prefix_beats_later_match() {
    let prefix = fuzzy_score("git", "git status").unwrap();
    let later = fuzzy_score("git", "refresh git").unwrap();
    assert!(prefix > later, "{prefix} vs {later}");
    let exact = fuzzy_score("git", "git").unwrap();
    assert!(exact > prefix, "{exact} vs {prefix}");
}

#[test]
fn consecutive_beats_gapped() {
    let tight = fuzzy_score("cp", "cp").unwrap();
    let gapped = fuzzy_score("cp", "create point").unwrap();
    assert!(tight > gapped, "{tight} vs {gapped}");
}

#[test]
fn word_start_bonus() {
    let word = fuzzy_score("cp", "Create checkpoint").unwrap();
    let mid = fuzzy_score("cp", "scope").unwrap();
    assert!(word > mid, "{word} vs {mid}");
}

#[test]
fn mcp_does_not_hit_palette() {
    assert!(fuzzy_score("mcp", "mcp").is_some());
    assert!(fuzzy_score("mcp", "Refresh MCP").is_some());
    assert_eq!(fuzzy_score("mcp", "Command palette"), None);
    assert_eq!(fuzzy_score("mcp", "Toggle chats"), None);
}

#[test]
fn fuzzy_best_picks_highest() {
    assert_eq!(fuzzy_best("zz", &["one", "two"]), None);
    let score = fuzzy_best("git", &["refresh git", "git"]).unwrap();
    assert_eq!(score, fuzzy_score("git", "git").unwrap());
    assert!(score > fuzzy_score("git", "refresh git").unwrap());
}

#[test]
fn word_break_chars() {
    assert!(is_word_break(' '));
    assert!(is_word_break('-'));
    assert!(is_word_break('_'));
    assert!(is_word_break('/'));
    assert!(!is_word_break('a'));
    assert!(!is_word_break('1'));
    assert!(fuzzy_score("rs", "src/main.rs").is_some());
    let after_hyphen = fuzzy_score("cp", "xx-cp").unwrap();
    let mid = fuzzy_score("cp", "xcxp").unwrap();
    assert!(after_hyphen > mid, "{after_hyphen} vs {mid}");
}

#[test]
fn none_exactly_when_not_a_subsequence() {
    assert_eq!(fuzzy_score("CKP", "Create checkpoint").is_some(), true);
    assert_eq!(fuzzy_score("pkc", "Create checkpoint"), None);
    assert_eq!(fuzzy_score("zz", "buzz"), fuzzy_score("ZZ", "BUZZ"));
    assert_eq!(fuzzy_score("longer than text", "short"), None);
}
