use multiplexer::composer::{
    clamp_cursor, delete_back, delete_forward, insert_at, move_end, move_home, move_left,
    move_right, move_word_left, move_word_right,
};

#[test]
fn insert_middle() {
    let mut draft = String::from("héllo");
    let cursor = insert_at(&mut draft, 2, "XX");
    assert_eq!(draft, "héXXllo");
    assert_eq!(cursor, 4);
}

#[test]
fn delete_back_at_zero() {
    let mut draft = String::from("ab");
    let cursor = delete_back(&mut draft, 0);
    assert_eq!(draft, "ab");
    assert_eq!(cursor, 0);
}

#[test]
fn clamp_past_end() {
    assert_eq!(clamp_cursor("café", 99), 4);
    assert_eq!(clamp_cursor("", 3), 0);
    assert_eq!(clamp_cursor("hi", 2), 2);
}

#[test]
fn delete_back_middle_drops_one_char() {
    let mut draft = String::from("héllo");
    let cursor = delete_back(&mut draft, 2);
    assert_eq!(draft, "hllo");
    assert_eq!(cursor, 1);
}

#[test]
fn move_edges() {
    let draft = "café";
    assert_eq!(move_left(draft, 0), 0);
    assert_eq!(move_left(draft, 1), 0);
    assert_eq!(move_left(draft, 4), 3);
    assert_eq!(move_left(draft, 99), 3);
    assert_eq!(move_right(draft, 0), 1);
    assert_eq!(move_right(draft, 3), 4);
    assert_eq!(move_right(draft, 4), 4);
    assert_eq!(move_right(draft, 99), 4);
    assert_eq!(move_home(draft, 3), 0);
    assert_eq!(move_home(draft, 99), 0);
    assert_eq!(move_home("", 5), 0);
    assert_eq!(move_end(draft, 0), 4);
    assert_eq!(move_end(draft, 99), 4);
    assert_eq!(move_end("", 5), 0);
}

#[test]
fn delete_forward_middle() {
    let mut draft = String::from("héllo");
    let cursor = delete_forward(&mut draft, 1);
    assert_eq!(draft, "hllo");
    assert_eq!(cursor, 1);

    let mut draft = String::from("ab");
    let cursor = delete_forward(&mut draft, 2);
    assert_eq!(draft, "ab");
    assert_eq!(cursor, 2);

    let mut draft = String::from("é");
    let cursor = delete_forward(&mut draft, 0);
    assert_eq!(draft, "");
    assert_eq!(cursor, 0);
}

#[test]
fn word_jumps_ascii() {
    let draft = "hello world  next";
    assert_eq!(move_word_left(draft, 17), 13);
    assert_eq!(move_word_left(draft, 13), 6);
    assert_eq!(move_word_left(draft, 6), 0);
    assert_eq!(move_word_left(draft, 0), 0);
    assert_eq!(move_word_left(draft, 8), 6);
    assert_eq!(move_word_right(draft, 0), 5);
    assert_eq!(move_word_right(draft, 5), 11);
    assert_eq!(move_word_right(draft, 11), 17);
    assert_eq!(move_word_right(draft, 17), 17);
    assert_eq!(move_word_right(draft, 3), 5);
}

#[test]
fn word_jumps_unicode() {
    let draft = "café au  日本語";
    assert_eq!(draft.chars().count(), 12);
    assert_eq!(move_word_left(draft, 12), 9);
    assert_eq!(move_word_left(draft, 9), 5);
    assert_eq!(move_word_left(draft, 5), 0);
    assert_eq!(move_word_left(draft, 0), 0);
    assert_eq!(move_word_right(draft, 0), 4);
    assert_eq!(move_word_right(draft, 4), 7);
    assert_eq!(move_word_right(draft, 7), 12);
    assert_eq!(move_word_right(draft, 12), 12);
    assert_eq!(move_word_right("  café", 0), 6);
    assert_eq!(move_word_left("café  ", 6), 0);
}

#[test]
fn insert_then_move_roundtrip() {
    let mut draft = String::new();
    let mut cursor = insert_at(&mut draft, 0, "hello");
    assert_eq!(draft, "hello");
    assert_eq!(cursor, 5);
    cursor = move_home(&draft, cursor);
    cursor = insert_at(&mut draft, cursor, "say ");
    assert_eq!(draft, "say hello");
    assert_eq!(cursor, 4);
    cursor = move_end(&draft, cursor);
    cursor = insert_at(&mut draft, cursor, "!");
    assert_eq!(draft, "say hello!");
    assert_eq!(cursor, 10);
    cursor = move_left(&draft, cursor);
    cursor = delete_forward(&mut draft, cursor);
    assert_eq!(draft, "say hello");
    assert_eq!(cursor, 9);
    cursor = move_word_left(&draft, cursor);
    assert_eq!(cursor, 4);
    cursor = move_word_right(&draft, cursor);
    assert_eq!(cursor, 9);
    cursor = move_left(&draft, cursor);
    cursor = move_right(&draft, cursor);
    assert_eq!(cursor, 9);
}
