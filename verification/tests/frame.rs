use multiplexer::frame::{render_pty_chunk, PtyFrame, ONESHOT_COLS, ONESHOT_ROWS};

fn frame(cols: u16, rows: u16) -> PtyFrame {
    PtyFrame::new(cols, rows)
}

#[test]
fn default_is_80x24() {
    let f = PtyFrame::default();
    assert_eq!(f.size(), (80, 24));
    assert_eq!(f.cursor(), (0, 0));
    assert!(!f.has_pending());
    assert_eq!(f.display(), "");
    assert_ne!(f.size(), (0, 0));
    assert_ne!(PtyFrame::new(0, 0).size(), (0, 0));
    assert_eq!(PtyFrame::new(0, 0).size(), (1, 1));
    assert_ne!(PtyFrame::new(2, 3).size(), (3, 2));
}

#[test]
fn plain_text_is_the_frame() {
    let mut f = frame(20, 4);
    f.feed("hello");
    assert_eq!(f.display(), "hello");
    assert_eq!(f.cursor(), (5, 0));
    assert_ne!(f.display(), "HELLO");
    f.feed("");
    assert_eq!(f.display(), "hello");
}

#[test]
fn lines_keep_full_grid_and_ink() {
    let mut f = frame(4, 3);
    assert!(!f.has_ink());
    assert_eq!(f.lines().len(), 3);
    assert_eq!(f.lines()[0], "    ");
    f.feed("ab");
    assert!(f.has_ink());
    assert_eq!(f.lines()[0], "ab  ");
    assert_eq!(f.lines()[1], "    ");
    assert_eq!(f.display(), "ab");
    assert_ne!(f.lines()[0], "ab");
    f.feed("\u{1b}[2J\u{1b}[H");
    assert!(!f.has_ink());
    assert_eq!(f.lines().len(), 3);
}

#[test]
fn carriage_return_overwrites_line() {
    let mut f = frame(20, 2);
    f.feed("hello\rX");
    assert_eq!(f.display(), "Xello");
    assert_ne!(f.display(), "helloX");
    assert_ne!(f.display(), "hello");
    f.feed("\rYZ");
    assert_eq!(f.display(), "YZllo");
}

#[test]
fn crlf_is_one_line_break() {
    let mut f = frame(20, 4);
    f.feed("one\r\ntwo");
    assert_eq!(f.display(), "one\ntwo");
    assert_eq!(f.cursor(), (3, 1));
    assert_ne!(f.display(), "onetwo");
    assert_ne!(f.display(), "one\r\ntwo");
}

#[test]
fn csi_clear_drops_prior_cells() {
    let mut f = frame(20, 4);
    f.feed("old junk");
    f.feed("\u{1b}[2Jnew");
    assert_eq!(f.display(), "        new");
    assert_ne!(f.display(), "old junknew");
    assert_ne!(f.display(), "old junk");
    f.feed("\u{1b}[2J\u{1b}[Hhome");
    assert_eq!(f.display(), "home");
}

#[test]
fn pager_redraw_replaces_last_frame() {
    let mut f = frame(40, 8);
    f.feed("AAAA\r\nBBBB");
    f.feed("\u{1b}[?1049h\u{1b}[H\u{1b}[2J\u{1b}[1;1HGrok\u{1b}[2;1Hready");
    assert_eq!(f.display(), "Grok\nready");
    assert!(!f.display().contains("AAAA"));
    assert!(!f.display().contains("BBBB"));
    f.feed("\u{1b}[2J\u{1b}[Hnext");
    assert_eq!(f.display(), "next");
    assert!(!f.display().contains("Grok"));
}

#[test]
fn csi_home_then_write_replaces_origin() {
    let mut f = frame(20, 3);
    f.feed("abc");
    f.feed("\u{1b}[HX");
    assert_eq!(f.display(), "Xbc");
    f.feed("\u{1b}[1;1HY");
    assert_eq!(f.display(), "Ybc");
    f.feed("\u{1b}[2;1Hz");
    assert_eq!(f.display(), "Ybc\nz");
    assert_eq!(f.cursor(), (1, 1));
    assert_ne!(f.cursor(), (0, 0));
}

#[test]
fn cup_zero_means_one() {
    let mut f = frame(10, 4);
    f.feed("\u{1b}[0;0Hq");
    assert_eq!(f.display(), "q");
    assert_eq!(f.cursor(), (1, 0));
    f.feed("\u{1b}[;3Hr");
    assert_eq!(f.display(), "q r");
    assert_eq!(f.cursor(), (3, 0));
}

#[test]
fn csi_el_erases_to_eol() {
    let mut f = frame(10, 2);
    f.feed("abcdef");
    f.feed("\u{1b}[3G\u{1b}[K");
    assert_eq!(f.display(), "ab");
    assert_ne!(f.display(), "abcdef");
    assert_ne!(f.display(), "ab def");
}

#[test]
fn csi_el_variants() {
    let mut f = frame(10, 2);
    f.feed("abcdef");
    f.feed("\u{1b}[4G\u{1b}[1K");
    assert_eq!(f.display(), "    ef");
    f.feed("\u{1b}[2K");
    assert_eq!(f.display(), "");
    f.feed("\u{1b}[Gxyz");
    assert_eq!(f.display(), "xyz");
    assert_ne!(f.display(), "abcdef");
    assert_ne!(f.display(), "   xyz");
}

#[test]
fn csi_ed_variants() {
    let mut f = frame(6, 3);
    f.feed("aaaaaa\nbbbbbb\ncccccc");
    f.feed("\u{1b}[2;3H\u{1b}[0J");
    assert_eq!(f.display(), "aaaaaa\nbb");
    f.feed("\u{1b}[Haaaaaa\nbbbbbb\ncccccc");
    f.feed("\u{1b}[2;3H\u{1b}[1J");
    assert_eq!(f.display(), "\n   bbb\ncccccc");
    f.feed("\u{1b}[3J");
    assert_eq!(f.display(), "");
    assert_ne!(f.display(), "aaaaaa");
}

#[test]
fn cursor_moves_abcd() {
    let mut f = frame(10, 5);
    f.feed("\u{1b}[3;4H");
    assert_eq!(f.cursor(), (3, 2));
    f.feed("\u{1b}[2A");
    assert_eq!(f.cursor(), (3, 0));
    f.feed("\u{1b}[B");
    assert_eq!(f.cursor(), (3, 1));
    f.feed("\u{1b}[3C");
    assert_eq!(f.cursor(), (6, 1));
    f.feed("\u{1b}[2D");
    assert_eq!(f.cursor(), (4, 1));
    f.feed("\u{1b}[E");
    assert_eq!(f.cursor(), (0, 2));
    f.feed("\u{1b}[F");
    assert_eq!(f.cursor(), (0, 1));
    assert_ne!(f.cursor(), (0, 0));
    f.feed("\u{1b}[A\u{1b}[A\u{1b}[A");
    assert_eq!(f.cursor(), (0, 0));
}

#[test]
fn sgr_and_osc_do_not_print() {
    let mut f = frame(20, 2);
    f.feed("\u{1b}[32mhi\u{1b}[0m\u{1b}[38;2;255;0;0m!\u{1b}]0;title\u{7}ok");
    assert_eq!(f.display(), "hi!ok");
    assert!(!f.display().contains('\u{1b}'));
    assert!(!f.display().contains("32"));
    assert!(!f.display().contains("title"));
    assert_ne!(f.display(), "hi!");
}

#[test]
fn split_csi_does_not_leak() {
    let mut f = frame(20, 2);
    f.feed("\u{1b}[32");
    assert!(f.has_pending());
    assert_eq!(f.display(), "");
    assert_ne!(f.display(), "[32");
    f.feed("mOK");
    assert!(!f.has_pending());
    assert_eq!(f.display(), "OK");
    assert_ne!(f.display(), "mOK");
    assert_ne!(f.display(), "[32mOK");
}

#[test]
fn split_esc_then_clear() {
    let mut f = frame(20, 2);
    f.feed("keep\u{1b}");
    assert!(f.has_pending());
    assert_eq!(f.display(), "keep");
    f.feed("[2J\u{1b}[Hgone");
    assert_eq!(f.display(), "gone");
    assert!(!f.display().contains("keep"));
}

#[test]
fn split_osc_does_not_leak() {
    let mut f = frame(20, 2);
    f.feed("\u{1b}]0;abc");
    assert!(f.has_pending());
    assert_eq!(f.display(), "");
    f.feed("def\u{7}xy");
    assert_eq!(f.display(), "xy");
    assert!(!f.display().contains("abc"));
    assert!(!f.has_pending());
}

#[test]
fn ris_resets_grid() {
    let mut f = frame(10, 2);
    f.feed("zz\u{1b}cAA");
    assert_eq!(f.display(), "AA");
    assert_eq!(f.cursor(), (2, 0));
    assert!(!f.has_pending());
    assert_ne!(f.display(), "zzAA");
}

#[test]
fn backspace_and_tab() {
    let mut f = frame(16, 2);
    f.feed("ab\u{8}c");
    assert_eq!(f.display(), "ac");
    f.feed("\r\tX");
    assert_eq!(f.display(), "ac      X");
    assert_eq!(f.cursor(), (9, 0));
    assert_ne!(f.display(), "acX");
}

#[test]
fn wrap_at_width_and_scroll() {
    let mut f = frame(4, 2);
    f.feed("abcdEF");
    assert_eq!(f.display(), "abcd\nEF");
    f.feed("ghij");
    assert_eq!(f.display(), "EFgh\nij");
    assert_ne!(f.display(), "abcd\nEF");
    assert_ne!(f.display().lines().count(), 3);
}

#[test]
fn form_feed_clears() {
    let mut f = frame(8, 2);
    f.feed("stay\u{0c}go");
    assert_eq!(f.display(), "go");
    assert_ne!(f.display(), "staygo");
}

#[test]
fn save_restore_cursor() {
    let mut f = frame(10, 4);
    f.feed("\u{1b}[2;3H\u{1b}7\u{1b}[H.\u{1b}8x");
    assert_eq!(f.display(), ".\n  x");
    assert_eq!(f.cursor(), (3, 1));
    f.feed("\u{1b}[1;1H\u{1b}[s\u{1b}[3;1H\u{1b}[uy");
    assert_eq!(f.display(), "y\n  x");
}

#[test]
fn resize_preserves_overlap() {
    let mut f = frame(4, 2);
    f.feed("ab\ncd");
    f.resize(6, 3);
    assert_eq!(f.size(), (6, 3));
    assert_eq!(f.display(), "ab\ncd");
    f.resize(1, 1);
    assert_eq!(f.display(), "a");
    assert_eq!(f.size(), (1, 1));
    assert_eq!(f.cursor(), (0, 0));
    f.feed("Z");
    assert_eq!(f.display(), "Z");
    f.resize(1, 1);
    assert_eq!(f.size(), (1, 1));
    assert_eq!(f.cursor(), (1, 0));
    assert_ne!(f.size(), (4, 2));
}

#[test]
fn resize_one_axis_and_clamp_saved_cursor() {
    let mut f = frame(4, 3);
    f.feed("ab\ncd\nef");
    f.resize(8, 3);
    assert_eq!(f.size(), (8, 3));
    assert_eq!(f.display(), "ab\ncd\nef");
    f.feed("\u{1b}[1;6HX");
    assert_eq!(f.display().lines().next().unwrap(), "ab   X");
    f.resize(8, 5);
    assert_eq!(f.size(), (8, 5));
    f.feed("\u{1b}[4;1HY");
    let grown = f.display();
    let grown_lines: Vec<&str> = grown.lines().collect();
    assert_eq!(grown_lines.get(3).copied(), Some("Y"));
    assert_ne!(grown_lines.get(2).copied(), Some("Y"));
    f.feed("\u{1b}[3;8H\u{1b}7");
    f.resize(2, 1);
    assert_eq!(f.size(), (2, 1));
    assert_eq!(f.cursor(), (1, 0));
    f.feed("\u{1b}8Q");
    assert_eq!(f.display(), "aQ");
    assert_eq!(f.cursor(), (2, 0));
    assert_ne!(f.size(), (8, 5));
}

#[test]
fn reverse_index_scrolls_down() {
    let mut f = frame(3, 2);
    f.feed("aa\nbb");
    f.feed("\u{1b}[H\u{1b}Mcc");
    assert_eq!(f.display(), "cc\naa");
    assert!(!f.display().contains("bb"));
}

#[test]
fn index_and_nel() {
    let mut f = frame(4, 3);
    f.feed("hi\u{1b}Dxx");
    assert_eq!(f.display(), "hi\n  xx");
    f.feed("\u{1b}Eyy");
    assert_eq!(f.display(), "hi\n  xx\nyy");
    assert_ne!(f.display(), "hixx");
    let mut mid = frame(10, 3);
    mid.feed("ab\u{1b}Ecd");
    assert_eq!(mid.display(), "ab\ncd");
    assert_ne!(mid.display(), "abcd");
    assert_ne!(mid.display(), "ab  cd");
}

#[test]
fn each_alt_screen_code_clears_and_homes() {
    for code in [1049_u16, 1047, 1048, 47] {
        let mut f = frame(8, 2);
        f.feed("keep");
        assert_eq!(f.display(), "keep");
        f.feed(&format!("\u{1b}[?{code}h"));
        assert_eq!(f.display(), "", "enter {code}");
        f.feed("A");
        assert_eq!(f.display(), "A", "home after {code}");
        f.feed("xyz");
        f.feed(&format!("\u{1b}[?{code}l"));
        assert_eq!(f.display(), "", "leave {code}");
    }
    let mut f = frame(8, 2);
    f.feed("keep\u{1b}[?25l");
    assert_eq!(f.display(), "keep");
    assert_ne!(f.display(), "");
}

#[test]
fn csi_intermediate_is_ignored() {
    let mut f = frame(12, 2);
    f.feed("\u{1b}[2 qHi");
    assert_eq!(f.display(), "Hi");
    assert_ne!(f.display(), "2 qHi");
    assert_ne!(f.display(), "qHi");
}

#[test]
fn charset_and_bel_ignored() {
    let mut f = frame(10, 2);
    f.feed("\u{1b}(Ba\u{7}b");
    assert_eq!(f.display(), "ab");
    assert_ne!(f.display(), "(Bab");
}

#[test]
fn oneshot_does_not_wrap_long_line() {
    let line = "x".repeat(100);
    assert_eq!(render_pty_chunk(&line), line);
    assert_eq!(render_pty_chunk(&line).lines().count(), 1);
    assert_ne!(render_pty_chunk(&line).lines().count(), 2);
    assert_eq!(ONESHOT_COLS, 256);
    assert_eq!(ONESHOT_ROWS, 128);
    assert_ne!(ONESHOT_COLS, 80);
}

#[test]
fn display_never_contains_esc() {
    let mut f = frame(20, 3);
    f.feed("\u{1b}[1;31mred\u{1b}[0m\u{1b}[2K\u{1b}[Hok");
    assert!(!f.display().contains('\u{1b}'));
    assert!(f.display().contains("ok"));
}

#[test]
fn braille_spinner_overwrites() {
    let mut f = frame(8, 1);
    f.feed("⠋ work");
    f.feed("\r⠙ work");
    f.feed("\r⠹ work");
    assert_eq!(f.display(), "⠹ work");
    assert!(!f.display().contains('⠋'));
    assert_ne!(f.display(), "⠋ work⠙ work⠹ work");
}

#[test]
fn hide_cursor_is_noop() {
    let mut f = frame(8, 2);
    f.feed("\u{1b}[?25lHi\u{1b}[?25h");
    assert_eq!(f.display(), "Hi");
    assert_ne!(f.display(), "25lHi");
}

#[test]
fn osc_st_terminator() {
    let mut f = frame(8, 2);
    f.feed("\u{1b}]0;t\u{1b}\\Z");
    assert_eq!(f.display(), "Z");
    assert_ne!(f.display(), "tZ");
}

#[test]
fn dcs_string_is_ignored() {
    let mut f = frame(8, 2);
    f.feed("\u{1b}P1$t\u{1b}\\ok");
    assert_eq!(f.display(), "ok");
    assert_ne!(f.display(), "1$tok");
    assert_ne!(f.display(), "P1$tok");
}

#[test]
fn feed_is_safe_flags_a_csi_ending_in_a_wide_char() {
    let mut f = frame(20, 4);
    assert!(f.feed_is_safe("hello \u{1b}[31mred\u{1b}[0m"));
    assert!(!f.feed_is_safe("\u{1b}[1\u{e9}"));
    f.feed("ab\u{1b}[");
    assert!(f.has_pending());
    assert!(!f.feed_is_safe("\u{e9}"));
    assert!(f.feed_is_safe("2J"));
}
