//! Keystrokes for an in-app PTY: named keys, Ctrl+letter, paste, size checks.

use vstd::prelude::*;
use vstd::string::StringSliceAdditionalSpecFns;
use crate::terminal::TerminalError;
use crate::text::{chars_of, eq_str, lower, is_ascii_lower};

verus! {

/// Bytes for a named key, `None` for other names.
pub open spec fn named_key(key: Seq<char>) -> Option<Seq<u8>> {
    if key == "enter"@ {
        Some(seq![13u8])
    } else if key == "backspace"@ {
        Some(seq![0x7fu8])
    } else if key == "tab"@ {
        Some(seq![9u8])
    } else if key == "space"@ {
        Some(seq![32u8])
    } else if key == "escape"@ {
        Some(seq![0x1bu8])
    } else if key == "left"@ {
        Some(seq![0x1bu8, 0x5bu8, 0x44u8])
    } else if key == "right"@ {
        Some(seq![0x1bu8, 0x5bu8, 0x43u8])
    } else if key == "up"@ {
        Some(seq![0x1bu8, 0x5bu8, 0x41u8])
    } else if key == "down"@ {
        Some(seq![0x1bu8, 0x5bu8, 0x42u8])
    } else if key == "home"@ {
        Some(seq![0x1bu8, 0x5bu8, 0x48u8])
    } else if key == "end"@ {
        Some(seq![0x1bu8, 0x5bu8, 0x46u8])
    } else if key == "delete"@ {
        Some(seq![0x1bu8, 0x5bu8, 0x33u8, 0x7eu8])
    } else if key == "pageup"@ {
        Some(seq![0x1bu8, 0x5bu8, 0x35u8, 0x7eu8])
    } else if key == "pagedown"@ {
        Some(seq![0x1bu8, 0x5bu8, 0x36u8, 0x7eu8])
    } else {
        None
    }
}

/// The letter a Ctrl chord names: the key when it is one ASCII char,
/// else the OS text when it is one char.
pub open spec fn ctrl_letter(key: Seq<char>, ch: Option<Seq<char>>) -> Option<char> {
    if key.len() == 1 && key[0] <= '\u{7f}' {
        Some(key[0])
    } else {
        match ch {
            Some(t) => if t.len() == 1 {
                Some(t[0])
            } else {
                None
            },
            None => None,
        }
    }
}

/// Ctrl+letter as the C0 byte (Ctrl+A is 1 ... Ctrl+Z is 26).
pub open spec fn ctrl_bytes(key: Seq<char>, ch: Option<Seq<char>>) -> Option<Seq<u8>> {
    match ctrl_letter(key, ch) {
        Some(c) => if is_ascii_lower(lower(c)) {
            Some(seq![((lower(c) as u32) - 96) as u8])
        } else {
            None
        },
        None => None,
    }
}

pub open spec fn opt_view(ch: Option<&str>) -> Option<Seq<char>> {
    match ch {
        Some(t) => Some(t@),
        None => None,
    }
}

pub open spec fn opt_bytes(r: Option<Vec<u8>>) -> Option<Seq<u8>> {
    match r {
        Some(v) => Some(v@),
        None => None,
    }
}

/// Bytes of the OS text typed with an unnamed key: none when empty, one CR
/// for a line break, else its UTF-8 bytes.
pub open spec fn text_bytes(ch: Option<&str>) -> Option<Seq<u8>> {
    match ch {
        Some(t) => if t@.len() == 0 {
            None
        } else if t@ == "\n"@ || t@ == "\r"@ {
            Some(seq![13u8])
        } else {
            Some(t.spec_bytes())
        },
        None => None,
    }
}

fn bytes_vec(s: &[u8]) -> (r: Vec<u8>)
    ensures
        r@ == s@,
{
    vstd::slice::slice_to_vec(s)
}

fn pty_ctrl_bytes(key: &str, ch: Option<&str>) -> (r: Option<Vec<u8>>)
    ensures
        opt_bytes(r) == ctrl_bytes(key@, opt_view(ch)),
{
    let k = chars_of(key);
    let letter = if k.len() == 1 && k[0] <= '\u{7f}' {
        k[0]
    } else {
        match ch {
            Some(t) => {
                let tv = chars_of(t);
                if tv.len() == 1 {
                    tv[0]
                } else {
                    return None;
                }
            },
            None => {
                return None;
            },
        }
    };
    let lo = crate::text::lower_char(letter);
    if !('a' <= lo && lo <= 'z') {
        return None;
    }
    let mut v: Vec<u8> = Vec::new();
    v.push((lo as u8) - 96);
    proof {
        assert(v@ =~= seq![((lo as u32) - 96) as u8]);
    }
    Some(v)
}

fn named_bytes(key: &str) -> (r: Option<Vec<u8>>)
    ensures
        opt_bytes(r) == named_key(key@),
{
    let k = chars_of(key);
    let r: Option<Vec<u8>> = if eq_str(&k, "enter") {
        Some(vec![13u8])
    } else if eq_str(&k, "backspace") {
        Some(vec![0x7fu8])
    } else if eq_str(&k, "tab") {
        Some(vec![9u8])
    } else if eq_str(&k, "space") {
        Some(vec![32u8])
    } else if eq_str(&k, "escape") {
        Some(vec![0x1bu8])
    } else if eq_str(&k, "left") {
        Some(vec![0x1bu8, 0x5bu8, 0x44u8])
    } else if eq_str(&k, "right") {
        Some(vec![0x1bu8, 0x5bu8, 0x43u8])
    } else if eq_str(&k, "up") {
        Some(vec![0x1bu8, 0x5bu8, 0x41u8])
    } else if eq_str(&k, "down") {
        Some(vec![0x1bu8, 0x5bu8, 0x42u8])
    } else if eq_str(&k, "home") {
        Some(vec![0x1bu8, 0x5bu8, 0x48u8])
    } else if eq_str(&k, "end") {
        Some(vec![0x1bu8, 0x5bu8, 0x46u8])
    } else if eq_str(&k, "delete") {
        Some(vec![0x1bu8, 0x5bu8, 0x33u8, 0x7eu8])
    } else if eq_str(&k, "pageup") {
        Some(vec![0x1bu8, 0x5bu8, 0x35u8, 0x7eu8])
    } else if eq_str(&k, "pagedown") {
        Some(vec![0x1bu8, 0x5bu8, 0x36u8, 0x7eu8])
    } else {
        None
    };
    proof {
        if r is Some {
            assert(r->0@ =~= named_key(key@).unwrap());
        }
    }
    r
}

/// Same as [`pty_key_bytes`], plus Ctrl+letter (ETX, EOT, ...).
pub fn pty_input(key: &str, ch: Option<&str>, ctrl: bool) -> (r: Option<Vec<u8>>)
    ensures
        ctrl ==> opt_bytes(r) == ctrl_bytes(key@, opt_view(ch)),
        !ctrl && named_key(key@) is Some ==> opt_bytes(r) == named_key(key@),
        !ctrl && named_key(key@) is None ==> opt_bytes(r) == text_bytes(ch),
{
    if ctrl {
        return pty_ctrl_bytes(key, ch);
    }
    let named = named_bytes(key);
    if named.is_some() {
        return named;
    }
    match ch {
        None => None,
        Some(t) => {
            let tv = chars_of(t);
            if tv.len() == 0 {
                return None;
            }
            if eq_str(&tv, "\n") || eq_str(&tv, "\r") {
                let mut v: Vec<u8> = Vec::new();
                v.push(13u8);
                proof {
                    assert(v@ =~= seq![13u8]);
                }
                return Some(v);
            }
            Some(bytes_vec(t.as_bytes()))
        },
    }
}

/// Bytes to write for a named key. `ch` is the OS text if any.
pub fn pty_key_bytes(key: &str, ch: Option<&str>) -> (r: Option<Vec<u8>>)
    ensures
        named_key(key@) is Some ==> opt_bytes(r) == named_key(key@),
        named_key(key@) is None ==> opt_bytes(r) == text_bytes(ch),
{
    pty_input(key, ch, false)
}

/// Paste bytes from `i`: each CR LF, lone CR and lone LF becomes one CR.
pub open spec fn paste_from(b: Seq<u8>, i: int) -> Seq<u8>
    decreases b.len() - i,
{
    if !(0 <= i < b.len()) {
        seq![]
    } else if b[i] == 13 {
        if i + 1 < b.len() && b[i + 1] == 10 {
            seq![13u8] + paste_from(b, i + 2)
        } else {
            seq![13u8] + paste_from(b, i + 1)
        }
    } else if b[i] == 10 {
        seq![13u8] + paste_from(b, i + 1)
    } else {
        seq![b[i]] + paste_from(b, i + 1)
    }
}

/// Paste text: every line break becomes a single `\r` so the PTY sees Enter.
pub fn pty_paste_bytes(text: &str) -> (r: Vec<u8>)
    ensures
        r@ == paste_from(text.spec_bytes(), 0),
{
    let bytes = text.as_bytes();
    let mut out: Vec<u8> = Vec::new();
    let mut i: usize = 0;
    while i < bytes.len()
        invariant
            i <= bytes.len(),
            bytes@ == text.spec_bytes(),
            out@ + paste_from(bytes@, i as int) == paste_from(bytes@, 0),
        decreases bytes.len() - i,
    {
        let b = bytes[i];
        let ghost o = out@;
        if b == 13 {
            out.push(13u8);
            if i + 1 < bytes.len() && bytes[i + 1] == 10 {
                assert(out@ + paste_from(bytes@, i + 2) =~= o + paste_from(bytes@, i as int));
                i = i + 2;
            } else {
                assert(out@ + paste_from(bytes@, i + 1) =~= o + paste_from(bytes@, i as int));
                i = i + 1;
            }
        } else if b == 10 {
            out.push(13u8);
            assert(out@ + paste_from(bytes@, i + 1) =~= o + paste_from(bytes@, i as int));
            i = i + 1;
        } else {
            out.push(b);
            assert(out@ + paste_from(bytes@, i + 1) =~= o + paste_from(bytes@, i as int));
            i = i + 1;
        }
    }
    assert(out@ + paste_from(bytes@, i as int) =~= out@);
    out
}

/// Reject a zero or overflowing PTY size (each side must fit in `i16`).
pub fn validate_pty_size(cols: u16, rows: u16) -> (r: Result<(u16, u16), TerminalError>)
    ensures
        (cols == 0 || rows == 0) ==> (r matches Err(TerminalError::Io(m)) && m@
            == "cols and rows must be greater than 0"@),
        (cols != 0 && rows != 0 && (cols > 32767 || rows > 32767)) ==> (r matches Err(
            TerminalError::Io(m),
        ) && m@ == "cols or rows exceed COORD (i16)"@),
        (1 <= cols <= 32767 && 1 <= rows <= 32767) ==> r == Ok::<(u16, u16), TerminalError>(
            (cols, rows),
        ),
{
    if cols == 0 || rows == 0 {
        return Err(TerminalError::Io("cols and rows must be greater than 0".to_owned()));
    }
    if cols > 32767 || rows > 32767 {
        return Err(TerminalError::Io("cols or rows exceed COORD (i16)".to_owned()));
    }
    Ok((cols, rows))
}

} // verus!
