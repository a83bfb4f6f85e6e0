//! Terminal identity, size spec, errors, and plain-text filtering of PTY output.

use vstd::prelude::*;
use crate::text::{append_str, append_vec, chars_of, string_of};
use crate::tui_input::{decode_lossy, utf8_lossy};

verus! {

/// Terminal identifier assigned by [`crate::hub::TerminalHub::create`] (`term-1`, ...).
#[derive(Debug, Clone, PartialEq, Eq, Hash)]
pub struct TerminalId(pub String);

impl TerminalId {
    /// Id holding `value`.
    pub fn from(value: &str) -> (r: Self)
        ensures
            r.0@ == value@,
    {
        TerminalId(value.to_owned())
    }

    /// Borrow the raw id string.
    pub fn as_str(&self) -> (r: &str)
        ensures
            r@ == self.0@,
    {
        self.0.as_str()
    }

    /// The id as display text.
    pub fn to_string(&self) -> (r: String)
        ensures
            r@ == self.0@,
    {
        self.0.clone()
    }
}

/// How to create a terminal: size and working directory.
#[derive(Debug, Clone, PartialEq, Eq)]
pub struct TerminalSpec {
    pub cols: u16,
    pub rows: u16,
    pub cwd: String,
}

impl TerminalSpec {
    pub fn new(cols: u16, rows: u16, cwd: &str) -> (r: Self)
        ensures
            r.cols == cols,
            r.rows == rows,
            r.cwd@ == cwd@,
    {
        TerminalSpec { cols, rows, cwd: cwd.to_owned() }
    }
}

/// Failure from a terminal hub or process operation.
#[derive(Debug, Clone, PartialEq, Eq)]
pub enum TerminalError {
    /// No live terminal exists for the given id.
    NotFound(TerminalId),
    /// Starting the program failed.
    Spawn { program: String, message: String },
    /// Stdin write, kill, or other child I/O failed.
    Io(String),
}

/// The message text of an error.
pub open spec fn error_message(e: TerminalError) -> Seq<char> {
    match e {
        TerminalError::NotFound(id) => "not found: "@ + id.0@,
        TerminalError::Spawn { program, message } => "spawn `"@ + program@ + "`: "@ + message@,
        TerminalError::Io(m) => m@,
    }
}

impl TerminalError {
    /// Human-readable message.
    pub fn to_string(&self) -> (r: String)
        ensures
            r@ == error_message(*self),
    {
        match self {
            TerminalError::NotFound(id) => {
                let mut v: Vec<char> = Vec::new();
                append_str(&mut v, "not found: ");
                append_str(&mut v, id.0.as_str());
                string_of(&v)
            },
            TerminalError::Spawn { program, message } => {
                let mut v: Vec<char> = Vec::new();
                append_str(&mut v, "spawn `");
                append_str(&mut v, program.as_str());
                append_str(&mut v, "`: ");
                append_str(&mut v, message.as_str());
                string_of(&v)
            },
            TerminalError::Io(m) => m.clone(),
        }
    }
}

// ---------------------------------------------------------------------------
// Plain text of PTY output
// ---------------------------------------------------------------------------

/// Index after the first char at or after `j` that ends a CSI (an ASCII letter
/// or `~`), or the length.
pub open spec fn skip_csi(s: Seq<char>, j: int) -> int
    decreases s.len() - j,
{
    if !(0 <= j < s.len()) {
        s.len() as int
    } else if crate::text::is_ascii_alpha(s[j]) || s[j] == '~' {
        j + 1
    } else {
        skip_csi(s, j + 1)
    }
}

/// Index after the first BEL or ESC at or after `j`, or the length.
pub open spec fn skip_osc(s: Seq<char>, j: int) -> int
    decreases s.len() - j,
{
    if !(0 <= j < s.len()) {
        s.len() as int
    } else if s[j] == '\u{7}' || s[j] == '\u{1b}' {
        j + 1
    } else {
        skip_osc(s, j + 1)
    }
}

pub proof fn lemma_skip_csi(s: Seq<char>, j: int)
    requires
        0 <= j <= s.len(),
    ensures
        j <= skip_csi(s, j) <= s.len(),
    decreases s.len() - j,
{
    if j < s.len() && !(crate::text::is_ascii_alpha(s[j]) || s[j] == '~') {
        lemma_skip_csi(s, j + 1);
    }
}

pub proof fn lemma_skip_osc(s: Seq<char>, j: int)
    requires
        0 <= j <= s.len(),
    ensures
        j <= skip_osc(s, j) <= s.len(),
    decreases s.len() - j,
{
    if j < s.len() && !(s[j] == '\u{7}' || s[j] == '\u{1b}') {
        lemma_skip_osc(s, j + 1);
    }
}

/// Text of `s` from `i` with CSI and OSC sequences, other two-char escapes
/// and carriage returns dropped.
pub open spec fn visible_from(s: Seq<char>, i: int) -> Seq<char>
    decreases s.len() - i,
{
    if !(0 <= i < s.len()) {
        seq![]
    } else if s[i] == '\u{1b}' {
        if i + 1 >= s.len() {
            seq![]
        } else if s[i + 1] == '[' {
            proof {
                lemma_skip_csi(s, i + 2);
            }
            visible_from(s, skip_csi(s, i + 2))
        } else if s[i + 1] == ']' {
            proof {
                lemma_skip_osc(s, i + 2);
            }
            visible_from(s, skip_osc(s, i + 2))
        } else {
            visible_from(s, i + 2)
        }
    } else if s[i] == '\r' {
        visible_from(s, i + 1)
    } else {
        seq![s[i]] + visible_from(s, i + 1)
    }
}

fn skip_csi_exec(s: &Vec<char>, j: usize) -> (r: usize)
    requires
        j <= s.len(),
    ensures
        r as int == skip_csi(s@, j as int),
{
    let mut k = j;
    while k < s.len()
        invariant
            j <= k <= s.len(),
            skip_csi(s@, k as int) == skip_csi(s@, j as int),
        decreases s.len() - k,
    {
        let c = s[k];
        if ('a' <= c && c <= 'z') || ('A' <= c && c <= 'Z') || c == '~' {
            return k + 1;
        }
        k = k + 1;
    }
    k
}

fn skip_osc_exec(s: &Vec<char>, j: usize) -> (r: usize)
    requires
        j <= s.len(),
    ensures
        r as int == skip_osc(s@, j as int),
{
    let mut k = j;
    while k < s.len()
        invariant
            j <= k <= s.len(),
            skip_osc(s@, k as int) == skip_osc(s@, j as int),
        decreases s.len() - k,
    {
        let c = s[k];
        if c == '\u{7}' || c == '\u{1b}' {
            return k + 1;
        }
        k = k + 1;
    }
    k
}

/// Drop CSI / OSC so an in-app pane is readable without a full VT grid.
pub fn visible_pty_text(raw: &str) -> (r: String)
    ensures
        r@ == visible_from(raw@, 0),
{
    let s = chars_of(raw);
    let mut out: Vec<char> = Vec::new();
    let mut i: usize = 0;
    while i < s.len()
        invariant
            i <= s.len(),
            out@ + visible_from(s@, i as int) == visible_from(s@, 0),
        decreases s.len() - i,
    {
        let c = s[i];
        if c == '\u{1b}' {
            if i + 1 >= s.len() {
                i = s.len();
            } else if s[i + 1] == '[' {
                proof {
                    lemma_skip_csi(s@, i + 2);
                }
                i = skip_csi_exec(&s, i + 2);
            } else if s[i + 1] == ']' {
                proof {
                    lemma_skip_osc(s@, i + 2);
                }
                i = skip_osc_exec(&s, i + 2);
            } else {
                i = i + 2;
            }
        } else if c == '\r' {
            i = i + 1;
        } else {
            proof {
                assert(out@.push(c) + visible_from(s@, i + 1) =~= out@ + visible_from(
                    s@,
                    i as int,
                ));
            }
            out.push(c);
            i = i + 1;
        }
    }
    proof {
        assert(out@ + visible_from(s@, i as int) =~= out@);
    }
    string_of(&out)
}

// ---------------------------------------------------------------------------
// Windows command-line quoting
// ---------------------------------------------------------------------------

pub open spec fn needs_quotes(a: Seq<char>) -> bool {
    a.contains(' ') || a.contains('\t') || a.contains('"')
}

pub open spec fn backslashes(n: nat) -> Seq<char> {
    Seq::new(n, |i: int| '\\')
}

/// Quoted body of `a` from `i`, with `b` backslashes seen and not yet written.
pub open spec fn quote_body(a: Seq<char>, i: int, b: nat) -> Seq<char>
    decreases a.len() - i,
{
    if !(0 <= i < a.len()) {
        backslashes(2 * b)
    } else if a[i] == '\\' {
        quote_body(a, i + 1, b + 1)
    } else if a[i] == '"' {
        backslashes(2 * b + 1) + seq!['"'] + quote_body(a, i + 1, 0)
    } else {
        backslashes(b) + seq![a[i]] + quote_body(a, i + 1, 0)
    }
}

/// One argument as `CommandLineToArgvW` reads it back.
pub open spec fn quote_arg(a: Seq<char>) -> Seq<char> {
    if a.len() == 0 {
        seq!['"', '"']
    } else if !needs_quotes(a) {
        a
    } else {
        seq!['"'] + quote_body(a, 0, 0) + seq!['"']
    }
}

/// The first `n` arguments, each preceded by a space.
pub open spec fn quoted_args(args: Seq<Seq<char>>, n: int) -> Seq<char>
    decreases n,
{
    if n <= 0 {
        seq![]
    } else {
        quoted_args(args, n - 1) + seq![' '] + quote_arg(args[n - 1])
    }
}

pub open spec fn str_views(v: Seq<&str>) -> Seq<Seq<char>> {
    v.map_values(|s: &str| s@)
}

fn push_backslashes(out: &mut Vec<char>, n: usize)
    ensures
        final(out)@ == old(out)@ + backslashes(n as nat),
{
    let ghost o = out@;
    let mut k: usize = 0;
    while k < n
        invariant
            k <= n,
            out@ == o + backslashes(k as nat),
        decreases n - k,
    {
        out.push('\\');
        assert(o + backslashes(k as nat) + seq!['\\'] =~= o + backslashes((k + 1) as nat));
        k = k + 1;
    }
}

fn append_quoted(out: &mut Vec<char>, arg: &str)
    ensures
        final(out)@ == old(out)@ + quote_arg(arg@),
{
    let a = chars_of(arg);
    if a.len() == 0 {
        out.push('"');
        out.push('"');
        assert(old(out)@.push('"').push('"') =~= old(out)@ + seq!['"', '"']);
        return ;
    }
    let mut needs = false;
    let mut k: usize = 0;
    while k < a.len()
        invariant
            k <= a.len(),
            needs == (exists|j: int|
                0 <= j < k && (a@[j] == ' ' || a@[j] == '\t' || a@[j] == '"')),
        decreases a.len() - k,
    {
        if a[k] == ' ' || a[k] == '\t' || a[k] == '"' {
            needs = true;
        }
        k = k + 1;
    }
    proof {
        if needs {
            let j = choose|j: int|
                0 <= j < a.len() && (a@[j] == ' ' || a@[j] == '\t' || a@[j] == '"');
            assert(a@.contains(a@[j]));
        }
        if needs_quotes(a@) {
            if a@.contains(' ') {
                let j = choose|j: int| 0 <= j < a@.len() && a@[j] == ' ';
                assert(a@[j] == ' ');
            } else if a@.contains('\t') {
                let j = choose|j: int| 0 <= j < a@.len() && a@[j] == '\t';
                assert(a@[j] == '\t');
            } else {
                let j = choose|j: int| 0 <= j < a@.len() && a@[j] == '"';
                assert(a@[j] == '"');
            }
        }
    }
    if !needs {
        append_vec(out, &a);
        return ;
    }
    let ghost o = old(out)@;
    out.push('"');
    let mut b: usize = 0;
    let mut i: usize = 0;
    while i < a.len()
        invariant
            i <= a.len(),
            b <= i,
            out@ + quote_body(a@, i as int, b as nat) == o + seq!['"'] + quote_body(a@, 0, 0),
        decreases a.len() - i,
    {
        let c = a[i];
        let ghost before = out@;
        if c == '\\' {
            b = b + 1;
        } else if c == '"' {
            push_backslashes(out, b);
            push_backslashes(out, b);
            out.push('\\');
            out.push('"');
            proof {
                assert(backslashes(b as nat) + backslashes(b as nat) + seq!['\\'] =~= backslashes(
                    (2 * b + 1) as nat,
                ));
                assert(out@ =~= before + backslashes((2 * b + 1) as nat) + seq!['"']);
                assert(out@ + quote_body(a@, i + 1, 0) =~= before + quote_body(
                    a@,
                    i as int,
                    b as nat,
                ));
            }
            b = 0;
        } else {
            push_backslashes(out, b);
            out.push(c);
            proof {
                assert(out@ + quote_body(a@, i + 1, 0) =~= before + quote_body(
                    a@,
                    i as int,
                    b as nat,
                ));
            }
            b = 0;
        }
        i = i + 1;
    }
    let ghost before = out@;
    push_backslashes(out, b);
    push_backslashes(out, b);
    out.push('"');
    proof {
        assert(backslashes(b as nat) + backslashes(b as nat) =~= backslashes((2 * b) as nat));
        assert(quote_body(a@, i as int, b as nat) == backslashes((2 * b) as nat));
        assert(out@ =~= before + quote_body(a@, i as int, b as nat) + seq!['"']);
        assert(needs_quotes(a@));
        assert(quote_arg(a@) == seq!['"'] + quote_body(a@, 0, 0) + seq!['"']);
        assert(out@ =~= o + quote_arg(a@));
    }
}

/// Join `program` and `args` the way `CreateProcessW` / `CommandLineToArgvW` expect.
pub fn command_line(program: &str, args: &[&str]) -> (r: String)
    ensures
        r@ == quote_arg(program@) + quoted_args(str_views(args@), args@.len() as int),
{
    let mut out: Vec<char> = Vec::new();
    append_quoted(&mut out, program);
    let mut i: usize = 0;
    while i < args.len()
        invariant
            i <= args.len(),
            out@ == quote_arg(program@) + quoted_args(str_views(args@), i as int),
        decreases args.len() - i,
    {
        out.push(' ');
        append_quoted(&mut out, args[i]);
        proof {
            assert(str_views(args@)[i as int] == args@[i as int]@);
            assert(out@ =~= quote_arg(program@) + quoted_args(str_views(args@), i + 1));
        }
        i = i + 1;
    }
    string_of(&out)
}

/// A captured output line without its line ending: one trailing `\n`,
/// then one trailing `\r`, dropped.
pub open spec fn line_body(b: Seq<u8>) -> Seq<u8> {
    let b1 = if b.len() > 0 && b.last() == 10u8 {
        b.drop_last()
    } else {
        b
    };
    if b1.len() > 0 && b1.last() == 13u8 {
        b1.drop_last()
    } else {
        b1
    }
}

/// One line read from a child's output, as text: the line ending dropped,
/// then decoded as `String::from_utf8_lossy` does.
pub fn capture_line(buf: &[u8]) -> (r: String)
    ensures
        r@ == utf8_lossy(line_body(buf@)),
{
    let mut n = buf.len();
    if n > 0 && buf[n - 1] == 10u8 {
        n = n - 1;
    }
    if n > 0 && buf[n - 1] == 13u8 {
        n = n - 1;
    }
    let body = &buf[0..n];
    assert(body@ =~= line_body(buf@));
    decode_lossy(body)
}

} // verus!
