//! Terminal-strip helpers: line prefixes, history cap, builtin commands.

use vstd::prelude::*;
use crate::text::{append_str, chars_of, eq_str, join_s, lower_vec, lower_s, starts_with_str, starts_with_s, string_of, trim_s, trim_vec, views};

verus! {

/// Hard cap on retained terminal-strip lines. Oldest lines drain first.
pub const TERM_HISTORY_MAX: usize = 80;

/// Prompt shown on the input line of the terminal strip.
pub const TERM_PROMPT: &'static str = "mux>";

/// Kind of a single terminal-strip line.
#[derive(Debug, Clone, Copy, PartialEq, Eq, Structural)]
pub enum TermLineKind {
    Input,
    Output,
    Meta,
    Error,
}

pub open spec fn line_prefix(kind: TermLineKind) -> Seq<char> {
    match kind {
        TermLineKind::Input => "$ "@,
        TermLineKind::Output => Seq::empty(),
        TermLineKind::Meta => "· "@,
        TermLineKind::Error => "! "@,
    }
}

/// Prefix a strip line for display: `$ `, nothing, `· ` or `! `.
pub fn format_line(kind: TermLineKind, text: &str) -> (r: String)
    ensures
        r@ == line_prefix(kind) + text@,
{
    let mut v: Vec<char> = Vec::new();
    match kind {
        TermLineKind::Input => append_str(&mut v, "$ "),
        TermLineKind::Output => {},
        TermLineKind::Meta => append_str(&mut v, "· "),
        TermLineKind::Error => append_str(&mut v, "! "),
    }
    append_str(&mut v, text);
    let r = string_of(&v);
    assert(r@ =~= line_prefix(kind) + text@);
    r
}

pub open spec fn string_views(v: Seq<String>) -> Seq<Seq<char>> {
    v.map_values(|s: String| s@)
}

/// The newest `TERM_HISTORY_MAX` lines of `s`.
pub open spec fn capped_log(s: Seq<Seq<char>>) -> Seq<Seq<char>> {
    if s.len() > TERM_HISTORY_MAX {
        s.skip(s.len() - TERM_HISTORY_MAX)
    } else {
        s
    }
}

/// Append `line` and drain from the front so `log` stays at the cap.
pub fn push_capped(log: &mut Vec<String>, line: String)
    ensures
        string_views(final(log)@) == capped_log(string_views(old(log)@).push(line@)),
{
    let ghost l = line@;
    log.push(line);
    let ghost full = string_views(log@);
    assert(full =~= string_views(old(log)@).push(l));
    if log.len() > TERM_HISTORY_MAX {
        let drop = log.len() - TERM_HISTORY_MAX;
        let mut kept: Vec<String> = Vec::new();
        let mut i: usize = drop;
        while i < log.len()
            invariant
                drop <= i <= log.len(),
                full == string_views(log@),
                string_views(kept@) == full.subrange(drop as int, i as int),
            decreases log.len() - i,
        {
            let ghost before = kept@;
            kept.push(log[i].clone());
            assert(string_views(kept@) =~= string_views(before).push(full[i as int]));
            i = i + 1;
        }
        assert(full.subrange(drop as int, log.len() as int) =~= full.skip(drop as int));
        *log = kept;
    }
}

/// Last `max_lines` entries joined with a newline. Empty when `max_lines` is 0.
pub fn visible_tail(log: &[String], max_lines: usize) -> (r: String)
    ensures
        r@ == join_s(
            string_views(log@).skip(
                if log@.len() > max_lines {
                    log@.len() - max_lines
                } else {
                    0
                },
            ),
            seq!['\n'],
        ),
{
    let start = log.len().saturating_sub(max_lines);
    let mut parts: Vec<Vec<char>> = Vec::new();
    let mut i: usize = start;
    while i < log.len()
        invariant
            start <= i <= log.len(),
            views(parts@) == string_views(log@).subrange(start as int, i as int),
        decreases log.len() - i,
    {
        let ghost before = parts@;
        let p = chars_of(log[i].as_str());
        parts.push(p);
        proof {
            crate::text::lemma_views_push(before, p);
            assert(string_views(log@).subrange(start as int, i + 1) =~= string_views(log@).subrange(
                start as int,
                i as int,
            ).push(log@[i as int]@));
        }
        i = i + 1;
    }
    assert(string_views(log@).subrange(start as int, log.len() as int) =~= string_views(log@).skip(
        start as int,
    ));
    let sep = chars_of("\n");
    proof {
        reveal_strlit("\n");
        assert(sep@ =~= seq!['\n']);
    }
    string_of(&crate::text::join_vecs(&parts, &sep))
}

/// Commands the desktop handles in-process.
#[derive(Debug, Clone, Copy, PartialEq, Eq, Structural)]
pub enum BuiltinCmd {
    Clear,
    Help,
    Cores,
    Mcp,
    Git,
    Checkpoint,
    Skills,
    Unknown,
}

/// The builtin a typed line names; `git ...` and anything else go to the
/// real shell.
pub open spec fn builtin_spec(line: Seq<char>) -> Option<BuiltinCmd> {
    let t = trim_s(line);
    let k = lower_s(t);
    if t.len() == 0 || starts_with_s(k, "git "@) {
        None
    } else if k == "clear"@ || k == "cls"@ {
        Some(BuiltinCmd::Clear)
    } else if k == "help"@ || k == "?"@ {
        Some(BuiltinCmd::Help)
    } else if k == "cores"@ {
        Some(BuiltinCmd::Cores)
    } else if k == "mcp"@ {
        Some(BuiltinCmd::Mcp)
    } else if k == "git"@ {
        Some(BuiltinCmd::Git)
    } else if k == "points"@ || k == "checkpoint"@ {
        Some(BuiltinCmd::Checkpoint)
    } else if k == "skills"@ {
        Some(BuiltinCmd::Skills)
    } else {
        None
    }
}

/// Classify a typed line as an in-process builtin, or `None` for the real shell.
pub fn parse_builtin(line: &str) -> (r: Option<BuiltinCmd>)
    ensures
        r == builtin_spec(line@),
{
    let l = chars_of(line);
    let t = trim_vec(&l);
    if t.len() == 0 {
        return None;
    }
    let k = lower_vec(&t);
    if starts_with_str(&k, "git ") {
        return None;
    }
    if eq_str(&k, "clear") || eq_str(&k, "cls") {
        Some(BuiltinCmd::Clear)
    } else if eq_str(&k, "help") || eq_str(&k, "?") {
        Some(BuiltinCmd::Help)
    } else if eq_str(&k, "cores") {
        Some(BuiltinCmd::Cores)
    } else if eq_str(&k, "mcp") {
        Some(BuiltinCmd::Mcp)
    } else if eq_str(&k, "git") {
        Some(BuiltinCmd::Git)
    } else if eq_str(&k, "points") || eq_str(&k, "checkpoint") {
        Some(BuiltinCmd::Checkpoint)
    } else if eq_str(&k, "skills") {
        Some(BuiltinCmd::Skills)
    } else {
        None
    }
}

/// Static help copy for the `help` / `?` builtin.
pub fn help_text() -> (r: &'static str)
    ensures
        r@ == "Type a shell command and Enter. Builtins: clear, help, cores, mcp, git, points, skills."@,
{
    "Type a shell command and Enter. Builtins: clear, help, cores, mcp, git, points, skills."
}

} // verus!
