//! Which system shell or TUI to host in the in-app terminal.

use vstd::prelude::*;
use crate::text::{append_str, chars_of, string_of, trim_s, trim_vec};
use crate::workbench::SystemTerminal;

verus! {

/// Program, argv and label for the embedded session.
#[derive(Debug, Clone, PartialEq, Eq)]
pub struct EmbedTarget {
    pub program: String,
    pub args: Vec<String>,
    pub label: String,
}

pub struct TargetV {
    pub program: Seq<char>,
    pub args: Seq<Seq<char>>,
    pub label: Seq<char>,
}

pub open spec fn target_view(t: EmbedTarget) -> TargetV {
    TargetV {
        program: t.program@,
        args: t.args@.map_values(|a: String| a@),
        label: t.label@,
    }
}

/// Interactive Grok in `cwd` (trimmed; `.` when blank), with the folder gate
/// and tool prompts skipped and no one-shot flag.
pub open spec fn grok_target(cwd: Seq<char>) -> TargetV {
    let c = if trim_s(cwd).len() == 0 {
        "."@
    } else {
        trim_s(cwd)
    };
    TargetV {
        program: "grok"@,
        args: seq!["--always-approve"@, "--trust"@, "--cwd"@, c],
        label: "Grok"@,
    }
}

/// Open-here: the selected shell when its path is not blank, else Grok.
pub open spec fn selection_target(term: Option<SystemTerminal>, cwd: Seq<char>) -> TargetV {
    match term {
        Some(t) => if trim_s(t.path@).len() > 0 {
            TargetV {
                program: t.path@,
                args: Seq::empty(),
                label: if trim_s(t.label@).len() == 0 {
                    t.id@
                } else {
                    t.label@
                },
            }
        } else {
            grok_target(cwd)
        },
        None => grok_target(cwd),
    }
}

/// Open-here: selected shell path, or Grok if nothing was detected.
pub fn embed_from_selection(term: Option<&SystemTerminal>, cwd: &str) -> (r: EmbedTarget)
    ensures
        target_view(r) == selection_target(
            match term {
                Some(t) => Some(*t),
                None => None,
            },
            cwd@,
        ),
{
    match term {
        Some(t) => {
            let p = trim_vec(&chars_of(t.path.as_str()));
            if p.len() > 0 {
                let l = trim_vec(&chars_of(t.label.as_str()));
                let label = if l.len() == 0 {
                    t.id.clone()
                } else {
                    t.label.clone()
                };
                let args: Vec<String> = Vec::new();
                let r = EmbedTarget { program: t.path.clone(), args, label };
                assert(target_view(r).args =~= Seq::<Seq<char>>::empty());
                r
            } else {
                embed_grok(cwd)
            }
        },
        None => embed_grok(cwd),
    }
}

/// Interactive Grok for a chat: `--trust` skips the folder gate,
/// `--always-approve` skips tool prompts; no `-p`, so the pager stays up.
pub fn embed_grok(cwd: &str) -> (r: EmbedTarget)
    ensures
        target_view(r) == grok_target(cwd@),
{
    let t = trim_vec(&chars_of(cwd));
    let c = if t.len() == 0 {
        ".".to_owned()
    } else {
        string_of(&t)
    };
    let r = EmbedTarget {
        program: "grok".to_owned(),
        args: vec!["--always-approve".to_owned(), "--trust".to_owned(), "--cwd".to_owned(), c],
        label: "Grok".to_owned(),
    };
    assert(target_view(r).args =~= grok_target(cwd@).args);
    r
}

/// Surface string painted in the in-app host chrome.
pub fn embed_surface(label: &str) -> (r: String)
    ensures
        r@ == "in-app "@ + label@,
{
    let mut v: Vec<char> = Vec::new();
    append_str(&mut v, "in-app ");
    append_str(&mut v, label);
    string_of(&v)
}

/// GUI Send types into the live PTY instead of starting a one-shot turn.
pub fn live_pty_takes_gui_send(tui_alive: bool) -> (r: bool)
    ensures
        r == tui_alive,
{
    tui_alive
}

} // verus!
