//! Compact client status for the chrome status strip.

use vstd::prelude::*;
use crate::text::{append_str, dec, push_dec, string_of};
use crate::workspace::Workspace;

verus! {

/// Counts and busy flag projected from the workspace.
#[derive(Debug, Clone, PartialEq, Eq)]
pub struct ClientStatus {
    pub busy: bool,
    pub session_id: Option<String>,
    pub thread_count: usize,
    pub mcp_count: usize,
    pub core_count: usize,
    pub checkpoint_count: usize,
    pub worktree_count: usize,
    pub palette_open: bool,
    pub help_open: bool,
    pub term_lines: usize,
}

/// `idle · 3 chats · 12 mcp · 16 cores · 1 cp · 0 wt`, prefixed by
/// `palette · ` and then `help · ` when those overlays are open.
pub open spec fn status_text(s: ClientStatus) -> Seq<char> {
    let base = base_text(s);
    let p = if s.palette_open {
        "palette · "@ + base
    } else {
        base
    };
    if s.help_open {
        "help · "@ + p
    } else {
        p
    }
}

pub open spec fn base_text(s: ClientStatus) -> Seq<char> {
    (if s.busy {
        "running"@
    } else {
        "idle"@
    }) + " · "@ + dec(s.thread_count as nat) + " chats · "@ + dec(s.mcp_count as nat) + " mcp · "@
        + dec(s.core_count as nat) + " cores · "@ + dec(s.checkpoint_count as nat) + " cp · "@ + dec(
        s.worktree_count as nat,
    ) + " wt"@
}

fn push_count(v: &mut Vec<char>, n: usize, label: &str)
    ensures
        final(v)@ == old(v)@ + dec(n as nat) + label@,
{
    push_dec(v, n as u64);
    append_str(v, label);
}

fn base_line(s: &ClientStatus) -> (r: Vec<char>)
    ensures
        r@ == base_text(*s),
{
    let mut v: Vec<char> = Vec::new();
    if s.busy {
        append_str(&mut v, "running");
    } else {
        append_str(&mut v, "idle");
    }
    append_str(&mut v, " · ");
    push_count(&mut v, s.thread_count, " chats · ");
    push_count(&mut v, s.mcp_count, " mcp · ");
    push_count(&mut v, s.core_count, " cores · ");
    push_count(&mut v, s.checkpoint_count, " cp · ");
    push_count(&mut v, s.worktree_count, " wt");
    assert(v@ =~= base_text(*s));
    v
}

/// Compact status strip.
pub fn status_line(s: &ClientStatus) -> (r: String)
    ensures
        r@ == status_text(*s),
{
    let base = base_line(s);
    let mut v: Vec<char> = Vec::new();
    if s.help_open {
        append_str(&mut v, "help · ");
    }
    if s.palette_open {
        append_str(&mut v, "palette · ");
    }
    crate::text::append_vec(&mut v, &base);
    let r = string_of(&v);
    assert(r@ =~= status_text(*s));
    r
}

/// Copy counts and busy flag from `ws`. `session_id` is taken as given;
/// `core_count` is the number of CPU samples the host holds.
pub fn status_from(ws: &Workspace, session_id: Option<String>, core_count: usize) -> (s: ClientStatus)
    ensures
        s == (ClientStatus {
            busy: ws.busy,
            session_id,
            thread_count: ws.threads@.len() as usize,
            mcp_count: ws.mcp@.len() as usize,
            core_count,
            checkpoint_count: ws.checkpoints@.len() as usize,
            worktree_count: ws.worktrees@.len() as usize,
            palette_open: ws.palette_open,
            help_open: ws.help_open,
            term_lines: ws.terminal_log@.len() as usize,
        }),
{
    ClientStatus {
        busy: ws.busy,
        session_id,
        thread_count: ws.threads.len(),
        mcp_count: ws.mcp.len(),
        core_count,
        checkpoint_count: ws.checkpoints.len(),
        worktree_count: ws.worktrees.len(),
        palette_open: ws.palette_open,
        help_open: ws.help_open,
        term_lines: ws.terminal_log.len(),
    }
}

} // verus!
