//! Center pane: the chat log, or a host for an external TUI.

use vstd::prelude::*;
use crate::text::{append_str, dec, push_dec, string_of};

verus! {

/// Which surface occupies the center.
#[derive(Debug, Clone, Copy, PartialEq, Eq, Structural)]
pub enum CenterMode {
    Gui,
    GrokTui,
}

impl CenterMode {
    pub fn label(self) -> (r: &'static str)
        ensures
            r@ == (match self {
                CenterMode::Gui => "Chat log"@,
                CenterMode::GrokTui => "Grok TUI"@,
            }),
    {
        match self {
            CenterMode::Gui => "Chat log",
            CenterMode::GrokTui => "Grok TUI",
        }
    }

    pub fn toggle(self) -> (r: Self)
        ensures
            r == (match self {
                CenterMode::Gui => CenterMode::GrokTui,
                CenterMode::GrokTui => CenterMode::Gui,
            }),
    {
        match self {
            CenterMode::Gui => CenterMode::GrokTui,
            CenterMode::GrokTui => CenterMode::Gui,
        }
    }
}

impl Default for CenterMode {
    fn default() -> (r: Self)
        ensures
            r == CenterMode::Gui,
    {
        CenterMode::Gui
    }
}

/// Lifecycle of the supervised TUI process.
#[derive(Debug, Clone, Copy, PartialEq, Eq, Structural)]
pub enum TuiLife {
    Stopped,
    Running,
    Exited,
}

pub open spec fn life_label(l: TuiLife) -> Seq<char> {
    match l {
        TuiLife::Stopped => "stopped"@,
        TuiLife::Running => "running"@,
        TuiLife::Exited => "exited"@,
    }
}

impl TuiLife {
    pub fn label(self) -> (r: &'static str)
        ensures
            r@ == life_label(self),
    {
        match self {
            TuiLife::Stopped => "stopped",
            TuiLife::Running => "running",
            TuiLife::Exited => "exited",
        }
    }
}

impl Default for TuiLife {
    fn default() -> (r: Self)
        ensures
            r == TuiLife::Stopped,
    {
        TuiLife::Stopped
    }
}

/// Projection of the TUI host. The OS process lives in the desktop.
#[derive(Debug, Clone, PartialEq, Eq)]
pub struct GrokTuiHost {
    pub life: TuiLife,
    pub pid: Option<u32>,
    pub program: String,
    pub cwd: String,
    pub note: String,
}

pub open spec fn host_note() -> Seq<char> {
    "Grok owns the agent TUI. Multiplexer hosts it in a real console."@
}

impl GrokTuiHost {
    pub fn idle(cwd: &str) -> (h: Self)
        ensures
            h.life == TuiLife::Stopped,
            h.pid is None,
            h.program@ == "grok"@,
            h.cwd@ == cwd@,
            h.note@ == host_note(),
    {
        GrokTuiHost {
            life: TuiLife::Stopped,
            pid: None,
            program: "grok".to_owned(),
            cwd: cwd.to_owned(),
            note: "Grok owns the agent TUI. Multiplexer hosts it in a real console.".to_owned(),
        }
    }

    pub fn mark_running(&mut self, pid: u32, program: &str)
        ensures
            *final(self) == (GrokTuiHost {
                life: TuiLife::Running,
                pid: Some(pid),
                program: final(self).program,
                ..*old(self)
            }),
            final(self).program@ == program@,
    {
        self.life = TuiLife::Running;
        self.pid = Some(pid);
        self.program = program.to_owned();
    }

    pub fn mark_exited(&mut self)
        ensures
            *final(self) == (GrokTuiHost { life: TuiLife::Exited, pid: None, ..*old(self) }),
    {
        self.life = TuiLife::Exited;
        self.pid = None;
    }

    pub fn mark_failed(&mut self, message: &str)
        ensures
            *final(self) == (GrokTuiHost {
                life: TuiLife::Stopped,
                pid: None,
                note: final(self).note,
                ..*old(self)
            }),
            final(self).note@ == message@,
    {
        self.life = TuiLife::Stopped;
        self.pid = None;
        self.note = message.to_owned();
    }

    /// `<life>  <program>  pid <pid or ->  <cwd>` then the note on a new line.
    pub fn summary(&self) -> (r: String)
        ensures
            r@ == life_label(self.life) + "  "@ + self.program@ + "  pid "@ + (match self.pid {
                Some(p) => dec(p as nat),
                None => "-"@,
            }) + "  "@ + self.cwd@ + "\n"@ + self.note@,
    {
        let mut v: Vec<char> = Vec::new();
        append_str(&mut v, self.life.label());
        append_str(&mut v, "  ");
        append_str(&mut v, self.program.as_str());
        append_str(&mut v, "  pid ");
        match self.pid {
            Some(p) => push_dec(&mut v, p as u64),
            None => append_str(&mut v, "-"),
        }
        append_str(&mut v, "  ");
        append_str(&mut v, self.cwd.as_str());
        append_str(&mut v, "\n");
        append_str(&mut v, self.note.as_str());
        let r = string_of(&v);
        assert(r@ =~= life_label(self.life) + "  "@ + self.program@ + "  pid "@ + (match self.pid {
            Some(p) => dec(p as nat),
            None => "-"@,
        }) + "  "@ + self.cwd@ + "\n"@ + self.note@);
        r
    }
}

} // verus!
