//! Slash commands typed into the composer.

use vstd::prelude::*;
use crate::text::{chars_of, eq_str, lower_s, lower_vec, split_whitespace, string_of, trim_start_s, trim_start_vec, views, words_s};

verus! {

#[derive(Debug, Clone, PartialEq, Eq)]
pub enum SlashCommand {
    New,
    Stop,
    Help,
    Checkpoint,
    Cores,
    Mcp,
    Points,
    Git,
    Terminal,
    Skills,
    Palette,
    Model,
    Unknown(String),
}

pub enum SlashV {
    New,
    Stop,
    Help,
    Checkpoint,
    Cores,
    Mcp,
    Points,
    Git,
    Terminal,
    Skills,
    Palette,
    Model,
    Unknown(Seq<char>),
}

pub open spec fn slash_view(c: SlashCommand) -> SlashV {
    match c {
        SlashCommand::New => SlashV::New,
        SlashCommand::Stop => SlashV::Stop,
        SlashCommand::Help => SlashV::Help,
        SlashCommand::Checkpoint => SlashV::Checkpoint,
        SlashCommand::Cores => SlashV::Cores,
        SlashCommand::Mcp => SlashV::Mcp,
        SlashCommand::Points => SlashV::Points,
        SlashCommand::Git => SlashV::Git,
        SlashCommand::Terminal => SlashV::Terminal,
        SlashCommand::Skills => SlashV::Skills,
        SlashCommand::Palette => SlashV::Palette,
        SlashCommand::Model => SlashV::Model,
        SlashCommand::Unknown(s) => SlashV::Unknown(s@),
    }
}

/// The command a (case-folded) name selects; `Unknown` keeps the name as
/// typed.
pub open spec fn command_of(token: Seq<char>) -> SlashV {
    let t = lower_s(token);
    if t == "new"@ {
        SlashV::New
    } else if t == "stop"@ {
        SlashV::Stop
    } else if t == "help"@ {
        SlashV::Help
    } else if t == "cp"@ || t == "checkpoint"@ {
        SlashV::Checkpoint
    } else if t == "cores"@ {
        SlashV::Cores
    } else if t == "mcp"@ {
        SlashV::Mcp
    } else if t == "points"@ {
        SlashV::Points
    } else if t == "git"@ {
        SlashV::Git
    } else if t == "term"@ || t == "terminal"@ {
        SlashV::Terminal
    } else if t == "skills"@ {
        SlashV::Skills
    } else if t == "palette"@ {
        SlashV::Palette
    } else if t == "model"@ {
        SlashV::Model
    } else {
        SlashV::Unknown(token)
    }
}

/// `parse_slash`: text whose first non-blank char is `/` names a command by
/// its first word.
pub open spec fn slash_spec(draft: Seq<char>) -> Option<SlashV> {
    let t = trim_start_s(draft);
    if t.len() == 0 || t[0] != '/' {
        None
    } else {
        let w = words_s(t.skip(1));
        Some(
            command_of(
                if w.len() > 0 {
                    w[0]
                } else {
                    Seq::empty()
                },
            ),
        )
    }
}

pub fn parse_slash(draft: &str) -> (r: Option<SlashCommand>)
    ensures
        match r {
            Some(c) => slash_spec(draft@) == Some(slash_view(c)),
            None => slash_spec(draft@) is None,
        },
{
    let d = chars_of(draft);
    let t = trim_start_vec(&d);
    if t.len() == 0 || t[0] != '/' {
        return None;
    }
    let rest = crate::text::sub_vec(&t, 1, t.len());
    assert(rest@ =~= t@.skip(1));
    let words = split_whitespace(&rest);
    let token: Vec<char> = if words.len() > 0 {
        crate::text::sub_vec(&words[0], 0, words[0].len())
    } else {
        Vec::new()
    };
    proof {
        if words.len() > 0 {
            assert(views(words@)[0] == words@[0]@);
            assert(token@ =~= words@[0]@);
        } else {
            assert(token@ =~= Seq::<char>::empty());
        }
    }
    let l = lower_vec(&token);
    let c = if eq_str(&l, "new") {
        SlashCommand::New
    } else if eq_str(&l, "stop") {
        SlashCommand::Stop
    } else if eq_str(&l, "help") {
        SlashCommand::Help
    } else if eq_str(&l, "cp") || eq_str(&l, "checkpoint") {
        SlashCommand::Checkpoint
    } else if eq_str(&l, "cores") {
        SlashCommand::Cores
    } else if eq_str(&l, "mcp") {
        SlashCommand::Mcp
    } else if eq_str(&l, "points") {
        SlashCommand::Points
    } else if eq_str(&l, "git") {
        SlashCommand::Git
    } else if eq_str(&l, "term") || eq_str(&l, "terminal") {
        SlashCommand::Terminal
    } else if eq_str(&l, "skills") {
        SlashCommand::Skills
    } else if eq_str(&l, "palette") {
        SlashCommand::Palette
    } else if eq_str(&l, "model") {
        SlashCommand::Model
    } else {
        SlashCommand::Unknown(string_of(&token))
    };
    Some(c)
}

pub open spec fn hint_of(c: SlashV) -> Seq<char> {
    match c {
        SlashV::New => "start a new chat"@,
        SlashV::Stop => "stop the running turn"@,
        SlashV::Help => "show keyboard help"@,
        SlashV::Checkpoint => "create a checkpoint"@,
        SlashV::Cores => "open the cores inspector"@,
        SlashV::Mcp => "open the MCP inspector"@,
        SlashV::Points => "open the checkpoints inspector"@,
        SlashV::Git => "open the git inspector"@,
        SlashV::Terminal => "open the terminal"@,
        SlashV::Skills => "open skills"@,
        SlashV::Palette => "open the command palette"@,
        SlashV::Model => "switch model"@,
        SlashV::Unknown(_) => "unknown command"@,
    }
}

pub fn slash_hint(cmd: &SlashCommand) -> (r: &'static str)
    ensures
        r@ == hint_of(slash_view(*cmd)),
{
    match cmd {
        SlashCommand::New => "start a new chat",
        SlashCommand::Stop => "stop the running turn",
        SlashCommand::Help => "show keyboard help",
        SlashCommand::Checkpoint => "create a checkpoint",
        SlashCommand::Cores => "open the cores inspector",
        SlashCommand::Mcp => "open the MCP inspector",
        SlashCommand::Points => "open the checkpoints inspector",
        SlashCommand::Git => "open the git inspector",
        SlashCommand::Terminal => "open the terminal",
        SlashCommand::Skills => "open skills",
        SlashCommand::Palette => "open the command palette",
        SlashCommand::Model => "switch model",
        SlashCommand::Unknown(_) => "unknown command",
    }
}

} // verus!
