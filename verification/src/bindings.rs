//! Map a [`ClientAction`] plus session context to a host call: the single
//! place that knows the host's method names and parameter shapes.

use vstd::prelude::*;
use crate::actions::ClientAction;
use crate::text::{append_str, string_of};

verus! {

/// Session-scoped values the desktop supplies when mapping an action.
#[derive(Debug, Clone, PartialEq, Eq)]
pub struct ActionContext {
    pub session_id: Option<String>,
    pub project: String,
    pub checkpoint_id: Option<String>,
    pub approval_request_id: Option<String>,
    pub model: String,
}

/// Where a [`ClientAction`] should be executed.
#[derive(Debug, Clone, PartialEq, Eq)]
pub enum HostCall {
    Rpc { method: &'static str, params_json: String },
    /// Chrome-only; the layout handles it.
    Local,
    /// The desktop does the I/O itself.
    NeedsHost,
}

/// A host call as plain values.
pub enum HostCallV {
    Rpc { method: Seq<char>, params: Seq<char> },
    Local,
    NeedsHost,
}

pub open spec fn call_view(h: HostCall) -> HostCallV {
    match h {
        HostCall::Rpc { method, params_json } => HostCallV::Rpc {
            method: method@,
            params: params_json@,
        },
        HostCall::Local => HostCallV::Local,
        HostCall::NeedsHost => HostCallV::NeedsHost,
    }
}

pub open spec fn opt_view(o: Option<String>) -> Option<Seq<char>> {
    match o {
        Some(s) => Some(s@),
        None => None,
    }
}

/// Actions the chrome handles without the host.
pub open spec fn is_local(a: ClientAction) -> bool {
    match a {
        ClientAction::NewThread | ClientAction::SelectThread(_) | ClientAction::ToggleLeft
        | ClientAction::ToggleRight | ClientAction::SelectTab(_) | ClientAction::DismissReminder
        | ClientAction::TogglePalette | ClientAction::ClosePalette | ClientAction::ToggleHelp
        | ClientAction::DeleteThread | ClientAction::CycleModel
        | ClientAction::SelectLeftSection(_) | ClientAction::ToggleBottom
        | ClientAction::InsertFileMention | ClientAction::ToggleSettings
        | ClientAction::ToggleSearch | ClientAction::CloseSearch | ClientAction::ToggleCenterMode
        | ClientAction::SetCenterGui | ClientAction::SetCenterTui | ClientAction::ResetOutlook
        | ClientAction::FocusLayout | ClientAction::CloseOverlay | ClientAction::PopOutInspector
        | ClientAction::DockInspector | ClientAction::ClosePopOut | ClientAction::NextRegion
        | ClientAction::NudgeBottomUp | ClientAction::NudgeBottomDown | ClientAction::HideLeft
        | ClientAction::HideRight | ClientAction::HideBottom | ClientAction::DismissToast
        | ClientAction::Later | ClientAction::PinThread | ClientAction::MarkUnread
        | ClientAction::ArchiveThread | ClientAction::UnarchiveThread | ClientAction::OpenAbout
        | ClientAction::MentionMcp => true,
        _ => false,
    }
}

/// JSON object `{"k":"v"}` with the value written as is.
pub open spec fn json1(k: Seq<char>, v: Seq<char>) -> Seq<char> {
    "{\""@ + k + "\":\""@ + v + "\"}"@
}

pub open spec fn approval_spec(
    session: Option<Seq<char>>,
    request: Option<Seq<char>>,
    decision: Seq<char>,
) -> HostCallV {
    match (session, request) {
        (Some(s), Some(r)) => HostCallV::Rpc {
            method: "approval.respond"@,
            params: "{\"session_id\":\""@ + s + "\",\"request_id\":\""@ + r + "\",\"decision\":\""@
                + decision + "\"}"@,
        },
        _ => HostCallV::NeedsHost,
    }
}

pub open spec fn host_call_spec(a: ClientAction, ctx: ActionContext) -> HostCallV {
    if is_local(a) {
        HostCallV::Local
    } else {
        match a {
            ClientAction::Interrupt => match opt_view(ctx.session_id) {
                Some(s) => HostCallV::Rpc {
                    method: "session.interrupt"@,
                    params: json1("session_id"@, s),
                },
                None => HostCallV::NeedsHost,
            },
            ClientAction::CreateCheckpoint => match opt_view(ctx.session_id) {
                Some(s) => HostCallV::Rpc {
                    method: "checkpoint.create"@,
                    params: "{\"session_id\":\""@ + s + "\",\"label\":\"manual\"}"@,
                },
                None => HostCallV::NeedsHost,
            },
            ClientAction::RestoreCheckpoint => match opt_view(ctx.checkpoint_id) {
                Some(c) => HostCallV::Rpc {
                    method: "checkpoint.revert"@,
                    params: json1("checkpoint_id"@, c),
                },
                None => HostCallV::NeedsHost,
            },
            ClientAction::RefreshGit => HostCallV::Rpc {
                method: "git.worktrees"@,
                params: json1("cwd"@, ctx.project@),
            },
            ClientAction::Approve => approval_spec(
                opt_view(ctx.session_id),
                opt_view(ctx.approval_request_id),
                "allow"@,
            ),
            ClientAction::Deny => approval_spec(
                opt_view(ctx.session_id),
                opt_view(ctx.approval_request_id),
                "deny"@,
            ),
            _ => HostCallV::NeedsHost,
        }
    }
}

fn is_local_action(a: ClientAction) -> (r: bool)
    ensures
        r == is_local(a),
{
    match a {
        ClientAction::NewThread | ClientAction::SelectThread(_) | ClientAction::ToggleLeft
        | ClientAction::ToggleRight | ClientAction::SelectTab(_) | ClientAction::DismissReminder
        | ClientAction::TogglePalette | ClientAction::ClosePalette | ClientAction::ToggleHelp
        | ClientAction::DeleteThread | ClientAction::CycleModel
        | ClientAction::SelectLeftSection(_) | ClientAction::ToggleBottom
        | ClientAction::InsertFileMention | ClientAction::ToggleSettings
        | ClientAction::ToggleSearch | ClientAction::CloseSearch | ClientAction::ToggleCenterMode
        | ClientAction::SetCenterGui | ClientAction::SetCenterTui | ClientAction::ResetOutlook
        | ClientAction::FocusLayout | ClientAction::CloseOverlay | ClientAction::PopOutInspector
        | ClientAction::DockInspector | ClientAction::ClosePopOut | ClientAction::NextRegion
        | ClientAction::NudgeBottomUp | ClientAction::NudgeBottomDown | ClientAction::HideLeft
        | ClientAction::HideRight | ClientAction::HideBottom | ClientAction::DismissToast
        | ClientAction::Later | ClientAction::PinThread | ClientAction::MarkUnread
        | ClientAction::ArchiveThread | ClientAction::UnarchiveThread | ClientAction::OpenAbout
        | ClientAction::MentionMcp => true,
        _ => false,
    }
}

fn json_one(k: &str, v: &str) -> (r: String)
    ensures
        r@ == json1(k@, v@),
{
    let mut out: Vec<char> = Vec::new();
    append_str(&mut out, "{\"");
    append_str(&mut out, k);
    append_str(&mut out, "\":\"");
    append_str(&mut out, v);
    append_str(&mut out, "\"}");
    let r = string_of(&out);
    assert(r@ =~= json1(k@, v@));
    r
}

/// Map `action` to a host RPC, local chrome mutation, or desktop I/O.
pub fn host_call(action: ClientAction, ctx: &ActionContext) -> (r: HostCall)
    ensures
        call_view(r) == host_call_spec(action, *ctx),
{
    if is_local_action(action) {
        return HostCall::Local;
    }
    match action {
        ClientAction::Interrupt => match &ctx.session_id {
            Some(s) => HostCall::Rpc {
                method: "session.interrupt",
                params_json: json_one("session_id", s.as_str()),
            },
            None => HostCall::NeedsHost,
        },
        ClientAction::CreateCheckpoint => match &ctx.session_id {
            Some(s) => {
                let mut out: Vec<char> = Vec::new();
                append_str(&mut out, "{\"session_id\":\"");
                append_str(&mut out, s.as_str());
                append_str(&mut out, "\",\"label\":\"manual\"}");
                let p = string_of(&out);
                assert(p@ =~= "{\"session_id\":\""@ + s@ + "\",\"label\":\"manual\"}"@);
                HostCall::Rpc { method: "checkpoint.create", params_json: p }
            },
            None => HostCall::NeedsHost,
        },
        ClientAction::RestoreCheckpoint => match &ctx.checkpoint_id {
            Some(c) => HostCall::Rpc {
                method: "checkpoint.revert",
                params_json: json_one("checkpoint_id", c.as_str()),
            },
            None => HostCall::NeedsHost,
        },
        ClientAction::RefreshGit => HostCall::Rpc {
            method: "git.worktrees",
            params_json: json_one("cwd", ctx.project.as_str()),
        },
        ClientAction::Approve => approval_call(ctx, "allow"),
        ClientAction::Deny => approval_call(ctx, "deny"),
        _ => HostCall::NeedsHost,
    }
}

fn approval_call(ctx: &ActionContext, decision: &'static str) -> (r: HostCall)
    ensures
        call_view(r) == approval_spec(
            opt_view(ctx.session_id),
            opt_view(ctx.approval_request_id),
            decision@,
        ),
{
    match (&ctx.session_id, &ctx.approval_request_id) {
        (Some(s), Some(q)) => {
            let mut out: Vec<char> = Vec::new();
            append_str(&mut out, "{\"session_id\":\"");
            append_str(&mut out, s.as_str());
            append_str(&mut out, "\",\"request_id\":\"");
            append_str(&mut out, q.as_str());
            append_str(&mut out, "\",\"decision\":\"");
            append_str(&mut out, decision);
            append_str(&mut out, "\"}");
            let p = string_of(&out);
            assert(p@ =~= "{\"session_id\":\""@ + s@ + "\",\"request_id\":\""@ + q@
                + "\",\"decision\":\""@ + decision@ + "\"}"@);
            HostCall::Rpc { method: "approval.respond", params_json: p }
        },
        _ => HostCall::NeedsHost,
    }
}

} // verus!
