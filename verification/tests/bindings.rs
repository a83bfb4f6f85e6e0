use multiplexer::actions::ClientAction;
use multiplexer::bindings::{host_call, ActionContext, HostCall};
use multiplexer::workspace::InspectorTab;

fn bare() -> ActionContext {
    ActionContext {
        session_id: None,
        project: "C:/repo".to_owned(),
        checkpoint_id: None,
        approval_request_id: None,
        model: "grok".to_owned(),
    }
}

fn with_session(session_id: &str) -> ActionContext {
    ActionContext { session_id: Some(session_id.to_owned()), ..bare() }
}

fn assert_rpc(call: HostCall, method: &str, params_json: &str) {
    match call {
        HostCall::Rpc { method: got_method, params_json: got_params } => {
            assert_eq!(got_method, method);
            assert_eq!(got_params, params_json);
            assert_ne!(got_method, "");
            assert_ne!(got_params, "{}");
        }
        other => panic!(
            "expected Rpc {{ method: {method}, params_json: {params_json} }}, got {other:?}"
        ),
    }
}

#[test]
fn interrupt_without_session_is_needs_host() {
    assert_eq!(
        host_call(ClientAction::Interrupt, &bare()),
        HostCall::NeedsHost
    );
    assert_ne!(host_call(ClientAction::Interrupt, &bare()), HostCall::Local);
}

#[test]
fn interrupt_json() {
    assert_rpc(
        host_call(ClientAction::Interrupt, &with_session("sess-9")),
        "session.interrupt",
        r#"{"session_id":"sess-9"}"#,
    );
    assert_ne!(
        host_call(ClientAction::Interrupt, &with_session("sess-9")),
        host_call(ClientAction::CreateCheckpoint, &with_session("sess-9"))
    );
}

#[test]
fn create_checkpoint_json() {
    assert_rpc(
        host_call(ClientAction::CreateCheckpoint, &with_session("sess-1")),
        "checkpoint.create",
        r#"{"session_id":"sess-1","label":"manual"}"#,
    );
    assert_ne!(
        host_call(ClientAction::CreateCheckpoint, &with_session("sess-1")),
        HostCall::Rpc {
            method: "checkpoint.revert",
            params_json: r#"{"checkpoint_id":"sess-1"}"#.to_owned(),
        }
    );
    assert_eq!(
        host_call(ClientAction::CreateCheckpoint, &bare()),
        HostCall::NeedsHost
    );
}

#[test]
fn revert_json() {
    let mut ctx = with_session("sess-1");
    ctx.checkpoint_id = Some("cp-1".to_owned());
    assert_rpc(
        host_call(ClientAction::RestoreCheckpoint, &ctx),
        "checkpoint.revert",
        r#"{"checkpoint_id":"cp-1"}"#,
    );
    assert_ne!(
        host_call(ClientAction::RestoreCheckpoint, &ctx),
        host_call(ClientAction::CreateCheckpoint, &ctx)
    );
    ctx.checkpoint_id = None;
    assert_eq!(
        host_call(ClientAction::RestoreCheckpoint, &ctx),
        HostCall::NeedsHost
    );
}

#[test]
fn approve_json() {
    let mut ctx = with_session("sess-1");
    ctx.approval_request_id = Some("req-1".to_owned());
    assert_rpc(
        host_call(ClientAction::Approve, &ctx),
        "approval.respond",
        r#"{"session_id":"sess-1","request_id":"req-1","decision":"allow"}"#,
    );
    assert_rpc(
        host_call(ClientAction::Deny, &ctx),
        "approval.respond",
        r#"{"session_id":"sess-1","request_id":"req-1","decision":"deny"}"#,
    );
    assert_ne!(
        host_call(ClientAction::Approve, &ctx),
        host_call(ClientAction::Deny, &ctx)
    );
    ctx.approval_request_id = None;
    assert_eq!(host_call(ClientAction::Approve, &ctx), HostCall::NeedsHost);
    assert_eq!(host_call(ClientAction::Deny, &ctx), HostCall::NeedsHost);
    ctx.approval_request_id = Some("req-1".to_owned());
    ctx.session_id = None;
    assert_eq!(host_call(ClientAction::Approve, &ctx), HostCall::NeedsHost);
    assert_eq!(host_call(ClientAction::Deny, &ctx), HostCall::NeedsHost);
}

#[test]
fn refresh_git_json() {
    assert_rpc(
        host_call(ClientAction::RefreshGit, &bare()),
        "git.worktrees",
        r#"{"cwd":"C:/repo"}"#,
    );
    assert_ne!(
        host_call(ClientAction::RefreshGit, &bare()),
        HostCall::Rpc {
            method: "git.worktree.create",
            params_json: r#"{"cwd":"C:/repo"}"#.to_owned(),
        }
    );
}

#[test]
fn layout_is_local() {
    let ctx = with_session("sess-1");
    for action in [
        ClientAction::NewThread,
        ClientAction::SelectThread(3),
        ClientAction::ToggleLeft,
        ClientAction::ToggleRight,
        ClientAction::SelectTab(InspectorTab::Mcp),
        ClientAction::DismissReminder,
        ClientAction::TogglePalette,
        ClientAction::ClosePalette,
        ClientAction::ToggleHelp,
        ClientAction::DeleteThread,
        ClientAction::CycleModel,
    ] {
        assert_eq!(host_call(action, &ctx), HostCall::Local, "{action:?}");
        assert_ne!(host_call(action, &ctx), HostCall::NeedsHost, "{action:?}");
    }
}

#[test]
fn send_is_needs_host() {
    let ctx = with_session("sess-1");
    for action in [
        ClientAction::Send,
        ClientAction::RefreshCores,
        ClientAction::RunTerminal,
        ClientAction::CycleFile,
        ClientAction::CopyLastMessage,
        ClientAction::RefreshMcp,
    ] {
        assert_eq!(host_call(action, &ctx), HostCall::NeedsHost, "{action:?}");
        assert_ne!(host_call(action, &ctx), HostCall::Local, "{action:?}");
    }
}
