//! Client chrome actions. Layout mutations live here; I/O stays in the host.

use vstd::prelude::*;
use crate::workspace::{
    fresh_thread, next_model, selected_after_delete, thread_id, ChromeLayout, InspectorTab,
    LeftSection, Workspace,
};
use crate::text::strs;

verus! {

/// A user gesture the desktop can dispatch into the headless workspace.
#[derive(Debug, Clone, Copy, PartialEq, Eq, Structural)]
pub enum ClientAction {
    NewThread,
    SelectThread(usize),
    ToggleLeft,
    ToggleRight,
    SelectTab(InspectorTab),
    Send,
    Interrupt,
    DismissReminder,
    RefreshCores,
    RefreshMcp,
    CreateCheckpoint,
    DeleteThread,
    CycleModel,
    TogglePalette,
    ClosePalette,
    ToggleHelp,
    Approve,
    Deny,
    RestoreCheckpoint,
    RunTerminal,
    RefreshGit,
    CycleFile,
    CopyLastMessage,
    ToggleSearch,
    CloseSearch,
    ToggleSettings,
    ToggleBottom,
    ToggleCenterMode,
    SetCenterGui,
    SetCenterTui,
    ResetOutlook,
    FocusLayout,
    SelectLeftSection(LeftSection),
    CloseOverlay,
    PopOutInspector,
    DockInspector,
    ClosePopOut,
    NextRegion,
    NudgeBottomUp,
    NudgeBottomDown,
    HideLeft,
    HideRight,
    HideBottom,
    DismissToast,
    CopySession,
    RunGitStatus,
    ApproveOnce,
    Later,
    PinThread,
    MarkUnread,
    ArchiveThread,
    UnarchiveThread,
    CopyThreadId,
    OpenAbout,
    InsertFileMention,
    CreateWorktree,
    RevealFile,
    OpenExternal,
    StartMcp,
    StopMcp,
    MentionMcp,
}

/// What a workspace-only action does to the workspace, and whether it
/// reports a change. Actions owned by the host (I/O, search, overlays and
/// the like) change nothing here.
pub open spec fn layout_step(old: Workspace, new: Workspace, action: ClientAction, changed: bool) -> bool {
    match action {
        ClientAction::NewThread => {
            &&& changed
            &&& new.threads@.len() == old.threads@.len() + 1
            &&& new.threads@.drop_last() == old.threads@
            &&& fresh_thread(new.threads@.last(), thread_id(old.next_id as nat), old.model@)
            &&& new.draft@ == Seq::<char>::empty()
            &&& new == (Workspace {
                threads: new.threads,
                selected: old.threads@.len() as usize,
                draft: new.draft,
                cursor: 0,
                next_id: (old.next_id + 1) as u64,
                ..old
            })
        },
        ClientAction::SelectThread(index) => {
            &&& new == (if index < old.threads@.len() {
                Workspace { selected: index, ..old }
            } else {
                old
            })
            &&& changed == (index < old.threads@.len() && index != old.selected)
        },
        ClientAction::ToggleLeft => changed && new == (Workspace {
            chrome: ChromeLayout { left_open: !old.chrome.left_open, ..old.chrome },
            ..old
        }),
        ClientAction::ToggleRight => changed && new == (Workspace {
            chrome: ChromeLayout { right_open: !old.chrome.right_open, ..old.chrome },
            ..old
        }),
        ClientAction::SelectTab(tab) => changed == (old.inspector != tab) && new == (Workspace {
            inspector: tab,
            ..old
        }),
        ClientAction::DismissReminder => changed == (old.reminder is Some) && new == (Workspace {
            reminder: None,
            ..old
        }),
        ClientAction::DeleteThread => {
            &&& changed == (old.threads@.len() > 1 && old.selected < old.threads@.len())
            &&& !changed ==> new == old
            &&& changed ==> new.threads@ == old.threads@.remove(old.selected as int)
            &&& changed ==> new == (Workspace {
                threads: new.threads,
                selected: selected_after_delete(old.selected as int, old.selected as int) as usize,
                ..old
            })
        },
        ClientAction::CycleModel => {
            &&& changed == (old.models@.len() == 0 || new.model@ != old.model@)
            &&& old.models@.len() == 0 ==> strs(new.models@) == seq![old.model@] && new == (
            Workspace { models: new.models, ..old })
            &&& old.models@.len() > 0 ==> new.model@ == next_model(strs(old.models@), old.model@)
                && new == (Workspace { model: new.model, ..old })
        },
        ClientAction::TogglePalette => changed && new == (Workspace {
            palette_open: !old.palette_open,
            ..old
        }),
        ClientAction::ClosePalette => changed == old.palette_open && new == (Workspace {
            palette_open: false,
            ..old
        }),
        ClientAction::ToggleHelp => changed && new == (Workspace { help_open: !old.help_open, ..old }),
        _ => !changed && new == old,
    }
}

/// Apply a workspace-only layout action. Returns true when `ws` changed.
/// Host-owned actions do not mutate here.
pub fn apply_layout_action(ws: &mut Workspace, action: ClientAction) -> (changed: bool)
    requires
        action is NewThread ==> old(ws).next_id < u64::MAX,
    ensures
        layout_step(*old(ws), *final(ws), action, changed),
{
    match action {
        ClientAction::NewThread => {
            ws.new_thread();
            true
        },
        ClientAction::SelectThread(index) => {
            let before = ws.selected;
            let _ = ws.select(index);
            ws.selected != before
        },
        ClientAction::ToggleLeft => {
            ws.chrome.toggle_left();
            true
        },
        ClientAction::ToggleRight => {
            ws.chrome.toggle_right();
            true
        },
        ClientAction::SelectTab(tab) => {
            if ws.inspector == tab {
                false
            } else {
                ws.inspector = tab;
                true
            }
        },
        ClientAction::DismissReminder => {
            if ws.reminder.is_none() {
                false
            } else {
                ws.dismiss_reminder();
                true
            }
        },
        ClientAction::DeleteThread => {
            let sel = ws.selected;
            ws.delete_thread(sel)
        },
        ClientAction::CycleModel => {
            let before = ws.model.clone();
            let had_none = ws.models.len() == 0;
            ws.cycle_model();
            had_none || ws.model != before
        },
        ClientAction::TogglePalette => {
            ws.toggle_palette();
            true
        },
        ClientAction::ClosePalette => {
            if !ws.palette_open {
                false
            } else {
                ws.close_palette();
                true
            }
        },
        ClientAction::ToggleHelp => {
            ws.toggle_help();
            true
        },
        _ => false,
    }
}

} // verus!
