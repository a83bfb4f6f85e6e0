//! What the layout actions keep and undo.

use vstd::prelude::*;
use crate::actions::{layout_step, ClientAction};
use crate::workspace::{capped_log, next_model, Workspace};

verus! {

/// Toggling a rail, the palette or the help overlay twice gives back the
/// workspace it started from.
pub proof fn law_toggle_twice_restores(
    ws0: Workspace,
    ws1: Workspace,
    ws2: Workspace,
    a: ClientAction,
    c1: bool,
    c2: bool,
)
    requires
        a is ToggleLeft || a is ToggleRight || a is TogglePalette || a is ToggleHelp,
        layout_step(ws0, ws1, a, c1),
        layout_step(ws1, ws2, a, c2),
    ensures
        ws2 == ws0,
        c1 && c2,
{
}

/// Deleting the thread that was just created (it is the selected one) gives
/// back the thread list from before.
pub proof fn law_new_then_delete_restores_threads(
    ws0: Workspace,
    ws1: Workspace,
    ws2: Workspace,
    c1: bool,
    c2: bool,
)
    requires
        ws0.threads@.len() >= 1,
        layout_step(ws0, ws1, ClientAction::NewThread, c1),
        layout_step(ws1, ws2, ClientAction::DeleteThread, c2),
    ensures
        c2,
        ws2.threads@ == ws0.threads@,
        ws2.selected == ws0.threads@.len() - 1,
{
    assert(ws1.threads.len() == ws1.threads@.len());
    assert(ws1.selected == ws0.threads@.len());
    assert(ws1.threads@.remove(ws1.selected as int) =~= ws0.threads@);
}

/// Deleting never removes the last thread.
pub proof fn law_delete_keeps_a_thread(ws0: Workspace, ws1: Workspace, c: bool)
    requires
        ws0.threads@.len() >= 1,
        layout_step(ws0, ws1, ClientAction::DeleteThread, c),
    ensures
        ws1.threads@.len() >= 1,
{
}

/// Selecting a thread twice changes nothing the second time.
pub proof fn law_select_twice_is_still(
    ws0: Workspace,
    ws1: Workspace,
    ws2: Workspace,
    i: usize,
    c1: bool,
    c2: bool,
)
    requires
        layout_step(ws0, ws1, ClientAction::SelectThread(i), c1),
        layout_step(ws1, ws2, ClientAction::SelectThread(i), c2),
    ensures
        !c2,
        ws2 == ws1,
{
}

/// Host-owned actions report no change and leave the workspace as it was.
pub proof fn law_host_actions_do_nothing(ws0: Workspace, ws1: Workspace, a: ClientAction, c: bool)
    requires
        a is Send || a is Interrupt || a is RefreshCores || a is RefreshMcp || a is CreateCheckpoint
            || a is Approve || a is Deny || a is RestoreCheckpoint || a is RunTerminal
            || a is RefreshGit || a is CycleFile || a is CopyLastMessage,
        layout_step(ws0, ws1, a, c),
    ensures
        !c,
        ws1 == ws0,
{
}

/// Cycling the model always lands on a model of the catalogue.
pub proof fn law_cycle_stays_in_catalogue(ms: Seq<Seq<char>>, m: Seq<char>)
    requires
        ms.len() > 0,
    ensures
        ms.contains(next_model(ms, m)),
{
    crate::workspace::lemma_first_at_bounds(ms, m, 0);
    let k = (crate::workspace::first_at(ms, m, 0) + 1) % (ms.len() as int);
    assert(0 <= k < ms.len());
    assert(ms[k] == next_model(ms, m));
}

/// The terminal log never holds more than 80 lines after a push.
pub proof fn law_log_is_capped(s: Seq<Seq<char>>, line: Seq<char>)
    ensures
        capped_log(s.push(line)).len() <= 80,
        capped_log(s.push(line)).last() == line,
{
}

} // verus!
