//! Context menus for thread, file, MCP and diff rows.

use vstd::prelude::*;
use crate::actions::ClientAction;

verus! {

#[derive(Debug, Clone, Copy, PartialEq, Eq, Structural)]
pub enum MenuKind {
    Thread,
    File,
    Mcp,
    Diff,
}

#[derive(Debug, Clone, PartialEq, Eq)]
pub struct MenuItem {
    pub id: &'static str,
    pub label: &'static str,
    pub action: ClientAction,
}

#[derive(Debug, Clone, PartialEq, Eq)]
pub struct OpenMenu {
    pub kind: MenuKind,
    pub target: String,
    pub items: Vec<MenuItem>,
}

pub open spec fn menu_item_view(m: MenuItem) -> (Seq<char>, Seq<char>, ClientAction) {
    (m.id@, m.label@, m.action)
}

pub open spec fn menu_item_views(v: Seq<MenuItem>) -> Seq<(Seq<char>, Seq<char>, ClientAction)> {
    v.map_values(|m: MenuItem| menu_item_view(m))
}

/// The rows of each menu, in order.
pub open spec fn menu_rows(kind: MenuKind) -> Seq<(Seq<char>, Seq<char>, ClientAction)> {
    match kind {
        MenuKind::Thread => seq![
            ("open"@, "Open"@, ClientAction::SelectThread(0)),
            ("pin"@, "Pin"@, ClientAction::PinThread),
            ("unread"@, "Mark unread"@, ClientAction::MarkUnread),
            ("copy-id"@, "Copy id"@, ClientAction::CopyThreadId),
            ("archive"@, "Archive"@, ClientAction::ArchiveThread),
            ("delete"@, "Delete"@, ClientAction::DeleteThread),
            ("stop"@, "Stop"@, ClientAction::Interrupt),
        ],
        MenuKind::File => seq![
            ("mention"@, "Mention"@, ClientAction::InsertFileMention),
            ("reveal"@, "Reveal"@, ClientAction::RevealFile),
            ("open"@, "Open external"@, ClientAction::OpenExternal),
        ],
        MenuKind::Mcp => seq![
            ("start"@, "Start flag"@, ClientAction::StartMcp),
            ("stop"@, "Stop flag"@, ClientAction::StopMcp),
            ("mention"@, "Mention"@, ClientAction::MentionMcp),
            ("reload"@, "Reload"@, ClientAction::RefreshMcp),
        ],
        MenuKind::Diff => seq![
            ("mention"@, "Mention"@, ClientAction::InsertFileMention),
            ("open"@, "Open external"@, ClientAction::OpenExternal),
        ],
    }
}

fn item(id: &'static str, label: &'static str, action: ClientAction) -> (m: MenuItem)
    ensures
        menu_item_view(m) == (id@, label@, action),
{
    MenuItem { id, label, action }
}

pub fn menu_for(kind: MenuKind, target: &str) -> (m: OpenMenu)
    ensures
        m.kind == kind,
        m.target@ == target@,
        menu_item_views(m.items@) == menu_rows(kind),
{
    OpenMenu { kind, target: target.to_owned(), items: items(kind) }
}

pub fn items(kind: MenuKind) -> (r: Vec<MenuItem>)
    ensures
        menu_item_views(r@) == menu_rows(kind),
{
    let r = match kind {
        MenuKind::Thread => vec![
            item("open", "Open", ClientAction::SelectThread(0)),
            item("pin", "Pin", ClientAction::PinThread),
            item("unread", "Mark unread", ClientAction::MarkUnread),
            item("copy-id", "Copy id", ClientAction::CopyThreadId),
            item("archive", "Archive", ClientAction::ArchiveThread),
            item("delete", "Delete", ClientAction::DeleteThread),
            item("stop", "Stop", ClientAction::Interrupt),
        ],
        MenuKind::File => vec![
            item("mention", "Mention", ClientAction::InsertFileMention),
            item("reveal", "Reveal", ClientAction::RevealFile),
            item("open", "Open external", ClientAction::OpenExternal),
        ],
        MenuKind::Mcp => vec![
            item("start", "Start flag", ClientAction::StartMcp),
            item("stop", "Stop flag", ClientAction::StopMcp),
            item("mention", "Mention", ClientAction::MentionMcp),
            item("reload", "Reload", ClientAction::RefreshMcp),
        ],
        MenuKind::Diff => vec![
            item("mention", "Mention", ClientAction::InsertFileMention),
            item("open", "Open external", ClientAction::OpenExternal),
        ],
    };
    assert(menu_item_views(r@) =~= menu_rows(kind));
    r
}

} // verus!
