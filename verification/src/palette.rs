//! Command palette catalog, filter and selection state.

use vstd::prelude::*;
use crate::actions::ClientAction;
use crate::text::{chars_of, contains, contains_s};
use crate::workspace::{InspectorTab, Workspace};
use crate::search::{command_hit, hit_views, lemma_hit_views_push, search_spec, search_workspace, SearchHit, SearchKind};

verus! {

/// One searchable row in the command palette.
#[derive(Debug, Clone, Copy, PartialEq, Eq)]
pub struct PaletteItem {
    pub id: &'static str,
    pub label: &'static str,
    pub hint: &'static str,
    pub action: ClientAction,
}

/// A palette row as plain values.
pub struct ItemV {
    pub id: Seq<char>,
    pub label: Seq<char>,
    pub hint: Seq<char>,
    pub action: ClientAction,
}

pub open spec fn item_view(p: PaletteItem) -> ItemV {
    ItemV { id: p.id@, label: p.label@, hint: p.hint@, action: p.action }
}

pub open spec fn item_views(v: Seq<PaletteItem>) -> Seq<ItemV> {
    v.map_values(|p: PaletteItem| item_view(p))
}

/// The built-in rows, in catalog order.
pub open spec fn catalog() -> Seq<ItemV> {
    seq![
        ItemV { id: "new-chat"@, label: "New chat"@, hint: "Ctrl+N"@, action: ClientAction::NewThread },
        ItemV { id: "toggle-chats"@, label: "Toggle chats"@, hint: "Ctrl+["@, action: ClientAction::ToggleLeft },
        ItemV { id: "toggle-inspector"@, label: "Toggle inspector"@, hint: "Ctrl+]"@, action: ClientAction::ToggleRight },
        ItemV { id: "toggle-terminal"@, label: "Toggle terminal"@, hint: "Ctrl+`"@, action: ClientAction::ToggleBottom },
        ItemV { id: "send"@, label: "Send"@, hint: "Enter"@, action: ClientAction::Send },
        ItemV { id: "stop"@, label: "Stop"@, hint: "Ctrl+."@, action: ClientAction::Interrupt },
        ItemV { id: "checkpoint"@, label: "Create checkpoint"@, hint: "Ctrl+S"@, action: ClientAction::CreateCheckpoint },
        ItemV { id: "cores"@, label: "Cores"@, hint: "g c"@, action: ClientAction::SelectTab(InspectorTab::Resources) },
        ItemV { id: "mcp"@, label: "MCP"@, hint: "g m"@, action: ClientAction::SelectTab(InspectorTab::Mcp) },
        ItemV { id: "points"@, label: "Points"@, hint: "g p"@, action: ClientAction::SelectTab(InspectorTab::Checkpoints) },
        ItemV { id: "session"@, label: "Session"@, hint: "g s"@, action: ClientAction::SelectTab(InspectorTab::Session) },
        ItemV { id: "dismiss-reminder"@, label: "Dismiss reminder"@, hint: ""@, action: ClientAction::DismissReminder },
        ItemV { id: "refresh-cores"@, label: "Refresh cores"@, hint: ""@, action: ClientAction::RefreshCores },
        ItemV { id: "refresh-mcp"@, label: "Refresh MCP"@, hint: ""@, action: ClientAction::RefreshMcp },
        ItemV { id: "help"@, label: "Toggle help"@, hint: "?"@, action: ClientAction::ToggleHelp },
        ItemV { id: "close-palette"@, label: "Close palette"@, hint: "Esc"@, action: ClientAction::ClosePalette },
        ItemV { id: "toggle-palette"@, label: "Toggle palette"@, hint: "Ctrl+K"@, action: ClientAction::TogglePalette },
        ItemV { id: "delete-thread"@, label: "Delete thread"@, hint: ""@, action: ClientAction::DeleteThread },
        ItemV { id: "cycle-model"@, label: "Cycle model"@, hint: ""@, action: ClientAction::CycleModel },
        ItemV { id: "approve"@, label: "Approve"@, hint: ""@, action: ClientAction::Approve },
        ItemV { id: "deny"@, label: "Deny"@, hint: ""@, action: ClientAction::Deny },
        ItemV { id: "restore-checkpoint"@, label: "Restore checkpoint"@, hint: ""@, action: ClientAction::RestoreCheckpoint },
        ItemV { id: "run-terminal"@, label: "Run terminal"@, hint: ""@, action: ClientAction::RunTerminal },
        ItemV { id: "refresh-git"@, label: "Refresh git"@, hint: ""@, action: ClientAction::RefreshGit },
        ItemV { id: "cycle-file"@, label: "Cycle file"@, hint: ""@, action: ClientAction::CycleFile },
        ItemV { id: "copy-last-message"@, label: "Copy last message"@, hint: ""@, action: ClientAction::CopyLastMessage },
        ItemV { id: "files-tab"@, label: "Files"@, hint: "g f"@, action: ClientAction::SelectTab(InspectorTab::Files) },
        ItemV { id: "activity-tab"@, label: "Activity"@, hint: "g a"@, action: ClientAction::SelectTab(InspectorTab::Activity) },
        ItemV { id: "agents-tab"@, label: "Agents"@, hint: "g e"@, action: ClientAction::SelectTab(InspectorTab::Agents) },
        ItemV { id: "settings"@, label: "Settings"@, hint: "F2"@, action: ClientAction::ToggleSettings },
        ItemV { id: "create-worktree"@, label: "Create worktree"@, hint: ""@, action: ClientAction::CreateWorktree },
        ItemV { id: "mention-file"@, label: "Mention selected file"@, hint: ""@, action: ClientAction::InsertFileMention },
    ]
}

/// Built-in palette rows for every static [`ClientAction`] the chrome can fire.
pub fn default_items() -> (r: Vec<PaletteItem>)
    ensures
        item_views(r@) == catalog(),
{
    let r = vec![
        PaletteItem { id: "new-chat", label: "New chat", hint: "Ctrl+N", action: ClientAction::NewThread },
        PaletteItem { id: "toggle-chats", label: "Toggle chats", hint: "Ctrl+[", action: ClientAction::ToggleLeft },
        PaletteItem { id: "toggle-inspector", label: "Toggle inspector", hint: "Ctrl+]", action: ClientAction::ToggleRight },
        PaletteItem { id: "toggle-terminal", label: "Toggle terminal", hint: "Ctrl+`", action: ClientAction::ToggleBottom },
        PaletteItem { id: "send", label: "Send", hint: "Enter", action: ClientAction::Send },
        PaletteItem { id: "stop", label: "Stop", hint: "Ctrl+.", action: ClientAction::Interrupt },
        PaletteItem { id: "checkpoint", label: "Create checkpoint", hint: "Ctrl+S", action: ClientAction::CreateCheckpoint },
        PaletteItem { id: "cores", label: "Cores", hint: "g c", action: ClientAction::SelectTab(InspectorTab::Resources) },
        PaletteItem { id: "mcp", label: "MCP", hint: "g m", action: ClientAction::SelectTab(InspectorTab::Mcp) },
        PaletteItem { id: "points", label: "Points", hint: "g p", action: ClientAction::SelectTab(InspectorTab::Checkpoints) },
        PaletteItem { id: "session", label: "Session", hint: "g s", action: ClientAction::SelectTab(InspectorTab::Session) },
        PaletteItem { id: "dismiss-reminder", label: "Dismiss reminder", hint: "", action: ClientAction::DismissReminder },
        PaletteItem { id: "refresh-cores", label: "Refresh cores", hint: "", action: ClientAction::RefreshCores },
        PaletteItem { id: "refresh-mcp", label: "Refresh MCP", hint: "", action: ClientAction::RefreshMcp },
        PaletteItem { id: "help", label: "Toggle help", hint: "?", action: ClientAction::ToggleHelp },
        PaletteItem { id: "close-palette", label: "Close palette", hint: "Esc", action: ClientAction::ClosePalette },
        PaletteItem { id: "toggle-palette", label: "Toggle palette", hint: "Ctrl+K", action: ClientAction::TogglePalette },
        PaletteItem { id: "delete-thread", label: "Delete thread", hint: "", action: ClientAction::DeleteThread },
        PaletteItem { id: "cycle-model", label: "Cycle model", hint: "", action: ClientAction::CycleModel },
        PaletteItem { id: "approve", label: "Approve", hint: "", action: ClientAction::Approve },
        PaletteItem { id: "deny", label: "Deny", hint: "", action: ClientAction::Deny },
        PaletteItem { id: "restore-checkpoint", label: "Restore checkpoint", hint: "", action: ClientAction::RestoreCheckpoint },
        PaletteItem { id: "run-terminal", label: "Run terminal", hint: "", action: ClientAction::RunTerminal },
        PaletteItem { id: "refresh-git", label: "Refresh git", hint: "", action: ClientAction::RefreshGit },
        PaletteItem { id: "cycle-file", label: "Cycle file", hint: "", action: ClientAction::CycleFile },
        PaletteItem { id: "copy-last-message", label: "Copy last message", hint: "", action: ClientAction::CopyLastMessage },
        PaletteItem { id: "files-tab", label: "Files", hint: "g f", action: ClientAction::SelectTab(InspectorTab::Files) },
        PaletteItem { id: "activity-tab", label: "Activity", hint: "g a", action: ClientAction::SelectTab(InspectorTab::Activity) },
        PaletteItem { id: "agents-tab", label: "Agents", hint: "g e", action: ClientAction::SelectTab(InspectorTab::Agents) },
        PaletteItem { id: "settings", label: "Settings", hint: "F2", action: ClientAction::ToggleSettings },
        PaletteItem { id: "create-worktree", label: "Create worktree", hint: "", action: ClientAction::CreateWorktree },
        PaletteItem { id: "mention-file", label: "Mention selected file", hint: "", action: ClientAction::InsertFileMention },
    ];
    assert(item_views(r@) =~= catalog());
    r
}

/// Unicode lowercase mapping of `str::to_lowercase`.
pub uninterp spec fn unicode_lower(s: Seq<char>) -> Seq<char>;

/// `str::to_lowercase` (std): the Unicode lowercase mapping of the whole
/// string. Its table is named, not restated.
#[verifier::external_body]
fn to_lower(s: &str) -> (r: String)
    ensures
        r@ == unicode_lower(s@),
{
    s.to_lowercase()
}

/// Whether a row whose lowercased id, label and hint are given holds the
/// lowercased needle.
pub open spec fn hit(id_l: Seq<char>, label_l: Seq<char>, hint_l: Seq<char>, needle_l: Seq<char>) -> bool {
    contains_s(id_l, needle_l) || contains_s(label_l, needle_l) || contains_s(hint_l, needle_l)
}

pub open spec fn item_hit(it: ItemV, needle_l: Seq<char>) -> bool {
    hit(unicode_lower(it.id), unicode_lower(it.label), unicode_lower(it.hint), needle_l)
}

/// The rows among the first `n` that hold the lowercased needle, in order.
pub open spec fn filter_rows(items: Seq<ItemV>, needle_l: Seq<char>, n: int) -> Seq<ItemV>
    decreases n,
{
    if n <= 0 || n > items.len() {
        Seq::empty()
    } else if item_hit(items[n - 1], needle_l) {
        filter_rows(items, needle_l, n - 1).push(items[n - 1])
    } else {
        filter_rows(items, needle_l, n - 1)
    }
}

/// `filter_items`: the whole catalog for an empty query, else the rows whose
/// lowercased id, label or hint contains the lowercased query.
pub open spec fn filtered(query: Seq<char>) -> Seq<ItemV> {
    if query.len() == 0 {
        catalog()
    } else {
        filter_rows(catalog(), unicode_lower(query), catalog().len() as int)
    }
}

/// Whether the lowercased fields hold the lowercased needle.
pub fn matches_lowered(id_l: &str, label_l: &str, hint_l: &str, needle_l: &str) -> (r: bool)
    ensures
        r == hit(id_l@, label_l@, hint_l@, needle_l@),
{
    let n = chars_of(needle_l);
    contains(&chars_of(id_l), &n) || contains(&chars_of(label_l), &n) || contains(
        &chars_of(hint_l),
        &n,
    )
}

/// Case-insensitive substring match on `id`, `label`, or `hint`.
///
/// An empty query returns the full catalog.
pub fn filter_items(query: &str) -> (r: Vec<PaletteItem>)
    ensures
        item_views(r@) == filtered(query@),
{
    let items = default_items();
    if chars_of(query).len() == 0 {
        return items;
    }
    let needle = to_lower(query);
    let mut out: Vec<PaletteItem> = Vec::new();
    let mut i: usize = 0;
    while i < items.len()
        invariant
            i <= items.len(),
            item_views(items@) == catalog(),
            needle@ == unicode_lower(query@),
            item_views(out@) == filter_rows(catalog(), needle@, i as int),
        decreases items.len() - i,
    {
        let it = items[i];
        let idl = to_lower(it.id);
        let labell = to_lower(it.label);
        let hintl = to_lower(it.hint);
        assert(item_view(it) == catalog()[i as int]);
        if matches_lowered(idl.as_str(), labell.as_str(), hintl.as_str(), needle.as_str()) {
            out.push(it);
            assert(item_views(out@) =~= filter_rows(catalog(), needle@, i as int).push(
                item_view(it),
            ));
        }
        i = i + 1;
    }
    out
}

/// Open/query/selection state for the palette overlay.
#[derive(Debug, Clone, PartialEq, Eq)]
pub struct PaletteState {
    pub open: bool,
    pub query: String,
    pub selected: usize,
}

/// Selection after moving up among `n` rows from `sel` (wrapping).
pub open spec fn up_from(sel: int, n: int) -> int {
    if n == 0 {
        0
    } else {
        let cur = if sel >= n {
            0
        } else {
            sel
        };
        if cur == 0 {
            n - 1
        } else {
            cur - 1
        }
    }
}

/// Selection after moving down among `n` rows from `sel` (wrapping).
pub open spec fn down_from(sel: int, n: int) -> int {
    if n == 0 {
        0
    } else {
        let cur = if sel >= n {
            0
        } else {
            sel
        };
        if cur + 1 == n {
            0
        } else {
            cur + 1
        }
    }
}

impl Default for PaletteState {
    fn default() -> (s: Self)
        ensures
            !s.open,
            s.query@ == Seq::<char>::empty(),
            s.selected == 0,
    {
        Self::new()
    }
}

impl PaletteState {
    pub fn new() -> (s: Self)
        ensures
            !s.open,
            s.query@ == Seq::<char>::empty(),
            s.selected == 0,
    {
        PaletteState { open: false, query: String::new(), selected: 0 }
    }

    /// Open a closed palette; closing clears the query and selection.
    pub fn toggle(&mut self)
        ensures
            old(self).open ==> !final(self).open && final(self).query@ == Seq::<char>::empty()
                && final(self).selected == 0,
            !old(self).open ==> final(self).open && final(self).query@ == old(self).query@
                && final(self).selected == old(self).selected,
    {
        if self.open {
            self.close();
        } else {
            self.open = true;
        }
    }

    pub fn close(&mut self)
        ensures
            !final(self).open,
            final(self).query@ == Seq::<char>::empty(),
            final(self).selected == 0,
    {
        self.open = false;
        self.query = String::new();
        self.selected = 0;
    }

    pub fn set_query(&mut self, query: &str)
        ensures
            final(self).open == old(self).open,
            final(self).query@ == query@,
            final(self).selected == 0,
    {
        self.query = query.to_owned();
        self.selected = 0;
    }

    pub fn move_up(&mut self)
        ensures
            final(self).open == old(self).open,
            final(self).query@ == old(self).query@,
            final(self).selected == up_from(
                old(self).selected as int,
                filtered(old(self).query@).len() as int,
            ),
    {
        let n = filter_items(self.query.as_str()).len();
        if n == 0 {
            self.selected = 0;
            return;
        }
        let cur = if self.selected >= n {
            0
        } else {
            self.selected
        };
        self.selected = if cur == 0 {
            n - 1
        } else {
            cur - 1
        };
    }

    pub fn move_down(&mut self)
        ensures
            final(self).open == old(self).open,
            final(self).query@ == old(self).query@,
            final(self).selected == down_from(
                old(self).selected as int,
                filtered(old(self).query@).len() as int,
            ),
    {
        let n = filter_items(self.query.as_str()).len();
        if n == 0 {
            self.selected = 0;
            return;
        }
        let cur = if self.selected >= n {
            0
        } else {
            self.selected
        };
        self.selected = if cur + 1 == n {
            0
        } else {
            cur + 1
        };
    }

    /// The selected row of the filtered list (the last one when the
    /// selection is past the end).
    pub fn active_item(&self) -> (r: Option<PaletteItem>)
        ensures
            filtered(self.query@).len() == 0 ==> r is None,
            filtered(self.query@).len() > 0 ==> (r matches Some(it) && item_view(it) == filtered(
                self.query@,
            )[if self.selected < filtered(self.query@).len() {
                self.selected as int
            } else {
                filtered(self.query@).len() - 1
            }]),
    {
        let items = filter_items(self.query.as_str());
        if items.len() == 0 {
            None
        } else {
            let k = if self.selected < items.len() {
                self.selected
            } else {
                items.len() - 1
            };
            assert(item_view(items@[k as int]) == item_views(items@)[k as int]);
            Some(items[k])
        }
    }
}

proof fn lemma_filter_rows(items: Seq<ItemV>, needle_l: Seq<char>, n: int)
    requires
        0 <= n <= items.len(),
    ensures
        filter_rows(items, needle_l, n) == items.take(n).filter(|it: ItemV| item_hit(it, needle_l)),
    decreases n,
{
    let f = |it: ItemV| item_hit(it, needle_l);
    reveal(Seq::filter);
    if n > 0 {
        lemma_filter_rows(items, needle_l, n - 1);
        let t = items.take(n);
        assert(t.drop_last() =~= items.take(n - 1));
        assert(t.last() == items[n - 1]);
        assert(t.filter(f) == if f(t.last()) {
            t.drop_last().filter(f).push(t.last())
        } else {
            t.drop_last().filter(f)
        });
    } else {
        assert(items.take(0).filter(f) =~= Seq::<ItemV>::empty());
    }
}

/// Filtering keeps the catalog's order: an empty query gives the whole
/// catalog, any other query exactly the rows whose lowercased id, label or
/// hint contains the lowercased query.
pub proof fn law_filter_is_ordered_selection(query: Seq<char>)
    ensures
        query.len() == 0 ==> filtered(query) == catalog(),
        query.len() > 0 ==> filtered(query) == catalog().filter(
            |it: ItemV| item_hit(it, unicode_lower(query)),
        ),
{
    if query.len() > 0 {
        lemma_filter_rows(catalog(), unicode_lower(query), catalog().len() as int);
        assert(catalog().take(catalog().len() as int) =~= catalog());
    }
}

/// Moving down then up returns to the selection, when it was in range.
pub proof fn law_down_then_up(sel: int, n: int)
    requires
        0 <= sel < n,
    ensures
        up_from(down_from(sel, n), n) == sel,
        down_from(up_from(sel, n), n) == sel,
{
}

/// The catalog's ids are pairwise distinct.
pub proof fn law_catalog_ids_distinct()
    ensures
        forall|i: int, j: int|
            0 <= i < j < catalog().len() ==> #[trigger] catalog()[i].id != #[trigger] catalog()[j].id,
{
    reveal_strlit("new-chat");
    reveal_strlit("toggle-chats");
    reveal_strlit("toggle-inspector");
    reveal_strlit("toggle-terminal");
    reveal_strlit("send");
    reveal_strlit("stop");
    reveal_strlit("checkpoint");
    reveal_strlit("cores");
    reveal_strlit("mcp");
    reveal_strlit("points");
    reveal_strlit("session");
    reveal_strlit("dismiss-reminder");
    reveal_strlit("refresh-cores");
    reveal_strlit("refresh-mcp");
    reveal_strlit("help");
    reveal_strlit("close-palette");
    reveal_strlit("toggle-palette");
    reveal_strlit("delete-thread");
    reveal_strlit("cycle-model");
    reveal_strlit("approve");
    reveal_strlit("deny");
    reveal_strlit("restore-checkpoint");
    reveal_strlit("run-terminal");
    reveal_strlit("refresh-git");
    reveal_strlit("cycle-file");
    reveal_strlit("copy-last-message");
    reveal_strlit("files-tab");
    reveal_strlit("activity-tab");
    reveal_strlit("agents-tab");
    reveal_strlit("settings");
    reveal_strlit("create-worktree");
    reveal_strlit("mention-file");
    assert("new-chat"@.len() == 8);
    assert("toggle-chats"@.len() == 12);
    assert("toggle-inspector"@.len() == 16);
    assert("toggle-terminal"@.len() == 15);
    assert("send"@.len() == 4);
    assert("stop"@.len() == 4);
    assert("checkpoint"@.len() == 10);
    assert("cores"@.len() == 5);
    assert("mcp"@.len() == 3);
    assert("points"@.len() == 6);
    assert("session"@.len() == 7);
    assert("dismiss-reminder"@.len() == 16);
    assert("refresh-cores"@.len() == 13);
    assert("refresh-mcp"@.len() == 11);
    assert("help"@.len() == 4);
    assert("close-palette"@.len() == 13);
    assert("toggle-palette"@.len() == 14);
    assert("delete-thread"@.len() == 13);
    assert("cycle-model"@.len() == 11);
    assert("approve"@.len() == 7);
    assert("deny"@.len() == 4);
    assert("restore-checkpoint"@.len() == 18);
    assert("run-terminal"@.len() == 12);
    assert("refresh-git"@.len() == 11);
    assert("cycle-file"@.len() == 10);
    assert("copy-last-message"@.len() == 17);
    assert("files-tab"@.len() == 9);
    assert("activity-tab"@.len() == 12);
    assert("agents-tab"@.len() == 10);
    assert("settings"@.len() == 8);
    assert("create-worktree"@.len() == 15);
    assert("mention-file"@.len() == 12);
    assert("new-chat"@[0] == 'n');
    assert("settings"@[0] == 's');
    assert("toggle-chats"@[0] == 't');
    assert("run-terminal"@[0] == 'r');
    assert("activity-tab"@[0] == 'a');
    assert("mention-file"@[0] == 'm');
    assert("toggle-inspector"@[0] == 't');
    assert("dismiss-reminder"@[0] == 'd');
    assert("toggle-terminal"@[0] == 't');
    assert("create-worktree"@[0] == 'c');
    assert("send"@[1] == 'e');
    assert("stop"@[1] == 't');
    assert("send"@[0] == 's');
    assert("help"@[0] == 'h');
    assert("deny"@[0] == 'd');
    assert("stop"@[0] == 's');
    assert("checkpoint"@[0] == 'c');
    assert("checkpoint"@[1] == 'h');
    assert("cycle-file"@[1] == 'y');
    assert("agents-tab"@[0] == 'a');
    assert("session"@[0] == 's');
    assert("approve"@[0] == 'a');
    assert("cycle-file"@[0] == 'c');
    assert("refresh-cores"@[0] == 'r');
    assert("close-palette"@[0] == 'c');
    assert("delete-thread"@[0] == 'd');
    assert("refresh-mcp"@[0] == 'r');
    assert("cycle-model"@[0] == 'c');
    assert("refresh-mcp"@[8] == 'm');
    assert("refresh-git"@[8] == 'g');
    assert("refresh-git"@[0] == 'r');
}

/// Palette rows as search hits. Empty query is the command catalog; a
/// nonempty query searches threads, files, and commands together.
pub fn palette_hits(ws: &Workspace, query: &str) -> (hits: Vec<SearchHit>)
    ensures
        query@.len() == 0 ==> hit_views(hits@) == catalog().map_values(|it: ItemV| command_hit(it)),
        query@.len() > 0 ==> hit_views(hits@) == search_spec(*ws, query@),
{
    if chars_of(query).len() == 0 {
        let items = default_items();
        let ghost cat = item_views(items@);
        let mut hits: Vec<SearchHit> = Vec::new();
        let mut k: usize = 0;
        while k < items.len()
            invariant
                k <= items@.len(),
                cat == item_views(items@),
                cat == catalog(),
                hit_views(hits@) == cat.take(k as int).map_values(|it: ItemV| command_hit(it)),
            decreases items@.len() - k,
        {
            let it = &items[k];
            let h = SearchHit {
                kind: SearchKind::Command,
                id: it.id.to_owned(),
                title: it.label.to_owned(),
                hint: it.hint.to_owned(),
            };
            proof {
                lemma_hit_views_push(hits@, h);
                assert(cat[k as int] == item_view(*it));
                assert(cat.take(k + 1).map_values(|it: ItemV| command_hit(it)) =~= cat.take(
                    k as int,
                ).map_values(|it: ItemV| command_hit(it)).push(command_hit(cat[k as int])));
            }
            hits.push(h);
            k = k + 1;
        }
        assert(cat.take(cat.len() as int) =~= cat);
        hits
    } else {
        search_workspace(ws, query)
    }
}

} // verus!
