//! Workspace vocabulary: transcript roles, inspector tabs, left sections,
//! MCP lifecycle and the rows the inspector lists.

use vstd::prelude::*;
use crate::approval_ui::PendingApproval;
use crate::composer::{clamp, delete_back, insert_at, move_left, move_right};
use crate::connection::{status_text, ConnectionState};
use crate::notices::{capped, notice_views, push_notice, Notice, NoticeKind, NoticeV};
use crate::settings::{is_default_settings, UiSettings};
use crate::text::{
    append_str, append_vec, chars_of, concat_all, dec, eq_str, is_control, is_control_char,
    join_s, join_strings, join_vecs, lemma_views_push, push_char, push_dec, string_of, strs,
    sub_vec, trim_s, trim_vec, views,
};

verus! {

/// Who wrote a transcript line.
#[derive(Debug, Clone, Copy, PartialEq, Eq, Structural)]
pub enum Role {
    User,
    Assistant,
}

/// One chat line.
#[derive(Debug, Clone, PartialEq, Eq)]
pub struct ChatMessage {
    pub role: Role,
    pub text: String,
}

/// One agent thread in the left rail.
#[derive(Debug, Clone, PartialEq, Eq)]
pub struct Thread {
    pub id: String,
    pub title: String,
    pub messages: Vec<ChatMessage>,
    pub status: String,
    pub model: String,
    pub pinned: bool,
    pub unread: bool,
}

/// Right-rail inspector tab.
#[derive(Debug, Clone, Copy, PartialEq, Eq, Structural)]
pub enum InspectorTab {
    Session,
    Resources,
    Mcp,
    Checkpoints,
    Git,
    Terminal,
    Skills,
    Diff,
    Browser,
    Files,
    Activity,
    Agents,
}

pub open spec fn inspector_label(t: InspectorTab) -> Seq<char> {
    match t {
        InspectorTab::Session => "Session"@,
        InspectorTab::Resources => "Cores"@,
        InspectorTab::Mcp => "MCP"@,
        InspectorTab::Checkpoints => "Points"@,
        InspectorTab::Git => "Git"@,
        InspectorTab::Terminal => "Term"@,
        InspectorTab::Skills => "Skills"@,
        InspectorTab::Diff => "Diff"@,
        InspectorTab::Browser => "Browser"@,
        InspectorTab::Files => "Files"@,
        InspectorTab::Activity => "Activity"@,
        InspectorTab::Agents => "Agents"@,
    }
}

pub open spec fn inspector_glyph(t: InspectorTab) -> Seq<char> {
    match t {
        InspectorTab::Session => "◎"@,
        InspectorTab::Resources => "▣"@,
        InspectorTab::Mcp => "⬡"@,
        InspectorTab::Checkpoints => "⚑"@,
        InspectorTab::Git => "⎇"@,
        InspectorTab::Terminal => ">_"@,
        InspectorTab::Skills => "✦"@,
        InspectorTab::Diff => "±"@,
        InspectorTab::Browser => "◎"@,
        InspectorTab::Files => "▤"@,
        InspectorTab::Activity => "●"@,
        InspectorTab::Agents => "⚡"@,
    }
}

/// The tabs the inspector rail shows, in rail order.
pub open spec fn inspector_rail() -> Seq<InspectorTab> {
    seq![
        InspectorTab::Session,
        InspectorTab::Resources,
        InspectorTab::Mcp,
        InspectorTab::Checkpoints,
        InspectorTab::Git,
        InspectorTab::Terminal,
        InspectorTab::Skills,
        InspectorTab::Files,
        InspectorTab::Activity,
        InspectorTab::Agents,
    ]
}

impl InspectorTab {
    pub fn label(self) -> (r: &'static str)
        ensures
            r@ == inspector_label(self),
    {
        match self {
            InspectorTab::Session => "Session",
            InspectorTab::Resources => "Cores",
            InspectorTab::Mcp => "MCP",
            InspectorTab::Checkpoints => "Points",
            InspectorTab::Git => "Git",
            InspectorTab::Terminal => "Term",
            InspectorTab::Skills => "Skills",
            InspectorTab::Diff => "Diff",
            InspectorTab::Browser => "Browser",
            InspectorTab::Files => "Files",
            InspectorTab::Activity => "Activity",
            InspectorTab::Agents => "Agents",
        }
    }

    pub fn glyph(self) -> (r: &'static str)
        ensures
            r@ == inspector_glyph(self),
    {
        match self {
            InspectorTab::Session => "◎",
            InspectorTab::Resources => "▣",
            InspectorTab::Mcp => "⬡",
            InspectorTab::Checkpoints => "⚑",
            InspectorTab::Git => "⎇",
            InspectorTab::Terminal => ">_",
            InspectorTab::Skills => "✦",
            InspectorTab::Diff => "±",
            InspectorTab::Browser => "◎",
            InspectorTab::Files => "▤",
            InspectorTab::Activity => "●",
            InspectorTab::Agents => "⚡",
        }
    }

    /// The ten rail tabs in order.
    pub fn all() -> (r: [InspectorTab; 10])
        ensures
            r@ == inspector_rail(),
    {
        let r = [
            InspectorTab::Session,
            InspectorTab::Resources,
            InspectorTab::Mcp,
            InspectorTab::Checkpoints,
            InspectorTab::Git,
            InspectorTab::Terminal,
            InspectorTab::Skills,
            InspectorTab::Files,
            InspectorTab::Activity,
            InspectorTab::Agents,
        ];
        assert(r@ =~= inspector_rail());
        r
    }
}

/// Left Outlook section. Icon-rail labels differ from enum names.
#[derive(Debug, Clone, Copy, PartialEq, Eq, Structural)]
pub enum LeftSection {
    Threads,
    Agents,
    Files,
    Activity,
}

pub open spec fn section_label(s: LeftSection) -> Seq<char> {
    match s {
        LeftSection::Threads => "Threads"@,
        LeftSection::Agents => "Agents"@,
        LeftSection::Files => "Files"@,
        LeftSection::Activity => "Activity"@,
    }
}

pub open spec fn section_rail_label(s: LeftSection) -> Seq<char> {
    match s {
        LeftSection::Threads => "Chats"@,
        LeftSection::Agents => "Agents"@,
        LeftSection::Files => "Projects"@,
        LeftSection::Activity => "Activity"@,
    }
}

pub open spec fn section_glyph(s: LeftSection) -> Seq<char> {
    match s {
        LeftSection::Threads => "☰"@,
        LeftSection::Agents => "⚡"@,
        LeftSection::Files => "▤"@,
        LeftSection::Activity => "●"@,
    }
}

impl LeftSection {
    pub fn all() -> (r: [LeftSection; 4])
        ensures
            r@ == seq![
                LeftSection::Threads,
                LeftSection::Agents,
                LeftSection::Files,
                LeftSection::Activity,
            ],
    {
        let r = [LeftSection::Threads, LeftSection::Agents, LeftSection::Files, LeftSection::Activity];
        assert(r@ =~= seq![
            LeftSection::Threads,
            LeftSection::Agents,
            LeftSection::Files,
            LeftSection::Activity,
        ]);
        r
    }

    pub fn label(self) -> (r: &'static str)
        ensures
            r@ == section_label(self),
    {
        match self {
            LeftSection::Threads => "Threads",
            LeftSection::Agents => "Agents",
            LeftSection::Files => "Files",
            LeftSection::Activity => "Activity",
        }
    }

    pub fn rail_label(self) -> (r: &'static str)
        ensures
            r@ == section_rail_label(self),
    {
        match self {
            LeftSection::Threads => "Chats",
            LeftSection::Agents => "Agents",
            LeftSection::Files => "Projects",
            LeftSection::Activity => "Activity",
        }
    }

    pub fn glyph(self) -> (r: &'static str)
        ensures
            r@ == section_glyph(self),
    {
        match self {
            LeftSection::Threads => "☰",
            LeftSection::Agents => "⚡",
            LeftSection::Files => "▤",
            LeftSection::Activity => "●",
        }
    }
}

/// Supervised MCP lifecycle projection.
#[derive(Debug, Clone, Copy, PartialEq, Eq, Structural)]
pub enum McpLife {
    Stopped,
    Ready,
    Crashed,
    Failed,
}

pub open spec fn mcp_label(m: McpLife) -> Seq<char> {
    match m {
        McpLife::Stopped => "stopped"@,
        McpLife::Ready => "ready"@,
        McpLife::Crashed => "crashed"@,
        McpLife::Failed => "failed"@,
    }
}

impl McpLife {
    pub fn label(self) -> (r: &'static str)
        ensures
            r@ == mcp_label(self),
    {
        match self {
            McpLife::Stopped => "stopped",
            McpLife::Ready => "ready",
            McpLife::Crashed => "crashed",
            McpLife::Failed => "failed",
        }
    }
}

impl Default for McpLife {
    fn default() -> (r: Self)
        ensures
            r == McpLife::Stopped,
    {
        McpLife::Stopped
    }
}

/// One configured MCP server.
#[derive(Debug, Clone, PartialEq, Eq)]
pub struct McpRow {
    pub name: String,
    pub command: String,
    pub transport: String,
    pub state: McpLife,
}

/// One checkpoint row.
#[derive(Debug, Clone, PartialEq, Eq)]
pub struct CheckpointRow {
    pub id: String,
    pub label: String,
}

/// How a side rail is shown.
#[derive(Debug, Clone, Copy, PartialEq, Eq, Structural)]
pub enum RailVis {
    Open,
    IconRail,
    Hidden,
}

/// Which side rails are shown. The rails' pixel widths belong to the
/// desktop host, which owns the window geometry.
#[derive(Debug, Clone, Copy, PartialEq, Eq, Structural)]
pub struct ChromeLayout {
    pub left_open: bool,
    pub right_open: bool,
}

impl Default for ChromeLayout {
    fn default() -> (c: Self)
        ensures
            c.left_open && c.right_open,
    {
        ChromeLayout { left_open: true, right_open: true }
    }
}

impl ChromeLayout {
    pub fn toggle_left(&mut self)
        ensures
            *final(self) == (ChromeLayout { left_open: !old(self).left_open, ..*old(self) }),
    {
        self.left_open = !self.left_open;
    }

    pub fn toggle_right(&mut self)
        ensures
            *final(self) == (ChromeLayout { right_open: !old(self).right_open, ..*old(self) }),
    {
        self.right_open = !self.right_open;
    }
}

/// Product workspace: chats, composer and inspector state.
#[derive(Debug, Clone, PartialEq)]
pub struct Workspace {
    pub project: String,
    pub model: String,
    pub connection: ConnectionState,
    pub threads: Vec<Thread>,
    pub selected: usize,
    pub draft: String,
    pub inspector: InspectorTab,
    pub worktrees: Vec<String>,
    pub chrome: ChromeLayout,
    pub mcp: Vec<McpRow>,
    pub checkpoints: Vec<CheckpointRow>,
    pub reminder: Option<(String, String)>,
    pub terminal_log: Vec<String>,
    pub busy: bool,
    pub pending: Option<PendingApproval>,
    pub cursor: usize,
    pub models: Vec<String>,
    pub files: Vec<String>,
    pub skills: Vec<String>,
    pub git_status: String,
    pub term_draft: String,
    pub palette_open: bool,
    pub help_open: bool,
    pub selected_checkpoint: Option<String>,
    pub selected_worktree: Option<usize>,
    pub left_section: LeftSection,
    pub right_expanded_id: Option<String>,
    pub bottom_open: bool,
    pub selected_file: Option<String>,
    pub notices: Vec<Notice>,
    pub settings: UiSettings,
    pub wt_path: String,
    pub wt_branch: String,
    pub wt_create_branch: bool,
    pub settings_open: bool,
    /// Saved composer drafts: thread id, text and cursor.
    pub thread_drafts: Vec<(String, String, usize)>,
    /// The number the next `new_thread` id is made from.
    pub next_id: u64,
    /// The id the next notice gets.
    pub next_notice: u64,
}

/// A thread as `new_thread` creates it.
pub open spec fn fresh_thread(t: Thread, id: Seq<char>, model: Seq<char>) -> bool {
    &&& t.id@ == id
    &&& t.title@ == "New chat"@
    &&& t.messages@.len() == 0
    &&& t.status@ == "idle"@
    &&& t.model@ == model
    &&& !t.pinned
    &&& !t.unread
}

/// The id `new_thread` gives its `n`-th thread.
pub open spec fn thread_id(n: nat) -> Seq<char> {
    "thr-"@ + dec(n)
}

/// The selection after removing the thread at `index`.
pub open spec fn selected_after_delete(selected: int, index: int) -> int {
    if index < selected {
        selected - 1
    } else if index == selected {
        if selected > 0 {
            selected - 1
        } else {
            0
        }
    } else {
        selected
    }
}

/// A thread title taken from the first message: its first 40 chars.
pub open spec fn title_from(text: Seq<char>) -> Seq<char> {
    if text.len() <= 40 {
        text
    } else {
        text.take(40)
    }
}

/// `t` is `t0` with one more message, of `role` and `text`, and status `status`.
pub open spec fn appended(t: Thread, t0: Thread, role: Role, text: Seq<char>, status: Seq<char>) -> bool {
    &&& t.messages@.len() == t0.messages@.len() + 1
    &&& t.messages@.drop_last() == t0.messages@
    &&& t.messages@.last().role == role
    &&& t.messages@.last().text@ == text
    &&& t.status@ == status
    &&& t == (Thread { messages: t.messages, status: t.status, ..t0 })
}

/// The thread at `old.selected`, when there is one, went to `f`; nothing else moved.
pub open spec fn edits_selected(
    old: Workspace,
    threads: Seq<Thread>,
    f: spec_fn(Thread, Thread) -> bool,
) -> bool {
    if old.selected < old.threads@.len() {
        &&& threads == old.threads@.update(old.selected as int, threads[old.selected as int])
        &&& f(threads[old.selected as int], old.threads@[old.selected as int])
    } else {
        threads == old.threads@
    }
}

/// The terminal log keeps its newest 80 lines.
pub open spec fn capped_log(s: Seq<Seq<char>>) -> Seq<Seq<char>> {
    if s.len() > 80 {
        s.skip(s.len() - 80)
    } else {
        s
    }
}

/// Index of the first `m` in `ms` at or after `i`, or 0 when there is none.
pub open spec fn first_at(ms: Seq<Seq<char>>, m: Seq<char>, i: int) -> int
    decreases ms.len() - i,
{
    if i < 0 || i >= ms.len() {
        0
    } else if ms[i] == m {
        i
    } else {
        first_at(ms, m, i + 1)
    }
}

pub proof fn lemma_first_at_bounds(ms: Seq<Seq<char>>, m: Seq<char>, i: int)
    requires
        0 <= i,
    ensures
        0 <= first_at(ms, m, i) < if ms.len() > 0 { ms.len() as int } else { 1 },
    decreases ms.len() - i,
{
    if i < ms.len() && ms[i] != m {
        lemma_first_at_bounds(ms, m, i + 1);
    }
}

/// The model after `m` in the catalogue `ms` (the first one when `m` is not in it).
pub open spec fn next_model(ms: Seq<Seq<char>>, m: Seq<char>) -> Seq<char> {
    ms[(first_at(ms, m, 0) + 1) % (ms.len() as int)]
}

pub open spec fn open_word(b: bool) -> Seq<char> {
    if b {
        "open"@
    } else {
        "closed"@
    }
}

/// The catalogue as the session card lists it.
pub open spec fn models_text(models: Seq<Seq<char>>, model: Seq<char>) -> Seq<char> {
    if models.len() == 0 {
        model
    } else {
        join_s(models, ", "@)
    }
}

/// The session card of the inspector.
pub open spec fn session_text(ws: Workspace, sid: Option<Seq<char>>) -> Seq<char> {
    "Project\n"@ + ws.project@ + "\n\nModel\n"@ + ws.model@ + "\n\nConnection\n"@ + status_text(
        ws.connection,
    ) + "\n\nSession\n"@ + (match sid {
        Some(s) => s,
        None => "(none yet)"@,
    }) + "\n\nThreads\n"@ + dec(ws.threads@.len()) + "\n\nModels\n"@ + models_text(
        strs(ws.models@),
        ws.model@,
    ) + "\n\nPalette\n"@ + open_word(ws.palette_open) + "\n\nHelp\n"@ + open_word(ws.help_open)
}

/// The thread list's one-line preview of a thread.
pub open spec fn preview_text(t: Thread) -> Seq<char> {
    if t.messages@.len() == 0 {
        "Empty thread"@
    } else {
        let m = t.messages@.last();
        (match m.role {
            Role::User => "You: "@,
            Role::Assistant => "Agent: "@,
        }) + (if m.text@.len() <= 48 {
            m.text@
        } else {
            m.text@.take(48)
        })
    }
}

/// `v` joined by newlines, or `empty` when there is nothing.
pub open spec fn listed(v: Seq<Seq<char>>, empty: Seq<char>) -> Seq<char> {
    if v.len() == 0 {
        empty
    } else {
        join_s(v, "\n"@)
    }
}

/// Each line followed by a newline.
pub open spec fn with_newlines(v: Seq<Seq<char>>) -> Seq<Seq<char>> {
    v.map_values(|l: Seq<char>| l + "\n"@)
}

/// The resources card: reserved cores, the host's core lines, worktrees and files.
pub open spec fn resource_text(ws: Workspace, core_lines: Seq<Seq<char>>) -> Seq<char> {
    "Reserved cores: 0, 1 (app)\nJob Object kill-on-close is armed.\n\n"@ + (if core_lines.len()
        == 0 {
        "Core samples: (waiting)\n"@
    } else {
        concat_all(with_newlines(core_lines))
    }) + "\nWorktrees\n"@ + listed(strs(ws.worktrees@), "(none listed)"@) + "\n\nFiles\n"@
        + listed(strs(ws.files@), "(none listed)"@)
}

pub open spec fn mcp_line(m: McpRow) -> Seq<char> {
    m.name@ + "  ["@ + m.transport@ + "]  "@ + mcp_label(m.state) + "\n  "@ + m.command@
}

pub open spec fn mcp_text(rows: Seq<McpRow>) -> Seq<char> {
    if rows.len() == 0 {
        "No MCP servers in ~/.grok/config.toml\nReuse/teardown still applies when they start."@
    } else {
        join_s(rows.map_values(|m: McpRow| mcp_line(m)), "\n"@)
    }
}

pub open spec fn selected_mark(b: bool) -> Seq<char> {
    if b {
        "*"@
    } else {
        " "@
    }
}

pub open spec fn is_selected_id(sel: Option<String>, id: Seq<char>) -> bool {
    sel matches Some(s) && s@ == id
}

pub open spec fn checkpoint_line(c: CheckpointRow, sel: Option<String>) -> Seq<char> {
    selected_mark(is_selected_id(sel, c.id@)) + " "@ + c.id@ + "  "@ + c.label@
}

pub open spec fn checkpoint_text(rows: Seq<CheckpointRow>, sel: Option<String>) -> Seq<char> {
    if rows.len() == 0 {
        "No checkpoints yet. A start checkpoint is created with the session runtime."@
    } else {
        join_s(rows.map_values(|c: CheckpointRow| checkpoint_line(c, sel)), "\n"@)
    }
}

pub open spec fn worktree_lines(wts: Seq<Seq<char>>, sel: Option<usize>) -> Seq<Seq<char>> {
    Seq::new(
        wts.len(),
        |i: int| selected_mark(sel == Some(i as usize)) + " "@ + wts[i] + "\n"@,
    )
}

pub open spec fn git_text(ws: Workspace) -> Seq<char> {
    "Worktrees\n"@ + (if ws.worktrees@.len() == 0 {
        "(none listed)"@
    } else {
        concat_all(worktree_lines(strs(ws.worktrees@), ws.selected_worktree))
    }) + "\n\nStatus\n"@ + (if ws.git_status@.len() == 0 {
        "(none)"@
    } else {
        ws.git_status@
    })
}

pub open spec fn terminal_text(ws: Workspace) -> Seq<char> {
    "Log\n"@ + listed(strs(ws.terminal_log@), "(empty)"@) + "\n\nDraft\n"@ + ws.term_draft@
}

pub open spec fn agent_line(t: Thread) -> Seq<char> {
    t.title@ + "  ["@ + t.status@ + "]  "@ + t.id@ + "  "@ + dec(t.messages@.len()) + " msgs\n"@
}

pub open spec fn agents_text(threads: Seq<Thread>) -> Seq<char> {
    "Local threads only. Subagent spawn is not wired.\n\n"@ + concat_all(
        threads.map_values(|t: Thread| agent_line(t)),
    )
}

/// Index of the first row named `name` at or after `i`, or the length when none is.
pub open spec fn mcp_index(rows: Seq<McpRow>, name: Seq<char>, i: int) -> int
    decreases rows.len() - i,
{
    if i < 0 || i >= rows.len() {
        rows.len() as int
    } else if rows[i].name@ == name {
        i
    } else {
        mcp_index(rows, name, i + 1)
    }
}

/// The first row named `name` moved to `state`; `None` when no row has that name.
pub open spec fn mcp_set(rows: Seq<McpRow>, name: Seq<char>, state: McpLife) -> Option<Seq<McpRow>> {
    let k = mcp_index(rows, name, 0);
    if k < rows.len() {
        Some(rows.update(k, McpRow { state, ..rows[k] }))
    } else {
        None
    }
}

/// The mention `insert_file_mention` writes for `path`.
pub open spec fn mention_of(path: Seq<char>) -> Seq<char> {
    " `@"@ + path + "` "@
}

/// Index of the first thread with id `id` at or after `i`, or the length.
pub open spec fn thread_index(ts: Seq<Thread>, id: Seq<char>, i: int) -> int
    decreases ts.len() - i,
{
    if i < 0 || i >= ts.len() {
        ts.len() as int
    } else if ts[i].id@ == id {
        i
    } else {
        thread_index(ts, id, i + 1)
    }
}

impl Workspace {
    /// A workspace for `project` on `model`, with one empty thread.
    pub fn new(project: &str, model: &str) -> (ws: Self)
        ensures
            ws.project@ == project@,
            ws.model@ == model@,
            ws.connection == ConnectionState::Disconnected,
            ws.threads@.len() == 1,
            fresh_thread(ws.threads@[0], thread_id(1), model@),
            ws.selected == 0,
            ws.draft@ == Seq::<char>::empty(),
            ws.inspector == InspectorTab::Session,
            ws.worktrees@.len() == 0,
            ws.chrome.left_open && ws.chrome.right_open,
            ws.mcp@.len() == 0,
            ws.checkpoints@.len() == 0,
            ws.reminder is None,
            ws.terminal_log@.len() == 0,
            !ws.busy,
            ws.pending is None,
            ws.cursor == 0,
            strs(ws.models@) == seq![model@],
            ws.files@.len() == 0,
            ws.skills@.len() == 0,
            ws.git_status@ == Seq::<char>::empty(),
            ws.term_draft@ == Seq::<char>::empty(),
            !ws.palette_open,
            !ws.help_open,
            ws.selected_checkpoint is None,
            ws.selected_worktree is None,
            ws.left_section == LeftSection::Threads,
            ws.right_expanded_id is None,
            !ws.bottom_open,
            ws.selected_file is None,
            ws.notices@.len() == 0,
            is_default_settings(ws.settings),
            ws.wt_path@ == "../mux-feat"@,
            ws.wt_branch@ == "feat"@,
            ws.wt_create_branch,
            !ws.settings_open,
            ws.thread_drafts@.len() == 0,
            ws.next_id == 2,
    {
        let mut models: Vec<String> = Vec::new();
        models.push(model.to_owned());
        let mut ws = Workspace {
            project: project.to_owned(),
            model: model.to_owned(),
            connection: ConnectionState::Disconnected,
            threads: Vec::new(),
            selected: 0,
            draft: String::new(),
            inspector: InspectorTab::Session,
            worktrees: Vec::new(),
            chrome: ChromeLayout::default(),
            mcp: Vec::new(),
            checkpoints: Vec::new(),
            reminder: None,
            terminal_log: Vec::new(),
            busy: false,
            pending: None,
            cursor: 0,
            models,
            files: Vec::new(),
            skills: Vec::new(),
            git_status: String::new(),
            term_draft: String::new(),
            palette_open: false,
            help_open: false,
            selected_checkpoint: None,
            selected_worktree: None,
            left_section: LeftSection::Threads,
            right_expanded_id: None,
            bottom_open: false,
            selected_file: None,
            notices: Vec::new(),
            settings: UiSettings::default(),
            wt_path: "../mux-feat".to_owned(),
            wt_branch: "feat".to_owned(),
            wt_create_branch: true,
            settings_open: false,
            thread_drafts: Vec::new(),
            next_id: 1,
            next_notice: 1,
        };
        assert(strs(ws.models@) =~= seq![model@]);
        ws.new_thread();
        ws
    }

    /// Appends an empty thread named by the id counter and selects it.
    pub fn new_thread(&mut self) -> (id: String)
        requires
            old(self).next_id < u64::MAX,
        ensures
            id@ == thread_id(old(self).next_id as nat),
            final(self).threads@.drop_last() == old(self).threads@,
            final(self).threads@.len() == old(self).threads@.len() + 1,
            fresh_thread(final(self).threads@.last(), id@, old(self).model@),
            final(self).draft@ == Seq::<char>::empty(),
            *final(self) == (Workspace {
                threads: final(self).threads,
                selected: old(self).threads@.len() as usize,
                draft: final(self).draft,
                cursor: 0,
                next_id: (old(self).next_id + 1) as u64,
                ..*old(self)
            }),
    {
        let mut v: Vec<char> = Vec::new();
        append_str(&mut v, "thr-");
        push_dec(&mut v, self.next_id);
        proof {
            reveal_strlit("thr-");
        }
        let id = string_of(&v);
        self.next_id = self.next_id + 1;
        let t = Thread {
            id: string_of(&v),
            title: "New chat".to_owned(),
            messages: Vec::new(),
            status: "idle".to_owned(),
            model: self.model.clone(),
            pinned: false,
            unread: false,
        };
        self.threads.push(t);
        self.selected = self.threads.len() - 1;
        self.draft = String::new();
        self.cursor = 0;
        id
    }

    /// Selects thread `index` when it exists.
    pub fn select(&mut self, index: usize) -> (r: bool)
        ensures
            r == (index < old(self).threads@.len()),
            *final(self) == (if r {
                Workspace { selected: index, ..*old(self) }
            } else {
                *old(self)
            }),
    {
        if index < self.threads.len() {
            self.selected = index;
            true
        } else {
            false
        }
    }

    /// Selects the first thread whose id is `id`; false when there is none.
    pub fn select_thread_id(&mut self, id: &str) -> (r: bool)
        ensures
            r == (thread_index(old(self).threads@, id@, 0) < old(self).threads@.len()),
            *final(self) == (if r {
                Workspace {
                    selected: thread_index(old(self).threads@, id@, 0) as usize,
                    ..*old(self)
                }
            } else {
                *old(self)
            }),
    {
        let mut i: usize = 0;
        while i < self.threads.len()
            invariant
                *self == *old(self),
                i <= self.threads@.len(),
                thread_index(self.threads@, id@, 0) == thread_index(self.threads@, id@, i as int),
            ensures
                *self == *old(self),
                i <= self.threads@.len(),
                thread_index(self.threads@, id@, 0) == i,
            decreases self.threads@.len() - i,
        {
            if eq_str(&chars_of(self.threads[i].id.as_str()), id) {
                break;
            }
            i = i + 1;
        }
        if i < self.threads.len() {
            self.selected = i;
            true
        } else {
            false
        }
    }

    /// Removes a thread, keeping at least one. A removed selection moves to
    /// the previous index (or 0).
    pub fn delete_thread(&mut self, index: usize) -> (r: bool)
        ensures
            r == (old(self).threads@.len() > 1 && index < old(self).threads@.len()),
            !r ==> *final(self) == *old(self),
            r ==> final(self).threads@ == old(self).threads@.remove(index as int),
            r ==> *final(self) == (Workspace {
                threads: final(self).threads,
                selected: selected_after_delete(old(self).selected as int, index as int) as usize,
                ..*old(self)
            }),
    {
        if self.threads.len() <= 1 || index >= self.threads.len() {
            return false;
        }
        self.threads.remove(index);
        if index < self.selected {
            self.selected = self.selected - 1;
        } else if index == self.selected {
            if self.selected > 0 {
                self.selected = self.selected - 1;
            }
        }
        true
    }

    /// Renames thread `index` when it exists.
    pub fn rename_thread(&mut self, index: usize, title: &str) -> (r: bool)
        ensures
            r == (index < old(self).threads@.len()),
            !r ==> *final(self) == *old(self),
            r ==> final(self).threads@ == old(self).threads@.update(
                index as int,
                final(self).threads@[index as int],
            ),
            r ==> final(self).threads@[index as int] == (Thread {
                title: final(self).threads@[index as int].title,
                ..old(self).threads@[index as int]
            }),
            r ==> final(self).threads@[index as int].title@ == title@,
            r ==> *final(self) == (Workspace { threads: final(self).threads, ..*old(self) }),
    {
        if index >= self.threads.len() {
            return false;
        }
        let mut t = self.threads.remove(index);
        t.title = title.to_owned();
        self.threads.insert(index, t);
        assert(self.threads@ =~= old(self).threads@.update(index as int, t));
        true
    }

    /// Replaces the draft and puts the cursor at its end.
    pub fn set_draft(&mut self, text: &str)
        ensures
            final(self).draft@ == text@,
            *final(self) == (Workspace {
                draft: final(self).draft,
                cursor: text@.len() as usize,
                ..*old(self)
            }),
    {
        self.draft = text.to_owned();
        self.cursor = chars_of(text).len();
    }

    /// Inserts `c` at the cursor; control characters are ignored.
    pub fn type_char(&mut self, c: char)
        requires
            old(self).draft@.len() < usize::MAX,
        ensures
            is_control(c) ==> *final(self) == *old(self),
            !is_control(c) ==> {
                let k = clamp(old(self).draft@, old(self).cursor as int);
                &&& final(self).draft@ == old(self).draft@.take(k) + seq![c] + old(
                    self,
                ).draft@.skip(k)
                &&& *final(self) == (Workspace {
                    draft: final(self).draft,
                    cursor: (k + 1) as usize,
                    ..*old(self)
                })
            },
    {
        if !is_control_char(c) {
            let mut s = String::new();
            push_char(&mut s, c);
            assert(s@ =~= seq![c]);
            self.cursor = insert_at(&mut self.draft, self.cursor, s.as_str());
        }
    }

    /// Deletes the char before the cursor.
    pub fn backspace(&mut self)
        ensures
            ({
                let k = clamp(old(self).draft@, old(self).cursor as int);
                &&& k == 0 ==> final(self).draft@ == old(self).draft@
                &&& k > 0 ==> final(self).draft@ == old(self).draft@.take(k - 1) + old(
                    self,
                ).draft@.skip(k)
                &&& *final(self) == (Workspace {
                    draft: final(self).draft,
                    cursor: (if k > 0 { k - 1 } else { 0 }) as usize,
                    ..*old(self)
                })
            }),
    {
        self.cursor = delete_back(&mut self.draft, self.cursor);
    }

    /// Moves the cursor one char left, clamped into the draft.
    pub fn move_cursor_left(&mut self)
        ensures
            *final(self) == (Workspace {
                cursor: (if clamp(old(self).draft@, old(self).cursor as int) > 0 {
                    clamp(old(self).draft@, old(self).cursor as int) - 1
                } else {
                    0
                }) as usize,
                ..*old(self)
            }),
    {
        self.cursor = move_left(self.draft.as_str(), self.cursor);
    }

    /// Moves the cursor one char right, clamped into the draft.
    pub fn move_cursor_right(&mut self)
        ensures
            *final(self) == (Workspace {
                cursor: clamp(
                    old(self).draft@,
                    clamp(old(self).draft@, old(self).cursor as int) + 1,
                ) as usize,
                ..*old(self)
            }),
    {
        self.cursor = move_right(self.draft.as_str(), self.cursor);
    }

    pub fn move_cursor_home(&mut self)
        ensures
            *final(self) == (Workspace { cursor: 0, ..*old(self) }),
    {
        self.cursor = 0;
    }

    pub fn move_cursor_end(&mut self)
        ensures
            *final(self) == (Workspace { cursor: old(self).draft@.len() as usize, ..*old(self) }),
    {
        self.cursor = chars_of(self.draft.as_str()).len();
    }

    /// Takes the trimmed draft as a user message of the selected thread.
    /// A first message names a thread still called "New chat".
    pub fn send_draft(&mut self) -> (r: Option<String>)
        ensures
            trim_s(old(self).draft@).len() == 0 <==> r is None,
            r is None ==> *final(self) == *old(self),
            r matches Some(t) ==> {
                &&& t@ == trim_s(old(self).draft@)
                &&& final(self).draft@ == Seq::<char>::empty()
                &&& edits_selected(
                    *old(self),
                    final(self).threads@,
                    |th: Thread, th0: Thread|
                        {
                            &&& th.title@ == (if th0.title@ == "New chat"@ {
                                title_from(t@)
                            } else {
                                th0.title@
                            })
                            &&& appended(
                                Thread { title: th0.title, ..th },
                                th0,
                                Role::User,
                                t@,
                                "running"@,
                            )
                        },
                )
                &&& *final(self) == (Workspace {
                    draft: final(self).draft,
                    cursor: 0,
                    threads: final(self).threads,
                    busy: true,
                    ..*old(self)
                })
            },
    {
        let tv = trim_vec(&chars_of(self.draft.as_str()));
        if tv.len() == 0 {
            return None;
        }
        self.draft = String::new();
        self.cursor = 0;
        let sel = self.selected;
        if sel < self.threads.len() {
            let mut th = self.threads.remove(sel);
            let ghost th0 = th;
            if eq_str(&chars_of(th.title.as_str()), "New chat") {
                let n: usize = if tv.len() <= 40 {
                    tv.len()
                } else {
                    40
                };
                let head = sub_vec(&tv, 0, n);
                assert(head@ =~= title_from(tv@));
                th.title = string_of(&head);
            }
            let ghost titled = th;
            th.messages.push(ChatMessage { role: Role::User, text: string_of(&tv) });
            th.status = "running".to_owned();
            assert(th.messages@.drop_last() =~= th0.messages@);
            self.threads.insert(sel, th);
            assert(self.threads@ =~= old(self).threads@.update(sel as int, th));
        }
        self.busy = true;
        Some(string_of(&tv))
    }

    /// Appends an assistant reply to the selected thread and marks it idle.
    pub fn push_assistant(&mut self, text: &str)
        ensures
            edits_selected(
                *old(self),
                final(self).threads@,
                |th: Thread, th0: Thread| appended(th, th0, Role::Assistant, text@, "idle"@),
            ),
            *final(self) == (Workspace { threads: final(self).threads, busy: false, ..*old(self) }),
    {
        self.append_to_selected(Role::Assistant, text, "idle");
        self.busy = false;
    }

    /// Marks the selected thread failed with `message` as its last line.
    pub fn mark_error(&mut self, message: &str)
        ensures
            edits_selected(
                *old(self),
                final(self).threads@,
                |th: Thread, th0: Thread| appended(th, th0, Role::Assistant, message@, "error"@),
            ),
            *final(self) == (Workspace { threads: final(self).threads, busy: false, ..*old(self) }),
    {
        self.append_to_selected(Role::Assistant, message, "error");
        self.busy = false;
    }

    /// Stops the turn: idle, with an "(interrupted)" line.
    pub fn mark_interrupted(&mut self)
        ensures
            edits_selected(
                *old(self),
                final(self).threads@,
                |th: Thread, th0: Thread|
                    appended(th, th0, Role::Assistant, "(interrupted)"@, "idle"@),
            ),
            *final(self) == (Workspace { threads: final(self).threads, busy: false, ..*old(self) }),
    {
        self.busy = false;
        self.append_to_selected(Role::Assistant, "(interrupted)", "idle");
    }

    fn append_to_selected(&mut self, role: Role, text: &str, status: &str)
        ensures
            edits_selected(
                *old(self),
                final(self).threads@,
                |th: Thread, th0: Thread| appended(th, th0, role, text@, status@),
            ),
            *final(self) == (Workspace { threads: final(self).threads, ..*old(self) }),
    {
        let sel = self.selected;
        if sel < self.threads.len() {
            let mut th = self.threads.remove(sel);
            let ghost th0 = th;
            th.messages.push(ChatMessage { role, text: text.to_owned() });
            th.status = status.to_owned();
            assert(th.messages@.drop_last() =~= th0.messages@);
            self.threads.insert(sel, th);
            assert(self.threads@ =~= old(self).threads@.update(sel as int, th));
        }
    }

    /// Appends a terminal line, keeping the newest 80.
    pub fn push_terminal(&mut self, line: &str)
        ensures
            strs(final(self).terminal_log@) == capped_log(strs(old(self).terminal_log@).push(line@)),
            *final(self) == (Workspace { terminal_log: final(self).terminal_log, ..*old(self) }),
    {
        let ghost before = strs(self.terminal_log@);
        self.terminal_log.push(line.to_owned());
        assert(strs(self.terminal_log@) =~= before.push(line@));
        let n = self.terminal_log.len();
        if n > 80 {
            let drop = n - 80;
            let ghost full = self.terminal_log@;
            let tail = self.terminal_log.split_off(drop);
            assert(strs(tail@) =~= strs(full).skip(drop as int));
            self.terminal_log = tail;
        }
    }

    pub fn set_reminder(&mut self, branch: &str, path: &str)
        ensures
            final(self).reminder matches Some(r) && r.0@ == branch@ && r.1@ == path@,
            *final(self) == (Workspace { reminder: final(self).reminder, ..*old(self) }),
    {
        self.reminder = Some((branch.to_owned(), path.to_owned()));
    }

    pub fn dismiss_reminder(&mut self)
        ensures
            *final(self) == (Workspace { reminder: None, ..*old(self) }),
    {
        self.reminder = None;
    }

    pub fn connect(&mut self, session_ids: Vec<String>)
        ensures
            *final(self) == (Workspace {
                connection: ConnectionState::Connected { session_ids },
                ..*old(self)
            }),
    {
        self.connection = ConnectionState::Connected { session_ids };
    }

    /// Moves to the next model of the catalogue and returns it. An empty
    /// catalogue is refilled with the current model.
    pub fn cycle_model(&mut self) -> (r: String)
        ensures
            old(self).models@.len() == 0 ==> {
                &&& strs(final(self).models@) == seq![old(self).model@]
                &&& r@ == old(self).model@
                &&& *final(self) == (Workspace { models: final(self).models, ..*old(self) })
            },
            old(self).models@.len() > 0 ==> {
                &&& final(self).model@ == next_model(strs(old(self).models@), old(self).model@)
                &&& r@ == final(self).model@
                &&& *final(self) == (Workspace { model: final(self).model, ..*old(self) })
            },
    {
        if self.models.len() == 0 {
            self.models.push(self.model.clone());
            assert(strs(self.models@) =~= seq![old(self).model@]);
            return self.model.clone();
        }
        let ghost ms = strs(self.models@);
        let mut i: usize = 0;
        while i < self.models.len()
            invariant
                i <= self.models@.len(),
                ms == strs(self.models@),
                self.models@.len() > 0,
                forall|k: int| 0 <= k < i ==> ms[k] != self.model@,
                first_at(ms, self.model@, 0) == first_at(ms, self.model@, i as int),
            ensures
                i <= self.models@.len(),
                i < self.models@.len() ==> ms[i as int] == self.model@,
                first_at(ms, self.model@, 0) == first_at(ms, self.model@, i as int),
            decreases self.models@.len() - i,
        {
            assert(ms[i as int] == self.models@[i as int]@);
            if self.models[i] == self.model {
                break;
            }
            assert(ms[i as int] != self.model@);
            i = i + 1;
        }
        let pos: usize = if i < self.models.len() {
            i
        } else {
            0
        };
        assert(pos == first_at(ms, self.model@, 0));
        let next = (pos + 1) % self.models.len();
        self.model = self.models[next].clone();
        self.model.clone()
    }

    /// Replaces the model catalogue. An empty one keeps the current model;
    /// a current model the catalogue lacks gives way to its first.
    pub fn set_models(&mut self, models: Vec<String>)
        ensures
            models@.len() == 0 ==> strs(final(self).models@) == seq![old(self).model@]
                && *final(self) == (Workspace { models: final(self).models, ..*old(self) }),
            models@.len() > 0 ==> final(self).models == models && final(self).model@ == (if strs(
                models@,
            ).contains(old(self).model@) {
                old(self).model@
            } else {
                models@[0]@
            }) && *final(self) == (Workspace {
                models: final(self).models,
                model: final(self).model,
                ..*old(self)
            }),
    {
        if models.len() == 0 {
            let mut m: Vec<String> = Vec::new();
            m.push(self.model.clone());
            assert(strs(m@) =~= seq![old(self).model@]);
            self.models = m;
            return;
        }
        let ghost ms = strs(models@);
        let mut found = false;
        let mut i: usize = 0;
        while i < models.len()
            invariant
                i <= models@.len(),
                ms == strs(models@),
                found == (exists|k: int| 0 <= k < i && ms[k] == self.model@),
            decreases models@.len() - i,
        {
            if models[i] == self.model {
                found = true;
            }
            assert(ms[i as int] == models@[i as int]@);
            i = i + 1;
        }
        proof {
            if found {
                let k = choose|k: int| 0 <= k < models@.len() && ms[k] == self.model@;
                assert(ms.contains(self.model@));
            } else {
                assert(!ms.contains(self.model@));
            }
        }
        if !found {
            self.model = models[0].clone();
        }
        self.models = models;
    }

    pub fn create_local_checkpoint(&mut self, id: &str, label: &str)
        ensures
            final(self).checkpoints@.len() == old(self).checkpoints@.len() + 1,
            final(self).checkpoints@.drop_last() == old(self).checkpoints@,
            final(self).checkpoints@.last().id@ == id@,
            final(self).checkpoints@.last().label@ == label@,
            *final(self) == (Workspace { checkpoints: final(self).checkpoints, ..*old(self) }),
    {
        self.checkpoints.push(CheckpointRow { id: id.to_owned(), label: label.to_owned() });
        assert(self.checkpoints@.drop_last() =~= old(self).checkpoints@);
    }

    pub fn select_checkpoint(&mut self, id: Option<String>)
        ensures
            *final(self) == (Workspace { selected_checkpoint: id, ..*old(self) }),
    {
        self.selected_checkpoint = id;
    }

    pub fn set_files(&mut self, files: Vec<String>)
        ensures
            *final(self) == (Workspace { files, ..*old(self) }),
    {
        self.files = files;
    }

    pub fn set_skills(&mut self, skills: Vec<String>)
        ensures
            *final(self) == (Workspace { skills, ..*old(self) }),
    {
        self.skills = skills;
    }

    pub fn set_git_status(&mut self, status: &str)
        ensures
            final(self).git_status@ == status@,
            *final(self) == (Workspace { git_status: final(self).git_status, ..*old(self) }),
    {
        self.git_status = status.to_owned();
    }

    pub fn set_term_draft(&mut self, text: &str)
        ensures
            final(self).term_draft@ == text@,
            *final(self) == (Workspace { term_draft: final(self).term_draft, ..*old(self) }),
    {
        self.term_draft = text.to_owned();
    }

    /// Appends `c` to the terminal draft; control characters are ignored.
    pub fn type_term_char(&mut self, c: char)
        ensures
            final(self).term_draft@ == (if is_control(c) {
                old(self).term_draft@
            } else {
                old(self).term_draft@.push(c)
            }),
            *final(self) == (Workspace { term_draft: final(self).term_draft, ..*old(self) }),
    {
        if !is_control_char(c) {
            push_char(&mut self.term_draft, c);
        }
    }

    /// Drops the last char of the terminal draft.
    pub fn backspace_term(&mut self)
        ensures
            final(self).term_draft@ == (if old(self).term_draft@.len() > 0 {
                old(self).term_draft@.drop_last()
            } else {
                old(self).term_draft@
            }),
            *final(self) == (Workspace { term_draft: final(self).term_draft, ..*old(self) }),
    {
        let v = chars_of(self.term_draft.as_str());
        if v.len() > 0 {
            let w = sub_vec(&v, 0, v.len() - 1);
            assert(w@ =~= v@.drop_last());
            self.term_draft = string_of(&w);
        }
    }

    /// Takes the trimmed terminal draft, clearing it; `None` when blank.
    pub fn take_term_draft(&mut self) -> (r: Option<String>)
        ensures
            final(self).term_draft@ == Seq::<char>::empty(),
            *final(self) == (Workspace { term_draft: final(self).term_draft, ..*old(self) }),
            match r {
                Some(t) => t@ == trim_s(old(self).term_draft@) && t@.len() > 0,
                None => trim_s(old(self).term_draft@).len() == 0,
            },
    {
        let tv = trim_vec(&chars_of(self.term_draft.as_str()));
        self.term_draft = String::new();
        if tv.len() == 0 {
            None
        } else {
            Some(string_of(&tv))
        }
    }

    pub fn toggle_palette(&mut self)
        ensures
            *final(self) == (Workspace { palette_open: !old(self).palette_open, ..*old(self) }),
    {
        self.palette_open = !self.palette_open;
    }

    pub fn close_palette(&mut self)
        ensures
            *final(self) == (Workspace { palette_open: false, ..*old(self) }),
    {
        self.palette_open = false;
    }

    pub fn toggle_help(&mut self)
        ensures
            *final(self) == (Workspace { help_open: !old(self).help_open, ..*old(self) }),
    {
        self.help_open = !self.help_open;
    }

    /// `Multiplexer  ·  project  ·  model  ·  connection`.
    pub fn title_bar(&self) -> (r: String)
        ensures
            r@ == "Multiplexer  ·  "@ + self.project@ + "  ·  "@ + self.model@ + "  ·  "@
                + status_text(self.connection),
    {
        let mut v: Vec<char> = Vec::new();
        append_str(&mut v, "Multiplexer  ·  ");
        append_str(&mut v, self.project.as_str());
        append_str(&mut v, "  ·  ");
        append_str(&mut v, self.model.as_str());
        append_str(&mut v, "  ·  ");
        append_str(&mut v, self.connection.status_label());
        string_of(&v)
    }

    /// The selected thread, when the selection is in range.
    pub fn selected_thread(&self) -> (r: Option<&Thread>)
        ensures
            r == (if self.selected < self.threads@.len() {
                Some(&self.threads@[self.selected as int])
            } else {
                None
            }),
    {
        if self.selected < self.threads.len() {
            Some(&self.threads[self.selected])
        } else {
            None
        }
    }

    /// Last line preview for the thread list.
    pub fn thread_preview(thread: &Thread) -> (r: String)
        ensures
            r@ == preview_text(*thread),
    {
        let n = thread.messages.len();
        if n == 0 {
            return "Empty thread".to_owned();
        }
        let m = &thread.messages[n - 1];
        let mut v: Vec<char> = Vec::new();
        match m.role {
            Role::User => append_str(&mut v, "You: "),
            Role::Assistant => append_str(&mut v, "Agent: "),
        }
        let body = chars_of(m.text.as_str());
        let k: usize = if body.len() <= 48 {
            body.len()
        } else {
            48
        };
        let head = sub_vec(&body, 0, k);
        assert(head@ =~= (if m.text@.len() <= 48 {
            m.text@
        } else {
            m.text@.take(48)
        }));
        append_vec(&mut v, &head);
        string_of(&v)
    }

    /// The session card; `session_id` is the live session, if any.
    pub fn session_detail(&self, session_id: Option<&str>) -> (r: String)
        ensures
            r@ == session_text(
                *self,
                match session_id {
                    Some(s) => Some(s@),
                    None => None,
                },
            ),
    {
        let mut v: Vec<char> = Vec::new();
        append_str(&mut v, "Project\n");
        append_str(&mut v, self.project.as_str());
        append_str(&mut v, "\n\nModel\n");
        append_str(&mut v, self.model.as_str());
        append_str(&mut v, "\n\nConnection\n");
        append_str(&mut v, self.connection.status_label());
        append_str(&mut v, "\n\nSession\n");
        match session_id {
            Some(s) => append_str(&mut v, s),
            None => append_str(&mut v, "(none yet)"),
        }
        append_str(&mut v, "\n\nThreads\n");
        push_dec(&mut v, self.threads.len() as u64);
        append_str(&mut v, "\n\nModels\n");
        if self.models.len() == 0 {
            append_str(&mut v, self.model.as_str());
        } else {
            let joined = join_strings(&self.models, ", ");
            append_str(&mut v, joined.as_str());
        }
        append_str(&mut v, "\n\nPalette\n");
        append_str(&mut v, if self.palette_open { "open" } else { "closed" });
        append_str(&mut v, "\n\nHelp\n");
        append_str(&mut v, if self.help_open { "open" } else { "closed" });
        string_of(&v)
    }

    /// The resources card. `core_lines` are the host's rendered CPU sample
    /// lines, one per core.
    pub fn resource_detail(&self, core_lines: &Vec<String>) -> (r: String)
        ensures
            r@ == resource_text(*self, strs(core_lines@)),
    {
        let mut v: Vec<char> = Vec::new();
        append_str(&mut v, "Reserved cores: 0, 1 (app)\nJob Object kill-on-close is armed.\n\n");
        if core_lines.len() == 0 {
            append_str(&mut v, "Core samples: (waiting)\n");
        } else {
            let ghost base = v@;
            let mut i: usize = 0;
            while i < core_lines.len()
                invariant
                    i <= core_lines@.len(),
                    v@ == base + concat_all(with_newlines(strs(core_lines@.take(i as int)))),
                decreases core_lines@.len() - i,
            {
                proof {
                    assert(with_newlines(strs(core_lines@.take(i + 1))).drop_last() =~= with_newlines(
                        strs(core_lines@.take(i as int)),
                    ));
                }
                append_str(&mut v, core_lines[i].as_str());
                append_str(&mut v, "\n");
                i = i + 1;
            }
            assert(core_lines@.take(core_lines@.len() as int) =~= core_lines@);
        }
        append_str(&mut v, "\nWorktrees\n");
        self.push_listed(&mut v, &self.worktrees, "(none listed)");
        append_str(&mut v, "\n\nFiles\n");
        self.push_listed(&mut v, &self.files, "(none listed)");
        string_of(&v)
    }

    fn push_listed(&self, v: &mut Vec<char>, items: &Vec<String>, empty: &str)
        ensures
            final(v)@ == old(v)@ + listed(strs(items@), empty@),
    {
        if items.len() == 0 {
            append_str(v, empty);
        } else {
            let joined = join_strings(items, "\n");
            append_str(v, joined.as_str());
        }
    }

    /// The MCP card: one entry per configured server.
    pub fn mcp_detail(&self) -> (r: String)
        ensures
            r@ == mcp_text(self.mcp@),
    {
        if self.mcp.len() == 0 {
            return "No MCP servers in ~/.grok/config.toml\nReuse/teardown still applies when they start.".to_owned();
        }
        let mut lines: Vec<Vec<char>> = Vec::new();
        let mut i: usize = 0;
        while i < self.mcp.len()
            invariant
                i <= self.mcp@.len(),
                views(lines@) == self.mcp@.take(i as int).map_values(|m: McpRow| mcp_line(m)),
            decreases self.mcp@.len() - i,
        {
            let m = &self.mcp[i];
            let mut l: Vec<char> = Vec::new();
            append_str(&mut l, m.name.as_str());
            append_str(&mut l, "  [");
            append_str(&mut l, m.transport.as_str());
            append_str(&mut l, "]  ");
            append_str(&mut l, m.state.label());
            append_str(&mut l, "\n  ");
            append_str(&mut l, m.command.as_str());
            proof {
                lemma_views_push(lines@, l);
                assert(self.mcp@.take(i + 1).map_values(|m: McpRow| mcp_line(m)) =~= self.mcp@.take(
                    i as int,
                ).map_values(|m: McpRow| mcp_line(m)).push(mcp_line(self.mcp@[i as int])));
            }
            lines.push(l);
            i = i + 1;
        }
        assert(self.mcp@.take(self.mcp@.len() as int) =~= self.mcp@);
        string_of(&join_vecs(&lines, &chars_of("\n")))
    }

    /// The checkpoints card; the selected one is starred.
    pub fn checkpoint_detail(&self) -> (r: String)
        ensures
            r@ == checkpoint_text(self.checkpoints@, self.selected_checkpoint),
    {
        if self.checkpoints.len() == 0 {
            return "No checkpoints yet. A start checkpoint is created with the session runtime.".to_owned();
        }
        let ghost sel = self.selected_checkpoint;
        let mut lines: Vec<Vec<char>> = Vec::new();
        let mut i: usize = 0;
        while i < self.checkpoints.len()
            invariant
                i <= self.checkpoints@.len(),
                sel == self.selected_checkpoint,
                views(lines@) == self.checkpoints@.take(i as int).map_values(
                    |c: CheckpointRow| checkpoint_line(c, sel),
                ),
            decreases self.checkpoints@.len() - i,
        {
            let c = &self.checkpoints[i];
            let hit = match &self.selected_checkpoint {
                Some(s) => *s == c.id,
                None => false,
            };
            let mut l: Vec<char> = Vec::new();
            append_str(&mut l, if hit { "*" } else { " " });
            append_str(&mut l, " ");
            append_str(&mut l, c.id.as_str());
            append_str(&mut l, "  ");
            append_str(&mut l, c.label.as_str());
            proof {
                lemma_views_push(lines@, l);
                assert(self.checkpoints@.take(i + 1).map_values(
                    |c: CheckpointRow| checkpoint_line(c, sel),
                ) =~= self.checkpoints@.take(i as int).map_values(
                    |c: CheckpointRow| checkpoint_line(c, sel),
                ).push(checkpoint_line(self.checkpoints@[i as int], sel)));
            }
            lines.push(l);
            i = i + 1;
        }
        assert(self.checkpoints@.take(self.checkpoints@.len() as int) =~= self.checkpoints@);
        string_of(&join_vecs(&lines, &chars_of("\n")))
    }

    /// The git card: worktrees (the selected one starred) and status.
    pub fn git_detail(&self) -> (r: String)
        ensures
            r@ == git_text(*self),
    {
        let mut v: Vec<char> = Vec::new();
        append_str(&mut v, "Worktrees\n");
        if self.worktrees.len() == 0 {
            append_str(&mut v, "(none listed)");
        } else {
            let ghost base = v@;
            let ghost wts = strs(self.worktrees@);
            let mut i: usize = 0;
            while i < self.worktrees.len()
                invariant
                    i <= self.worktrees@.len(),
                    wts == strs(self.worktrees@),
                    v@ == base + concat_all(
                        worktree_lines(wts, self.selected_worktree).take(i as int),
                    ),
                decreases self.worktrees@.len() - i,
            {
                proof {
                    assert(worktree_lines(wts, self.selected_worktree).take(i + 1).drop_last()
                        =~= worktree_lines(wts, self.selected_worktree).take(i as int));
                }
                let hit = match self.selected_worktree {
                    Some(k) => k == i,
                    None => false,
                };
                append_str(&mut v, if hit { "*" } else { " " });
                append_str(&mut v, " ");
                append_str(&mut v, self.worktrees[i].as_str());
                append_str(&mut v, "\n");
                i = i + 1;
            }
            assert(worktree_lines(wts, self.selected_worktree).take(wts.len() as int)
                =~= worktree_lines(wts, self.selected_worktree));
        }
        append_str(&mut v, "\n\nStatus\n");
        if chars_of(self.git_status.as_str()).len() == 0 {
            append_str(&mut v, "(none)");
        } else {
            append_str(&mut v, self.git_status.as_str());
        }
        string_of(&v)
    }

    /// The terminal card: the log and the draft.
    pub fn terminal_detail(&self) -> (r: String)
        ensures
            r@ == terminal_text(*self),
    {
        let mut v: Vec<char> = Vec::new();
        append_str(&mut v, "Log\n");
        self.push_listed(&mut v, &self.terminal_log, "(empty)");
        append_str(&mut v, "\n\nDraft\n");
        append_str(&mut v, self.term_draft.as_str());
        string_of(&v)
    }

    pub fn skills_detail(&self) -> (r: String)
        ensures
            r@ == listed(strs(self.skills@), "No skills found under .grok/skills"@),
    {
        let mut v: Vec<char> = Vec::new();
        self.push_listed(&mut v, &self.skills, "No skills found under .grok/skills");
        assert(v@ =~= listed(strs(self.skills@), "No skills found under .grok/skills"@));
        string_of(&v)
    }

    pub fn files_detail(&self) -> (r: String)
        ensures
            r@ == listed(strs(self.files@), "No project files listed."@),
    {
        let mut v: Vec<char> = Vec::new();
        self.push_listed(&mut v, &self.files, "No project files listed.");
        assert(v@ =~= listed(strs(self.files@), "No project files listed."@));
        string_of(&v)
    }

    pub fn activity_detail(&self) -> (r: String)
        ensures
            r@ == listed(strs(self.terminal_log@), "No activity yet."@),
    {
        let mut v: Vec<char> = Vec::new();
        self.push_listed(&mut v, &self.terminal_log, "No activity yet.");
        assert(v@ =~= listed(strs(self.terminal_log@), "No activity yet."@));
        string_of(&v)
    }

    /// Shows `section` in the left rail; false when it already was.
    pub fn select_left_section(&mut self, section: LeftSection) -> (r: bool)
        ensures
            r == (old(self).left_section != section),
            *final(self) == (Workspace { left_section: section, ..*old(self) }),
    {
        if self.left_section == section {
            false
        } else {
            self.left_section = section;
            true
        }
    }

    /// Opens or closes the bottom drawer.
    pub fn toggle_bottom(&mut self)
        ensures
            *final(self) == (Workspace { bottom_open: !old(self).bottom_open, ..*old(self) }),
    {
        self.bottom_open = !self.bottom_open;
    }

    /// Expands the inspector row `id`, or collapses it when it is the expanded one.
    pub fn toggle_right_row(&mut self, id: &str)
        ensures
            is_selected_id(old(self).right_expanded_id, id@) ==> final(self).right_expanded_id is None,
            !is_selected_id(old(self).right_expanded_id, id@) ==> is_selected_id(
                final(self).right_expanded_id,
                id@,
            ),
            *final(self) == (Workspace {
                right_expanded_id: final(self).right_expanded_id,
                ..*old(self)
            }),
    {
        let same = match &self.right_expanded_id {
            Some(e) => eq_str(&chars_of(e.as_str()), id),
            None => false,
        };
        if same {
            self.right_expanded_id = None;
        } else {
            self.right_expanded_id = Some(id.to_owned());
        }
    }

    pub fn collapse_right_row(&mut self)
        ensures
            *final(self) == (Workspace { right_expanded_id: None, ..*old(self) }),
    {
        self.right_expanded_id = None;
    }

    /// Shows inspector `tab`, collapsing any expanded row; false when already shown.
    pub fn select_inspector(&mut self, tab: InspectorTab) -> (r: bool)
        ensures
            r == (old(self).inspector != tab),
            *final(self) == (if r {
                Workspace { inspector: tab, right_expanded_id: None, ..*old(self) }
            } else {
                *old(self)
            }),
    {
        if self.inspector == tab {
            false
        } else {
            self.inspector = tab;
            self.right_expanded_id = None;
            true
        }
    }

    fn set_mcp_state(&mut self, name: &str, state: McpLife) -> (r: bool)
        ensures
            r == (mcp_set(old(self).mcp@, name@, state) is Some),
            r ==> Some(final(self).mcp@) == mcp_set(old(self).mcp@, name@, state),
            *final(self) == (Workspace { mcp: final(self).mcp, ..*old(self) }),
            !r ==> final(self).mcp == old(self).mcp,
    {
        let mut k: usize = 0;
        while k < self.mcp.len()
            invariant
                k <= self.mcp@.len(),
                mcp_index(self.mcp@, name@, 0) == mcp_index(self.mcp@, name@, k as int),
            ensures
                k <= self.mcp@.len(),
                mcp_index(self.mcp@, name@, 0) == k,
            decreases self.mcp@.len() - k,
        {
            if eq_str(&chars_of(self.mcp[k].name.as_str()), name) {
                break;
            }
            k = k + 1;
        }
        if k == self.mcp.len() {
            return false;
        }
        let mut row = self.mcp.remove(k);
        row.state = state;
        self.mcp.insert(k, row);
        assert(self.mcp@ =~= old(self).mcp@.update(k as int, McpRow { state, ..old(self).mcp@[k as int] }));
        true
    }

    /// Marks the server `name` ready; false when none is configured.
    pub fn start_mcp(&mut self, name: &str) -> (r: bool)
        ensures
            r == (mcp_set(old(self).mcp@, name@, McpLife::Ready) is Some),
            r ==> Some(final(self).mcp@) == mcp_set(old(self).mcp@, name@, McpLife::Ready),
            !r ==> *final(self) == *old(self),
            *final(self) == (Workspace { mcp: final(self).mcp, ..*old(self) }),
    {
        self.set_mcp_state(name, McpLife::Ready)
    }

    /// Marks the server `name` stopped; false when none is configured.
    pub fn stop_mcp(&mut self, name: &str) -> (r: bool)
        ensures
            r == (mcp_set(old(self).mcp@, name@, McpLife::Stopped) is Some),
            r ==> Some(final(self).mcp@) == mcp_set(old(self).mcp@, name@, McpLife::Stopped),
            !r ==> *final(self) == *old(self),
            *final(self) == (Workspace { mcp: final(self).mcp, ..*old(self) }),
    {
        self.set_mcp_state(name, McpLife::Stopped)
    }

    /// Selects `path` when it is one of the listed files.
    pub fn select_file(&mut self, path: &str) -> (r: bool)
        ensures
            r == strs(old(self).files@).contains(path@),
            !r ==> *final(self) == *old(self),
            r ==> (final(self).selected_file matches Some(f) && f@ == path@),
            *final(self) == (Workspace { selected_file: final(self).selected_file, ..*old(self) }),
    {
        let ghost fs = strs(self.files@);
        let mut i: usize = 0;
        while i < self.files.len()
            invariant
                *self == *old(self),
                i <= self.files@.len(),
                fs == strs(self.files@),
                forall|k: int| 0 <= k < i ==> fs[k] != path@,
            decreases self.files@.len() - i,
        {
            assert(fs[i as int] == self.files@[i as int]@);
            if eq_str(&chars_of(self.files[i].as_str()), path) {
                assert(fs[i as int] == path@);
                self.selected_file = Some(path.to_owned());
                return true;
            }
            i = i + 1;
        }
        assert(!fs.contains(path@));
        false
    }

    /// Writes `` `@path` `` for the selected file at the cursor.
    pub fn insert_file_mention(&mut self) -> (r: bool)
        requires
            old(self).selected_file matches Some(p) ==> old(self).draft@.len() + p@.len() + 5
                <= usize::MAX,
        ensures
            r == (old(self).selected_file is Some),
            !r ==> *final(self) == *old(self),
            r ==> ({
                let p = old(self).selected_file->Some_0@;
                let k = clamp(old(self).draft@, old(self).cursor as int);
                &&& final(self).draft@ == old(self).draft@.take(k) + mention_of(p) + old(
                    self,
                ).draft@.skip(k)
                &&& *final(self) == (Workspace {
                    draft: final(self).draft,
                    cursor: (k + mention_of(p).len()) as usize,
                    ..*old(self)
                })
            }),
    {
        match &self.selected_file {
            None => false,
            Some(path) => {
                let mut m: Vec<char> = Vec::new();
                append_str(&mut m, " `@");
                append_str(&mut m, path.as_str());
                append_str(&mut m, "` ");
                proof {
                    reveal_strlit(" `@");
                    reveal_strlit("` ");
                    assert(" `@"@.len() == 3);
                    assert("` "@.len() == 2);
                }
                let mention = string_of(&m);
                self.cursor = insert_at(&mut self.draft, self.cursor, mention.as_str());
                true
            },
        }
    }

    /// Queues a toast notice.
    pub fn push_notice(&mut self, kind: NoticeKind, text: String)
        requires
            old(self).next_notice < u64::MAX,
        ensures
            notice_views(final(self).notices@) == capped(
                notice_views(old(self).notices@).push(
                    NoticeV { id: old(self).next_notice, kind, text: text@ },
                ),
            ),
            *final(self) == (Workspace {
                notices: final(self).notices,
                next_notice: (old(self).next_notice + 1) as u64,
                ..*old(self)
            }),
    {
        push_notice(&mut self.notices, &mut self.next_notice, kind, text);
    }

    /// `(id, title, status, message count)` of each thread, in order.
    pub fn agent_rows(&self) -> (r: Vec<(String, String, String, usize)>)
        ensures
            r@.len() == self.threads@.len(),
            forall|i: int|
                0 <= i < r@.len() ==> {
                    &&& (#[trigger] r@[i]).0@ == self.threads@[i].id@
                    &&& r@[i].1@ == self.threads@[i].title@
                    &&& r@[i].2@ == self.threads@[i].status@
                    &&& r@[i].3 == self.threads@[i].messages@.len()
                },
    {
        let mut r: Vec<(String, String, String, usize)> = Vec::new();
        let mut i: usize = 0;
        while i < self.threads.len()
            invariant
                i <= self.threads@.len(),
                r@.len() == i,
                forall|k: int|
                    0 <= k < i ==> {
                        &&& (#[trigger] r@[k]).0@ == self.threads@[k].id@
                        &&& r@[k].1@ == self.threads@[k].title@
                        &&& r@[k].2@ == self.threads@[k].status@
                        &&& r@[k].3 == self.threads@[k].messages@.len()
                    },
            decreases self.threads@.len() - i,
        {
            let t = &self.threads[i];
            r.push((t.id.clone(), t.title.clone(), t.status.clone(), t.messages.len()));
            i = i + 1;
        }
        r
    }

    /// The agents card: one line per local thread.
    pub fn agents_detail(&self) -> (r: String)
        ensures
            r@ == agents_text(self.threads@),
    {
        let mut v: Vec<char> = Vec::new();
        append_str(&mut v, "Local threads only. Subagent spawn is not wired.\n\n");
        let ghost base = v@;
        let rows = self.agent_rows();
        let mut i: usize = 0;
        while i < rows.len()
            invariant
                i <= rows@.len(),
                rows@.len() == self.threads@.len(),
                forall|k: int|
                    0 <= k < rows@.len() ==> {
                        &&& (#[trigger] rows@[k]).0@ == self.threads@[k].id@
                        &&& rows@[k].1@ == self.threads@[k].title@
                        &&& rows@[k].2@ == self.threads@[k].status@
                        &&& rows@[k].3 == self.threads@[k].messages@.len()
                    },
                v@ == base + concat_all(
                    self.threads@.take(i as int).map_values(|t: Thread| agent_line(t)),
                ),
            decreases rows@.len() - i,
        {
            proof {
                assert(self.threads@.take(i + 1).map_values(|t: Thread| agent_line(t)).drop_last()
                    =~= self.threads@.take(i as int).map_values(|t: Thread| agent_line(t)));
            }
            let row = &rows[i];
            assert(rows@[i as int].0@ == self.threads@[i as int].id@);
            append_str(&mut v, row.1.as_str());
            append_str(&mut v, "  [");
            append_str(&mut v, row.2.as_str());
            append_str(&mut v, "]  ");
            append_str(&mut v, row.0.as_str());
            append_str(&mut v, "  ");
            push_dec(&mut v, row.3 as u64);
            append_str(&mut v, " msgs\n");
            i = i + 1;
        }
        assert(self.threads@.take(self.threads@.len() as int) =~= self.threads@);
        string_of(&v)
    }
}

} // verus!
