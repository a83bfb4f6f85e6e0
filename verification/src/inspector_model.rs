//! Inspector tabs as expandable list rows, not text dumps.

use vstd::prelude::*;
use crate::connection::{status_text, ConnectionState};
use crate::icons::{brand_of, brand_slug, glyph_mark, BrandIcon, ChromeGlyph};
use crate::text::{append_str, chars_of, dec, lines_of, lines_s, push_dec, string_of, strs, views};
use crate::widgets::{BadgeSpec, ListRowSpec, Tone};
use crate::workspace::{
    is_selected_id, mcp_label, CheckpointRow, InspectorTab, McpLife, McpRow, Thread, Workspace,
};

verus! {

/// One logical CPU sample as the Resources tab lists it. The host samples
/// the load and renders it: `load` as a percentage, `bar` as a usage bar.
#[derive(Debug, Clone, PartialEq, Eq)]
pub struct CoreSample {
    pub index: usize,
    pub load: String,
    pub bar: String,
    pub reserved: bool,
}

/// What a list row shows, as plain values.
pub struct RowV {
    pub id: Seq<char>,
    pub icon: Seq<char>,
    pub title: Seq<char>,
    pub subtitle: Seq<char>,
    pub meta: Seq<char>,
    pub badge: Option<(Tone, Seq<char>)>,
    pub selected: bool,
    pub busy: bool,
    pub expandable: bool,
    pub expanded: bool,
    pub children_count: usize,
}

pub open spec fn row_view(r: ListRowSpec) -> RowV {
    RowV {
        id: r.id@,
        icon: r.icon@,
        title: r.title@,
        subtitle: r.subtitle@,
        meta: r.meta@,
        badge: match r.badge {
            Some(b) => Some((b.tone, b.text@)),
            None => None,
        },
        selected: r.selected,
        busy: r.busy,
        expandable: r.expandable,
        expanded: r.expanded,
        children_count: r.children_count,
    }
}

pub open spec fn row_views(v: Seq<ListRowSpec>) -> Seq<RowV> {
    v.map_values(|r: ListRowSpec| row_view(r))
}

proof fn lemma_row_views_push(v: Seq<ListRowSpec>, x: ListRowSpec)
    ensures
        row_views(v.push(x)) == row_views(v).push(row_view(x)),
{
    assert(row_views(v.push(x)) =~= row_views(v).push(row_view(x)));
}

/// An idle, expandable row without children.
pub open spec fn row_of(
    id: Seq<char>,
    title: Seq<char>,
    icon: Seq<char>,
    subtitle: Seq<char>,
    meta: Seq<char>,
    badge: Option<(Tone, Seq<char>)>,
    selected: bool,
    expanded: bool,
) -> RowV {
    RowV {
        id,
        icon,
        title,
        subtitle,
        meta,
        badge,
        selected,
        busy: false,
        expandable: true,
        expanded,
        children_count: 0,
    }
}

/// The placeholder row of an empty tab (never expanded).
pub open spec fn empty_row(id: Seq<char>, title: Seq<char>, g: ChromeGlyph, subtitle: Seq<char>) -> RowV {
    row_of(id, title, glyph_mark(g), subtitle, Seq::empty(), None, false, false)
}

/// The row `id` is the one the workspace has expanded.
pub open spec fn exp(ws: Workspace, id: Seq<char>) -> bool {
    is_selected_id(ws.right_expanded_id, id)
}

pub open spec fn session_id_text(c: ConnectionState) -> Seq<char> {
    match c {
        ConnectionState::Connected { session_ids } => if session_ids@.len() > 0 {
            session_ids@[0]@
        } else {
            "(none)"@
        },
        _ => "(none yet)"@,
    }
}

pub open spec fn session_rows_s(ws: Workspace) -> Seq<RowV> {
    let e = Seq::<char>::empty();
    seq![
        row_of("session:project"@, "Project"@, glyph_mark(ChromeGlyph::Folder), ws.project@, e, None, false, exp(ws, "session:project"@)),
        row_of("session:model"@, "Model"@, glyph_mark(ChromeGlyph::Sparkle), ws.model@, e, Some((Tone::Accent, ws.model@)), false, exp(ws, "session:model"@)),
        row_of("session:connection"@, "Connection"@, glyph_mark(ChromeGlyph::Activity), status_text(ws.connection), e, None, false, exp(ws, "session:connection"@)),
        row_of("session:id"@, "Session"@, glyph_mark(ChromeGlyph::Agent), session_id_text(ws.connection), e, None, false, exp(ws, "session:id"@)),
        row_of("session:threads"@, "Threads"@, glyph_mark(ChromeGlyph::Chat), e, dec(ws.threads@.len()), None, false, exp(ws, "session:threads"@)),
    ]
}

pub open spec fn core_row_s(ws: Workspace, c: CoreSample) -> RowV {
    row_of(
        "core:"@ + dec(c.index as nat),
        "cpu"@ + dec(c.index as nat),
        glyph_mark(ChromeGlyph::Cpu),
        c.load@,
        c.bar@,
        if c.reserved {
            Some((Tone::Accent, "reserved"@))
        } else {
            None
        },
        false,
        exp(ws, "core:"@ + dec(c.index as nat)),
    )
}

pub open spec fn core_rows_s(ws: Workspace, cores: Seq<CoreSample>) -> Seq<RowV> {
    if cores.len() == 0 {
        seq![empty_row("core:empty"@, "No core samples"@, ChromeGlyph::Cpu, Seq::empty())]
    } else {
        cores.map_values(|c: CoreSample| core_row_s(ws, c))
    }
}

/// The server's brand icon (by name, then by command), else the plug glyph.
pub open spec fn mcp_icon(m: McpRow) -> Seq<char> {
    match brand_of(m.name@) {
        Some(b) => brand_slug(b),
        None => match brand_of(m.command@) {
            Some(b) => brand_slug(b),
            None => glyph_mark(ChromeGlyph::Plug),
        },
    }
}

pub open spec fn mcp_tone(s: McpLife) -> Tone {
    match s {
        McpLife::Ready => Tone::Good,
        McpLife::Crashed | McpLife::Failed => Tone::Danger,
        McpLife::Stopped => Tone::Neutral,
    }
}

pub open spec fn mcp_row_s(ws: Workspace, m: McpRow) -> RowV {
    row_of(
        "mcp:"@ + m.name@,
        m.name@,
        mcp_icon(m),
        m.command@,
        Seq::empty(),
        Some((mcp_tone(m.state), mcp_label(m.state))),
        false,
        exp(ws, "mcp:"@ + m.name@),
    )
}

pub open spec fn mcp_rows_s(ws: Workspace) -> Seq<RowV> {
    if ws.mcp@.len() == 0 {
        seq![empty_row("mcp:empty"@, "No MCP servers"@, ChromeGlyph::Plug, "~/.grok/config.toml"@)]
    } else {
        ws.mcp@.map_values(|m: McpRow| mcp_row_s(ws, m))
    }
}

pub open spec fn checkpoint_row_s(ws: Workspace, c: CheckpointRow) -> RowV {
    row_of(
        "point:"@ + c.id@,
        c.label@,
        glyph_mark(ChromeGlyph::Flag),
        c.id@,
        Seq::empty(),
        None,
        is_selected_id(ws.selected_checkpoint, c.id@),
        exp(ws, "point:"@ + c.id@),
    )
}

pub open spec fn checkpoint_rows_s(ws: Workspace) -> Seq<RowV> {
    if ws.checkpoints@.len() == 0 {
        seq![empty_row("point:empty"@, "No checkpoints"@, ChromeGlyph::Flag, Seq::empty())]
    } else {
        ws.checkpoints@.map_values(|c: CheckpointRow| checkpoint_row_s(ws, c))
    }
}

/// The first line of `s`, or nothing.
pub open spec fn first_line(s: Seq<char>) -> Seq<char> {
    if lines_s(s).len() > 0 {
        lines_s(s)[0]
    } else {
        Seq::empty()
    }
}

pub open spec fn worktree_row_s(ws: Workspace, i: int) -> RowV {
    row_of(
        "git:wt:"@ + dec(i as nat),
        ws.worktrees@[i]@,
        glyph_mark(ChromeGlyph::Git),
        Seq::empty(),
        Seq::empty(),
        None,
        ws.selected_worktree == Some(i as usize),
        exp(ws, "git:wt:"@ + dec(i as nat)),
    )
}

pub open spec fn git_listed_s(ws: Workspace) -> Seq<RowV> {
    let wts = Seq::new(ws.worktrees@.len(), |i: int| worktree_row_s(ws, i));
    if ws.git_status@.len() > 0 {
        wts.push(
            row_of(
                "git:status"@,
                "git status"@,
                glyph_mark(ChromeGlyph::Diff),
                first_line(ws.git_status@),
                Seq::empty(),
                None,
                false,
                exp(ws, "git:status"@),
            ),
        )
    } else {
        wts
    }
}

pub open spec fn git_rows_s(ws: Workspace) -> Seq<RowV> {
    if git_listed_s(ws).len() == 0 {
        seq![empty_row("git:empty"@, "No worktrees"@, ChromeGlyph::Git, Seq::empty())]
    } else {
        git_listed_s(ws)
    }
}

/// The newest `k` lines of the log, newest first, as rows `<prefix><index>`.
pub open spec fn log_rows_s(ws: Workspace, prefix: Seq<char>, g: ChromeGlyph, k: int) -> Seq<RowV> {
    let n = ws.terminal_log@.len() as int;
    let m = if n < k {
        n
    } else {
        k
    };
    Seq::new(
        m as nat,
        |j: int|
            row_of(
                prefix + dec((n - 1 - j) as nat),
                ws.terminal_log@[n - 1 - j]@,
                glyph_mark(g),
                Seq::empty(),
                Seq::empty(),
                None,
                false,
                exp(ws, prefix + dec((n - 1 - j) as nat)),
            ),
    )
}

pub open spec fn term_rows_s(ws: Workspace) -> Seq<RowV> {
    seq![
        row_of(
            "term:draft"@,
            "Draft"@,
            glyph_mark(ChromeGlyph::Terminal),
            if ws.term_draft@.len() == 0 {
                "(empty)"@
            } else {
                ws.term_draft@
            },
            Seq::empty(),
            None,
            false,
            exp(ws, "term:draft"@),
        ),
    ] + log_rows_s(ws, "term:"@, ChromeGlyph::Terminal, 12)
}

pub open spec fn skill_rows_s(ws: Workspace) -> Seq<RowV> {
    if ws.skills@.len() == 0 {
        seq![empty_row("skill:empty"@, "No skills"@, ChromeGlyph::Sparkle, ".grok/skills"@)]
    } else {
        strs(ws.skills@).map_values(
            |s: Seq<char>|
                row_of(
                    "skill:"@ + s,
                    s,
                    glyph_mark(ChromeGlyph::Sparkle),
                    Seq::empty(),
                    Seq::empty(),
                    None,
                    false,
                    exp(ws, "skill:"@ + s),
                ),
        )
    }
}

pub open spec fn file_rows_s(ws: Workspace) -> Seq<RowV> {
    if ws.files@.len() == 0 {
        seq![empty_row("file:empty"@, "No files"@, ChromeGlyph::Folder, Seq::empty())]
    } else {
        strs(ws.files@).map_values(
            |p: Seq<char>|
                row_of(
                    "file:"@ + p,
                    p,
                    if p.len() > 0 && p.last() == '/' {
                        glyph_mark(ChromeGlyph::Folder)
                    } else {
                        glyph_mark(ChromeGlyph::Diff)
                    },
                    Seq::empty(),
                    Seq::empty(),
                    None,
                    false,
                    exp(ws, "file:"@ + p),
                ),
        )
    }
}

pub open spec fn activity_rows_s(ws: Workspace) -> Seq<RowV> {
    if ws.terminal_log@.len() == 0 {
        seq![empty_row("act:empty"@, "No activity"@, ChromeGlyph::Activity, Seq::empty())]
    } else {
        seq![
            row_of(
                "act:status"@,
                if ws.busy {
                    "running"@
                } else {
                    "idle"@
                },
                glyph_mark(ChromeGlyph::Activity),
                Seq::empty(),
                Seq::empty(),
                Some(
                    if ws.busy {
                        (Tone::Warn, "busy"@)
                    } else {
                        (Tone::Good, "idle"@)
                    },
                ),
                false,
                exp(ws, "act:status"@),
            ),
        ] + log_rows_s(ws, "act:"@, ChromeGlyph::Activity, 16)
    }
}

pub open spec fn agent_row_s(ws: Workspace, i: int) -> RowV {
    let t = ws.threads@[i];
    row_of(
        "agent:"@ + t.id@,
        t.title@,
        glyph_mark(ChromeGlyph::Agent),
        t.status@,
        dec(t.messages@.len()) + " msgs"@,
        None,
        i == ws.selected,
        exp(ws, "agent:"@ + t.id@),
    )
}

pub open spec fn agent_rows_s(ws: Workspace) -> Seq<RowV> {
    if ws.threads@.len() == 0 {
        seq![empty_row("agent:empty"@, "No local threads"@, ChromeGlyph::Agent, Seq::empty())]
    } else {
        Seq::new(ws.threads@.len(), |i: int| agent_row_s(ws, i))
    }
}

/// The rows of the active tab. The Diff and Browser tabs draw their own
/// views and list no rows.
pub open spec fn inspector_rows_s(ws: Workspace, cores: Seq<CoreSample>) -> Seq<RowV> {
    match ws.inspector {
        InspectorTab::Session => session_rows_s(ws),
        InspectorTab::Resources => core_rows_s(ws, cores),
        InspectorTab::Mcp => mcp_rows_s(ws),
        InspectorTab::Checkpoints => checkpoint_rows_s(ws),
        InspectorTab::Git => git_rows_s(ws),
        InspectorTab::Terminal => term_rows_s(ws),
        InspectorTab::Skills => skill_rows_s(ws),
        InspectorTab::Files => file_rows_s(ws),
        InspectorTab::Activity => activity_rows_s(ws),
        InspectorTab::Agents => agent_rows_s(ws),
        InspectorTab::Diff | InspectorTab::Browser => Seq::empty(),
    }
}

/// Rows for the active inspector tab; `cores` are the host's CPU samples.
pub fn inspector_rows(ws: &Workspace, cores: &Vec<CoreSample>) -> (r: Vec<ListRowSpec>)
    ensures
        row_views(r@) == inspector_rows_s(*ws, cores@),
{
    match ws.inspector {
        InspectorTab::Session => session_rows(ws),
        InspectorTab::Resources => core_rows(ws, cores),
        InspectorTab::Mcp => mcp_rows(ws),
        InspectorTab::Checkpoints => checkpoint_rows(ws),
        InspectorTab::Git => git_rows(ws),
        InspectorTab::Terminal => term_rows(ws),
        InspectorTab::Skills => skill_rows(ws),
        InspectorTab::Files => file_rows(ws),
        InspectorTab::Activity => activity_rows(ws),
        InspectorTab::Agents => agent_rows(ws),
        InspectorTab::Diff | InspectorTab::Browser => {
            let r: Vec<ListRowSpec> = Vec::new();
            assert(row_views(r@) =~= Seq::<RowV>::empty());
            r
        },
    }
}

fn mark_expanded(row: ListRowSpec, ws: &Workspace) -> (r: ListRowSpec)
    ensures
        r == (ListRowSpec { expanded: exp(*ws, row.id@), ..row }),
{
    let hit = match &ws.right_expanded_id {
        Some(e) => *e == row.id,
        None => false,
    };
    let mut row = row;
    row.expanded = hit;
    row
}

/// A fresh row `id`/`title` with glyph `icon`, not yet marked.
fn glyph_row(id: &Vec<char>, title: &str, g: ChromeGlyph) -> (r: ListRowSpec)
    ensures
        row_view(r) == row_of(id@, title@, glyph_mark(g), Seq::empty(), Seq::empty(), None, false, false),
{
    ListRowSpec::new(string_of(id).as_str(), title).with_icon(g.mark())
}

fn one_row(row: ListRowSpec) -> (r: Vec<ListRowSpec>)
    ensures
        row_views(r@) == seq![row_view(row)],
{
    let mut v: Vec<ListRowSpec> = Vec::new();
    v.push(row);
    assert(row_views(v@) =~= seq![row_view(row)]);
    v
}

fn lit(s: &str) -> (v: Vec<char>)
    ensures
        v@ == s@,
{
    chars_of(s)
}

fn prefixed(p: &str, s: &str) -> (v: Vec<char>)
    ensures
        v@ == p@ + s@,
{
    let mut v = chars_of(p);
    append_str(&mut v, s);
    v
}

fn prefixed_dec(p: &str, n: usize) -> (v: Vec<char>)
    ensures
        v@ == p@ + dec(n as nat),
{
    let mut v = chars_of(p);
    push_dec(&mut v, n as u64);
    v
}

fn session_rows(ws: &Workspace) -> (r: Vec<ListRowSpec>)
    ensures
        row_views(r@) == session_rows_s(*ws),
{
    let sid: String = match &ws.connection {
        ConnectionState::Connected { session_ids } => if session_ids.len() > 0 {
            session_ids[0].clone()
        } else {
            "(none)".to_owned()
        },
        _ => "(none yet)".to_owned(),
    };
    let mut r: Vec<ListRowSpec> = Vec::new();
    let a = glyph_row(&lit("session:project"), "Project", ChromeGlyph::Folder).with_subtitle(
        ws.project.as_str(),
    );
    r.push(mark_expanded(a, ws));
    let b = glyph_row(&lit("session:model"), "Model", ChromeGlyph::Sparkle).with_subtitle(
        ws.model.as_str(),
    ).with_badge(BadgeSpec::new(Tone::Accent, ws.model.as_str()));
    r.push(mark_expanded(b, ws));
    let c = glyph_row(&lit("session:connection"), "Connection", ChromeGlyph::Activity).with_subtitle(
        ws.connection.status_label(),
    );
    r.push(mark_expanded(c, ws));
    let d = glyph_row(&lit("session:id"), "Session", ChromeGlyph::Agent).with_subtitle(
        sid.as_str(),
    );
    r.push(mark_expanded(d, ws));
    let n = prefixed_dec("", ws.threads.len());
    let e = glyph_row(&lit("session:threads"), "Threads", ChromeGlyph::Chat).with_meta(
        string_of(&n).as_str(),
    );
    r.push(mark_expanded(e, ws));
    proof {
        reveal_strlit("");
        assert(""@ + dec(ws.threads@.len()) =~= dec(ws.threads@.len()));
    }
    assert(row_views(r@) =~= session_rows_s(*ws));
    r
}

fn core_rows(ws: &Workspace, cores: &Vec<CoreSample>) -> (r: Vec<ListRowSpec>)
    ensures
        row_views(r@) == core_rows_s(*ws, cores@),
{
    if cores.len() == 0 {
        return one_row(glyph_row(&lit("core:empty"), "No core samples", ChromeGlyph::Cpu));
    }
    let mut r: Vec<ListRowSpec> = Vec::new();
    let mut i: usize = 0;
    while i < cores.len()
        invariant
            i <= cores@.len(),
            row_views(r@) == cores@.take(i as int).map_values(|c: CoreSample| core_row_s(*ws, c)),
        decreases cores@.len() - i,
    {
        let c = &cores[i];
        let title = prefixed_dec("cpu", c.index);
        let mut row = glyph_row(&prefixed_dec("core:", c.index), string_of(&title).as_str(), ChromeGlyph::Cpu)
            .with_subtitle(c.load.as_str()).with_meta(c.bar.as_str());
        row.badge = if c.reserved {
            Some(BadgeSpec::new(Tone::Accent, "reserved"))
        } else {
            None
        };
        let row = mark_expanded(row, ws);
        assert(row_view(row) == core_row_s(*ws, cores@[i as int]));
        proof {
            lemma_row_views_push(r@, row);
        }
        r.push(row);
        assert(cores@.take(i + 1).map_values(|c: CoreSample| core_row_s(*ws, c)) =~= cores@.take(
            i as int,
        ).map_values(|c: CoreSample| core_row_s(*ws, c)).push(core_row_s(*ws, cores@[i as int])));
        i = i + 1;
    }
    assert(cores@.take(cores@.len() as int) =~= cores@);
    r
}

pub(crate) fn mcp_icon_of(m: &McpRow) -> (r: String)
    ensures
        r@ == mcp_icon(*m),
{
    match BrandIcon::from_name(m.name.as_str()) {
        Some(b) => b.slug().to_owned(),
        None => match BrandIcon::from_name(m.command.as_str()) {
            Some(b) => b.slug().to_owned(),
            None => ChromeGlyph::Plug.mark().to_owned(),
        },
    }
}

fn mcp_rows(ws: &Workspace) -> (r: Vec<ListRowSpec>)
    ensures
        row_views(r@) == mcp_rows_s(*ws),
{
    if ws.mcp.len() == 0 {
        return one_row(
            glyph_row(&lit("mcp:empty"), "No MCP servers", ChromeGlyph::Plug).with_subtitle(
                "~/.grok/config.toml",
            ),
        );
    }
    let mut r: Vec<ListRowSpec> = Vec::new();
    let mut i: usize = 0;
    while i < ws.mcp.len()
        invariant
            i <= ws.mcp@.len(),
            row_views(r@) == ws.mcp@.take(i as int).map_values(|m: McpRow| mcp_row_s(*ws, m)),
        decreases ws.mcp@.len() - i,
    {
        let m = &ws.mcp[i];
        let tone = match m.state {
            McpLife::Ready => Tone::Good,
            McpLife::Crashed | McpLife::Failed => Tone::Danger,
            McpLife::Stopped => Tone::Neutral,
        };
        let icon = mcp_icon_of(m);
        let row = ListRowSpec::new(string_of(&prefixed("mcp:", m.name.as_str())).as_str(), m.name.as_str())
            .with_icon(icon.as_str()).with_subtitle(m.command.as_str()).with_badge(
            BadgeSpec::new(tone, m.state.label()),
        );
        let row = mark_expanded(row, ws);
        assert(row_view(row) == mcp_row_s(*ws, ws.mcp@[i as int]));
        proof {
            lemma_row_views_push(r@, row);
        }
        r.push(row);
        assert(ws.mcp@.take(i + 1).map_values(|m: McpRow| mcp_row_s(*ws, m)) =~= ws.mcp@.take(
            i as int,
        ).map_values(|m: McpRow| mcp_row_s(*ws, m)).push(mcp_row_s(*ws, ws.mcp@[i as int])));
        i = i + 1;
    }
    assert(ws.mcp@.take(ws.mcp@.len() as int) =~= ws.mcp@);
    r
}

fn checkpoint_rows(ws: &Workspace) -> (r: Vec<ListRowSpec>)
    ensures
        row_views(r@) == checkpoint_rows_s(*ws),
{
    if ws.checkpoints.len() == 0 {
        return one_row(glyph_row(&lit("point:empty"), "No checkpoints", ChromeGlyph::Flag));
    }
    let mut r: Vec<ListRowSpec> = Vec::new();
    let mut i: usize = 0;
    while i < ws.checkpoints.len()
        invariant
            i <= ws.checkpoints@.len(),
            row_views(r@) == ws.checkpoints@.take(i as int).map_values(
                |c: CheckpointRow| checkpoint_row_s(*ws, c),
            ),
        decreases ws.checkpoints@.len() - i,
    {
        let c = &ws.checkpoints[i];
        let mut row = glyph_row(&prefixed("point:", c.id.as_str()), c.label.as_str(), ChromeGlyph::Flag)
            .with_subtitle(c.id.as_str());
        row.selected = match &ws.selected_checkpoint {
            Some(s) => *s == c.id,
            None => false,
        };
        let row = mark_expanded(row, ws);
        assert(row_view(row) == checkpoint_row_s(*ws, ws.checkpoints@[i as int]));
        proof {
            lemma_row_views_push(r@, row);
        }
        r.push(row);
        assert(ws.checkpoints@.take(i + 1).map_values(|c: CheckpointRow| checkpoint_row_s(*ws, c))
            =~= ws.checkpoints@.take(i as int).map_values(
            |c: CheckpointRow| checkpoint_row_s(*ws, c),
        ).push(checkpoint_row_s(*ws, ws.checkpoints@[i as int])));
        i = i + 1;
    }
    assert(ws.checkpoints@.take(ws.checkpoints@.len() as int) =~= ws.checkpoints@);
    r
}

fn git_rows(ws: &Workspace) -> (r: Vec<ListRowSpec>)
    ensures
        row_views(r@) == git_rows_s(*ws),
{
    let ghost wts = Seq::new(ws.worktrees@.len(), |i: int| worktree_row_s(*ws, i));
    let mut r: Vec<ListRowSpec> = Vec::new();
    let mut i: usize = 0;
    while i < ws.worktrees.len()
        invariant
            i <= ws.worktrees@.len(),
            wts == Seq::new(ws.worktrees@.len(), |i: int| worktree_row_s(*ws, i)),
            row_views(r@) == wts.take(i as int),
        decreases ws.worktrees@.len() - i,
    {
        let mut row = glyph_row(&prefixed_dec("git:wt:", i), ws.worktrees[i].as_str(), ChromeGlyph::Git);
        row.selected = match ws.selected_worktree {
            Some(k) => k == i,
            None => false,
        };
        let row = mark_expanded(row, ws);
        assert(row_view(row) == wts[i as int]);
        proof {
            lemma_row_views_push(r@, row);
        }
        r.push(row);
        assert(wts.take(i + 1) =~= wts.take(i as int).push(wts[i as int]));
        i = i + 1;
    }
    assert(wts.take(wts.len() as int) =~= wts);
    let status = chars_of(ws.git_status.as_str());
    if status.len() > 0 {
        let ls = lines_of(&status);
        let first: Vec<char> = if ls.len() > 0 {
            let mut f: Vec<char> = Vec::new();
            crate::text::append_vec(&mut f, &ls[0]);
            assert(views(ls@)[0] == ls@[0]@);
            f
        } else {
            Vec::new()
        };
        let row = glyph_row(&lit("git:status"), "git status", ChromeGlyph::Diff).with_subtitle(
            string_of(&first).as_str(),
        );
        r.push(mark_expanded(row, ws));
        assert(row_views(r@) =~= git_listed_s(*ws));
    } else {
        assert(row_views(r@) =~= git_listed_s(*ws));
    }
    if r.len() == 0 {
        r.push(glyph_row(&lit("git:empty"), "No worktrees", ChromeGlyph::Git));
        assert(row_views(r@) =~= git_rows_s(*ws));
    }
    r
}

/// The newest `k` log lines, newest first.
fn log_rows(ws: &Workspace, prefix: &str, g: ChromeGlyph, k: usize) -> (r: Vec<ListRowSpec>)
    ensures
        row_views(r@) == log_rows_s(*ws, prefix@, g, k as int),
{
    let n = ws.terminal_log.len();
    let m = if n < k {
        n
    } else {
        k
    };
    let ghost want = log_rows_s(*ws, prefix@, g, k as int);
    let mut r: Vec<ListRowSpec> = Vec::new();
    let mut j: usize = 0;
    while j < m
        invariant
            m <= n == ws.terminal_log@.len(),
            m == (if n < k { n } else { k }),
            j <= m,
            want == log_rows_s(*ws, prefix@, g, k as int),
            want.len() == m,
            row_views(r@) == want.take(j as int),
        decreases m - j,
    {
        let idx = n - 1 - j;
        let row = glyph_row(&prefixed_dec(prefix, idx), ws.terminal_log[idx].as_str(), g);
        let row = mark_expanded(row, ws);
        assert(row_view(row) == want[j as int]);
        proof {
            lemma_row_views_push(r@, row);
        }
        r.push(row);
        assert(want.take(j + 1) =~= want.take(j as int).push(want[j as int]));
        j = j + 1;
    }
    assert(want.take(m as int) =~= want);
    r
}

fn term_rows(ws: &Workspace) -> (r: Vec<ListRowSpec>)
    ensures
        row_views(r@) == term_rows_s(*ws),
{
    let draft_empty = chars_of(ws.term_draft.as_str()).len() == 0;
    let sub: &str = if draft_empty {
        "(empty)"
    } else {
        ws.term_draft.as_str()
    };
    let head = mark_expanded(
        glyph_row(&lit("term:draft"), "Draft", ChromeGlyph::Terminal).with_subtitle(sub),
        ws,
    );
    let tail = log_rows(ws, "term:", ChromeGlyph::Terminal, 12);
    let mut r = one_row(head);
    let mut t = tail;
    let ghost tv = row_views(t@);
    r.append(&mut t);
    assert(row_views(r@) =~= seq![row_view(head)] + tv);
    r
}

fn skill_rows(ws: &Workspace) -> (r: Vec<ListRowSpec>)
    ensures
        row_views(r@) == skill_rows_s(*ws),
{
    if ws.skills.len() == 0 {
        return one_row(
            glyph_row(&lit("skill:empty"), "No skills", ChromeGlyph::Sparkle).with_subtitle(
                ".grok/skills",
            ),
        );
    }
    let ghost want = skill_rows_s(*ws);
    let mut r: Vec<ListRowSpec> = Vec::new();
    let mut i: usize = 0;
    while i < ws.skills.len()
        invariant
            i <= ws.skills@.len(),
            ws.skills@.len() > 0,
            want == skill_rows_s(*ws),
            want.len() == ws.skills@.len(),
            row_views(r@) == want.take(i as int),
        decreases ws.skills@.len() - i,
    {
        let s = ws.skills[i].as_str();
        let row = glyph_row(&prefixed("skill:", s), s, ChromeGlyph::Sparkle);
        let row = mark_expanded(row, ws);
        assert(strs(ws.skills@)[i as int] == ws.skills@[i as int]@);
        assert(row_view(row) == want[i as int]);
        proof {
            lemma_row_views_push(r@, row);
        }
        r.push(row);
        assert(want.take(i + 1) =~= want.take(i as int).push(want[i as int]));
        i = i + 1;
    }
    assert(want.take(want.len() as int) =~= want);
    r
}

fn file_rows(ws: &Workspace) -> (r: Vec<ListRowSpec>)
    ensures
        row_views(r@) == file_rows_s(*ws),
{
    if ws.files.len() == 0 {
        return one_row(glyph_row(&lit("file:empty"), "No files", ChromeGlyph::Folder));
    }
    let ghost want = file_rows_s(*ws);
    let mut r: Vec<ListRowSpec> = Vec::new();
    let mut i: usize = 0;
    while i < ws.files.len()
        invariant
            i <= ws.files@.len(),
            ws.files@.len() > 0,
            want == file_rows_s(*ws),
            want.len() == ws.files@.len(),
            row_views(r@) == want.take(i as int),
        decreases ws.files@.len() - i,
    {
        let p = ws.files[i].as_str();
        let pv = chars_of(p);
        let g = if pv.len() > 0 && pv[pv.len() - 1] == '/' {
            ChromeGlyph::Folder
        } else {
            ChromeGlyph::Diff
        };
        let row = glyph_row(&prefixed("file:", p), p, g);
        let row = mark_expanded(row, ws);
        assert(strs(ws.files@)[i as int] == ws.files@[i as int]@);
        assert(row_view(row) == want[i as int]);
        proof {
            lemma_row_views_push(r@, row);
        }
        r.push(row);
        assert(want.take(i + 1) =~= want.take(i as int).push(want[i as int]));
        i = i + 1;
    }
    assert(want.take(want.len() as int) =~= want);
    r
}

fn activity_rows(ws: &Workspace) -> (r: Vec<ListRowSpec>)
    ensures
        row_views(r@) == activity_rows_s(*ws),
{
    if ws.terminal_log.len() == 0 {
        return one_row(glyph_row(&lit("act:empty"), "No activity", ChromeGlyph::Activity));
    }
    let head = mark_expanded(
        glyph_row(&lit("act:status"), if ws.busy { "running" } else { "idle" }, ChromeGlyph::Activity)
            .with_badge(
            BadgeSpec::new(
                if ws.busy {
                    Tone::Warn
                } else {
                    Tone::Good
                },
                if ws.busy {
                    "busy"
                } else {
                    "idle"
                },
            ),
        ),
        ws,
    );
    let mut t = log_rows(ws, "act:", ChromeGlyph::Activity, 16);
    let ghost tv = row_views(t@);
    let mut r = one_row(head);
    r.append(&mut t);
    assert(row_views(r@) =~= seq![row_view(head)] + tv);
    r
}

fn agent_rows(ws: &Workspace) -> (r: Vec<ListRowSpec>)
    ensures
        row_views(r@) == agent_rows_s(*ws),
{
    if ws.threads.len() == 0 {
        return one_row(glyph_row(&lit("agent:empty"), "No local threads", ChromeGlyph::Agent));
    }
    let ghost want = Seq::new(ws.threads@.len(), |i: int| agent_row_s(*ws, i));
    let mut r: Vec<ListRowSpec> = Vec::new();
    let mut i: usize = 0;
    while i < ws.threads.len()
        invariant
            i <= ws.threads@.len(),
            want == Seq::new(ws.threads@.len(), |i: int| agent_row_s(*ws, i)),
            row_views(r@) == want.take(i as int),
        decreases ws.threads@.len() - i,
    {
        let t = &ws.threads[i];
        let mut meta = prefixed_dec("", t.messages.len());
        append_str(&mut meta, " msgs");
        proof {
            reveal_strlit("");
            assert(""@ + dec(t.messages@.len()) =~= dec(t.messages@.len()));
        }
        let mut row = glyph_row(&prefixed("agent:", t.id.as_str()), t.title.as_str(), ChromeGlyph::Agent)
            .with_subtitle(t.status.as_str()).with_meta(string_of(&meta).as_str());
        row.selected = i == ws.selected;
        let row = mark_expanded(row, ws);
        assert(row_view(row) == want[i as int]);
        proof {
            lemma_row_views_push(r@, row);
        }
        r.push(row);
        assert(want.take(i + 1) =~= want.take(i as int).push(want[i as int]));
        i = i + 1;
    }
    assert(want.take(want.len() as int) =~= want);
    r
}

} // verus!
