//! Workbench helpers: files filter, MCP merge, browser and shell choice.

use vstd::prelude::*;
use crate::text::{chars_of, contains, contains_s, lower_s, lower_vec, trim_s, trim_vec};
use crate::approval_ui::card_body_of;
use crate::notices::{Notice, NoticeKind};
use crate::text::{append_str, append_vec, dec, push_dec, string_of, strs, sub_vec};
use crate::workspace::{McpLife, McpRow, Workspace};

verus! {

pub open spec fn string_views(v: Seq<String>) -> Seq<Seq<char>> {
    v.map_values(|s: String| s@)
}

/// The files among the first `n` whose lowercased name holds `q`.
pub open spec fn files_matching(files: Seq<Seq<char>>, q: Seq<char>, n: int) -> Seq<Seq<char>>
    decreases n,
{
    if n <= 0 || n > files.len() {
        Seq::empty()
    } else if contains_s(lower_s(files[n - 1]), q) {
        files_matching(files, q, n - 1).push(files[n - 1])
    } else {
        files_matching(files, q, n - 1)
    }
}

/// `filter_files`: all files for a blank query, else those whose name holds
/// the trimmed, lowercased query (ASCII case folding).
pub open spec fn filter_files_spec(files: Seq<Seq<char>>, query: Seq<char>) -> Seq<Seq<char>> {
    let q = lower_s(trim_s(query));
    if q.len() == 0 {
        files
    } else {
        files_matching(files, q, files.len() as int)
    }
}

/// Case-insensitive name filter. Empty query returns all.
pub fn filter_files(files: &[String], query: &str) -> (r: Vec<String>)
    ensures
        string_views(r@) == filter_files_spec(string_views(files@), query@),
{
    let q = lower_vec(&trim_vec(&chars_of(query)));
    let mut out: Vec<String> = Vec::new();
    let mut i: usize = 0;
    while i < files.len()
        invariant
            i <= files.len(),
            q@ == lower_s(trim_s(query@)),
            q@.len() == 0 ==> string_views(out@) == string_views(files@).take(i as int),
            q@.len() != 0 ==> string_views(out@) == files_matching(string_views(files@), q@, i as int),
        decreases files.len() - i,
    {
        let ghost before = out@;
        let f = chars_of(files[i].as_str());
        if q.len() == 0 || contains(&lower_vec(&f), &q) {
            out.push(files[i].clone());
            assert(string_views(out@) =~= string_views(before).push(files@[i as int]@));
        }
        assert(string_views(files@).take(i + 1) =~= string_views(files@).take(i as int).push(files@[i as int]@));
        i = i + 1;
    }
    assert(string_views(files@).take(files.len() as int) =~= string_views(files@));
    out
}

/// `rel` without trailing `/`.
pub open spec fn trim_slashes(rel: Seq<char>) -> Seq<char>
    decreases rel.len(),
{
    if rel.len() > 0 && rel.last() == '/' {
        trim_slashes(rel.drop_last())
    } else {
        rel
    }
}

/// A path separator on some platform: `/`, or `\` on Windows.
pub open spec fn is_sep(c: char) -> bool {
    c == '/' || c == '\\'
}

/// A base that `Path::join` extends with one separator on every platform:
/// not empty, no leading `\` (UNC or verbatim), and not ending in a
/// separator or in the `:` of a bare drive.
pub open spec fn plain_base(b: Seq<char>) -> bool {
    b.len() > 0 && b[0] != '\\' && !is_sep(b.last()) && b.last() != ':'
}

/// A relative part with neither root nor prefix on any platform: not empty,
/// no leading separator, and no `:` anywhere.
pub open spec fn plain_rel(r: Seq<char>) -> bool {
    r.len() > 0 && !is_sep(r[0]) && forall|k: int| 0 <= k < r.len() ==> #[trigger] r[k] != ':'
}

/// A relative part that can in turn serve as the end of a base.
pub open spec fn plain_leaf(r: Seq<char>) -> bool {
    plain_rel(r) && !is_sep(r.last())
}

/// `r` is `base`, one separator, then `rel`.
pub open spec fn sep_joined(r: Seq<char>, base: Seq<char>, rel: Seq<char>) -> bool {
    &&& r.len() == base.len() + 1 + rel.len()
    &&& r.take(base.len() as int) == base
    &&& is_sep(r[base.len() as int])
    &&& r.skip(base.len() + 1 as int) == rel
}

/// `r` is `parts` joined by one separator between each two.
pub open spec fn sep_path(r: Seq<char>, parts: Seq<Seq<char>>) -> bool
    decreases parts.len(),
{
    if parts.len() <= 1 {
        parts.len() == 1 && r == parts[0]
    } else {
        let n = r.len() - parts.last().len() - 1;
        0 <= n && sep_joined(r, r.take(n), parts.last()) && sep_path(r.take(n), parts.drop_last())
    }
}

/// `Path::new(base).join(rel)` (std), as text. When `base` and `rel` are
/// plain, the result is `base`, the platform's separator, then `rel`. For
/// other inputs (a rooted or prefixed `rel`, a UNC or verbatim `base`, a
/// trailing separator, an empty part) the platform's joining rules decide,
/// and nothing is stated.
#[verifier::external_body]
pub(crate) fn join_paths(base: &str, rel: &str) -> (r: String)
    ensures
        plain_base(base@) && plain_rel(rel@) ==> sep_joined(r@, base@, rel@),
{
    std::path::Path::new(base).join(rel).to_string_lossy().into_owned()
}

/// Join project root and a relative leaf. `..` segments are kept.
pub fn join_project_path(project: &str, rel: &str) -> (r: String)
    ensures
        plain_base(project@) && plain_rel(trim_slashes(rel@)) ==> sep_joined(
            r@,
            project@,
            trim_slashes(rel@),
        ),
{
    let mut v = chars_of(rel);
    while v.len() > 0 && v[v.len() - 1] == '/'
        invariant
            trim_slashes(v@) == trim_slashes(rel@),
        decreases v.len(),
    {
        v.pop();
    }
    let t = crate::text::string_of(&v);
    join_paths(project, t.as_str())
}

pub struct McpV {
    pub name: Seq<char>,
    pub command: Seq<char>,
    pub transport: Seq<char>,
    pub state: McpLife,
}

pub open spec fn mcp_view(r: McpRow) -> McpV {
    McpV { name: r.name@, command: r.command@, transport: r.transport@, state: r.state }
}

pub open spec fn mcp_views(v: Seq<McpRow>) -> Seq<McpV> {
    v.map_values(|r: McpRow| mcp_view(r))
}

/// State of the first existing row named `name`, if any.
pub open spec fn state_by_name(existing: Seq<McpV>, name: Seq<char>, i: int) -> Option<McpLife>
    decreases existing.len() - i,
{
    if i < 0 || i >= existing.len() {
        None
    } else if existing[i].name == name {
        Some(existing[i].state)
    } else {
        state_by_name(existing, name, i + 1)
    }
}

/// An incoming row, keeping the state of the existing row of its name.
pub open spec fn merged_row(existing: Seq<McpV>, row: McpV) -> McpV {
    match state_by_name(existing, row.name, 0) {
        Some(s) => McpV { state: s, ..row },
        None => row,
    }
}

fn state_of(existing: &[McpRow], name: &String) -> (r: Option<McpLife>)
    ensures
        r == state_by_name(mcp_views(existing@), name@, 0),
{
    let mut j: usize = 0;
    while j < existing.len()
        invariant
            j <= existing.len(),
            state_by_name(mcp_views(existing@), name@, 0) == state_by_name(
                mcp_views(existing@),
                name@,
                j as int,
            ),
        decreases existing.len() - j,
    {
        assert(mcp_views(existing@)[j as int] == mcp_view(existing@[j as int]));
        if existing[j].name == *name {
            return Some(existing[j].state);
        }
        j = j + 1;
    }
    None
}

/// Incoming inventory wins on command/transport; Ready/Stopped follows the
/// existing row of the same name.
pub fn merge_mcp(existing: &[McpRow], incoming: Vec<McpRow>) -> (r: Vec<McpRow>)
    ensures
        r@.len() == incoming@.len(),
        forall|i: int|
            0 <= i < r@.len() ==> mcp_view(#[trigger] r@[i]) == merged_row(
                mcp_views(existing@),
                mcp_view(incoming@[i]),
            ),
{
    let mut out: Vec<McpRow> = Vec::new();
    let mut i: usize = 0;
    while i < incoming.len()
        invariant
            i <= incoming.len(),
            out@.len() == i,
            forall|k: int|
                0 <= k < i ==> mcp_view(#[trigger] out@[k]) == merged_row(
                    mcp_views(existing@),
                    mcp_view(incoming@[k]),
                ),
        decreases incoming.len() - i,
    {
        let row = &incoming[i];
        let found = state_of(existing, &row.name);
        let m = McpRow {
            name: row.name.clone(),
            command: row.command.clone(),
            transport: row.transport.clone(),
            state: match found {
                Some(s) => s,
                None => row.state,
            },
        };
        assert(mcp_view(m) == merged_row(mcp_views(existing@), mcp_view(incoming@[i as int])));
        out.push(m);
        i = i + 1;
    }
    out
}

pub open spec fn pair_views(v: Seq<(&str, &str)>) -> Seq<(Seq<char>, Seq<char>)> {
    v.map_values(|p: (&str, &str)| (p.0@, p.1@))
}

/// Well-known Windows browser binaries. Detection is a path-exists check.
pub fn default_browser_candidates() -> (r: Vec<(&'static str, &'static str)>)
    ensures
        pair_views(r@) == seq![
            ("edge"@, "C:\\Program Files (x86)\\Microsoft\\Edge\\Application\\msedge.exe"@),
            ("chrome"@, "C:\\Program Files\\Google\\Chrome\\Application\\chrome.exe"@),
            ("firefox"@, "C:\\Program Files\\Mozilla Firefox\\firefox.exe"@),
            ("brave"@, "C:\\Program Files\\BraveSoftware\\Brave-Browser\\Application\\brave.exe"@),
        ],
{
    let r = vec![
        ("edge", "C:\\Program Files (x86)\\Microsoft\\Edge\\Application\\msedge.exe"),
        ("chrome", "C:\\Program Files\\Google\\Chrome\\Application\\chrome.exe"),
        ("firefox", "C:\\Program Files\\Mozilla Firefox\\firefox.exe"),
        ("brave", "C:\\Program Files\\BraveSoftware\\Brave-Browser\\Application\\brave.exe"),
    ];
    assert(pair_views(r@) =~= seq![
        ("edge"@, "C:\\Program Files (x86)\\Microsoft\\Edge\\Application\\msedge.exe"@),
        ("chrome"@, "C:\\Program Files\\Google\\Chrome\\Application\\chrome.exe"@),
        ("firefox"@, "C:\\Program Files\\Mozilla Firefox\\firefox.exe"@),
        ("brave"@, "C:\\Program Files\\BraveSoftware\\Brave-Browser\\Application\\brave.exe"@),
    ]);
    r
}

/// The candidates whose flag is set, in order.
pub open spec fn kept<T>(items: Seq<T>, present: Seq<bool>, n: int) -> Seq<T>
    decreases n,
{
    if n <= 0 || n > items.len() || n > present.len() {
        Seq::empty()
    } else if present[n - 1] {
        kept(items, present, n - 1).push(items[n - 1])
    } else {
        kept(items, present, n - 1)
    }
}

/// The browsers whose binary is present (`present[i]` for candidate `i`).
pub fn detect_browsers_in(candidates: &[(&str, &str)], present: &[bool]) -> (r: Vec<(String, String)>)
    requires
        present@.len() == candidates@.len(),
    ensures
        r@.map_values(|p: (String, String)| (p.0@, p.1@)) == kept(
            pair_views(candidates@),
            present@,
            candidates@.len() as int,
        ),
{
    let mut out: Vec<(String, String)> = Vec::new();
    let mut i: usize = 0;
    while i < candidates.len()
        invariant
            i <= candidates.len(),
            present@.len() == candidates@.len(),
            out@.map_values(|p: (String, String)| (p.0@, p.1@)) == kept(
                pair_views(candidates@),
                present@,
                i as int,
            ),
        decreases candidates.len() - i,
    {
        if present[i] {
            let ghost before = out@;
            let (name, path) = candidates[i];
            out.push((name.to_owned(), path.to_owned()));
            assert(out@.map_values(|p: (String, String)| (p.0@, p.1@)) =~= before.map_values(
                |p: (String, String)| (p.0@, p.1@),
            ).push(pair_views(candidates@)[i as int]));
        }
        i = i + 1;
    }
    out
}

/// First detected browser, else none.
pub fn preferred_browser(found: &[(String, String)]) -> (r: Option<&(String, String)>)
    ensures
        found@.len() == 0 ==> r is None,
        found@.len() > 0 ==> r == Some(&found@[0]),
{
    if found.len() == 0 {
        None
    } else {
        Some(&found[0])
    }
}

/// One installed system shell. `id` is stable (`cmd`, `pwsh`, `zsh`, ...).
#[derive(Debug, Clone, PartialEq, Eq)]
pub struct SystemTerminal {
    pub id: String,
    pub label: String,
    pub path: String,
}

pub open spec fn triple_views(v: Seq<(String, String, String)>) -> Seq<(Seq<char>, Seq<char>, Seq<char>)> {
    v.map_values(|t: (String, String, String)| (t.0@, t.1@, t.2@))
}

pub open spec fn term_view(t: SystemTerminal) -> (Seq<char>, Seq<char>, Seq<char>) {
    (t.id@, t.label@, t.path@)
}

/// The shells whose binary is present (`present[i]` for candidate `i`).
pub fn detect_terminals_in(candidates: &[(String, String, String)], present: &[bool]) -> (r: Vec<SystemTerminal>)
    requires
        present@.len() == candidates@.len(),
    ensures
        r@.map_values(|t: SystemTerminal| term_view(t)) == kept(
            triple_views(candidates@),
            present@,
            candidates@.len() as int,
        ),
{
    let mut out: Vec<SystemTerminal> = Vec::new();
    let mut i: usize = 0;
    while i < candidates.len()
        invariant
            i <= candidates.len(),
            present@.len() == candidates@.len(),
            out@.map_values(|t: SystemTerminal| term_view(t)) == kept(
                triple_views(candidates@),
                present@,
                i as int,
            ),
        decreases candidates.len() - i,
    {
        if present[i] {
            let ghost before = out@;
            let t = SystemTerminal {
                id: candidates[i].0.clone(),
                label: candidates[i].1.clone(),
                path: candidates[i].2.clone(),
            };
            out.push(t);
            assert(out@.map_values(|t: SystemTerminal| term_view(t)) =~= before.map_values(
                |t: SystemTerminal| term_view(t),
            ).push(triple_views(candidates@)[i as int]));
        }
        i = i + 1;
    }
    out
}

/// Index of the first shell whose id is `want`, or -1.
pub open spec fn find_id(found: Seq<SystemTerminal>, want: Seq<char>, i: int) -> int
    decreases found.len() - i,
{
    if i < 0 || i >= found.len() {
        -1
    } else if found[i].id@ == want {
        i
    } else {
        find_id(found, want, i + 1)
    }
}

/// The shell named `want` when that is not blank and present, else the first.
pub fn preferred_terminal<'a>(found: &'a [SystemTerminal], want: &str) -> (r: Option<&'a SystemTerminal>)
    ensures
        trim_s(want@).len() > 0 && find_id(found@, want@, 0) >= 0 ==> r == Some(
            &found@[find_id(found@, want@, 0)],
        ),
        !(trim_s(want@).len() > 0 && find_id(found@, want@, 0) >= 0) && found@.len() > 0 ==> r
            == Some(&found@[0]),
        found@.len() == 0 ==> r is None,
{
    let t = trim_vec(&chars_of(want));
    if t.len() > 0 {
        let w = want.to_owned();
        let mut i: usize = 0;
        while i < found.len()
            invariant
                i <= found.len(),
                w@ == want@,
                trim_s(want@).len() > 0,
                find_id(found@, want@, 0) == find_id(found@, want@, i as int),
            decreases found.len() - i,
        {
            if found[i].id == w {
                return Some(&found[i]);
            }
            i = i + 1;
        }
        assert(find_id(found@, want@, i as int) == -1);
    }
    if found.len() == 0 {
        None
    } else {
        Some(&found[0])
    }
}

/// Stable activity rows for the Activity views.
#[derive(Debug, Clone, PartialEq, Eq)]
pub struct ActivityItem {
    pub id: String,
    pub title: String,
    pub hint: String,
}

/// An activity row as plain values.
pub struct ActV {
    pub id: Seq<char>,
    pub title: Seq<char>,
    pub hint: Seq<char>,
}

pub open spec fn act_view(a: ActivityItem) -> ActV {
    ActV { id: a.id@, title: a.title@, hint: a.hint@ }
}

pub open spec fn act_views(v: Seq<ActivityItem>) -> Seq<ActV> {
    v.map_values(|a: ActivityItem| act_view(a))
}

/// The name a notice kind is listed under.
pub open spec fn kind_name(k: NoticeKind) -> Seq<char> {
    match k {
        NoticeKind::Info => "Info"@,
        NoticeKind::Good => "Good"@,
        NoticeKind::Warn => "Warn"@,
        NoticeKind::Danger => "Danger"@,
    }
}

pub open spec fn first_chars(s: Seq<char>, n: int) -> Seq<char> {
    if s.len() <= n {
        s
    } else {
        s.take(n)
    }
}

pub open spec fn min_int(a: int, b: int) -> int {
    if a < b {
        a
    } else {
        b
    }
}

/// The newest five notices, newest first.
pub open spec fn notice_acts(ns: Seq<Notice>) -> Seq<ActV> {
    let n = ns.len() as int;
    Seq::new(
        min_int(n, 5) as nat,
        |j: int|
            ActV {
                id: "act:notice:"@ + dec(ns[n - 1 - j].id as nat),
                title: ns[n - 1 - j].text@,
                hint: kind_name(ns[n - 1 - j].kind),
            },
    )
}

/// The newest eight log lines, newest first, cut to 72 chars.
pub open spec fn log_acts(log: Seq<Seq<char>>) -> Seq<ActV> {
    let n = log.len() as int;
    Seq::new(
        min_int(n, 8) as nat,
        |j: int|
            ActV {
                id: "act:log:"@ + dec(j as nat),
                title: first_chars(log[n - 1 - j], 72),
                hint: "term"@,
            },
    )
}

pub open spec fn reminder_acts(ws: Workspace) -> Seq<ActV> {
    match ws.reminder {
        Some(r) => seq![ActV { id: "act:reminder"@, title: "worktree "@ + r.0@, hint: r.1@ }],
        None => seq![],
    }
}

pub open spec fn pending_acts(ws: Workspace) -> Seq<ActV> {
    match ws.pending {
        Some(p) => seq![
            ActV {
                id: "act:approval:"@ + p.request_id@,
                title: "Allow "@ + p.tool@ + "?"@,
                hint: card_body_of(p.summary@),
            },
        ],
        None => seq![],
    }
}

pub open spec fn busy_acts(ws: Workspace) -> Seq<ActV> {
    if ws.busy {
        seq![ActV { id: "act:busy"@, title: "Grok is working"@, hint: "headless grok -p"@ }]
    } else {
        seq![]
    }
}

/// Reminder, pending approval, busy marker, notices, log; a placeholder
/// when there is nothing.
pub open spec fn activity_spec(ws: Workspace) -> Seq<ActV> {
    let all = reminder_acts(ws) + pending_acts(ws) + busy_acts(ws) + notice_acts(ws.notices@)
        + log_acts(strs(ws.terminal_log@));
    if all.len() == 0 {
        seq![ActV { id: "act:empty"@, title: "No activity yet"@, hint: "open Activity"@ }]
    } else {
        all
    }
}

proof fn lemma_act_views_push(v: Seq<ActivityItem>, x: ActivityItem)
    ensures
        act_views(v.push(x)) == act_views(v).push(act_view(x)),
{
    assert(act_views(v.push(x)) =~= act_views(v).push(act_view(x)));
}

fn kind_name_exec(k: NoticeKind) -> (r: &'static str)
    ensures
        r@ == kind_name(k),
{
    match k {
        NoticeKind::Info => "Info",
        NoticeKind::Good => "Good",
        NoticeKind::Warn => "Warn",
        NoticeKind::Danger => "Danger",
    }
}

/// Stable activity rows for the left and right Activity views; at most 20.
pub fn activity_items(ws: &Workspace) -> (items: Vec<ActivityItem>)
    ensures
        act_views(items@) == activity_spec(*ws),
        items@.len() <= 20,
{
    let mut items: Vec<ActivityItem> = Vec::new();
    let ghost rem = reminder_acts(*ws);
    match &ws.reminder {
        Some(r) => {
            let mut t = chars_of("worktree ");
            append_str(&mut t, r.0.as_str());
            let a = ActivityItem { id: "act:reminder".to_owned(), title: string_of(&t), hint: r.1.clone() };
            proof {
                lemma_act_views_push(items@, a);
            }
            items.push(a);
        },
        None => {},
    }
    assert(act_views(items@) =~= rem);
    let ghost pend = pending_acts(*ws);
    match &ws.pending {
        Some(p) => {
            let mut id = chars_of("act:approval:");
            append_str(&mut id, p.request_id.as_str());
            let a = ActivityItem { id: string_of(&id), title: p.card_title(), hint: p.card_body() };
            proof {
                lemma_act_views_push(items@, a);
            }
            items.push(a);
        },
        None => {},
    }
    assert(act_views(items@) =~= rem + pend);
    let ghost busy = busy_acts(*ws);
    if ws.busy {
        let a = ActivityItem {
            id: "act:busy".to_owned(),
            title: "Grok is working".to_owned(),
            hint: "headless grok -p".to_owned(),
        };
        proof {
            lemma_act_views_push(items@, a);
        }
        items.push(a);
    }
    assert(act_views(items@) =~= rem + pend + busy);
    let ghost head = rem + pend + busy;
    let ghost na = notice_acts(ws.notices@);
    let n = ws.notices.len();
    let kn: usize = if n < 5 {
        n
    } else {
        5
    };
    let mut j: usize = 0;
    while j < kn
        invariant
            n == ws.notices@.len(),
            kn == min_int(n as int, 5),
            j <= kn,
            na == notice_acts(ws.notices@),
            na.len() == kn,
            act_views(items@) == head + na.take(j as int),
            head.len() <= 3,
        decreases kn - j,
    {
        let nt = &ws.notices[n - 1 - j];
        let mut id = chars_of("act:notice:");
        push_dec(&mut id, nt.id);
        let a = ActivityItem {
            id: string_of(&id),
            title: nt.text.clone(),
            hint: kind_name_exec(nt.kind).to_owned(),
        };
        proof {
            lemma_act_views_push(items@, a);
            assert(act_view(a) == na[j as int]);
        }
        items.push(a);
        assert(head + na.take(j + 1) =~= (head + na.take(j as int)).push(na[j as int]));
        j = j + 1;
    }
    assert(na.take(kn as int) =~= na);
    let ghost mid = head + na;
    let ghost la = log_acts(strs(ws.terminal_log@));
    let m = ws.terminal_log.len();
    let km: usize = if m < 8 {
        m
    } else {
        8
    };
    let mut k: usize = 0;
    while k < km
        invariant
            m == ws.terminal_log@.len(),
            km == min_int(m as int, 8),
            k <= km,
            la == log_acts(strs(ws.terminal_log@)),
            la.len() == km,
            act_views(items@) == mid + la.take(k as int),
            mid.len() <= 8,
        decreases km - k,
    {
        let line = chars_of(ws.terminal_log[m - 1 - k].as_str());
        let cut: usize = if line.len() <= 72 {
            line.len()
        } else {
            72
        };
        let title = sub_vec(&line, 0, cut);
        let mut id = chars_of("act:log:");
        push_dec(&mut id, k as u64);
        let a = ActivityItem { id: string_of(&id), title: string_of(&title), hint: "term".to_owned() };
        proof {
            lemma_act_views_push(items@, a);
            assert(strs(ws.terminal_log@)[m - 1 - k] == ws.terminal_log@[m - 1 - k]@);
            assert(title@ =~= first_chars(strs(ws.terminal_log@)[m - 1 - k], 72));
            assert(act_view(a) == la[k as int]);
        }
        items.push(a);
        assert(mid + la.take(k + 1) =~= (mid + la.take(k as int)).push(la[k as int]));
        k = k + 1;
    }
    assert(la.take(km as int) =~= la);
    if items.len() == 0 {
        let a = ActivityItem {
            id: "act:empty".to_owned(),
            title: "No activity yet".to_owned(),
            hint: "open Activity".to_owned(),
        };
        proof {
            lemma_act_views_push(items@, a);
        }
        items.push(a);
        assert(act_views(items@) =~= activity_spec(*ws));
    }
    items
}

/// `list` with the `grok` found on PATH, when there is one, in front.
pub open spec fn with_grok(
    list: Seq<(Seq<char>, Seq<char>, Seq<char>)>,
    grok: Option<Seq<char>>,
) -> Seq<(Seq<char>, Seq<char>, Seq<char>)> {
    match grok {
        Some(g) => seq![("grok"@, "Grok"@, g)] + list,
        None => list,
    }
}

/// The Windows shells: cmd, Windows PowerShell, and PowerShell under
/// `local_app_data`.
pub open spec fn windows_shells(local_app_data: Seq<char>) -> Seq<(Seq<char>, Seq<char>, Seq<char>)> {
    seq![
        ("cmd"@, "Command Prompt"@, "C:\\Windows\\System32\\cmd.exe"@),
        ("powershell"@, "Windows PowerShell"@, "C:\\Windows\\System32\\WindowsPowerShell\\v1.0\\powershell.exe"@),
        ("pwsh"@, "PowerShell"@, local_app_data + "\\Microsoft\\WindowsApps\\pwsh.exe"@),
    ]
}

pub open spec fn macos_shells(home: Seq<char>) -> Seq<(Seq<char>, Seq<char>, Seq<char>)> {
    seq![
        ("zsh"@, "zsh"@, "/bin/zsh"@),
        ("bash"@, "bash"@, "/bin/bash"@),
        ("sh"@, "sh"@, "/bin/sh"@),
        ("fish"@, "fish"@, "/opt/homebrew/bin/fish"@),
        ("fish"@, "fish"@, home + "/.local/bin/fish"@),
    ]
}

pub open spec fn linux_shells(home: Seq<char>) -> Seq<(Seq<char>, Seq<char>, Seq<char>)> {
    seq![
        ("bash"@, "bash"@, "/bin/bash"@),
        ("zsh"@, "zsh"@, "/bin/zsh"@),
        ("sh"@, "sh"@, "/bin/sh"@),
        ("fish"@, "fish"@, "/usr/bin/fish"@),
        ("fish"@, "fish"@, home + "/.local/bin/fish"@),
    ]
}

fn shell(id: &str, label: &str, path: &str) -> (r: (String, String, String))
    ensures
        (r.0@, r.1@, r.2@) == (id@, label@, path@),
{
    (id.to_owned(), label.to_owned(), path.to_owned())
}

fn under(base: &str, rest: &str) -> (r: String)
    ensures
        r@ == base@ + rest@,
{
    let mut v = chars_of(base);
    append_str(&mut v, rest);
    string_of(&v)
}

fn put_grok_first(out: Vec<(String, String, String)>, grok: Option<String>) -> (r: Vec<(String, String, String)>)
    ensures
        triple_views(r@) == with_grok(triple_views(out@), match grok {
            Some(g) => Some(g@),
            None => None,
        }),
{
    match grok {
        Some(g) => {
            let mut out = out;
            let ghost before = triple_views(out@);
            let ghost gv = g@;
            out.insert(0, ("grok".to_owned(), "Grok".to_owned(), g));
            assert(triple_views(out@) =~= seq![("grok"@, "Grok"@, gv)] + before);
            out
        },
        None => out,
    }
}

/// Candidate Windows shells as `(id, label, path)`: the `grok` found on
/// PATH first, then cmd, Windows PowerShell and PowerShell under
/// `local_app_data`.
pub fn windows_terminal_candidates_in(local_app_data: &str, grok: Option<String>) -> (r: Vec<(String, String, String)>)
    ensures
        triple_views(r@) == with_grok(windows_shells(local_app_data@), match grok {
            Some(g) => Some(g@),
            None => None,
        }),
{
    let mut out: Vec<(String, String, String)> = Vec::new();
    out.push(shell("cmd", "Command Prompt", "C:\\Windows\\System32\\cmd.exe"));
    out.push(shell("powershell", "Windows PowerShell", "C:\\Windows\\System32\\WindowsPowerShell\\v1.0\\powershell.exe"));
    out.push(shell("pwsh", "PowerShell", under(local_app_data, "\\Microsoft\\WindowsApps\\pwsh.exe").as_str()));
    assert(triple_views(out@) =~= windows_shells(local_app_data@));
    put_grok_first(out, grok)
}

/// Candidate macOS shells: the `grok` found on PATH first, then zsh, bash,
/// sh and the two usual fish locations.
pub fn macos_terminal_candidates_in(home: &str, grok: Option<String>) -> (r: Vec<(String, String, String)>)
    ensures
        triple_views(r@) == with_grok(macos_shells(home@), match grok {
            Some(g) => Some(g@),
            None => None,
        }),
{
    let mut out: Vec<(String, String, String)> = Vec::new();
    out.push(shell("zsh", "zsh", "/bin/zsh"));
    out.push(shell("bash", "bash", "/bin/bash"));
    out.push(shell("sh", "sh", "/bin/sh"));
    out.push(shell("fish", "fish", "/opt/homebrew/bin/fish"));
    out.push(shell("fish", "fish", under(home, "/.local/bin/fish").as_str()));
    assert(triple_views(out@) =~= macos_shells(home@));
    put_grok_first(out, grok)
}

/// Candidate Linux shells: the `grok` found on PATH first, then bash, zsh,
/// sh and the two usual fish locations.
pub fn linux_terminal_candidates_in(home: &str, grok: Option<String>) -> (r: Vec<(String, String, String)>)
    ensures
        triple_views(r@) == with_grok(linux_shells(home@), match grok {
            Some(g) => Some(g@),
            None => None,
        }),
{
    let mut out: Vec<(String, String, String)> = Vec::new();
    out.push(shell("bash", "bash", "/bin/bash"));
    out.push(shell("zsh", "zsh", "/bin/zsh"));
    out.push(shell("sh", "sh", "/bin/sh"));
    out.push(shell("fish", "fish", "/usr/bin/fish"));
    out.push(shell("fish", "fish", under(home, "/.local/bin/fish").as_str()));
    assert(triple_views(out@) =~= linux_shells(home@));
    put_grok_first(out, grok)
}

} // verus!
