//! Persisted-state helpers: leaf names, deep links, the About box and the
//! notices about first run and crash restore.

use vstd::prelude::*;
use crate::diff_view::drop_trail;
use crate::text::{
    contains, contains_s, append_str, append_vec, join_s, push_dec, dec, strs, chars_of, eq_str, is_ascii_alnum, lower_s, lower_vec, split_char, split_s,
    starts_with_s, starts_with_str, string_of, sub_vec, trim_s, trim_vec, views,
};
use crate::connection::ConnectionState;
use crate::json::{
    as_array_s, as_str_s, as_u64_s, get_array, get_array_s, get_bool, get_bool_s, get_str,
    get_str_s, json_nodes, json_parse, keep_some, lemma_keep_some_step, parse_value,
    value_as_array, value_as_str, value_as_u64, Node, arr_nodes, depth_at_most, lemma_arr, lemma_keep_some_all, lemma_obj_step,
    lemma_as_array, lemma_leaf, lemma_obj, lemma_put, leaf, obj_nodes, object_insert, plain_key,
    put_member, root, rooted, shallow, slashes, under, value_array, value_bool, value_object,
    value_string, value_text, value_u64,
};
use crate::notices::{capped, notice_views, NoticeKind, NoticeV};
use crate::workspace::{thread_index, LeftSection, RailVis, Role, Thread, Workspace};

verus! {

pub open spec fn is_sep(c: char) -> bool {
    c == '/' || c == '\\'
}

/// `s` without trailing path separators.
pub open spec fn drop_seps(s: Seq<char>) -> Seq<char>
    decreases s.len(),
{
    if s.len() > 0 && is_sep(s.last()) {
        drop_seps(s.drop_last())
    } else {
        s
    }
}

/// Index of the last separator before `i`, or -1.
pub open spec fn last_sep(s: Seq<char>, i: int) -> int
    decreases i,
{
    if i <= 0 || i > s.len() {
        -1
    } else if is_sep(s[i - 1]) {
        i - 1
    } else {
        last_sep(s, i - 1)
    }
}

/// Last path component (Windows and POSIX separators); the trimmed input
/// when nothing is left.
pub open spec fn leaf_spec(path: Seq<char>) -> Seq<char> {
    let t = drop_seps(trim_s(path));
    if t.len() == 0 {
        trim_s(path)
    } else {
        t.skip(last_sep(t, t.len() as int) + 1)
    }
}

proof fn lemma_last_sep(s: Seq<char>, i: int)
    requires
        0 <= i <= s.len(),
    ensures
        -1 <= last_sep(s, i) < i,
    decreases i,
{
    if i > 0 && !is_sep(s[i - 1]) {
        lemma_last_sep(s, i - 1);
    }
}

/// Last path component. Never empty for a path with a name in it.
pub fn leaf_name(path: &str) -> (r: String)
    ensures
        r@ == leaf_spec(path@),
{
    let tp = trim_vec(&chars_of(path));
    let mut t = sub_vec(&tp, 0, tp.len());
    assert(t@ =~= tp@);
    while t.len() > 0 && (t[t.len() - 1] == '/' || t[t.len() - 1] == '\\')
        invariant
            drop_seps(t@) == drop_seps(trim_s(path@)),
        decreases t.len(),
    {
        t.pop();
    }
    if t.len() == 0 {
        return string_of(&tp);
    }
    let mut i: usize = t.len();
    while i > 0 && !(t[i - 1] == '/' || t[i - 1] == '\\')
        invariant
            i <= t.len(),
            last_sep(t@, i as int) == last_sep(t@, t.len() as int),
        decreases i,
    {
        i = i - 1;
    }
    proof {
        lemma_last_sep(t@, t.len() as int);
    }
    let leaf = sub_vec(&t, i, t.len());
    assert(leaf@ =~= t@.skip(i as int));
    string_of(&leaf)
}

/// Card title for a thread: never a raw `thr-N` id.
pub open spec fn leaf_title(title: Seq<char>, id: Seq<char>) -> Seq<char> {
    let t = trim_s(title);
    if t.len() == 0 || t == id || starts_with_s(t, "thr-"@) {
        "New chat"@
    } else {
        t
    }
}

/// A thread card's title is never empty and never a raw `thr-N` id.
pub proof fn law_leaf_title_is_never_raw(title: Seq<char>, id: Seq<char>)
    ensures
        leaf_title(title, id).len() > 0,
        !starts_with_s(leaf_title(title, id), "thr-"@),
{
    reveal_strlit("New chat");
    reveal_strlit("thr-");
    assert("New chat"@.len() == 8);
    assert("thr-"@.len() == 4);
    assert("New chat"@.take(4)[0] != "thr-"@[0]);
}

/// Card title for a thread. Never paint raw `thr-N`.
pub fn thread_leaf_title(title: &str, id: &str) -> (r: String)
    ensures
        r@ == leaf_title(title@, id@),
{
    let t = trim_vec(&chars_of(title));
    let idv = chars_of(id);
    if t.len() == 0 || crate::text::eq_chars(&t, &idv) || starts_with_str(&t, "thr-") {
        "New chat".to_owned()
    } else {
        string_of(&t)
    }
}

/// `multiplexer://pair|session|open` plus an optional value.
#[derive(Debug, Clone, PartialEq, Eq)]
pub enum DeepLink {
    Pair { hint: Option<String> },
    Session { id: Option<String> },
    Open { path: Option<String> },
}

pub enum LinkV {
    Pair(Option<Seq<char>>),
    Session(Option<Seq<char>>),
    Open(Option<Seq<char>>),
}

pub open spec fn opt_view(o: Option<String>) -> Option<Seq<char>> {
    match o {
        Some(s) => Some(s@),
        None => None,
    }
}

pub open spec fn link_view(l: DeepLink) -> LinkV {
    match l {
        DeepLink::Pair { hint } => LinkV::Pair(opt_view(hint)),
        DeepLink::Session { id } => LinkV::Session(opt_view(id)),
        DeepLink::Open { path } => LinkV::Open(opt_view(path)),
    }
}

impl DeepLink {
    pub fn kind_label(&self) -> (r: &'static str)
        ensures
            r@ == (match self {
                DeepLink::Pair { .. } => "pair"@,
                DeepLink::Session { .. } => "session"@,
                DeepLink::Open { .. } => "open"@,
            }),
    {
        match self {
            DeepLink::Pair { .. } => "pair",
            DeepLink::Session { .. } => "session",
            DeepLink::Open { .. } => "open",
        }
    }
}

/// First index of `c` in `s`, or -1.
pub open spec fn index_of(s: Seq<char>, c: char, i: int) -> int
    decreases s.len() - i,
{
    if i < 0 || i >= s.len() {
        -1
    } else if s[i] == c {
        i
    } else {
        index_of(s, c, i + 1)
    }
}

pub open spec fn known_key(k: Seq<char>) -> bool {
    k == "id"@ || k == "path"@ || k == "hint"@ || k == "code"@ || k == "q"@
}

/// The value the `&`-separated parts from `i` on carry: the first
/// `id|path|hint|code|q=<non-empty>`, or the first bare non-empty part.
pub open spec fn query_parts(parts: Seq<Seq<char>>, i: int) -> Option<Seq<char>>
    decreases parts.len() - i,
{
    if i < 0 || i >= parts.len() {
        None
    } else {
        let p = parts[i];
        let e = index_of(p, '=', 0);
        if e >= 0 {
            if known_key(p.take(e)) && p.skip(e + 1).len() > 0 {
                Some(p.skip(e + 1))
            } else {
                query_parts(parts, i + 1)
            }
        } else if p.len() > 0 {
            Some(p)
        } else {
            query_parts(parts, i + 1)
        }
    }
}

pub open spec fn query_spec(q: Seq<char>) -> Option<Seq<char>> {
    if q.len() == 0 {
        None
    } else {
        query_parts(split_s(q, '&'), 0)
    }
}

pub open spec fn deep_link_spec(raw: Seq<char>) -> Option<LinkV> {
    let t = trim_s(raw);
    if !starts_with_s(t, "multiplexer://"@) {
        None
    } else {
        let rest = t.skip(14);
        if rest.len() == 0 {
            None
        } else {
            let q = index_of(rest, '?', 0);
            let kind_raw = if q >= 0 {
                rest.take(q)
            } else {
                rest
            };
            let query = if q >= 0 {
                rest.skip(q + 1)
            } else {
                Seq::empty()
            };
            let kind = lower_s(drop_trail(trim_s(kind_raw), '/'));
            let v = query_spec(query);
            if kind == "pair"@ {
                Some(LinkV::Pair(v))
            } else if kind == "session"@ {
                Some(LinkV::Session(v))
            } else if kind == "open"@ {
                Some(LinkV::Open(v))
            } else {
                None
            }
        }
    }
}

fn find_char(s: &Vec<char>, c: char) -> (r: Option<usize>)
    ensures
        match r {
            Some(i) => index_of(s@, c, 0) == i as int && i < s.len(),
            None => index_of(s@, c, 0) == -1,
        },
{
    let mut i: usize = 0;
    while i < s.len()
        invariant
            i <= s.len(),
            index_of(s@, c, 0) == index_of(s@, c, i as int),
        decreases s.len() - i,
    {
        if s[i] == c {
            return Some(i);
        }
        i = i + 1;
    }
    None
}

fn query_value(query: &Vec<char>) -> (r: Option<String>)
    ensures
        opt_view(r) == query_spec(query@),
{
    if query.len() == 0 {
        return None;
    }
    let parts = split_char(query, '&');
    let mut i: usize = 0;
    while i < parts.len()
        invariant
            i <= parts.len(),
            views(parts@) == split_s(query@, '&'),
            query_parts(split_s(query@, '&'), 0) == query_parts(split_s(query@, '&'), i as int),
        decreases parts.len() - i,
    {
        let p = &parts[i];
        assert(views(parts@)[i as int] == p@);
        match find_char(p, '=') {
            Some(e) => {
                let k = sub_vec(p, 0, e);
                let v = sub_vec(p, e + 1, p.len());
                assert(k@ =~= p@.take(e as int));
                assert(v@ =~= p@.skip(e + 1));
                if (eq_str(&k, "id") || eq_str(&k, "path") || eq_str(&k, "hint") || eq_str(&k, "code")
                    || eq_str(&k, "q")) && v.len() > 0 {
                    return Some(string_of(&v));
                }
            },
            None => {
                if p.len() > 0 {
                    return Some(string_of(p));
                }
            },
        }
        i = i + 1;
    }
    None
}

/// Parse `multiplexer://pair`, `multiplexer://session?id=x`,
/// `multiplexer://open?path=y`.
pub fn parse_deep_link(raw: &str) -> (r: Option<DeepLink>)
    ensures
        match r {
            Some(l) => deep_link_spec(raw@) == Some(link_view(l)),
            None => deep_link_spec(raw@) is None,
        },
{
    let t = trim_vec(&chars_of(raw));
    if !starts_with_str(&t, "multiplexer://") {
        return None;
    }
    proof {
        reveal_strlit("multiplexer://");
    }
    let rest = sub_vec(&t, 14, t.len());
    assert(rest@ =~= t@.skip(14));
    if rest.len() == 0 {
        return None;
    }
    let (kind_raw, query) = match find_char(&rest, '?') {
        Some(q) => {
            let a = sub_vec(&rest, 0, q);
            let b = sub_vec(&rest, q + 1, rest.len());
            assert(a@ =~= rest@.take(q as int));
            assert(b@ =~= rest@.skip(q + 1));
            (a, b)
        },
        None => {
            let a = sub_vec(&rest, 0, rest.len());
            assert(a@ =~= rest@);
            (a, Vec::new())
        },
    };
    let mut k = trim_vec(&kind_raw);
    while k.len() > 0 && k[k.len() - 1] == '/'
        invariant
            drop_trail(k@, '/') == drop_trail(trim_s(kind_raw@), '/'),
        decreases k.len(),
    {
        k.pop();
    }
    let kind = lower_vec(&k);
    let value = query_value(&query);
    if eq_str(&kind, "pair") {
        Some(DeepLink::Pair { hint: value })
    } else if eq_str(&kind, "session") {
        Some(DeepLink::Session { id: value })
    } else if eq_str(&kind, "open") {
        Some(DeepLink::Open { path: value })
    } else {
        None
    }
}

/// About box. Updates stay `not shipped`.
#[derive(Debug, Clone, PartialEq, Eq)]
pub struct AboutInfo {
    pub version: String,
    pub sha: String,
    pub license: String,
    pub grok_path: String,
    pub updates: String,
}

/// Version shown in the About box.
pub const APP_VERSION: &'static str = "0.1.0";

/// About box for a detected (or missing) `grok`.
pub fn about_info(grok_path: Option<&str>) -> (a: AboutInfo)
    ensures
        a.version@ == APP_VERSION@,
        a.sha@ == "dev"@,
        a.license@ == "Apache-2.0"@,
        a.updates@ == "not shipped"@,
        a.grok_path@ == (match grok_path {
            Some(g) => if trim_s(g@).len() > 0 {
                trim_s(g@)
            } else {
                "grok (not detected)"@
            },
            None => "grok (not detected)"@,
        }),
{
    let gp = match grok_path {
        Some(g) => {
            let t = trim_vec(&chars_of(g));
            if t.len() > 0 {
                string_of(&t)
            } else {
                "grok (not detected)".to_owned()
            }
        },
        None => "grok (not detected)".to_owned(),
    };
    AboutInfo {
        version: APP_VERSION.to_owned(),
        sha: "dev".to_owned(),
        license: "Apache-2.0".to_owned(),
        grok_path: gp,
        updates: "not shipped".to_owned(),
    }
}

impl AboutInfo {
    pub fn lines(&self) -> (r: String)
        ensures
            r@ == "Multiplexer "@ + self.version@ + "\nSHA "@ + self.sha@ + "\n"@ + self.license@
                + "\ngrok "@ + self.grok_path@ + "\nUpdates: "@ + self.updates@,
    {
        let mut v: Vec<char> = Vec::new();
        append_str(&mut v, "Multiplexer ");
        append_str(&mut v, self.version.as_str());
        append_str(&mut v, "\nSHA ");
        append_str(&mut v, self.sha.as_str());
        append_str(&mut v, "\n");
        append_str(&mut v, self.license.as_str());
        append_str(&mut v, "\ngrok ");
        append_str(&mut v, self.grok_path.as_str());
        append_str(&mut v, "\nUpdates: ");
        append_str(&mut v, self.updates.as_str());
        let r = string_of(&v);
        assert(r@ =~= "Multiplexer "@ + self.version@ + "\nSHA "@ + self.sha@ + "\n"@
            + self.license@ + "\ngrok "@ + self.grok_path@ + "\nUpdates: "@ + self.updates@);
        r
    }
}

pub fn first_run_keychain_notice() -> (r: &'static str)
    ensures
        r@ == "Secrets stay in the OS keychain. Multiplexer never asks you to type a key here."@,
{
    "Secrets stay in the OS keychain. Multiplexer never asks you to type a key here."
}

pub fn crash_restore_notice() -> (r: &'static str)
    ensures
        r@ == "Restored chats and drafts. Files and checkpoints were not replayed."@,
{
    "Restored chats and drafts. Files and checkpoints were not replayed."
}

/// File name of the app-data folder, the first-run flag and the crash
/// journal.
pub const APPDATA_DIR_NAME: &'static str = "Multiplexer";
pub const FIRST_RUN_FILE: &'static str = "first-run.json";
pub const CRASH_FILE: &'static str = "crash-journal.json";

pub open spec fn safe_char(c: char) -> char {
    if is_ascii_alnum(c) || c == '-' || c == '_' {
        c
    } else {
        '_'
    }
}

/// File name of a project's saved layout: its leaf name with every char
/// other than ASCII letters, digits, `-` and `_` made `_`, then `.json`
/// (`workspace.json` for an empty name).
pub open spec fn layout_file(project: Seq<char>) -> Seq<char> {
    let safe = leaf_spec(project).map_values(|c: char| safe_char(c));
    (if safe.len() == 0 {
        "workspace"@
    } else {
        safe
    }) + ".json"@
}

/// File name of the saved layout of `project` (under `layouts/`).
pub fn layout_file_name(project: &str) -> (r: String)
    ensures
        r@ == layout_file(project@),
{
    let key = chars_of(leaf_name(project).as_str());
    let mut safe: Vec<char> = Vec::new();
    let mut i: usize = 0;
    while i < key.len()
        invariant
            i <= key.len(),
            safe@ == key@.take(i as int).map_values(|c: char| safe_char(c)),
        decreases key.len() - i,
    {
        let c = key[i];
        let s = if ('a' <= c && c <= 'z') || ('A' <= c && c <= 'Z') || ('0' <= c && c <= '9')
            || c == '-' || c == '_' {
            c
        } else {
            '_'
        };
        safe.push(s);
        assert(safe@ =~= key@.take(i + 1).map_values(|c: char| safe_char(c)));
        i = i + 1;
    }
    assert(key@.take(key.len() as int) =~= key@);
    if safe.len() == 0 {
        append_str(&mut safe, "workspace");
    }
    append_str(&mut safe, ".json");
    string_of(&safe)
}

/// The rail visibility a saved name stands for; unknown names read as open.
pub open spec fn rail_of(name: Seq<char>) -> RailVis {
    if name == "icon"@ {
        RailVis::IconRail
    } else if name == "hidden"@ {
        RailVis::Hidden
    } else {
        RailVis::Open
    }
}

/// The name a rail visibility is saved under.
pub open spec fn rail_text(v: RailVis) -> Seq<char> {
    match v {
        RailVis::Open => "open"@,
        RailVis::IconRail => "icon"@,
        RailVis::Hidden => "hidden"@,
    }
}

/// Rail visibility from its saved name; unknown names read as open.
pub fn parse_rail(name: &str) -> (r: RailVis)
    ensures
        r == rail_of(name@),
{
    let n = chars_of(name);
    if eq_str(&n, "icon") {
        RailVis::IconRail
    } else if eq_str(&n, "hidden") {
        RailVis::Hidden
    } else {
        RailVis::Open
    }
}

/// The name a rail visibility is saved under.
pub fn rail_name(v: RailVis) -> (r: String)
    ensures
        r@ == rail_text(v),
{
    match v {
        RailVis::Open => "open".to_owned(),
        RailVis::IconRail => "icon".to_owned(),
        RailVis::Hidden => "hidden".to_owned(),
    }
}

/// Reading back a saved rail name gives the visibility that was saved.
pub proof fn law_rail_name_roundtrip(v: RailVis)
    ensures
        rail_of(rail_text(v)) == v,
{
    reveal_strlit("open");
    reveal_strlit("icon");
    reveal_strlit("hidden");
    assert("open"@.len() == 4);
    assert("icon"@.len() == 4);
    assert("hidden"@.len() == 6);
    assert("open"@[0] == 'o');
    assert("icon"@[0] == 'i');
}

/// The first-run flag file says the first run is done.
pub fn first_run_done_in(raw: &str) -> (r: bool)
    ensures
        r == (contains_s(raw@, "\"done\":true"@) || contains_s(raw@, "\"done\": true"@)),
{
    let v = chars_of(raw);
    contains(&v, &chars_of("\"done\":true")) || contains(&v, &chars_of("\"done\": true"))
}

/// Threads plus drafts. The marker means a crash restore is pending.
#[derive(Debug, Clone, PartialEq, Eq)]
pub struct CrashJournal {
    pub threads: Vec<CrashThread>,
    pub drafts: Vec<(String, String, usize)>,
    pub marker: bool,
}

#[derive(Debug, Clone, PartialEq, Eq)]
pub struct CrashThread {
    pub id: String,
    pub title: String,
    pub status: String,
    pub model: String,
    pub messages: Vec<(String, String)>,
}

impl Default for CrashJournal {
    fn default() -> (j: Self)
        ensures
            j.threads@.len() == 0,
            j.drafts@.len() == 0,
            !j.marker,
    {
        CrashJournal { threads: Vec::new(), drafts: Vec::new(), marker: false }
    }
}

/// What `apply_deep_link` does to the workspace and what it answers.
pub open spec fn deep_link_step(old: Workspace, new: Workspace, link: LinkV, note: Seq<char>) -> bool {
    match link {
        LinkV::Pair(_) => {
            &&& note == "Device exchange later"@
            &&& notice_views(new.notices@) == capped(
                notice_views(old.notices@).push(
                    NoticeV {
                        id: old.next_notice,
                        kind: NoticeKind::Info,
                        text: "Device exchange later. Pairing is a stub."@,
                    },
                ),
            )
            &&& new == (Workspace {
                notices: new.notices,
                next_notice: (old.next_notice + 1) as u64,
                ..old
            })
        },
        LinkV::Session(Some(id)) => {
            let k = thread_index(old.threads@, id, 0);
            if k < old.threads@.len() {
                note == "opened thread "@ + id && new == (Workspace { selected: k as usize, ..old })
            } else {
                &&& note == "session id noted "@ + id
                &&& new.connection matches ConnectionState::Connected { session_ids } && strs(
                    session_ids@,
                ) == seq![id]
                &&& new == (Workspace { connection: new.connection, ..old })
            }
        },
        LinkV::Session(None) => note == "session link missing id"@ && new == old,
        LinkV::Open(Some(path)) => {
            &&& note == "open "@ + path
            &&& strs(old.files@).contains(path) ==> (new.selected_file matches Some(f) && f@
                == path)
            &&& !strs(old.files@).contains(path) ==> new.selected_file == old.selected_file
            &&& new == (Workspace {
                selected_file: new.selected_file,
                left_section: LeftSection::Files,
                ..old
            })
        },
        LinkV::Open(None) => note == "open link missing path"@ && new == old,
    }
}

/// Apply a deep link. Pairing is an honest stub until a relay exists.
pub fn apply_deep_link(ws: &mut Workspace, link: &DeepLink) -> (note: String)
    requires
        link is Pair ==> old(ws).next_notice < u64::MAX,
    ensures
        deep_link_step(*old(ws), *final(ws), link_view(*link), note@),
{
    match link {
        DeepLink::Pair { .. } => {
            ws.push_notice(NoticeKind::Info, "Device exchange later. Pairing is a stub.".to_owned());
            "Device exchange later".to_owned()
        },
        DeepLink::Session { id } => match id {
            Some(id) => {
                if ws.select_thread_id(id.as_str()) {
                    let mut v = chars_of("opened thread ");
                    append_str(&mut v, id.as_str());
                    string_of(&v)
                } else {
                    let mut ids: Vec<String> = Vec::new();
                    ids.push(id.clone());
                    assert(strs(ids@) =~= seq![id@]);
                    ws.connect(ids);
                    let mut v = chars_of("session id noted ");
                    append_str(&mut v, id.as_str());
                    string_of(&v)
                }
            },
            None => "session link missing id".to_owned(),
        },
        DeepLink::Open { path } => match path {
            Some(path) => {
                let _ = ws.select_file(path.as_str());
                let _ = ws.select_left_section(LeftSection::Files);
                let mut v = chars_of("open ");
                append_str(&mut v, path.as_str());
                string_of(&v)
            },
            None => "open link missing path".to_owned(),
        },
    }
}

pub open spec fn role_word(r: Role) -> Seq<char> {
    match r {
        Role::User => "user"@,
        Role::Assistant => "assistant"@,
    }
}

/// `c` is the journal entry of thread `t`.
pub open spec fn journals_thread(c: CrashThread, t: Thread) -> bool {
    &&& c.id@ == t.id@
    &&& c.title@ == t.title@
    &&& c.status@ == t.status@
    &&& c.model@ == t.model@
    &&& c.messages@.len() == t.messages@.len()
    &&& forall|k: int|
        0 <= k < c.messages@.len() ==> (#[trigger] c.messages@[k]).0@ == role_word(
            t.messages@[k].role,
        ) && c.messages@[k].1@ == t.messages@[k].text@
}

/// Each thread with its transcript, the saved drafts, and the marker set.
pub fn journal_from_workspace(ws: &Workspace) -> (j: CrashJournal)
    ensures
        j.marker,
        j.threads@.len() == ws.threads@.len(),
        forall|i: int| 0 <= i < j.threads@.len() ==> journals_thread(#[trigger] j.threads@[i], ws.threads@[i]),
        j.drafts@.len() == ws.thread_drafts@.len(),
        forall|i: int|
            0 <= i < j.drafts@.len() ==> (#[trigger] j.drafts@[i]).0@ == ws.thread_drafts@[i].0@
                && j.drafts@[i].1@ == ws.thread_drafts@[i].1@ && j.drafts@[i].2
                == ws.thread_drafts@[i].2,
{
    let mut threads: Vec<CrashThread> = Vec::new();
    let mut i: usize = 0;
    while i < ws.threads.len()
        invariant
            i <= ws.threads@.len(),
            threads@.len() == i,
            forall|k: int| 0 <= k < i ==> journals_thread(#[trigger] threads@[k], ws.threads@[k]),
        decreases ws.threads@.len() - i,
    {
        let t = &ws.threads[i];
        let mut msgs: Vec<(String, String)> = Vec::new();
        let mut k: usize = 0;
        while k < t.messages.len()
            invariant
                k <= t.messages@.len(),
                msgs@.len() == k,
                forall|q: int|
                    0 <= q < k ==> (#[trigger] msgs@[q]).0@ == role_word(t.messages@[q].role)
                        && msgs@[q].1@ == t.messages@[q].text@,
            decreases t.messages@.len() - k,
        {
            let m = &t.messages[k];
            let role: &str = match m.role {
                Role::User => "user",
                Role::Assistant => "assistant",
            };
            msgs.push((role.to_owned(), m.text.clone()));
            k = k + 1;
        }
        threads.push(
            CrashThread {
                id: t.id.clone(),
                title: t.title.clone(),
                status: t.status.clone(),
                model: t.model.clone(),
                messages: msgs,
            },
        );
        i = i + 1;
    }
    let mut drafts: Vec<(String, String, usize)> = Vec::new();
    let mut d: usize = 0;
    while d < ws.thread_drafts.len()
        invariant
            d <= ws.thread_drafts@.len(),
            drafts@.len() == d,
            forall|q: int|
                0 <= q < d ==> (#[trigger] drafts@[q]).0@ == ws.thread_drafts@[q].0@
                    && drafts@[q].1@ == ws.thread_drafts@[q].1@ && drafts@[q].2
                    == ws.thread_drafts@[q].2,
        decreases ws.thread_drafts@.len() - d,
    {
        let e = &ws.thread_drafts[d];
        drafts.push((e.0.clone(), e.1.clone(), e.2));
        d = d + 1;
    }
    CrashJournal { threads, drafts, marker: true }
}

pub struct CrashThreadV {
    pub id: Seq<char>,
    pub title: Seq<char>,
    pub status: Seq<char>,
    pub model: Seq<char>,
    pub messages: Seq<(Seq<char>, Seq<char>)>,
}

pub struct JournalV {
    pub threads: Seq<CrashThreadV>,
    pub drafts: Seq<(Seq<char>, Seq<char>, usize)>,
    pub marker: bool,
}

pub open spec fn crash_thread_view(t: CrashThread) -> CrashThreadV {
    CrashThreadV {
        id: t.id@,
        title: t.title@,
        status: t.status@,
        model: t.model@,
        messages: message_views(t.messages@),
    }
}

pub open spec fn journal_view(j: CrashJournal) -> JournalV {
    JournalV {
        threads: j.threads@.map_values(|t: CrashThread| crash_thread_view(t)),
        drafts: j.drafts@.map_values(|d: (String, String, usize)| (d.0@, d.1@, d.2)),
        marker: j.marker,
    }
}

pub open spec fn or_text(o: Option<Seq<char>>, d: Seq<char>) -> Seq<char> {
    match o {
        Some(s) => s,
        None => d,
    }
}

/// A transcript entry: an array of exactly two strings, role and text.
pub open spec fn journal_message(e: Map<Seq<char>, Node>) -> Option<(Seq<char>, Seq<char>)> {
    match as_array_s(e) {
        Some(p) => if p.len() == 2 {
            match (as_str_s(p[0]), as_str_s(p[1])) {
                (Some(r), Some(t)) => Some((r, t)),
                _ => None,
            }
        } else {
            None
        },
        None => None,
    }
}

/// A thread entry: kept when it has a non-empty id; missing fields default.
pub open spec fn journal_thread(item: Map<Seq<char>, Node>) -> Option<CrashThreadV> {
    let id = or_text(get_str_s(item, "id"@), Seq::empty());
    if id.len() == 0 {
        None
    } else {
        Some(
            CrashThreadV {
                id,
                title: or_text(get_str_s(item, "title"@), "New chat"@),
                status: or_text(get_str_s(item, "status"@), "idle"@),
                model: or_text(get_str_s(item, "model"@), "grok"@),
                messages: journal_messages(item),
            },
        )
    }
}

/// A draft entry: an array starting with two strings (thread id, text)
/// and an optional cursor.
pub open spec fn journal_draft(item: Map<Seq<char>, Node>) -> Option<(Seq<char>, Seq<char>, usize)> {
    match as_array_s(item) {
        Some(p) => if p.len() >= 2 {
            match (as_str_s(p[0]), as_str_s(p[1])) {
                (Some(id), Some(t)) => Some(
                    (
                        id,
                        t,
                        (if p.len() > 2 {
                            match as_u64_s(p[2]) {
                                Some(c) => c,
                                None => 0,
                            }
                        } else {
                            0
                        }) as usize,
                    ),
                ),
                _ => None,
            }
        } else {
            None
        },
        None => None,
    }
}

/// The journal a parsed document describes.
pub open spec fn journal_of(m: Map<Seq<char>, Node>) -> JournalV {
    JournalV {
        threads: match get_array_s(m, "threads"@) {
            Some(items) => keep_some(items, |e: Map<Seq<char>, Node>| journal_thread(e)),
            None => seq![],
        },
        drafts: match get_array_s(m, "drafts"@) {
            Some(items) => keep_some(items, |e: Map<Seq<char>, Node>| journal_draft(e)),
            None => seq![],
        },
        marker: match get_bool_s(m, "marker"@) {
            Some(b) => b,
            None => false,
        },
    }
}

/// The journal `raw` holds; the empty journal when it is not JSON.
pub open spec fn journal_spec(raw: Seq<char>) -> JournalV {
    match json_parse(raw) {
        Some(m) => journal_of(m),
        None => JournalV { threads: seq![], drafts: seq![], marker: false },
    }
}

fn journal_message_exec(e: &serde_json::Value) -> (r: Option<(String, String)>)
    ensures
        match r {
            Some(p) => journal_message(json_nodes(*e)) == Some((p.0@, p.1@)),
            None => journal_message(json_nodes(*e)) is None,
        },
{
    match value_as_array(e) {
        Some(pair) => {
            if pair.len() == 2 {
                match (value_as_str(&pair[0]), value_as_str(&pair[1])) {
                    (Some(r), Some(t)) => Some((r.to_owned(), t.to_owned())),
                    _ => None,
                }
            } else {
                None
            }
        },
        None => None,
    }
}

pub open spec fn message_views(v: Seq<(String, String)>) -> Seq<(Seq<char>, Seq<char>)> {
    v.map_values(|m: (String, String)| (m.0@, m.1@))
}

pub open spec fn journal_messages(item: Map<Seq<char>, Node>) -> Seq<(Seq<char>, Seq<char>)> {
    match get_array_s(item, "messages"@) {
        Some(ms) => keep_some(ms, |e: Map<Seq<char>, Node>| journal_message(e)),
        None => seq![],
    }
}

fn journal_messages_exec(item: &serde_json::Value) -> (r: Vec<(String, String)>)
    ensures
        message_views(r@) == journal_messages(json_nodes(*item)),
{
    let mut messages: Vec<(String, String)> = Vec::new();
    let ghost f = |e: Map<Seq<char>, Node>| journal_message(e);
    match get_array(item, "messages") {
        Some(msgs) => {
            let ghost ms = get_array_s(json_nodes(*item), "messages"@)->Some_0;
            let mut k: usize = 0;
            while k < msgs.len()
                invariant
                    k <= msgs@.len(),
                    ms.len() == msgs@.len(),
                    forall|i: int| 0 <= i < ms.len() ==> #[trigger] ms[i] == json_nodes(msgs@[i]),
                    f == (|e: Map<Seq<char>, Node>| journal_message(e)),
                    message_views(messages@) == keep_some(ms.take(k as int), f),
                decreases msgs@.len() - k,
            {
                proof {
                    lemma_keep_some_step(ms, f, k as int);
                }
                let ghost before = messages@;
                let got = journal_message_exec(&msgs[k]);
                assert(f(ms[k as int]) == journal_message(json_nodes(msgs@[k as int])));
                match got {
                    Some(p) => {
                        messages.push(p);
                        assert(message_views(messages@) =~= message_views(before).push((p.0@, p.1@)));
                        assert(keep_some(ms.take(k + 1), f) =~= keep_some(ms.take(k as int), f).push((p.0@, p.1@)));
                    },
                    None => {
                        assert(keep_some(ms.take(k + 1), f) =~= keep_some(ms.take(k as int), f));
                    },
                }
                k = k + 1;
            }
            assert(ms.take(ms.len() as int) =~= ms);
        },
        None => {
            assert(message_views(messages@) =~= Seq::<(Seq<char>, Seq<char>)>::empty());
        },
    }
    messages
}

fn journal_thread_exec(item: &serde_json::Value) -> (r: Option<CrashThread>)
    ensures
        match r {
            Some(t) => journal_thread(json_nodes(*item)) == Some(crash_thread_view(t)),
            None => journal_thread(json_nodes(*item)) is None,
        },
{
    let id = match get_str(item, "id") {
        Some(s) => s.to_owned(),
        None => String::new(),
    };
    if chars_of(id.as_str()).len() == 0 {
        return None;
    }
    let messages = journal_messages_exec(item);
    let title = match get_str(item, "title") {
        Some(s) => s.to_owned(),
        None => "New chat".to_owned(),
    };
    let status = match get_str(item, "status") {
        Some(s) => s.to_owned(),
        None => "idle".to_owned(),
    };
    let model = match get_str(item, "model") {
        Some(s) => s.to_owned(),
        None => "grok".to_owned(),
    };
    let t = CrashThread { id, title, status, model, messages };
    assert(crash_thread_view(t).messages == journal_messages(json_nodes(*item)));
    Some(t)
}

fn journal_draft_exec(item: &serde_json::Value) -> (r: Option<(String, String, usize)>)
    ensures
        match r {
            Some(d) => journal_draft(json_nodes(*item)) == Some((d.0@, d.1@, d.2)),
            None => journal_draft(json_nodes(*item)) is None,
        },
{
    match value_as_array(item) {
        Some(pair) => {
            if pair.len() >= 2 {
                match (value_as_str(&pair[0]), value_as_str(&pair[1])) {
                    (Some(id), Some(text)) => {
                        let cur: u64 = if pair.len() > 2 {
                            match value_as_u64(&pair[2]) {
                                Some(c) => c,
                                None => 0,
                            }
                        } else {
                            0
                        };
                        Some((id.to_owned(), text.to_owned(), cur as usize))
                    },
                    _ => None,
                }
            } else {
                None
            }
        },
        None => None,
    }
}

/// The journal a parsed document describes: threads with a non-empty id
/// (title, status and model defaulting to "New chat", "idle" and "grok";
/// transcript entries that are not two strings dropped), drafts that start
/// with two strings (cursor defaulting to 0), and the marker (false when
/// absent).
pub fn crash_journal_from_value(v: &serde_json::Value) -> (j: CrashJournal)
    ensures
        journal_view(j) == journal_of(json_nodes(*v)),
{
    let mut threads: Vec<CrashThread> = Vec::new();
    let ghost ft = |e: Map<Seq<char>, Node>| journal_thread(e);
    match get_array(v, "threads") {
        Some(arr) => {
            let ghost items = get_array_s(json_nodes(*v), "threads"@)->Some_0;
            let mut k: usize = 0;
            while k < arr.len()
                invariant
                    k <= arr@.len(),
                    items.len() == arr@.len(),
                    forall|i: int| 0 <= i < items.len() ==> #[trigger] items[i] == json_nodes(arr@[i]),
                    ft == (|e: Map<Seq<char>, Node>| journal_thread(e)),
                    threads@.map_values(|t: CrashThread| crash_thread_view(t)) == keep_some(
                        items.take(k as int),
                        ft,
                    ),
                decreases arr@.len() - k,
            {
                proof {
                    lemma_keep_some_step(items, ft, k as int);
                }
                let ghost before = threads@;
                let got = journal_thread_exec(&arr[k]);
                assert(ft(items[k as int]) == journal_thread(json_nodes(arr@[k as int])));
                match got {
                    Some(t) => {
                        threads.push(t);
                        assert(threads@.map_values(|t: CrashThread| crash_thread_view(t)) =~= before.map_values(
                            |t: CrashThread| crash_thread_view(t),
                        ).push(crash_thread_view(t)));
                        assert(keep_some(items.take(k + 1), ft) =~= keep_some(items.take(k as int), ft).push(crash_thread_view(t)));
                    },
                    None => {
                        assert(keep_some(items.take(k + 1), ft) =~= keep_some(items.take(k as int), ft));
                    },
                }
                k = k + 1;
            }
            assert(items.take(items.len() as int) =~= items);
        },
        None => {
            assert(threads@.map_values(|t: CrashThread| crash_thread_view(t)) =~= Seq::<CrashThreadV>::empty());
        },
    }
    let mut drafts: Vec<(String, String, usize)> = Vec::new();
    let ghost fd = |e: Map<Seq<char>, Node>| journal_draft(e);
    match get_array(v, "drafts") {
        Some(arr) => {
            let ghost items = get_array_s(json_nodes(*v), "drafts"@)->Some_0;
            let mut k: usize = 0;
            while k < arr.len()
                invariant
                    k <= arr@.len(),
                    items.len() == arr@.len(),
                    forall|i: int| 0 <= i < items.len() ==> #[trigger] items[i] == json_nodes(arr@[i]),
                    fd == (|e: Map<Seq<char>, Node>| journal_draft(e)),
                    drafts@.map_values(|d: (String, String, usize)| (d.0@, d.1@, d.2)) == keep_some(
                        items.take(k as int),
                        fd,
                    ),
                decreases arr@.len() - k,
            {
                proof {
                    lemma_keep_some_step(items, fd, k as int);
                }
                let ghost before = drafts@;
                let got = journal_draft_exec(&arr[k]);
                assert(fd(items[k as int]) == journal_draft(json_nodes(arr@[k as int])));
                match got {
                    Some(d) => {
                        drafts.push(d);
                        assert(drafts@.map_values(|d: (String, String, usize)| (d.0@, d.1@, d.2)) =~= before.map_values(
                            |d: (String, String, usize)| (d.0@, d.1@, d.2),
                        ).push((d.0@, d.1@, d.2)));
                        assert(keep_some(items.take(k + 1), fd) =~= keep_some(items.take(k as int), fd).push((d.0@, d.1@, d.2)));
                    },
                    None => {
                        assert(keep_some(items.take(k + 1), fd) =~= keep_some(items.take(k as int), fd));
                    },
                }
                k = k + 1;
            }
            assert(items.take(items.len() as int) =~= items);
        },
        None => {
            assert(drafts@.map_values(|d: (String, String, usize)| (d.0@, d.1@, d.2)) =~= Seq::<(Seq<char>, Seq<char>, usize)>::empty());
        },
    }
    let marker = match get_bool(v, "marker") {
        Some(b) => b,
        None => false,
    };
    CrashJournal { threads, drafts, marker }
}

/// The journal held by the JSON text `raw`; the empty journal when `raw`
/// is not JSON.
pub fn crash_journal_from_json(raw: &str) -> (j: CrashJournal)
    ensures
        journal_view(j) == journal_spec(raw@),
{
    match parse_value(raw) {
        Some(v) => crash_journal_from_value(&v),
        None => {
            let j = CrashJournal::default();
            assert(j.threads@.map_values(|t: CrashThread| crash_thread_view(t)) =~= Seq::<CrashThreadV>::empty());
            assert(j.drafts@.map_values(|d: (String, String, usize)| (d.0@, d.1@, d.2)) =~= Seq::<(Seq<char>, Seq<char>, usize)>::empty());
            j
        },
    }
}

pub open spec fn str_leaf(s: Seq<char>) -> Map<Seq<char>, Node> {
    leaf(Node::Str(s))
}

/// A transcript entry as a document: `[role, text]`.
pub open spec fn message_doc(m: (Seq<char>, Seq<char>)) -> Map<Seq<char>, Node> {
    arr_nodes(seq![str_leaf(m.0), str_leaf(m.1)])
}

/// A thread as a document.
pub open spec fn thread_doc(t: CrashThreadV) -> Map<Seq<char>, Node> {
    obj_nodes(
        seq![
            ("id"@, str_leaf(t.id)),
            ("messages"@, arr_nodes(t.messages.map_values(|m: (Seq<char>, Seq<char>)| message_doc(m)))),
            ("model"@, str_leaf(t.model)),
            ("status"@, str_leaf(t.status)),
            ("title"@, str_leaf(t.title)),
        ],
    )
}

/// A draft as a document: `[thread id, text, cursor]`.
pub open spec fn draft_doc(d: (Seq<char>, Seq<char>, usize)) -> Map<Seq<char>, Node> {
    arr_nodes(seq![str_leaf(d.0), str_leaf(d.1), leaf(Node::Num(Some(d.2 as u64)))])
}

/// The journal as a document.
pub open spec fn journal_doc(j: JournalV) -> Map<Seq<char>, Node> {
    obj_nodes(
        seq![
            ("drafts"@, arr_nodes(j.drafts.map_values(|d: (Seq<char>, Seq<char>, usize)| draft_doc(d)))),
            ("marker"@, leaf(Node::Bool(j.marker))),
            ("threads"@, arr_nodes(j.threads.map_values(|t: CrashThreadV| thread_doc(t)))),
        ],
    )
}

fn string_value(s: &String) -> (r: serde_json::Value)
    ensures
        json_nodes(r) == str_leaf(s@),
{
    value_string(s.clone())
}

fn message_value(m: &(String, String)) -> (r: serde_json::Value)
    ensures
        json_nodes(r) == message_doc((m.0@, m.1@)),
{
    let mut items: Vec<serde_json::Value> = Vec::new();
    items.push(string_value(&m.0));
    items.push(string_value(&m.1));
    let r = value_array(items);
    assert(items@.map_values(|v: serde_json::Value| json_nodes(v)) =~= seq![str_leaf(m.0@), str_leaf(m.1@)]);
    r
}

fn thread_value(t: &CrashThread) -> (r: serde_json::Value)
    ensures
        json_nodes(r) == thread_doc(crash_thread_view(*t)),
{
    let ghost tv = crash_thread_view(*t);
    let ghost docs = tv.messages.map_values(|m: (Seq<char>, Seq<char>)| message_doc(m));
    let mut items: Vec<serde_json::Value> = Vec::new();
    let mut k: usize = 0;
    while k < t.messages.len()
        invariant
            k <= t.messages@.len(),
            tv == crash_thread_view(*t),
            docs == tv.messages.map_values(|m: (Seq<char>, Seq<char>)| message_doc(m)),
            items@.map_values(|v: serde_json::Value| json_nodes(v)) == docs.take(k as int),
        decreases t.messages@.len() - k,
    {
        let v = message_value(&t.messages[k]);
        assert(tv.messages[k as int] == (t.messages@[k as int].0@, t.messages@[k as int].1@));
        assert(docs[k as int] == json_nodes(v));
        let ghost before = items@;
        items.push(v);
        assert(items@.map_values(|v: serde_json::Value| json_nodes(v)) =~= before.map_values(
            |v: serde_json::Value| json_nodes(v),
        ).push(json_nodes(v)));
        assert(docs.take(k + 1) =~= docs.take(k as int).push(docs[k as int]));
        k = k + 1;
    }
    assert(docs.take(docs.len() as int) =~= docs);
    let msgs = value_array(items);
    let mut o = value_object();
    let ghost ms = seq![
        ("id"@, str_leaf(tv.id)),
        ("messages"@, arr_nodes(docs)),
        ("model"@, str_leaf(tv.model)),
        ("status"@, str_leaf(tv.status)),
        ("title"@, str_leaf(tv.title)),
    ];
    proof {
        lemma_keys_plain5();
        lemma_leaf(Node::Obj);
        assert(ms.take(0) =~= Seq::<(Seq<char>, Map<Seq<char>, Node>)>::empty());
    }
    object_insert(&mut o, "id", string_value(&t.id));
    proof {
        lemma_obj_step(ms, 0);
        lemma_root_put(obj_nodes(ms.take(0)), "id"@, str_leaf(tv.id));
    }
    object_insert(&mut o, "messages", msgs);
    proof {
        lemma_obj_step(ms, 1);
        lemma_root_put(obj_nodes(ms.take(1)), "messages"@, arr_nodes(docs));
    }
    object_insert(&mut o, "model", string_value(&t.model));
    proof {
        lemma_obj_step(ms, 2);
        lemma_root_put(obj_nodes(ms.take(2)), "model"@, str_leaf(tv.model));
    }
    object_insert(&mut o, "status", string_value(&t.status));
    proof {
        lemma_obj_step(ms, 3);
        lemma_root_put(obj_nodes(ms.take(3)), "status"@, str_leaf(tv.status));
    }
    object_insert(&mut o, "title", string_value(&t.title));
    proof {
        lemma_obj_step(ms, 4);
        assert(ms.take(5) =~= ms);
    }
    o
}


fn draft_value(d: &(String, String, usize)) -> (r: serde_json::Value)
    ensures
        json_nodes(r) == draft_doc((d.0@, d.1@, d.2)),
{
    let mut items: Vec<serde_json::Value> = Vec::new();
    items.push(string_value(&d.0));
    items.push(string_value(&d.1));
    items.push(value_u64(d.2 as u64));
    let r = value_array(items);
    assert(items@.map_values(|v: serde_json::Value| json_nodes(v)) =~= seq![
        str_leaf(d.0@),
        str_leaf(d.1@),
        leaf(Node::Num(Some(d.2 as u64))),
    ]);
    r
}

/// The journal as a JSON document.
fn crash_journal_value(j: &CrashJournal) -> (r: serde_json::Value)
    ensures
        json_nodes(r) == journal_doc(journal_view(*j)),
{
    let ghost jv = journal_view(*j);
    let ghost ddocs = jv.drafts.map_values(|d: (Seq<char>, Seq<char>, usize)| draft_doc(d));
    let mut ds: Vec<serde_json::Value> = Vec::new();
    let mut k: usize = 0;
    while k < j.drafts.len()
        invariant
            k <= j.drafts@.len(),
            jv == journal_view(*j),
            ddocs == jv.drafts.map_values(|d: (Seq<char>, Seq<char>, usize)| draft_doc(d)),
            ds@.map_values(|v: serde_json::Value| json_nodes(v)) == ddocs.take(k as int),
        decreases j.drafts@.len() - k,
    {
        let v = draft_value(&j.drafts[k]);
        assert(jv.drafts[k as int] == (j.drafts@[k as int].0@, j.drafts@[k as int].1@, j.drafts@[k as int].2));
        assert(ddocs[k as int] == json_nodes(v));
        let ghost before = ds@;
        ds.push(v);
        assert(ds@.map_values(|v: serde_json::Value| json_nodes(v)) =~= before.map_values(
            |v: serde_json::Value| json_nodes(v),
        ).push(json_nodes(v)));
        assert(ddocs.take(k + 1) =~= ddocs.take(k as int).push(ddocs[k as int]));
        k = k + 1;
    }
    assert(ddocs.take(ddocs.len() as int) =~= ddocs);
    let ghost tdocs = jv.threads.map_values(|t: CrashThreadV| thread_doc(t));
    let mut ts: Vec<serde_json::Value> = Vec::new();
    let mut m: usize = 0;
    while m < j.threads.len()
        invariant
            m <= j.threads@.len(),
            jv == journal_view(*j),
            tdocs == jv.threads.map_values(|t: CrashThreadV| thread_doc(t)),
            ts@.map_values(|v: serde_json::Value| json_nodes(v)) == tdocs.take(m as int),
        decreases j.threads@.len() - m,
    {
        let v = thread_value(&j.threads[m]);
        assert(jv.threads[m as int] == crash_thread_view(j.threads@[m as int]));
        assert(tdocs[m as int] == json_nodes(v));
        let ghost before = ts@;
        ts.push(v);
        assert(ts@.map_values(|v: serde_json::Value| json_nodes(v)) =~= before.map_values(
            |v: serde_json::Value| json_nodes(v),
        ).push(json_nodes(v)));
        assert(tdocs.take(m + 1) =~= tdocs.take(m as int).push(tdocs[m as int]));
        m = m + 1;
    }
    assert(tdocs.take(tdocs.len() as int) =~= tdocs);
    let dv = value_array(ds);
    let tv = value_array(ts);
    let mut o = value_object();
    let ghost ms = seq![
        ("drafts"@, arr_nodes(ddocs)),
        ("marker"@, leaf(Node::Bool(jv.marker))),
        ("threads"@, arr_nodes(tdocs)),
    ];
    proof {
        lemma_journal_keys();
        lemma_leaf(Node::Obj);
        assert(ms.take(0) =~= Seq::<(Seq<char>, Map<Seq<char>, Node>)>::empty());
    }
    object_insert(&mut o, "drafts", dv);
    proof {
        lemma_obj_step(ms, 0);
        lemma_root_put(obj_nodes(ms.take(0)), "drafts"@, arr_nodes(ddocs));
    }
    object_insert(&mut o, "marker", value_bool(j.marker));
    proof {
        lemma_obj_step(ms, 1);
        lemma_root_put(obj_nodes(ms.take(1)), "marker"@, leaf(Node::Bool(jv.marker)));
    }
    object_insert(&mut o, "threads", tv);
    proof {
        lemma_obj_step(ms, 2);
        assert(ms.take(3) =~= ms);
    }
    o
}

/// The journal as compact JSON text (`serde_json`'s writer).
pub fn crash_journal_to_json(j: &CrashJournal) -> (r: String)
    ensures
        json_parse(r@) == Some(journal_doc(journal_view(*j))),
{
    let v = crash_journal_value(j);
    proof {
        lemma_journal_doc(journal_view(*j));
    }
    value_text(&v)
}

proof fn lemma_str_leaf(s: Seq<char>)
    ensures
        rooted(str_leaf(s)),
        depth_at_most(str_leaf(s), 0),
        str_leaf(s).contains_key(Seq::empty()),
        as_str_s(str_leaf(s)) == Some(s),
{
    lemma_leaf(Node::Str(s));
}

/// Facts about the pieces of a journal document: rooted, shallow, and what
/// reading each piece back gives.
proof fn lemma_message_doc(m: (Seq<char>, Seq<char>))
    ensures
        rooted(message_doc(m)),
        message_doc(m).contains_key(Seq::empty()),
        depth_at_most(message_doc(m), 1),
        journal_message(message_doc(m)) == Some(m),
{
    lemma_str_leaf(m.0);
    lemma_str_leaf(m.1);
    let cs = seq![str_leaf(m.0), str_leaf(m.1)];
    lemma_arr(cs, 0);
    lemma_as_array(cs, 0);
}

proof fn lemma_draft_doc(d: (Seq<char>, Seq<char>, usize))
    ensures
        rooted(draft_doc(d)),
        draft_doc(d).contains_key(Seq::empty()),
        depth_at_most(draft_doc(d), 1),
        journal_draft(draft_doc(d)) == Some(d),
{
    lemma_str_leaf(d.0);
    lemma_str_leaf(d.1);
    lemma_leaf(Node::Num(Some(d.2 as u64)));
    let cs = seq![str_leaf(d.0), str_leaf(d.1), leaf(Node::Num(Some(d.2 as u64)))];
    lemma_arr(cs, 0);
    lemma_as_array(cs, 0);
}

proof fn lemma_thread_doc(t: CrashThreadV)
    requires
        t.id.len() > 0,
    ensures
        rooted(thread_doc(t)),
        thread_doc(t).contains_key(Seq::empty()),
        depth_at_most(thread_doc(t), 3),
        journal_thread(thread_doc(t)) == Some(t),
{
    reveal_strlit("id");
    reveal_strlit("messages");
    reveal_strlit("model");
    reveal_strlit("status");
    reveal_strlit("title");
    let docs = t.messages.map_values(|m: (Seq<char>, Seq<char>)| message_doc(m));
    assert forall|i: int| 0 <= i < docs.len() implies rooted(#[trigger] docs[i]) && depth_at_most(docs[i], 1)
        && journal_message(docs[i]) == Some(t.messages[i]) by {
        lemma_message_doc(t.messages[i]);
    }
    lemma_arr(docs, 1);
    lemma_as_array(docs, 1);
    lemma_keep_some_all(docs, |e: Map<Seq<char>, Node>| journal_message(e), t.messages);
    lemma_str_leaf(t.id);
    lemma_str_leaf(t.model);
    lemma_str_leaf(t.status);
    lemma_str_leaf(t.title);
    let ms = seq![
        ("id"@, str_leaf(t.id)),
        ("messages"@, arr_nodes(docs)),
        ("model"@, str_leaf(t.model)),
        ("status"@, str_leaf(t.status)),
        ("title"@, str_leaf(t.title)),
    ];
    lemma_keys_plain5();
    assert forall|i: int| 0 <= i < ms.len() implies depth_at_most(#[trigger] ms[i].1, 2) by {
        if i != 1 {
            assert(depth_at_most(ms[i].1, 0));
        }
    }
    lemma_obj(ms, 2);
    assert(ms[0].0 == "id"@);
    assert(ms[1].0 == "messages"@);
    assert(ms[2].0 == "model"@);
    assert(ms[3].0 == "status"@);
    assert(ms[4].0 == "title"@);
}

proof fn lemma_keys_plain5()
    ensures
        plain_key("id"@),
        plain_key("messages"@),
        plain_key("model"@),
        plain_key("status"@),
        plain_key("title"@),
        "id"@ != "messages"@,
        "id"@ != "model"@,
        "id"@ != "status"@,
        "id"@ != "title"@,
        "messages"@ != "model"@,
        "messages"@ != "status"@,
        "messages"@ != "title"@,
        "model"@ != "status"@,
        "model"@ != "title"@,
        "status"@ != "title"@,
{
    reveal_strlit("id");
    reveal_strlit("messages");
    reveal_strlit("model");
    reveal_strlit("status");
    reveal_strlit("title");
    assert("id"@.len() == 2);
    assert("messages"@.len() == 8);
    assert("model"@.len() == 5);
    assert("status"@.len() == 6);
    assert("title"@.len() == 5);
    assert("model"@[0] != "title"@[0]);
}

proof fn lemma_journal_keys()
    ensures
        plain_key("drafts"@),
        plain_key("marker"@),
        plain_key("threads"@),
        "drafts"@ != "marker"@,
        "drafts"@ != "threads"@,
        "marker"@ != "threads"@,
{
    reveal_strlit("drafts");
    reveal_strlit("marker");
    reveal_strlit("threads");
    assert("drafts"@.len() == 6);
    assert("marker"@.len() == 6);
    assert("threads"@.len() == 7);
    assert("drafts"@[0] != "marker"@[0]);
}

/// `put_member` keeps the root node.
proof fn lemma_root_put(m: Map<Seq<char>, Node>, t: Seq<char>, c: Map<Seq<char>, Node>)
    ensures
        root(put_member(m, t, c)) == root(m),
{
    assert(!under(Seq::<char>::empty(), t));
}

proof fn lemma_journal_doc(j: JournalV)
    ensures
        shallow(journal_doc(j)),
        (forall|i: int| 0 <= i < j.threads.len() ==> (#[trigger] j.threads[i]).id.len() > 0)
            ==> journal_of(journal_doc(j)) == j,
{
    reveal_strlit("drafts");
    reveal_strlit("marker");
    reveal_strlit("threads");
    lemma_journal_keys();
    let ddocs = j.drafts.map_values(|d: (Seq<char>, Seq<char>, usize)| draft_doc(d));
    let tdocs = j.threads.map_values(|t: CrashThreadV| thread_doc(t));
    assert forall|i: int| 0 <= i < ddocs.len() implies rooted(#[trigger] ddocs[i]) && depth_at_most(ddocs[i], 3)
        && journal_draft(ddocs[i]) == Some(j.drafts[i]) by {
        lemma_draft_doc(j.drafts[i]);
    }
    lemma_arr(ddocs, 3);
    lemma_as_array(ddocs, 3);
    lemma_keep_some_all(ddocs, |e: Map<Seq<char>, Node>| journal_draft(e), j.drafts);
    let ids_ok = forall|i: int| 0 <= i < j.threads.len() ==> (#[trigger] j.threads[i]).id.len() > 0;
    assert forall|i: int| 0 <= i < tdocs.len() implies rooted(#[trigger] tdocs[i]) && depth_at_most(tdocs[i], 3)
        && (ids_ok ==> journal_thread(tdocs[i]) == Some(j.threads[i])) by {
        let t = j.threads[i];
        if t.id.len() > 0 {
            lemma_thread_doc(t);
        } else {
            lemma_thread_shape(t);
        }
    }
    lemma_arr(tdocs, 3);
    lemma_as_array(tdocs, 3);
    if ids_ok {
        lemma_keep_some_all(tdocs, |e: Map<Seq<char>, Node>| journal_thread(e), j.threads);
    }
    lemma_leaf(Node::Bool(j.marker));
    let ms = seq![
        ("drafts"@, arr_nodes(ddocs)),
        ("marker"@, leaf(Node::Bool(j.marker))),
        ("threads"@, arr_nodes(tdocs)),
    ];
    assert forall|i: int| 0 <= i < ms.len() implies depth_at_most(#[trigger] ms[i].1, 4) by {
        if i == 1 {
            assert(depth_at_most(ms[i].1, 0));
        }
    }
    lemma_obj(ms, 4);
    assert(ms[0].0 == "drafts"@);
    assert(ms[1].0 == "marker"@);
    assert(ms[2].0 == "threads"@);
    let doc = journal_doc(j);
    assert(doc == obj_nodes(ms));
    assert forall|k: Seq<char>| #[trigger] doc.contains_key(k) implies slashes(k) <= 100 by {}
}

/// A thread document is rooted and shallow whatever its id.
proof fn lemma_thread_shape(t: CrashThreadV)
    ensures
        rooted(thread_doc(t)),
        depth_at_most(thread_doc(t), 3),
{
    let docs = t.messages.map_values(|m: (Seq<char>, Seq<char>)| message_doc(m));
    assert forall|i: int| 0 <= i < docs.len() implies rooted(#[trigger] docs[i]) && depth_at_most(docs[i], 1) by {
        lemma_message_doc(t.messages[i]);
    }
    lemma_arr(docs, 1);
    lemma_str_leaf(t.id);
    lemma_str_leaf(t.model);
    lemma_str_leaf(t.status);
    lemma_str_leaf(t.title);
    let ms = seq![
        ("id"@, str_leaf(t.id)),
        ("messages"@, arr_nodes(docs)),
        ("model"@, str_leaf(t.model)),
        ("status"@, str_leaf(t.status)),
        ("title"@, str_leaf(t.title)),
    ];
    lemma_keys_plain5();
    assert forall|i: int| 0 <= i < ms.len() implies depth_at_most(#[trigger] ms[i].1, 2) by {
        if i != 1 {
            assert(depth_at_most(ms[i].1, 0));
        }
    }
    lemma_obj(ms, 2);
}

/// Writing a journal and reading it back gives the same journal, when every
/// thread has an id (threads without one are dropped on reading).
pub proof fn law_crash_journal_roundtrip(j: JournalV, text: Seq<char>)
    requires
        forall|i: int| 0 <= i < j.threads.len() ==> (#[trigger] j.threads[i]).id.len() > 0,
        json_parse(text) == Some(journal_doc(j)),
    ensures
        journal_spec(text) == j,
{
    lemma_journal_doc(j);
}

} // verus!
