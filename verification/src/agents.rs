//! Typed agent rows over local threads.

use vstd::prelude::*;
use crate::persist::{leaf_title, thread_leaf_title};
use crate::json::{
    arr_nodes, depth_at_most, json_nodes, json_parse, lemma_arr, lemma_leaf, lemma_obj, lemma_obj_step,
    leaf, obj_nodes, object_insert, rooted, shallow, slashes, value_array, value_object, value_string,
    value_text, value_u64, Node,
};
use crate::text::{
    append_str, chars_of, dec, eq_str, is_ws, join_s, lead_ws, lemma_trail_ws_bounds, lower, lower_s,
    lower_vec, push_dec, string_of, strs, trail_ws, trim_s, trim_start_s, trim_vec,
};
use crate::workspace::Thread;

verus! {

/// Pulse of a local thread.
#[derive(Debug, Clone, Copy, PartialEq, Eq, Structural)]
pub enum ThreadStatus {
    Idle,
    Running,
    Error,
}

pub open spec fn status_of(raw: Seq<char>) -> ThreadStatus {
    let k = lower_s(trim_s(raw));
    if k == "running"@ || k == "busy"@ || k == "working"@ {
        ThreadStatus::Running
    } else if k == "error"@ || k == "failed"@ || k == "fail"@ {
        ThreadStatus::Error
    } else {
        ThreadStatus::Idle
    }
}

pub open spec fn status_name(s: ThreadStatus) -> Seq<char> {
    match s {
        ThreadStatus::Idle => "idle"@,
        ThreadStatus::Running => "running"@,
        ThreadStatus::Error => "error"@,
    }
}

proof fn lemma_lower_char(c: char)
    ensures
        is_ws(lower(c)) == is_ws(c),
        lower(lower(c)) == lower(c),
{
}

proof fn lemma_lead_ws(s: Seq<char>, i: int)
    requires
        0 <= i <= s.len(),
    ensures
        i <= lead_ws(s, i) <= s.len(),
        lead_ws(s, i) < s.len() ==> !is_ws(s[lead_ws(s, i)]),
    decreases s.len() - i,
{
    if i < s.len() && is_ws(s[i]) {
        lemma_lead_ws(s, i + 1);
    }
}

/// A trimmed text is empty or starts and ends with a non-space.
proof fn lemma_trim_ends(s: Seq<char>)
    ensures
        trim_s(s).len() > 0 ==> !is_ws(trim_s(s)[0]) && !is_ws(trim_s(s).last()),
{
    lemma_lead_ws(s, 0);
    let u = trim_start_s(s);
    lemma_trail_ws_bounds(u, u.len() as int);
    if trim_s(s).len() > 0 {
        assert(trim_s(s)[0] == u[0]);
        assert(u[0] == s[lead_ws(s, 0)]);
        assert(trim_s(s).last() == u[trail_ws(u, u.len() as int) - 1]);
    }
}

/// A text that is empty or has non-spaces at both ends is its own trim.
proof fn lemma_trim_fixed(s: Seq<char>)
    requires
        s.len() > 0 ==> !is_ws(s[0]) && !is_ws(s.last()),
    ensures
        trim_s(s) == s,
{
    assert(lead_ws(s, 0) == 0);
    assert(s.skip(0) =~= s);
    assert(trail_ws(s, s.len() as int) == s.len());
    assert(s.take(s.len() as int) =~= s);
}

/// Reading a status twice is reading it once: trimming and lowercasing the
/// text first changes nothing, and the name of a status reads back as it.
pub proof fn law_status_parse_normal(raw: Seq<char>, st: ThreadStatus)
    ensures
        status_of(lower_s(trim_s(raw))) == status_of(raw),
        status_of(status_name(st)) == st,
{
    let t = trim_s(raw);
    let l = lower_s(t);
    lemma_trim_ends(raw);
    if t.len() > 0 {
        lemma_lower_char(t[0]);
        lemma_lower_char(t.last());
        assert(l.last() == lower(t.last()));
    }
    lemma_trim_fixed(l);
    assert forall|i: int| 0 <= i < l.len() implies #[trigger] lower_s(l)[i] == l[i] by {
        lemma_lower_char(t[i]);
    }
    assert(lower_s(l) =~= l);
    reveal_strlit("idle");
    reveal_strlit("running");
    reveal_strlit("error");
    reveal_strlit("busy");
    reveal_strlit("working");
    reveal_strlit("failed");
    reveal_strlit("fail");
    let n = status_name(st);
    assert(n.len() > 0 && !is_ws(n[0]) && !is_ws(n.last()));
    lemma_trim_fixed(n);
    assert(lower_s(n) =~= n);
    assert("idle"@.len() == 4 && "busy"@.len() == 4 && "fail"@.len() == 4);
    assert("running"@.len() == 7 && "working"@.len() == 7);
    assert("error"@.len() == 5);
    assert("failed"@.len() == 6);
    assert("idle"@[0] != "busy"@[0] && "idle"@[0] != "fail"@[0]);
    assert("running"@[0] != "working"@[0]);
}

impl ThreadStatus {
    /// Read a free-form status; anything unknown is idle.
    pub fn parse(raw: &str) -> (s: Self)
        ensures
            s == status_of(raw@),
    {
        let k = lower_vec(&trim_vec(&chars_of(raw)));
        if eq_str(&k, "running") || eq_str(&k, "busy") || eq_str(&k, "working") {
            ThreadStatus::Running
        } else if eq_str(&k, "error") || eq_str(&k, "failed") || eq_str(&k, "fail") {
            ThreadStatus::Error
        } else {
            ThreadStatus::Idle
        }
    }

    pub fn as_str(self) -> (r: &'static str)
        ensures
            r@ == status_name(self),
    {
        match self {
            ThreadStatus::Idle => "idle",
            ThreadStatus::Running => "running",
            ThreadStatus::Error => "error",
        }
    }

    pub fn label(self) -> (r: &'static str)
        ensures
            r@ == status_name(self),
    {
        self.as_str()
    }
}

/// One Agents-list row: the same threads as the left rail, projected.
#[derive(Debug, Clone, PartialEq, Eq)]
pub struct AgentRow {
    pub index: usize,
    pub id: String,
    pub title: String,
    pub status: ThreadStatus,
    pub model: String,
    pub messages: usize,
    pub selected: bool,
    pub pinned: bool,
    pub unread: bool,
}

impl AgentRow {
    pub fn from_thread(index: usize, thread: &Thread, selected: bool) -> (r: Self)
        ensures
            r.index == index,
            r.id@ == thread.id@,
            r.title@ == leaf_title(thread.title@, thread.id@),
            r.status == status_of(thread.status@),
            r.model@ == thread.model@,
            r.messages == thread.messages@.len(),
            r.selected == selected,
            r.pinned == thread.pinned,
            r.unread == thread.unread,
    {
        AgentRow {
            index,
            id: thread.id.clone(),
            title: thread_leaf_title(thread.title.as_str(), thread.id.as_str()),
            status: ThreadStatus::parse(thread.status.as_str()),
            model: thread.model.clone(),
            messages: thread.messages.len(),
            selected,
            pinned: thread.pinned,
            unread: thread.unread,
        }
    }
}

/// `orchestration.list` answer: local threads only, no subagents.
#[derive(Debug, Clone, PartialEq, Eq)]
pub struct OrchestrationList {
    pub threads: usize,
    pub subagents: Vec<String>,
    pub note: String,
}

pub fn orchestration_list(thread_count: usize) -> (r: OrchestrationList)
    ensures
        r.threads == thread_count,
        r.subagents@.len() == 0,
        r.note@ == "Local threads only. Subagent spawn is not wired."@,
{
    OrchestrationList {
        threads: thread_count,
        subagents: Vec::new(),
        note: "Local threads only. Subagent spawn is not wired.".to_owned(),
    }
}

pub fn orchestration_spawn_missing() -> (r: &'static str)
    ensures
        r@ == "method not found: orchestration.spawn"@,
{
    "method not found: orchestration.spawn"
}

/// The list as a document: `note`, `subagents` (an array of strings) and
/// `threads`.
pub open spec fn orchestration_members(l: OrchestrationList) -> Seq<(Seq<char>, Map<Seq<char>, Node>)> {
    seq![
        ("note"@, leaf(Node::Str(l.note@))),
        ("subagents"@, arr_nodes(strs(l.subagents@).map_values(|s: Seq<char>| leaf(Node::Str(s))))),
        ("threads"@, leaf(Node::Num(Some(l.threads as u64)))),
    ]
}

pub open spec fn orchestration_doc(l: OrchestrationList) -> Map<Seq<char>, Node> {
    obj_nodes(orchestration_members(l))
}

proof fn lemma_orchestration_doc(l: OrchestrationList)
    ensures
        shallow(orchestration_doc(l)),
{
    reveal_strlit("note");
    reveal_strlit("subagents");
    reveal_strlit("threads");
    let ms = orchestration_members(l);
    let cs = strs(l.subagents@).map_values(|s: Seq<char>| leaf(Node::Str(s)));
    assert forall|i: int| 0 <= i < cs.len() implies rooted(#[trigger] cs[i]) && depth_at_most(cs[i], 0) by {
        lemma_leaf(Node::Str(strs(l.subagents@)[i]));
    }
    lemma_arr(cs, 0);
    lemma_leaf(Node::Str(l.note@));
    lemma_leaf(Node::Num(Some(l.threads as u64)));
    assert(ms[0].0.len() == 4 && ms[1].0.len() == 9 && ms[2].0.len() == 7);
    assert forall|i: int| 0 <= i < ms.len() implies rooted(#[trigger] ms[i].1) && ms[i].1.contains_key(
        Seq::empty(),
    ) && depth_at_most(ms[i].1, 1) by {}
    lemma_obj(ms, 1);
    let doc = orchestration_doc(l);
    assert forall|k: Seq<char>| #[trigger] doc.contains_key(k) implies slashes(k) <= 100 by {}
}

/// The list as compact JSON text (`serde_json`'s writer).
pub fn orchestration_list_json(list: &OrchestrationList) -> (r: String)
    ensures
        json_parse(r@) == Some(orchestration_doc(*list)),
{
    let ghost cs = strs(list.subagents@).map_values(|s: Seq<char>| leaf(Node::Str(s)));
    let mut items: Vec<serde_json::Value> = Vec::new();
    let mut k: usize = 0;
    while k < list.subagents.len()
        invariant
            k <= list.subagents@.len(),
            cs == strs(list.subagents@).map_values(|s: Seq<char>| leaf(Node::Str(s))),
            items@.map_values(|v: serde_json::Value| json_nodes(v)) == cs.take(k as int),
        decreases list.subagents@.len() - k,
    {
        let v = value_string(list.subagents[k].clone());
        assert(strs(list.subagents@)[k as int] == list.subagents@[k as int]@);
        assert(cs[k as int] == json_nodes(v));
        let ghost before = items@;
        items.push(v);
        assert(items@.map_values(|v: serde_json::Value| json_nodes(v)) =~= before.map_values(
            |v: serde_json::Value| json_nodes(v),
        ).push(json_nodes(v)));
        assert(cs.take(k + 1) =~= cs.take(k as int).push(cs[k as int]));
        k = k + 1;
    }
    assert(cs.take(cs.len() as int) =~= cs);
    let subs = value_array(items);
    let ghost ms = orchestration_members(*list);
    proof {
        reveal_strlit("note");
        reveal_strlit("subagents");
        reveal_strlit("threads");
        lemma_leaf(Node::Obj);
        assert(ms.take(0) =~= Seq::<(Seq<char>, Map<Seq<char>, Node>)>::empty());
    }
    let mut o = value_object();
    object_insert(&mut o, "note", value_string(list.note.clone()));
    proof {
        lemma_obj_step(ms, 0);
    }
    object_insert(&mut o, "subagents", subs);
    proof {
        lemma_obj_step(ms, 1);
    }
    object_insert(&mut o, "threads", value_u64(list.threads as u64));
    proof {
        lemma_obj_step(ms, 2);
        assert(ms.take(3) =~= ms);
        lemma_orchestration_doc(*list);
    }
    value_text(&o)
}

} // verus!
