//! Unified search over threads, files, and palette commands.

use vstd::prelude::*;
use crate::palette::{catalog, default_items, item_view, item_views, ItemV, PaletteItem};
use crate::text::{chars_of, contains, contains_s, lower_s, lower_vec, strs, trim_s, trim_vec};
use crate::workspace::{Thread, Workspace};

verus! {

/// Where a hit lives.
#[derive(Debug, Clone, Copy, PartialEq, Eq, Structural)]
pub enum SearchKind {
    Thread,
    File,
    Command,
}

#[derive(Debug, Clone, PartialEq, Eq)]
pub struct SearchHit {
    pub kind: SearchKind,
    pub id: String,
    pub title: String,
    pub hint: String,
}

/// A hit as plain values.
pub struct HitV {
    pub kind: SearchKind,
    pub id: Seq<char>,
    pub title: Seq<char>,
    pub hint: Seq<char>,
}

pub open spec fn hit_view(h: SearchHit) -> HitV {
    HitV { kind: h.kind, id: h.id@, title: h.title@, hint: h.hint@ }
}

pub open spec fn hit_views(v: Seq<SearchHit>) -> Seq<HitV> {
    v.map_values(|h: SearchHit| hit_view(h))
}

/// `s` mentions `q` once both are ASCII-lowercased (`q` already is).
pub open spec fn mentions(s: Seq<char>, q: Seq<char>) -> bool {
    contains_s(lower_s(s), q)
}

/// The threads whose title or id mentions `q`, in order.
pub open spec fn thread_hits(ts: Seq<Thread>, q: Seq<char>) -> Seq<HitV>
    decreases ts.len(),
{
    if ts.len() == 0 {
        seq![]
    } else {
        let t = ts.last();
        thread_hits(ts.drop_last(), q) + if mentions(t.title@, q) || mentions(t.id@, q) {
            seq![HitV { kind: SearchKind::Thread, id: t.id@, title: t.title@, hint: "thread"@ }]
        } else {
            seq![]
        }
    }
}

/// The file paths that mention `q`, in order.
pub open spec fn file_hits(fs: Seq<Seq<char>>, q: Seq<char>) -> Seq<HitV>
    decreases fs.len(),
{
    if fs.len() == 0 {
        seq![]
    } else {
        let f = fs.last();
        file_hits(fs.drop_last(), q) + if mentions(f, q) {
            seq![HitV { kind: SearchKind::File, id: f, title: f, hint: "file"@ }]
        } else {
            seq![]
        }
    }
}

pub open spec fn command_hit(it: ItemV) -> HitV {
    HitV { kind: SearchKind::Command, id: it.id, title: it.label, hint: it.hint }
}

/// The palette commands whose id, label or hint mentions `q`, in order.
pub open spec fn command_hits(items: Seq<ItemV>, q: Seq<char>) -> Seq<HitV>
    decreases items.len(),
{
    if items.len() == 0 {
        seq![]
    } else {
        let it = items.last();
        command_hits(items.drop_last(), q) + if mentions(it.id, q) || mentions(it.label, q)
            || mentions(it.hint, q) {
            seq![command_hit(it)]
        } else {
            seq![]
        }
    }
}

/// What `search_workspace` finds: threads, then files, then commands.
pub open spec fn search_spec(ws: Workspace, query: Seq<char>) -> Seq<HitV> {
    let q = lower_s(trim_s(query));
    if q.len() == 0 {
        seq![]
    } else {
        thread_hits(ws.threads@, q) + file_hits(strs(ws.files@), q) + command_hits(catalog(), q)
    }
}

pub proof fn lemma_hit_views_push(v: Seq<SearchHit>, x: SearchHit)
    ensures
        hit_views(v.push(x)) == hit_views(v).push(hit_view(x)),
{
    assert(hit_views(v.push(x)) =~= hit_views(v).push(hit_view(x)));
}

fn mentions_exec(s: &str, q: &Vec<char>) -> (r: bool)
    ensures
        r == mentions(s@, q@),
{
    contains(&lower_vec(&chars_of(s)), q)
}

/// Case-insensitive (ASCII) substring search over thread titles and ids,
/// file paths and palette commands. An empty query finds nothing: the
/// palette owns the empty query.
pub fn search_workspace(ws: &Workspace, query: &str) -> (hits: Vec<SearchHit>)
    ensures
        hit_views(hits@) == search_spec(*ws, query@),
{
    let q = lower_vec(&trim_vec(&chars_of(query)));
    let mut hits: Vec<SearchHit> = Vec::new();
    if q.len() == 0 {
        assert(hit_views(hits@) =~= Seq::<HitV>::empty());
        return hits;
    }
    let mut i: usize = 0;
    while i < ws.threads.len()
        invariant
            i <= ws.threads@.len(),
            hit_views(hits@) == thread_hits(ws.threads@.take(i as int), q@),
        decreases ws.threads@.len() - i,
    {
        let t = &ws.threads[i];
        assert(ws.threads@.take(i + 1).drop_last() =~= ws.threads@.take(i as int));
        if mentions_exec(t.title.as_str(), &q) || mentions_exec(t.id.as_str(), &q) {
            let h = SearchHit {
                kind: SearchKind::Thread,
                id: t.id.clone(),
                title: t.title.clone(),
                hint: "thread".to_owned(),
            };
            proof {
                lemma_hit_views_push(hits@, h);
            }
            hits.push(h);
        }
        i = i + 1;
    }
    assert(ws.threads@.take(ws.threads@.len() as int) =~= ws.threads@);
    let ghost after_threads = hit_views(hits@);
    let ghost fs = strs(ws.files@);
    let mut j: usize = 0;
    while j < ws.files.len()
        invariant
            j <= ws.files@.len(),
            fs == strs(ws.files@),
            hit_views(hits@) == after_threads + file_hits(fs.take(j as int), q@),
        decreases ws.files@.len() - j,
    {
        let f = &ws.files[j];
        assert(fs.take(j + 1).drop_last() =~= fs.take(j as int));
        assert(fs.take(j + 1).last() == f@);
        if mentions_exec(f.as_str(), &q) {
            let h = SearchHit {
                kind: SearchKind::File,
                id: f.clone(),
                title: f.clone(),
                hint: "file".to_owned(),
            };
            proof {
                lemma_hit_views_push(hits@, h);
            }
            hits.push(h);
        }
        j = j + 1;
    }
    assert(fs.take(fs.len() as int) =~= fs);
    let ghost after_files = hit_views(hits@);
    let items = default_items();
    let ghost cat = item_views(items@);
    let mut k: usize = 0;
    while k < items.len()
        invariant
            k <= items@.len(),
            cat == item_views(items@),
            cat == catalog(),
            hit_views(hits@) == after_files + command_hits(cat.take(k as int), q@),
        decreases items@.len() - k,
    {
        let it = &items[k];
        assert(cat.take(k + 1).drop_last() =~= cat.take(k as int));
        assert(cat.take(k + 1).last() == item_view(*it));
        if mentions_exec(it.id, &q) || mentions_exec(it.label, &q) || mentions_exec(it.hint, &q) {
            let h = SearchHit {
                kind: SearchKind::Command,
                id: it.id.to_owned(),
                title: it.label.to_owned(),
                hint: it.hint.to_owned(),
            };
            proof {
                lemma_hit_views_push(hits@, h);
            }
            hits.push(h);
        }
        k = k + 1;
    }
    assert(cat.take(cat.len() as int) =~= cat);
    hits
}

/// The hits of kind `k`, in order.
pub open spec fn of_kind(hs: Seq<HitV>, k: SearchKind) -> Seq<HitV> {
    hs.filter(|h: HitV| h.kind == k)
}

/// A file path as a search hit.
pub open spec fn file_hit(f: Seq<char>) -> HitV {
    HitV { kind: SearchKind::File, id: f, title: f, hint: "file"@ }
}

proof fn lemma_none_of_kind(hs: Seq<HitV>, k: SearchKind)
    requires
        forall|i: int| 0 <= i < hs.len() ==> (#[trigger] hs[i]).kind != k,
    ensures
        of_kind(hs, k) == Seq::<HitV>::empty(),
    decreases hs.len(),
{
    reveal(Seq::filter);
    if hs.len() > 0 {
        lemma_none_of_kind(hs.drop_last(), k);
        assert(hs.last() == hs[hs.len() - 1]);
    }
}

proof fn lemma_thread_kinds(ts: Seq<Thread>, q: Seq<char>)
    ensures
        forall|i: int| 0 <= i < thread_hits(ts, q).len() ==> (#[trigger] thread_hits(ts, q)[i]).kind
            == SearchKind::Thread,
    decreases ts.len(),
{
    if ts.len() > 0 {
        lemma_thread_kinds(ts.drop_last(), q);
    }
}

proof fn lemma_command_kinds(items: Seq<ItemV>, q: Seq<char>)
    ensures
        forall|i: int| 0 <= i < command_hits(items, q).len() ==> (#[trigger] command_hits(items, q)[i]).kind
            == SearchKind::Command,
    decreases items.len(),
{
    if items.len() > 0 {
        lemma_command_kinds(items.drop_last(), q);
    }
}

/// File hits, in closed form: the paths whose ASCII-lowercased text holds
/// the query, each as a `File` hit, in order.
proof fn lemma_file_hits(fs: Seq<Seq<char>>, q: Seq<char>)
    ensures
        file_hits(fs, q) == fs.filter(|f: Seq<char>| contains_s(lower_s(f), q)).map_values(
            |f: Seq<char>| file_hit(f),
        ),
        of_kind(file_hits(fs, q), SearchKind::File) == file_hits(fs, q),
    decreases fs.len(),
{
    reveal(Seq::filter);
    let pf = |f: Seq<char>| contains_s(lower_s(f), q);
    if fs.len() > 0 {
        lemma_file_hits(fs.drop_last(), q);
        let pre = file_hits(fs.drop_last(), q);
        let f = fs.last();
        if pf(f) {
            assert(fs.filter(pf) == fs.drop_last().filter(pf).push(f));
            assert(fs.filter(pf).map_values(|f: Seq<char>| file_hit(f)) =~= fs.drop_last().filter(
                pf,
            ).map_values(|f: Seq<char>| file_hit(f)).push(file_hit(f)));
            assert(file_hits(fs, q) =~= pre.push(file_hit(f)));
            assert(of_kind(pre.push(file_hit(f)), SearchKind::File) == of_kind(pre, SearchKind::File).push(
                file_hit(f),
            ));
        } else {
            assert(fs.filter(pf) == fs.drop_last().filter(pf));
            assert(file_hits(fs, q) =~= pre);
        }
    } else {
        assert(fs.filter(pf) =~= Seq::<Seq<char>>::empty());
        assert(file_hits(fs, q) =~= Seq::<HitV>::empty());
        assert(of_kind(Seq::<HitV>::empty(), SearchKind::File) =~= Seq::<HitV>::empty());
    }
}

/// File search is case-insensitive: for a non-blank query, the file hits
/// are exactly the workspace files whose ASCII-lowercased path contains the
/// ASCII-lowercased trimmed query, in file order; a blank query finds
/// nothing.
pub proof fn law_file_search_ignores_case(ws: Workspace, query: Seq<char>)
    ensures
        lower_s(trim_s(query)).len() == 0 ==> search_spec(ws, query) == Seq::<HitV>::empty(),
        lower_s(trim_s(query)).len() > 0 ==> of_kind(search_spec(ws, query), SearchKind::File)
            == strs(ws.files@).filter(
            |f: Seq<char>| contains_s(lower_s(f), lower_s(trim_s(query))),
        ).map_values(|f: Seq<char>| file_hit(f)),
{
    let q = lower_s(trim_s(query));
    if q.len() > 0 {
        let a = thread_hits(ws.threads@, q);
        let b = file_hits(strs(ws.files@), q);
        let c = command_hits(catalog(), q);
        let pk = |h: HitV| h.kind == SearchKind::File;
        Seq::filter_distributes_over_add(a + b, c, pk);
        Seq::filter_distributes_over_add(a, b, pk);
        lemma_thread_kinds(ws.threads@, q);
        lemma_command_kinds(catalog(), q);
        lemma_none_of_kind(a, SearchKind::File);
        lemma_none_of_kind(c, SearchKind::File);
        lemma_file_hits(strs(ws.files@), q);
        assert(of_kind(search_spec(ws, query), SearchKind::File) =~= b);
    }
}

/// Changing the ASCII case of file paths changes no hit decision: the two
/// file lists give file hits of the same length, at the same positions of
/// the paths.
pub proof fn law_file_hits_case_blind(fs: Seq<Seq<char>>, gs: Seq<Seq<char>>, q: Seq<char>)
    requires
        fs.len() == gs.len(),
        forall|i: int| 0 <= i < fs.len() ==> lower_s(#[trigger] fs[i]) == lower_s(gs[i]),
    ensures
        file_hits(fs, q).len() == file_hits(gs, q).len(),
        forall|k: int| 0 <= k < file_hits(fs, q).len() ==> lower_s(#[trigger] file_hits(fs, q)[k].id) == lower_s(
            file_hits(gs, q)[k].id,
        ),
    decreases fs.len(),
{
    if fs.len() > 0 {
        law_file_hits_case_blind(fs.drop_last(), gs.drop_last(), q);
        assert(lower_s(fs.last()) == lower_s(gs.last()));
        let a = file_hits(fs.drop_last(), q);
        let b = file_hits(gs.drop_last(), q);
        assert forall|k: int| 0 <= k < file_hits(fs, q).len() implies lower_s(#[trigger] file_hits(fs, q)[k].id)
            == lower_s(file_hits(gs, q)[k].id) by {
            if k < a.len() {
                assert(file_hits(fs, q)[k] == a[k]);
                assert(file_hits(gs, q)[k] == b[k]);
            }
        }
    }
}

} // verus!
