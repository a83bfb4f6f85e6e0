//! In-memory table of terminals: create, list, resize, buffered input, kill.
//! No PTY is spawned.

use vstd::prelude::*;
use crate::terminal::{TerminalError, TerminalId, TerminalSpec};
use crate::text::{append_str, dec, lemma_dec_injective, push_dec, string_of};

verus! {

struct Terminal {
    id: String,
    spec: TerminalSpec,
    input: Vec<u8>,
    alive: bool,
}

/// Point-in-time view of one hub entry.
#[derive(Debug, Clone, PartialEq, Eq)]
pub struct TerminalSnapshot {
    pub id: TerminalId,
    pub spec: TerminalSpec,
    pub input: Vec<u8>,
    pub alive: bool,
}

/// One entry of the table as plain values.
pub struct EntryView {
    pub id: Seq<char>,
    pub cols: u16,
    pub rows: u16,
    pub cwd: Seq<char>,
    pub input: Seq<u8>,
    pub alive: bool,
}

/// The table: the next id number and every entry in creation order (killed
/// entries are kept for their snapshots).
pub struct HubView {
    pub next: int,
    pub entries: Seq<EntryView>,
}

/// Session table. Ids increment from `term-1`.
pub struct TerminalHub {
    next: u64,
    terminals: Vec<Terminal>,
}

spec fn entry_view(t: Terminal) -> EntryView {
    EntryView {
        id: t.id@,
        cols: t.spec.cols,
        rows: t.spec.rows,
        cwd: t.spec.cwd@,
        input: t.input@,
        alive: t.alive,
    }
}

impl View for TerminalHub {
    type V = HubView;

    closed spec fn view(&self) -> HubView {
        HubView {
            next: self.next as int,
            entries: self.terminals@.map_values(|t: Terminal| entry_view(t)),
        }
    }
}

/// The id the hub gives its `n`-th terminal.
pub open spec fn term_id(n: int) -> Seq<char> {
    "term-"@ + dec(n as nat)
}

/// The table holds one entry per id it handed out, in order: entry `i` is
/// `term-(i+1)`, and `next` is one past the last. So ids are never reused.
pub open spec fn hub_wf(h: HubView) -> bool {
    &&& h.next == h.entries.len() + 1
    &&& forall|i: int| 0 <= i < h.entries.len() ==> #[trigger] h.entries[i].id == term_id(i + 1)
}

/// Different creation numbers give different ids.
pub proof fn lemma_term_id_injective(a: int, b: int)
    requires
        a >= 0,
        b >= 0,
        term_id(a) == term_id(b),
    ensures
        a == b,
{
    reveal_strlit("term-");
    assert(term_id(a).skip(5) =~= dec(a as nat));
    assert(term_id(b).skip(5) =~= dec(b as nat));
    lemma_dec_injective(a as nat, b as nat);
}

/// No two entries of a well-formed table share an id.
pub proof fn law_hub_ids_distinct(h: HubView, i: int, j: int)
    requires
        hub_wf(h),
        0 <= i < h.entries.len(),
        0 <= j < h.entries.len(),
        i != j,
    ensures
        h.entries[i].id != h.entries[j].id,
{
    if h.entries[i].id == h.entries[j].id {
        lemma_term_id_injective(i + 1, j + 1);
    }
}

/// Index of the entry named `id`, or -1.
pub open spec fn find_from(es: Seq<EntryView>, id: Seq<char>, i: int) -> int
    decreases es.len() - i,
{
    if !(0 <= i < es.len()) {
        -1
    } else if es[i].id == id {
        i
    } else {
        find_from(es, id, i + 1)
    }
}

pub open spec fn find(h: HubView, id: Seq<char>) -> int {
    find_from(h.entries, id, 0)
}

pub open spec fn live(h: HubView, id: Seq<char>) -> bool {
    find(h, id) >= 0 && h.entries[find(h, id)].alive
}

/// Ids of the live entries from `i` on, in creation order.
pub open spec fn live_ids_from(es: Seq<EntryView>, i: int) -> Seq<Seq<char>>
    decreases es.len() - i,
{
    if !(0 <= i < es.len()) {
        seq![]
    } else if es[i].alive {
        seq![es[i].id] + live_ids_from(es, i + 1)
    } else {
        live_ids_from(es, i + 1)
    }
}

pub open spec fn snapshot_of(s: TerminalSnapshot, e: EntryView) -> bool {
    &&& s.id.0@ == e.id
    &&& s.spec.cols == e.cols
    &&& s.spec.rows == e.rows
    &&& s.spec.cwd@ == e.cwd
    &&& s.input@ == e.input
    &&& s.alive == e.alive
}

pub open spec fn not_found(r: Result<(), TerminalError>, id: Seq<char>) -> bool {
    r matches Err(TerminalError::NotFound(i)) && i.0@ == id
}

proof fn lemma_find_from(es: Seq<EntryView>, id: Seq<char>, i: int)
    requires
        0 <= i <= es.len(),
    ensures
        find_from(es, id, i) == -1 || (i <= find_from(es, id, i) < es.len() && es[find_from(
            es,
            id,
            i,
        )].id == id),
    decreases es.len() - i,
{
    if i < es.len() && es[i].id != id {
        lemma_find_from(es, id, i + 1);
    }
}

fn copy_bytes(v: &Vec<u8>) -> (r: Vec<u8>)
    ensures
        r@ == v@,
{
    vstd::slice::slice_to_vec(v.as_slice())
}

fn copy_id(id: &TerminalId) -> (r: TerminalId)
    ensures
        r.0@ == id.0@,
{
    TerminalId::from(id.as_str())
}

impl TerminalHub {
    #[verifier::type_invariant]
    spec fn well_formed(self) -> bool {
        hub_wf(self@)
    }

    /// Empty hub. The first created id is `term-1`.
    pub fn new() -> (h: Self)
        ensures
            h@.next == 1,
            h@.entries.len() == 0,
            hub_wf(h@),
            h@ == hub_run(Seq::<HubCall>::empty()),
    {
        let h = TerminalHub { next: 1, terminals: Vec::new() };
        assert(h@.entries =~= Seq::<EntryView>::empty());
        h
    }

    /// Puts `t` in place of entry `i`, which has the same id.
    fn replace_entry(&mut self, i: usize, t: Terminal)
        requires
            i < old(self).terminals.len(),
            t.id@ == old(self).terminals@[i as int].id@,
        ensures
            final(self).next == old(self).next,
            final(self).terminals@ == old(self).terminals@.update(i as int, t),
    {
        proof {
            use_type_invariant(&*self);
        }
        let mut h = TerminalHub::new();
        std::mem::swap(self, &mut h);
        let TerminalHub { next, mut terminals } = h;
        let ghost before = terminals@;
        terminals.remove(i);
        terminals.insert(i, t);
        proof {
            assert(terminals@ =~= before.update(i as int, t));
            assert(entry_view(t).id == entry_view(before[i as int]).id);
            let es = terminals@.map_values(|x: Terminal| entry_view(x));
            let eb = before.map_values(|x: Terminal| entry_view(x));
            assert forall|k: int| 0 <= k < es.len() implies #[trigger] es[k].id == term_id(k + 1) by {
                assert(eb[k].id == term_id(k + 1));
            }
        }
        *self = TerminalHub { next, terminals };
    }

    /// Index of the entry named `id`.
    fn position(&self, id: &TerminalId) -> (r: Option<usize>)
        ensures
            match r {
                None => find(self@, id.0@) == -1,
                Some(i) => find(self@, id.0@) == i as int && i < self.terminals.len(),
            },
    {
        let mut i: usize = 0;
        while i < self.terminals.len()
            invariant
                i <= self.terminals.len(),
                find(self@, id.0@) == find_from(self@.entries, id.0@, i as int),
            decreases self.terminals.len() - i,
        {
            proof {
                assert(self@.entries[i as int].id == self.terminals@[i as int].id@);
            }
            if self.terminals[i].id == id.0 {
                return Some(i);
            }
            i = i + 1;
        }
        None
    }

    /// Allocate a new live terminal with id `term-N`, N counting up from 1.
    pub fn create(&mut self, spec: TerminalSpec) -> (id: TerminalId)
        requires
            old(self)@.next < u64::MAX,
        ensures
            id.0@ == term_id(old(self)@.next),
            final(self)@.next == old(self)@.next + 1,
            final(self)@.entries == old(self)@.entries.push(
                EntryView {
                    id: term_id(old(self)@.next),
                    cols: spec.cols,
                    rows: spec.rows,
                    cwd: spec.cwd@,
                    input: seq![],
                    alive: true,
                },
            ),
            final(self)@ == hub_after(
                old(self)@,
                HubCall::Create { cols: spec.cols, rows: spec.rows, cwd: spec.cwd@ },
            ),
            hub_wf(final(self)@),
    {
        proof {
            use_type_invariant(&*self);
        }
        let n = self.next;
        let mut v: Vec<char> = Vec::new();
        append_str(&mut v, "term-");
        push_dec(&mut v, n);
        let key = string_of(&v);
        let id = TerminalId(string_of(&v));
        let t = Terminal { id: key, spec, input: Vec::new(), alive: true };
        let mut h = TerminalHub::new();
        std::mem::swap(self, &mut h);
        let TerminalHub { next, mut terminals } = h;
        let ghost before = terminals@;
        terminals.push(t);
        proof {
            let es = terminals@.map_values(|x: Terminal| entry_view(x));
            let eb = before.map_values(|x: Terminal| entry_view(x));
            assert forall|k: int| 0 <= k < es.len() implies #[trigger] es[k].id == term_id(k + 1) by {
                if k < before.len() {
                    assert(eb[k].id == term_id(k + 1));
                }
            }
        }
        *self = TerminalHub { next: next + 1, terminals };
        proof {
            assert(self@.entries =~= old(self)@.entries.push(
                EntryView {
                    id: term_id(old(self)@.next),
                    cols: spec.cols,
                    rows: spec.rows,
                    cwd: spec.cwd@,
                    input: seq![],
                    alive: true,
                },
            ));
        }
        id
    }

    /// Live terminal ids in creation order.
    pub fn list(&self) -> (r: Vec<TerminalId>)
        ensures
            r@.map_values(|t: TerminalId| t.0@) == live_ids_from(self@.entries, 0),
            hub_wf(self@),
    {
        proof {
            use_type_invariant(self);
        }
        let mut out: Vec<TerminalId> = Vec::new();
        let mut i: usize = 0;
        while i < self.terminals.len()
            invariant
                i <= self.terminals.len(),
                out@.map_values(|t: TerminalId| t.0@) + live_ids_from(self@.entries, i as int)
                    == live_ids_from(self@.entries, 0),
            decreases self.terminals.len() - i,
        {
            let ghost before = out@;
            if self.terminals[i].alive {
                let id = TerminalId::from(self.terminals[i].id.as_str());
                out.push(id);
                proof {
                    assert(out@.map_values(|t: TerminalId| t.0@) =~= before.map_values(
                        |t: TerminalId| t.0@,
                    ).push(self@.entries[i as int].id));
                    assert(out@.map_values(|t: TerminalId| t.0@) + live_ids_from(
                        self@.entries,
                        i + 1,
                    ) =~= before.map_values(|t: TerminalId| t.0@) + live_ids_from(
                        self@.entries,
                        i as int,
                    ));
                }
            }
            i = i + 1;
        }
        proof {
            assert(out@.map_values(|t: TerminalId| t.0@) + live_ids_from(
                self@.entries,
                i as int,
            ) =~= out@.map_values(|t: TerminalId| t.0@));
        }
        out
    }

    /// Snapshot a terminal, including killed ones.
    pub fn get(&self, id: &TerminalId) -> (r: Option<TerminalSnapshot>)
        ensures
            find(self@, id.0@) < 0 ==> r is None,
            find(self@, id.0@) >= 0 ==> (r matches Some(s) && snapshot_of(
                s,
                self@.entries[find(self@, id.0@)],
            )),
    {
        match self.position(id) {
            None => None,
            Some(i) => {
                let t = &self.terminals[i];
                proof {
                    lemma_find_from(self@.entries, id.0@, 0);
                    assert(self@.entries[i as int] == entry_view(self.terminals@[i as int]));
                }
                Some(
                    TerminalSnapshot {
                        id: copy_id(id),
                        spec: TerminalSpec { cols: t.spec.cols, rows: t.spec.rows, cwd: t.spec.cwd.clone() },
                        input: copy_bytes(&t.input),
                        alive: t.alive,
                    },
                )
            },
        }
    }

    /// True while the terminal exists and has not been killed.
    pub fn is_alive(&self, id: &TerminalId) -> (r: bool)
        ensures
            r == live(self@, id.0@),
            hub_wf(self@),
    {
        proof {
            use_type_invariant(self);
        }
        match self.position(id) {
            None => false,
            Some(i) => self.terminals[i].alive,
        }
    }

    /// Change cols/rows of a live terminal.
    pub fn resize(&mut self, id: &TerminalId, cols: u16, rows: u16) -> (r: Result<
        (),
        TerminalError,
    >)
        ensures
            !live(old(self)@, id.0@) ==> not_found(r, id.0@) && final(self)@ == old(self)@,
            live(old(self)@, id.0@) ==> r is Ok && final(self)@ == (HubView {
                entries: old(self)@.entries.update(
                    find(old(self)@, id.0@),
                    EntryView { cols, rows, ..old(self)@.entries[find(old(self)@, id.0@)] },
                ),
                ..old(self)@
            }),
            final(self)@ == hub_after(old(self)@, HubCall::Resize(id.0@, cols, rows)),
            hub_wf(final(self)@),
    {
        proof {
            use_type_invariant(&*self);
        }
        match self.position(id) {
            Some(i) => {
                if self.terminals[i].alive {
                    let t0 = &self.terminals[i];
                    let t = Terminal {
                        id: t0.id.clone(),
                        spec: TerminalSpec { cols, rows, cwd: t0.spec.cwd.clone() },
                        input: copy_bytes(&t0.input),
                        alive: t0.alive,
                    };
                    self.replace_entry(i, t);
                    proof {
                        assert(self@.entries =~= old(self)@.entries.update(
                            i as int,
                            EntryView { cols, rows, ..old(self)@.entries[i as int] },
                        ));
                    }
                    Ok(())
                } else {
                    Err(TerminalError::NotFound(copy_id(id)))
                }
            },
            None => Err(TerminalError::NotFound(copy_id(id))),
        }
    }

    /// Append bytes to the input buffer of a live terminal.
    pub fn input(&mut self, id: &TerminalId, data: &[u8]) -> (r: Result<(), TerminalError>)
        ensures
            !live(old(self)@, id.0@) ==> not_found(r, id.0@) && final(self)@ == old(self)@,
            live(old(self)@, id.0@) ==> r is Ok && final(self)@ == (HubView {
                entries: old(self)@.entries.update(
                    find(old(self)@, id.0@),
                    EntryView {
                        input: old(self)@.entries[find(old(self)@, id.0@)].input + data@,
                        ..old(self)@.entries[find(old(self)@, id.0@)]
                    },
                ),
                ..old(self)@
            }),
            final(self)@ == hub_after(old(self)@, HubCall::Input(id.0@, data@)),
            hub_wf(final(self)@),
    {
        proof {
            use_type_invariant(&*self);
        }
        match self.position(id) {
            Some(i) => {
                if self.terminals[i].alive {
                    let mut buf = copy_bytes(&self.terminals[i].input);
                    let mut k: usize = 0;
                    let ghost i0 = buf@;
                    while k < data.len()
                        invariant
                            k <= data.len(),
                            buf@ == i0 + data@.take(k as int),
                        decreases data.len() - k,
                    {
                        buf.push(data[k]);
                        assert(i0 + data@.take(k as int).push(data@[k as int]) =~= i0
                            + data@.take(k + 1));
                        k = k + 1;
                    }
                    assert(data@.take(data.len() as int) =~= data@);
                    let t0 = &self.terminals[i];
                    let t = Terminal {
                        id: t0.id.clone(),
                        spec: TerminalSpec { cols: t0.spec.cols, rows: t0.spec.rows, cwd: t0.spec.cwd.clone() },
                        input: buf,
                        alive: t0.alive,
                    };
                    self.replace_entry(i, t);
                    proof {
                        assert(self.terminals@ =~= old(self).terminals@.update(i as int, self.terminals@[i as int]));
                        assert(entry_view(self.terminals@[i as int]) == EntryView {
                                input: old(self)@.entries[i as int].input + data@,
                                ..old(self)@.entries[i as int]
                            });
                        assert(self@.entries =~= old(self)@.entries.update(
                            i as int,
                            EntryView {
                                input: old(self)@.entries[i as int].input + data@,
                                ..old(self)@.entries[i as int]
                            },
                        ));
                    }
                    Ok(())
                } else {
                    Err(TerminalError::NotFound(copy_id(id)))
                }
            },
            None => Err(TerminalError::NotFound(copy_id(id))),
        }
    }

    /// The recorded input of a terminal (live or killed).
    pub fn input_buffer(&self, id: &TerminalId) -> (r: Option<Vec<u8>>)
        ensures
            find(self@, id.0@) < 0 ==> r is None,
            find(self@, id.0@) >= 0 ==> (r matches Some(b) && b@ == self@.entries[find(
                self@,
                id.0@,
            )].input),
    {
        match self.position(id) {
            None => None,
            Some(i) => Some(copy_bytes(&self.terminals[i].input)),
        }
    }

    /// Mark a live terminal dead; later commands on it return `NotFound`.
    pub fn kill(&mut self, id: &TerminalId) -> (r: Result<(), TerminalError>)
        ensures
            !live(old(self)@, id.0@) ==> not_found(r, id.0@) && final(self)@ == old(self)@,
            live(old(self)@, id.0@) ==> r is Ok && final(self)@ == (HubView {
                entries: old(self)@.entries.update(
                    find(old(self)@, id.0@),
                    EntryView { alive: false, ..old(self)@.entries[find(old(self)@, id.0@)] },
                ),
                ..old(self)@
            }),
            live(old(self)@, id.0@) ==> !live_ids_from(final(self)@.entries, 0).contains(id.0@),
            final(self)@ == hub_after(old(self)@, HubCall::Kill(id.0@)),
            hub_wf(final(self)@),
    {
        proof {
            use_type_invariant(&*self);
            if live(old(self)@, id.0@) {
                law_killed_id_unlisted(old(self)@, id.0@);
            }
        }
        match self.position(id) {
            Some(i) => {
                if self.terminals[i].alive {
                    let t0 = &self.terminals[i];
                    let t = Terminal {
                        id: t0.id.clone(),
                        spec: TerminalSpec { cols: t0.spec.cols, rows: t0.spec.rows, cwd: t0.spec.cwd.clone() },
                        input: copy_bytes(&t0.input),
                        alive: false,
                    };
                    self.replace_entry(i, t);
                    proof {
                        assert(self@.entries =~= old(self)@.entries.update(
                            i as int,
                            EntryView { alive: false, ..old(self)@.entries[i as int] },
                        ));
                    }
                    Ok(())
                } else {
                    Err(TerminalError::NotFound(copy_id(id)))
                }
            },
            None => Err(TerminalError::NotFound(copy_id(id))),
        }
    }
}

impl TerminalHub {
    /// Mark every terminal dead, as dropping the hub does; entries stay for
    /// their snapshots.
    pub fn kill_all(&mut self)
        ensures
            final(self)@.next == old(self)@.next,
            final(self)@.entries == old(self)@.entries.map_values(
                |e: EntryView| EntryView { alive: false, ..e },
            ),
            live_ids_from(final(self)@.entries, 0).len() == 0,
            final(self)@ == hub_after(old(self)@, HubCall::KillAll),
            hub_wf(final(self)@),
    {
        proof {
            use_type_invariant(&*self);
        }
        let mut h = TerminalHub::new();
        std::mem::swap(self, &mut h);
        let TerminalHub { next, terminals } = h;
        let ghost olds = terminals@.map_values(|t: Terminal| entry_view(t));
        let mut out: Vec<Terminal> = Vec::new();
        let mut k: usize = 0;
        while k < terminals.len()
            invariant
                k <= terminals@.len(),
                olds == terminals@.map_values(|t: Terminal| entry_view(t)),
                out@.len() == k,
                forall|i: int| 0 <= i < k ==> #[trigger] entry_view(out@[i]) == (EntryView {
                    alive: false,
                    ..olds[i]
                }),
            decreases terminals@.len() - k,
        {
            let t0 = &terminals[k];
            let t = Terminal {
                id: t0.id.clone(),
                spec: TerminalSpec { cols: t0.spec.cols, rows: t0.spec.rows, cwd: t0.spec.cwd.clone() },
                input: copy_bytes(&t0.input),
                alive: false,
            };
            assert(entry_view(t) == (EntryView { alive: false, ..olds[k as int] }));
            out.push(t);
            k = k + 1;
        }
        let ghost es = out@.map_values(|t: Terminal| entry_view(t));
        proof {
            assert(es =~= olds.map_values(|e: EntryView| EntryView { alive: false, ..e }));
            assert forall|i: int| 0 <= i < es.len() implies #[trigger] es[i].id == term_id(i + 1) by {
                assert(es[i] == entry_view(out@[i]));
            }
        }
        *self = TerminalHub { next, terminals: out };
        proof {
            lemma_none_live(es, 0);
        }
    }
}

proof fn lemma_none_live(es: Seq<EntryView>, i: int)
    requires
        0 <= i,
        forall|j: int| 0 <= j < es.len() ==> !(#[trigger] es[j]).alive,
    ensures
        live_ids_from(es, i).len() == 0,
    decreases es.len() - i,
{
    if 0 <= i < es.len() {
        lemma_none_live(es, i + 1);
    }
}

impl Default for TerminalHub {
    fn default() -> (h: Self)
        ensures
            h@.next == 1,
            h@.entries.len() == 0,
    {
        Self::new()
    }
}

/// A killed terminal stays dead: it is not live, and a second kill, a resize
/// or an input on it all return `NotFound` (their contracts leave the table
/// unchanged when the id is not live).
pub proof fn law_kill_is_final(h: HubView, id: Seq<char>)
    requires
        live(h, id),
    ensures
        !live(
            HubView {
                entries: h.entries.update(
                    find(h, id),
                    EntryView { alive: false, ..h.entries[find(h, id)] },
                ),
                ..h
            },
            id,
        ),
{
    let k = find(h, id);
    let es2 = h.entries.update(k, EntryView { alive: false, ..h.entries[k] });
    lemma_find_from(h.entries, id, 0);
    lemma_find_same(h.entries, es2, id, 0);
}

/// Once killed, an id is no longer among the live ids: no other entry
/// carries it.
pub proof fn law_killed_id_unlisted(h: HubView, id: Seq<char>)
    requires
        hub_wf(h),
        live(h, id),
    ensures
        !live_ids_from(
            h.entries.update(find(h, id), EntryView { alive: false, ..h.entries[find(h, id)] }),
            0,
        ).contains(id),
{
    let k = find(h, id);
    lemma_find_from(h.entries, id, 0);
    let es2 = h.entries.update(k, EntryView { alive: false, ..h.entries[k] });
    assert forall|j: int| 0 <= j < es2.len() && #[trigger] es2[j].alive implies es2[j].id != id by {
        if j != k {
            law_hub_ids_distinct(h, j, k);
        }
    }
    lemma_live_ids_exclude(es2, id, 0);
}

proof fn lemma_live_ids_exclude(es: Seq<EntryView>, id: Seq<char>, i: int)
    requires
        0 <= i,
        forall|j: int| 0 <= j < es.len() && #[trigger] es[j].alive ==> es[j].id != id,
    ensures
        !live_ids_from(es, i).contains(id),
    decreases es.len() - i,
{
    if 0 <= i < es.len() {
        lemma_live_ids_exclude(es, id, i + 1);
        if es[i].alive {
            assert(live_ids_from(es, i) =~= seq![es[i].id] + live_ids_from(es, i + 1));
            if live_ids_from(es, i).contains(id) {
                let w = choose|w: int| 0 <= w < live_ids_from(es, i).len() && live_ids_from(es, i)[w] == id;
                if w > 0 {
                    assert(live_ids_from(es, i + 1)[w - 1] == id);
                }
            }
        }
    }
}

/// One call on the hub, by its effect on the table.
pub enum HubCall {
    Create { cols: u16, rows: u16, cwd: Seq<char> },
    Kill(Seq<char>),
    Resize(Seq<char>, u16, u16),
    Input(Seq<char>, Seq<u8>),
    KillAll,
}

/// The table after one call, as the methods' contracts give it.
pub open spec fn hub_after(h: HubView, c: HubCall) -> HubView {
    match c {
        HubCall::Create { cols, rows, cwd } => HubView {
            next: h.next + 1,
            entries: h.entries.push(
                EntryView { id: term_id(h.next), cols, rows, cwd, input: seq![], alive: true },
            ),
        },
        HubCall::Kill(id) => if live(h, id) {
            HubView {
                entries: h.entries.update(find(h, id), EntryView { alive: false, ..h.entries[find(h, id)] }),
                ..h
            }
        } else {
            h
        },
        HubCall::Resize(id, cols, rows) => if live(h, id) {
            HubView {
                entries: h.entries.update(find(h, id), EntryView { cols, rows, ..h.entries[find(h, id)] }),
                ..h
            }
        } else {
            h
        },
        HubCall::Input(id, data) => if live(h, id) {
            HubView {
                entries: h.entries.update(
                    find(h, id),
                    EntryView { input: h.entries[find(h, id)].input + data, ..h.entries[find(h, id)] },
                ),
                ..h
            }
        } else {
            h
        },
        HubCall::KillAll => HubView {
            entries: h.entries.map_values(|e: EntryView| EntryView { alive: false, ..e }),
            ..h
        },
    }
}

/// The table after `calls`, starting from a new hub.
pub open spec fn hub_run(calls: Seq<HubCall>) -> HubView
    decreases calls.len(),
{
    if calls.len() == 0 {
        HubView { next: 1, entries: seq![] }
    } else {
        hub_after(hub_run(calls.drop_last()), calls.last())
    }
}

/// How many of `calls` create a terminal.
pub open spec fn creates(calls: Seq<HubCall>) -> nat
    decreases calls.len(),
{
    if calls.len() == 0 {
        0
    } else {
        creates(calls.drop_last()) + if calls.last() is Create {
            1nat
        } else {
            0nat
        }
    }
}

proof fn lemma_after_wf(h: HubView, c: HubCall)
    requires
        hub_wf(h),
    ensures
        hub_wf(hub_after(h, c)),
        hub_after(h, c).entries.len() == h.entries.len() + if c is Create {
            1int
        } else {
            0int
        },
{
    let h2 = hub_after(h, c);
    if live(h, find_id(c)) && !(c is Create) && !(c is KillAll) {
        lemma_find_from(h.entries, find_id(c), 0);
    }
    assert forall|i: int| 0 <= i < h2.entries.len() implies #[trigger] h2.entries[i].id == term_id(i + 1) by {
        if i < h.entries.len() {
            assert(h.entries[i].id == term_id(i + 1));
        }
    }
}

spec fn find_id(c: HubCall) -> Seq<char> {
    match c {
        HubCall::Kill(id) => id,
        HubCall::Resize(id, _, _) => id,
        HubCall::Input(id, _) => id,
        _ => seq![],
    }
}

proof fn lemma_live_ids_push(es: Seq<EntryView>, e: EntryView, i: int)
    requires
        0 <= i <= es.len(),
    ensures
        live_ids_from(es.push(e), i) == live_ids_from(es, i) + if e.alive {
            seq![e.id]
        } else {
            seq![]
        },
    decreases es.len() - i,
{
    if i < es.len() {
        lemma_live_ids_push(es, e, i + 1);
        assert(es.push(e)[i] == es[i]);
        if es[i].alive {
            assert(seq![es[i].id] + live_ids_from(es.push(e), i + 1) =~= seq![es[i].id] + live_ids_from(
                es,
                i + 1,
            ) + if e.alive {
                seq![e.id]
            } else {
                seq![]
            });
        }
    } else {
        assert(live_ids_from(es.push(e), i + 1) =~= Seq::<Seq<char>>::empty());
        assert(live_ids_from(es, i) =~= Seq::<Seq<char>>::empty());
    }
}

/// Over any history of calls on a new hub (kills, resizes, inputs and
/// kill-alls interleaved): the table stays well formed, the ids handed out
/// so far are `term-1` to `term-k` for `k` creates, and the next create
/// gives `term-(k+1)`, live, with no input, listed after every live id.
pub proof fn law_hub_history(calls: Seq<HubCall>, cols: u16, rows: u16, cwd: Seq<char>)
    ensures
        hub_wf(hub_run(calls)),
        hub_run(calls).entries.len() == creates(calls),
        hub_run(calls).next == creates(calls) + 1,
        ({
            let h2 = hub_after(hub_run(calls), HubCall::Create { cols, rows, cwd });
            &&& h2.entries.last().id == term_id(creates(calls) + 1 as int)
            &&& live(h2, term_id(creates(calls) + 1 as int))
            &&& h2.entries.last().input == Seq::<u8>::empty()
            &&& live_ids_from(h2.entries, 0) == live_ids_from(hub_run(calls).entries, 0).push(
                term_id(creates(calls) + 1 as int),
            )
        }),
    decreases calls.len(),
{
    if calls.len() > 0 {
        law_hub_history(calls.drop_last(), cols, rows, cwd);
        lemma_after_wf(hub_run(calls.drop_last()), calls.last());
    }
    let h = hub_run(calls);
    let k = creates(calls);
    let e = EntryView { id: term_id(h.next), cols, rows, cwd, input: seq![], alive: true };
    let h2 = hub_after(h, HubCall::Create { cols, rows, cwd });
    lemma_after_wf(h, HubCall::Create { cols, rows, cwd });
    lemma_live_ids_push(h.entries, e, 0);
    assert(seq![e.id] =~= Seq::<Seq<char>>::empty().push(e.id));
    assert(live_ids_from(h.entries, 0) + seq![e.id] =~= live_ids_from(h.entries, 0).push(e.id));
    // the new id is found at its own index: earlier entries carry other ids
    lemma_find_from(h2.entries, e.id, 0);
    assert forall|j: int| 0 <= j < h.entries.len() implies #[trigger] h2.entries[j].id != e.id by {
        law_hub_ids_distinct(h2, j, h.entries.len() as int);
    }
    lemma_find_last(h2.entries, e.id, 0);
}

proof fn lemma_find_last(es: Seq<EntryView>, id: Seq<char>, i: int)
    requires
        0 <= i < es.len(),
        es.last().id == id,
        forall|j: int| 0 <= j < es.len() - 1 ==> #[trigger] es[j].id != id,
    ensures
        find_from(es, id, i) == es.len() - 1,
    decreases es.len() - i,
{
    if i < es.len() - 1 {
        lemma_find_last(es, id, i + 1);
    }
}

proof fn lemma_find_same(a: Seq<EntryView>, b: Seq<EntryView>, id: Seq<char>, i: int)
    requires
        a.len() == b.len(),
        forall|k: int| 0 <= k < a.len() ==> #[trigger] a[k].id == b[k].id,
    ensures
        find_from(a, id, i) == find_from(b, id, i),
    decreases a.len() - i,
{
    if 0 <= i < a.len() && a[i].id != id {
        lemma_find_same(a, b, id, i + 1);
    }
}

} // verus!
