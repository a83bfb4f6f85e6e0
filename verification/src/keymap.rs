//! Binding table: chord lookup for key handling.

use vstd::prelude::*;
use crate::actions::ClientAction;
use crate::text::{
    append_str, append_vec, chars_of, eq_str, lower_s, lower_vec, split_char, split_s, string_of,
    trim_s, trim_vec, views,
};
use crate::workspace::{InspectorTab, LeftSection};

verus! {

/// One key plus modifiers.
#[derive(Debug, Clone, PartialEq, Eq, Hash)]
pub struct Chord {
    pub key: String,
    pub ctrl: bool,
    pub shift: bool,
    pub alt: bool,
}

/// A chord as plain values.
pub struct ChordV {
    pub key: Seq<char>,
    pub ctrl: bool,
    pub shift: bool,
    pub alt: bool,
}

impl View for Chord {
    type V = ChordV;

    open spec fn view(&self) -> ChordV {
        ChordV { key: self.key@, ctrl: self.ctrl, shift: self.shift, alt: self.alt }
    }
}

/// Key names are ASCII-lowercased; `oem_3` is the backtick key.
pub open spec fn norm_key(k: Seq<char>) -> Seq<char> {
    if lower_s(k) == "oem_3"@ {
        "`"@
    } else {
        lower_s(k)
    }
}

pub open spec fn norm_chord(c: ChordV) -> ChordV {
    ChordV { key: norm_key(c.key), ..c }
}

/// Reads the `-`-separated parts of a chord spec from part `i` on.
pub open spec fn parse_parts(
    parts: Seq<Seq<char>>,
    i: int,
    ctrl: bool,
    shift: bool,
    alt: bool,
    key: Option<Seq<char>>,
) -> Option<ChordV>
    decreases parts.len() - i,
{
    if i < 0 || i >= parts.len() {
        match key {
            None => None,
            Some(k) => Some(ChordV { key: norm_key(k), ctrl, shift, alt }),
        }
    } else {
        let p = parts[i];
        if p.len() == 0 {
            None
        } else if p == "ctrl"@ || p == "control"@ {
            parse_parts(parts, i + 1, true, shift, alt, key)
        } else if p == "shift"@ {
            parse_parts(parts, i + 1, ctrl, true, alt, key)
        } else if p == "alt"@ {
            parse_parts(parts, i + 1, ctrl, shift, true, key)
        } else if key is Some {
            None
        } else {
            parse_parts(parts, i + 1, ctrl, shift, alt, Some(p))
        }
    }
}

/// `Chord::parse` on a whole spec string.
pub open spec fn parse_chord(spec: Seq<char>) -> Option<ChordV> {
    let s = lower_s(trim_s(spec));
    if s.len() == 0 {
        None
    } else {
        parse_parts(split_s(s, '-'), 0, false, false, false, None)
    }
}

pub open spec fn encode_chord(c: ChordV) -> Seq<char> {
    (if c.ctrl {
        "ctrl-"@
    } else {
        Seq::empty()
    }) + (if c.shift {
        "shift-"@
    } else {
        Seq::empty()
    }) + (if c.alt {
        "alt-"@
    } else {
        Seq::empty()
    }) + c.key
}

fn copy_chord(c: &Chord) -> (r: Chord)
    ensures
        r@ == c@,
{
    Chord { key: c.key.clone(), ctrl: c.ctrl, shift: c.shift, alt: c.alt }
}

fn same_chord(a: &Chord, b: &Chord) -> (r: bool)
    ensures
        r == (a@ == b@),
{
    a.key == b.key && a.ctrl == b.ctrl && a.shift == b.shift && a.alt == b.alt
}

fn norm_key_vec(k: &Vec<char>) -> (r: Vec<char>)
    ensures
        r@ == norm_key(k@),
{
    let lower = lower_vec(k);
    if eq_str(&lower, "oem_3") {
        chars_of("`")
    } else {
        lower
    }
}

impl Chord {
    pub fn new(key: &str, ctrl: bool, shift: bool, alt: bool) -> (c: Self)
        ensures
            c@ == norm_chord(ChordV { key: key@, ctrl, shift, alt }),
    {
        let mut c = Chord { key: key.to_owned(), ctrl, shift, alt };
        c.normalize();
        c
    }

    pub fn normalize(&mut self)
        ensures
            final(self)@ == norm_chord(old(self)@),
    {
        let k = chars_of(self.key.as_str());
        let n = norm_key_vec(&k);
        self.key = string_of(&n);
    }

    /// Parse `ctrl-shift-p`, `f1`, `escape`, `ctrl-,`.
    pub fn parse(spec: &str) -> (r: Option<Self>)
        ensures
            match r {
                None => parse_chord(spec@) is None,
                Some(c) => parse_chord(spec@) == Some(c@),
            },
    {
        let raw = chars_of(spec);
        let t = trim_vec(&raw);
        let s = lower_vec(&t);
        if s.len() == 0 {
            return None;
        }
        let parts = split_char(&s, '-');
        let ghost ps = views(parts@);
        let mut ctrl = false;
        let mut shift = false;
        let mut alt = false;
        let mut key: Option<Vec<char>> = None;
        let mut i: usize = 0;
        while i < parts.len()
            invariant
                i <= parts.len(),
                ps == views(parts@),
                parse_chord(spec@) == parse_parts(
                    ps,
                    i as int,
                    ctrl,
                    shift,
                    alt,
                    match key {
                        None => None,
                        Some(k) => Some(k@),
                    },
                ),
                ps == split_s(lower_s(trim_s(spec@)), '-'),
                lower_s(trim_s(spec@)).len() > 0,
            decreases parts.len() - i,
        {
            let p = &parts[i];
            assert(ps[i as int] == p@);
            if p.len() == 0 {
                return None;
            } else if eq_str(p, "ctrl") || eq_str(p, "control") {
                ctrl = true;
            } else if eq_str(p, "shift") {
                shift = true;
            } else if eq_str(p, "alt") {
                alt = true;
            } else if key.is_some() {
                return None;
            } else {
                let mut k: Vec<char> = Vec::new();
                append_vec(&mut k, p);
                key = Some(k);
            }
            i = i + 1;
        }
        match key {
            None => None,
            Some(k) => {
                let n = norm_key_vec(&k);
                Some(Chord { key: string_of(&n), ctrl, shift, alt })
            },
        }
    }

    pub fn encode(&self) -> (r: String)
        ensures
            r@ == encode_chord(self@),
    {
        let mut out: Vec<char> = Vec::new();
        if self.ctrl {
            append_str(&mut out, "ctrl-");
        }
        if self.shift {
            append_str(&mut out, "shift-");
        }
        if self.alt {
            append_str(&mut out, "alt-");
        }
        append_str(&mut out, self.key.as_str());
        let r = string_of(&out);
        assert(r@ =~= encode_chord(self@));
        r
    }
}

/// The rows of a table as plain values.
pub type Rows = Seq<(ChordV, ClientAction)>;

/// `rows` without the rows bound to `k`, order kept.
pub open spec fn unbind(rows: Rows, k: ChordV) -> Rows
    decreases rows.len(),
{
    if rows.len() == 0 {
        rows
    } else {
        let r = unbind(rows.drop_last(), k);
        if rows.last().0 == k {
            r
        } else {
            r.push(rows.last())
        }
    }
}

/// Table after binding `k` to `a`: any earlier row for `k` goes, the new row
/// is last.
pub open spec fn bind_view(rows: Rows, k: ChordV, a: ClientAction) -> Rows {
    unbind(rows, k).push((k, a))
}

/// The action of the last row among the first `n` that is bound to `k`.
pub open spec fn last_match(rows: Rows, k: ChordV, n: int) -> Option<ClientAction>
    decreases n,
{
    if n <= 0 || n > rows.len() {
        None
    } else if rows[n - 1].0 == k {
        Some(rows[n - 1].1)
    } else {
        last_match(rows, k, n - 1)
    }
}

pub open spec fn table_lookup(rows: Rows, k: ChordV) -> Option<ClientAction> {
    last_match(rows, k, rows.len() as int)
}

/// Binding the chord spelled `spec`, if it parses.
pub open spec fn bind_spec_view(rows: Rows, spec: Seq<char>, a: ClientAction) -> Rows {
    match parse_chord(spec) {
        Some(c) => bind_view(rows, c, a),
        None => rows,
    }
}

/// Chord to [`ClientAction`]. Last bind for a chord wins.
#[derive(Debug, PartialEq, Eq)]
pub struct BindingTable {
    rows: Vec<(Chord, ClientAction)>,
}

pub open spec fn row_view(r: (Chord, ClientAction)) -> (ChordV, ClientAction) {
    (r.0@, r.1)
}

impl View for BindingTable {
    type V = Rows;

    closed spec fn view(&self) -> Rows {
        self.rows@.map_values(|r: (Chord, ClientAction)| row_view(r))
    }
}

/// The built-in bindings, bound in this order.
pub open spec fn default_rows() -> Rows {
    let t = Seq::empty();
    let t = bind_spec_view(t, "ctrl-k"@, ClientAction::TogglePalette);
    let t = bind_spec_view(t, "ctrl-shift-p"@, ClientAction::TogglePalette);
    let t = bind_spec_view(t, "ctrl-p"@, ClientAction::ToggleSearch);
    let t = bind_spec_view(t, "ctrl-shift-f"@, ClientAction::ToggleSearch);
    let t = bind_spec_view(t, "ctrl-,"@, ClientAction::ToggleSettings);
    let t = bind_spec_view(t, "f2"@, ClientAction::ToggleSettings);
    let t = bind_spec_view(t, "f1"@, ClientAction::ToggleHelp);
    let t = bind_spec_view(t, "ctrl-n"@, ClientAction::NewThread);
    let t = bind_spec_view(t, "ctrl-["@, ClientAction::ToggleLeft);
    let t = bind_spec_view(t, "ctrl-]"@, ClientAction::ToggleRight);
    let t = bind_spec_view(t, "ctrl-b"@, ClientAction::ToggleLeft);
    let t = bind_spec_view(t, "ctrl-`"@, ClientAction::ToggleBottom);
    let t = bind_spec_view(t, "ctrl-."@, ClientAction::Interrupt);
    let t = bind_spec_view(t, "ctrl-s"@, ClientAction::CreateCheckpoint);
    let t = bind_spec_view(t, "ctrl-shift-g"@, ClientAction::ToggleCenterMode);
    let t = bind_spec_view(t, "ctrl-shift-l"@, ClientAction::ResetOutlook);
    let t = bind_spec_view(t, "ctrl-shift-h"@, ClientAction::FocusLayout);
    let t = bind_spec_view(t, "ctrl-1"@, ClientAction::SelectLeftSection(LeftSection::Threads));
    let t = bind_spec_view(t, "ctrl-2"@, ClientAction::SelectLeftSection(LeftSection::Agents));
    let t = bind_spec_view(t, "ctrl-3"@, ClientAction::SelectLeftSection(LeftSection::Files));
    let t = bind_spec_view(t, "ctrl-4"@, ClientAction::SelectLeftSection(LeftSection::Activity));
    let t = bind_spec_view(t, "escape"@, ClientAction::CloseOverlay);
    let t = bind_spec_view(t, "enter"@, ClientAction::Send);
    let t = bind_spec_view(t, "ctrl-shift-d"@, ClientAction::PopOutInspector);
    let t = bind_spec_view(t, "ctrl-shift-e"@, ClientAction::DockInspector);
    let t = bind_spec_view(t, "ctrl-w"@, ClientAction::ClosePopOut);
    let t = bind_spec_view(t, "ctrl-tab"@, ClientAction::NextRegion);
    let t = bind_spec_view(t, "ctrl-alt-up"@, ClientAction::NudgeBottomUp);
    bind_spec_view(t, "ctrl-alt-down"@, ClientAction::NudgeBottomDown)
}

/// `from_pairs`: the user pairs from `i` on, bound over `rows` where both the
/// chord and the action id parse.
pub open spec fn overlay_pairs(rows: Rows, pairs: Seq<(Seq<char>, Seq<char>)>, n: int) -> Rows
    decreases n,
{
    if n <= 0 || n > pairs.len() {
        rows
    } else {
        let before = overlay_pairs(rows, pairs, n - 1);
        match (parse_chord(pairs[n - 1].0), action_from_id_spec(pairs[n - 1].1)) {
            (Some(c), Some(a)) => bind_view(before, c, a),
            _ => before,
        }
    }
}

/// `pairs`: encoded chord and action id of each row whose action has an id.
pub open spec fn encoded_pairs(rows: Rows) -> Seq<(Seq<char>, Seq<char>)>
    decreases rows.len(),
{
    if rows.len() == 0 {
        Seq::empty()
    } else {
        let before = encoded_pairs(rows.drop_last());
        match action_id_spec(rows.last().1) {
            Some(id) => before.push((encode_chord(rows.last().0), id)),
            None => before,
        }
    }
}

pub open spec fn pair_views(p: Seq<(String, String)>) -> Seq<(Seq<char>, Seq<char>)> {
    p.map_values(|x: (String, String)| (x.0@, x.1@))
}

impl BindingTable {
    /// No chord has two rows: a bind drops the chord's old row first.
    #[verifier::type_invariant]
    spec fn well_formed(self) -> bool {
        chords_distinct(self@)
    }

    /// A table with no rows.
    pub fn empty() -> (t: Self)
        ensures
            t@ == Seq::<(ChordV, ClientAction)>::empty(),
    {
        let rows: Vec<(Chord, ClientAction)> = Vec::new();
        assert(rows@.map_values(|r: (Chord, ClientAction)| row_view(r)) =~= Seq::<(ChordV, ClientAction)>::empty());
        BindingTable { rows }
    }

    fn bind_str(&mut self, spec: &str, action: ClientAction)
        ensures
            final(self)@ == bind_spec_view(old(self)@, spec@, action),
    {
        if let Some(chord) = Chord::parse(spec) {
            self.bind(chord, action);
        }
    }

    pub fn defaults() -> (t: Self)
        ensures
            t@ == default_rows(),
    {
        let mut t = Self::empty();
        t.bind_str("ctrl-k", ClientAction::TogglePalette);
        t.bind_str("ctrl-shift-p", ClientAction::TogglePalette);
        t.bind_str("ctrl-p", ClientAction::ToggleSearch);
        t.bind_str("ctrl-shift-f", ClientAction::ToggleSearch);
        t.bind_str("ctrl-,", ClientAction::ToggleSettings);
        t.bind_str("f2", ClientAction::ToggleSettings);
        t.bind_str("f1", ClientAction::ToggleHelp);
        t.bind_str("ctrl-n", ClientAction::NewThread);
        t.bind_str("ctrl-[", ClientAction::ToggleLeft);
        t.bind_str("ctrl-]", ClientAction::ToggleRight);
        t.bind_str("ctrl-b", ClientAction::ToggleLeft);
        t.bind_str("ctrl-`", ClientAction::ToggleBottom);
        t.bind_str("ctrl-.", ClientAction::Interrupt);
        t.bind_str("ctrl-s", ClientAction::CreateCheckpoint);
        t.bind_str("ctrl-shift-g", ClientAction::ToggleCenterMode);
        t.bind_str("ctrl-shift-l", ClientAction::ResetOutlook);
        t.bind_str("ctrl-shift-h", ClientAction::FocusLayout);
        t.bind_str("ctrl-1", ClientAction::SelectLeftSection(LeftSection::Threads));
        t.bind_str("ctrl-2", ClientAction::SelectLeftSection(LeftSection::Agents));
        t.bind_str("ctrl-3", ClientAction::SelectLeftSection(LeftSection::Files));
        t.bind_str("ctrl-4", ClientAction::SelectLeftSection(LeftSection::Activity));
        t.bind_str("escape", ClientAction::CloseOverlay);
        t.bind_str("enter", ClientAction::Send);
        t.bind_str("ctrl-shift-d", ClientAction::PopOutInspector);
        t.bind_str("ctrl-shift-e", ClientAction::DockInspector);
        t.bind_str("ctrl-w", ClientAction::ClosePopOut);
        t.bind_str("ctrl-tab", ClientAction::NextRegion);
        t.bind_str("ctrl-alt-up", ClientAction::NudgeBottomUp);
        t.bind_str("ctrl-alt-down", ClientAction::NudgeBottomDown);
        t
    }

    pub fn bind(&mut self, chord: Chord, action: ClientAction)
        ensures
            final(self)@ == bind_view(old(self)@, chord@, action),
            chords_distinct(final(self)@),
            final(self)@.len() == old(self)@.len() + if table_lookup(old(self)@, chord@) is Some {
                0int
            } else {
                1int
            },
    {
        proof {
            use_type_invariant(&*self);
            law_bind_len(self@, chord@, action);
        }
        let ghost k = chord@;
        let mut kept: Vec<(Chord, ClientAction)> = Vec::new();
        let mut i: usize = 0;
        while i < self.rows.len()
            invariant
                i <= self.rows.len(),
                k == chord@,
                kept@.map_values(|r: (Chord, ClientAction)| row_view(r)) == unbind(
                    self@.take(i as int),
                    k,
                ),
            decreases self.rows.len() - i,
        {
            let ghost before = kept@;
            assert(self@.take(i + 1).drop_last() =~= self@.take(i as int));
            if !same_chord(&self.rows[i].0, &chord) {
                let c = copy_chord(&self.rows[i].0);
                kept.push((c, self.rows[i].1));
                assert(kept@.map_values(|r: (Chord, ClientAction)| row_view(r)) =~= before.map_values(
                    |r: (Chord, ClientAction)| row_view(r),
                ).push(self@[i as int]));
            }
            i = i + 1;
        }
        assert(self@.take(self.rows.len() as int) =~= self@);
        let ghost mid = kept@;
        kept.push((chord, action));
        assert(kept@.map_values(|r: (Chord, ClientAction)| row_view(r)) =~= mid.map_values(
            |r: (Chord, ClientAction)| row_view(r),
        ).push((k, action)));
        assert(kept@.map_values(|r: (Chord, ClientAction)| row_view(r)) == bind_view(old(self)@, k, action));
        self.rows = kept;
    }

    pub fn lookup(&self, chord: &Chord) -> (r: Option<ClientAction>)
        ensures
            r == table_lookup(self@, norm_chord(chord@)),
    {
        let mut needle = copy_chord(chord);
        needle.normalize();
        let mut n: usize = self.rows.len();
        while n > 0
            invariant
                n <= self.rows.len(),
                needle@ == norm_chord(chord@),
                table_lookup(self@, needle@) == last_match(self@, needle@, n as int),
            decreases n,
        {
            if same_chord(&self.rows[n - 1].0, &needle) {
                return Some(self.rows[n - 1].1);
            }
            n = n - 1;
        }
        None
    }

    pub fn lookup_spec(&self, spec: &str) -> (r: Option<ClientAction>)
        ensures
            r == match parse_chord(spec@) {
                Some(c) => table_lookup(self@, norm_chord(c)),
                None => None,
            },
    {
        match Chord::parse(spec) {
            Some(c) => self.lookup(&c),
            None => None,
        }
    }

    pub fn pairs(&self) -> (r: Vec<(String, String)>)
        ensures
            pair_views(r@) == encoded_pairs(self@),
    {
        let mut out: Vec<(String, String)> = Vec::new();
        let mut i: usize = 0;
        while i < self.rows.len()
            invariant
                i <= self.rows.len(),
                pair_views(out@) == encoded_pairs(self@.take(i as int)),
            decreases self.rows.len() - i,
        {
            let ghost before = out@;
            assert(self@.take(i + 1).drop_last() =~= self@.take(i as int));
            match action_id(self.rows[i].1) {
                Some(id) => {
                    let e = self.rows[i].0.encode();
                    out.push((e, id.to_owned()));
                    assert(pair_views(out@) =~= pair_views(before).push(
                        (encode_chord(self@[i as int].0), id@),
                    ));
                },
                None => {},
            }
            i = i + 1;
        }
        assert(self@.take(self.rows.len() as int) =~= self@);
        out
    }

    /// User pairs overlay defaults. Unknown ids or chords are skipped.
    pub fn from_pairs(pairs: &[(String, String)]) -> (t: Self)
        ensures
            t@ == overlay_pairs(default_rows(), pair_views(pairs@), pairs@.len() as int),
    {
        let mut t = Self::defaults();
        let mut i: usize = 0;
        while i < pairs.len()
            invariant
                i <= pairs.len(),
                t@ == overlay_pairs(default_rows(), pair_views(pairs@), i as int),
            decreases pairs.len() - i,
        {
            let chord = Chord::parse(pairs[i].0.as_str());
            let action = action_from_id(pairs[i].1.as_str());
            match (chord, action) {
                (Some(c), Some(a)) => t.bind(c, a),
                _ => {},
            }
            i = i + 1;
        }
        t
    }

    pub fn len(&self) -> (n: usize)
        ensures
            n == self@.len(),
    {
        self.rows.len()
    }

    pub fn is_empty(&self) -> (b: bool)
        ensures
            b == (self@.len() == 0),
    {
        self.rows.len() == 0
    }
}

impl Clone for BindingTable {
    fn clone(&self) -> (t: Self)
        ensures
            t@ == self@,
    {
        proof {
            use_type_invariant(self);
        }
        let mut rows: Vec<(Chord, ClientAction)> = Vec::new();
        let mut i: usize = 0;
        while i < self.rows.len()
            invariant
                i <= self.rows.len(),
                rows@.map_values(|r: (Chord, ClientAction)| row_view(r)) == self@.take(i as int),
            decreases self.rows.len() - i,
        {
            let ghost before = rows@;
            rows.push((copy_chord(&self.rows[i].0), self.rows[i].1));
            assert(rows@.map_values(|r: (Chord, ClientAction)| row_view(r)) =~= before.map_values(
                |r: (Chord, ClientAction)| row_view(r),
            ).push(self@[i as int]));
            assert(self@.take(i + 1) =~= self@.take(i as int).push(self@[i as int]));
            i = i + 1;
        }
        assert(self@.take(self.rows.len() as int) =~= self@);
        BindingTable { rows }
    }
}

impl Default for BindingTable {
    fn default() -> (t: Self)
        ensures
            t@ == default_rows(),
    {
        Self::defaults()
    }
}

/// Stable catalog / settings id of a bindable action.
pub open spec fn action_id_spec(a: ClientAction) -> Option<Seq<char>> {
    match a {
        ClientAction::TogglePalette => Some("command_palette"@),
        ClientAction::ToggleSearch => Some("toggle_search"@),
        ClientAction::ToggleSettings => Some("settings"@),
        ClientAction::ToggleHelp => Some("help"@),
        ClientAction::NewThread => Some("new_thread"@),
        ClientAction::ToggleLeft => Some("chats_toggle"@),
        ClientAction::ToggleRight => Some("inspector_toggle"@),
        ClientAction::ToggleBottom => Some("toggle_bottom"@),
        ClientAction::Interrupt => Some("stop"@),
        ClientAction::CreateCheckpoint => Some("create_checkpoint"@),
        ClientAction::ToggleCenterMode => Some("center_tui"@),
        ClientAction::SetCenterTui => Some("center_tui"@),
        ClientAction::ResetOutlook => Some("layout_reset"@),
        ClientAction::FocusLayout => Some("focus_layout"@),
        ClientAction::SelectLeftSection(LeftSection::Threads) => Some("left_section_threads"@),
        ClientAction::SelectLeftSection(LeftSection::Agents) => Some("left_section_agents"@),
        ClientAction::SelectLeftSection(LeftSection::Files) => Some("left_section_files"@),
        ClientAction::SelectLeftSection(LeftSection::Activity) => Some("left_section_activity"@),
        ClientAction::CloseOverlay => Some("close_overlay"@),
        ClientAction::Send => Some("send"@),
        ClientAction::CopyLastMessage => Some("copy_last_message"@),
        ClientAction::ClosePalette => Some("command_palette"@),
        ClientAction::CloseSearch => Some("toggle_search"@),
        ClientAction::HideLeft => Some("hide_left"@),
        ClientAction::HideRight => Some("hide_right"@),
        ClientAction::HideBottom => Some("hide_bottom"@),
        ClientAction::SelectTab(InspectorTab::Session) => Some("tab_session"@),
        ClientAction::SelectTab(InspectorTab::Resources) => Some("tab_cores"@),
        ClientAction::SelectTab(InspectorTab::Mcp) => Some("tab_mcp"@),
        ClientAction::SelectTab(InspectorTab::Checkpoints) => Some("tab_points"@),
        ClientAction::SelectTab(InspectorTab::Git) => Some("tab_git"@),
        ClientAction::SelectTab(InspectorTab::Terminal) => Some("tab_term"@),
        ClientAction::SelectTab(InspectorTab::Skills) => Some("tab_skills"@),
        ClientAction::SelectTab(InspectorTab::Diff) => Some("tab_diff"@),
        ClientAction::SelectTab(InspectorTab::Browser) => Some("tab_browser"@),
        ClientAction::SelectTab(InspectorTab::Files) => Some("tab_files"@),
        ClientAction::SelectTab(InspectorTab::Activity) => Some("tab_activity"@),
        ClientAction::SelectTab(InspectorTab::Agents) => Some("tab_agents"@),
        ClientAction::DismissToast => Some("toast_dismiss"@),
        ClientAction::CopySession => Some("copy_session"@),
        ClientAction::RunGitStatus => Some("run_git_status"@),
        ClientAction::PopOutInspector => Some("popout_inspector"@),
        ClientAction::DockInspector => Some("dock_inspector"@),
        ClientAction::ClosePopOut => Some("close_popout"@),
        ClientAction::NextRegion => Some("next_region"@),
        ClientAction::NudgeBottomUp => Some("nudge_bottom_up"@),
        ClientAction::NudgeBottomDown => Some("nudge_bottom_down"@),
        ClientAction::ApproveOnce => Some("allow_once"@),
        ClientAction::Later => Some("later"@),
        ClientAction::PinThread => Some("pin_thread"@),
        ClientAction::MarkUnread => Some("mark_unread"@),
        ClientAction::ArchiveThread => Some("archive_thread"@),
        ClientAction::UnarchiveThread => Some("unarchive_thread"@),
        ClientAction::CopyThreadId => Some("copy_thread_id"@),
        ClientAction::OpenAbout => Some("settings_about"@),
        _ => None,
    }
}

/// Stable catalog / settings id for a bindable action.
pub fn action_id(action: ClientAction) -> (r: Option<&'static str>)
    ensures
        match r {
            Some(s) => action_id_spec(action) == Some(s@),
            None => action_id_spec(action) is None,
        },
{
    match action {
        ClientAction::TogglePalette => Some("command_palette"),
        ClientAction::ToggleSearch => Some("toggle_search"),
        ClientAction::ToggleSettings => Some("settings"),
        ClientAction::ToggleHelp => Some("help"),
        ClientAction::NewThread => Some("new_thread"),
        ClientAction::ToggleLeft => Some("chats_toggle"),
        ClientAction::ToggleRight => Some("inspector_toggle"),
        ClientAction::ToggleBottom => Some("toggle_bottom"),
        ClientAction::Interrupt => Some("stop"),
        ClientAction::CreateCheckpoint => Some("create_checkpoint"),
        ClientAction::ToggleCenterMode => Some("center_tui"),
        ClientAction::SetCenterTui => Some("center_tui"),
        ClientAction::ResetOutlook => Some("layout_reset"),
        ClientAction::FocusLayout => Some("focus_layout"),
        ClientAction::SelectLeftSection(LeftSection::Threads) => Some("left_section_threads"),
        ClientAction::SelectLeftSection(LeftSection::Agents) => Some("left_section_agents"),
        ClientAction::SelectLeftSection(LeftSection::Files) => Some("left_section_files"),
        ClientAction::SelectLeftSection(LeftSection::Activity) => Some("left_section_activity"),
        ClientAction::CloseOverlay => Some("close_overlay"),
        ClientAction::Send => Some("send"),
        ClientAction::CopyLastMessage => Some("copy_last_message"),
        ClientAction::ClosePalette => Some("command_palette"),
        ClientAction::CloseSearch => Some("toggle_search"),
        ClientAction::HideLeft => Some("hide_left"),
        ClientAction::HideRight => Some("hide_right"),
        ClientAction::HideBottom => Some("hide_bottom"),
        ClientAction::SelectTab(InspectorTab::Session) => Some("tab_session"),
        ClientAction::SelectTab(InspectorTab::Resources) => Some("tab_cores"),
        ClientAction::SelectTab(InspectorTab::Mcp) => Some("tab_mcp"),
        ClientAction::SelectTab(InspectorTab::Checkpoints) => Some("tab_points"),
        ClientAction::SelectTab(InspectorTab::Git) => Some("tab_git"),
        ClientAction::SelectTab(InspectorTab::Terminal) => Some("tab_term"),
        ClientAction::SelectTab(InspectorTab::Skills) => Some("tab_skills"),
        ClientAction::SelectTab(InspectorTab::Diff) => Some("tab_diff"),
        ClientAction::SelectTab(InspectorTab::Browser) => Some("tab_browser"),
        ClientAction::SelectTab(InspectorTab::Files) => Some("tab_files"),
        ClientAction::SelectTab(InspectorTab::Activity) => Some("tab_activity"),
        ClientAction::SelectTab(InspectorTab::Agents) => Some("tab_agents"),
        ClientAction::DismissToast => Some("toast_dismiss"),
        ClientAction::CopySession => Some("copy_session"),
        ClientAction::RunGitStatus => Some("run_git_status"),
        ClientAction::PopOutInspector => Some("popout_inspector"),
        ClientAction::DockInspector => Some("dock_inspector"),
        ClientAction::ClosePopOut => Some("close_popout"),
        ClientAction::NextRegion => Some("next_region"),
        ClientAction::NudgeBottomUp => Some("nudge_bottom_up"),
        ClientAction::NudgeBottomDown => Some("nudge_bottom_down"),
        ClientAction::ApproveOnce => Some("allow_once"),
        ClientAction::Later => Some("later"),
        ClientAction::PinThread => Some("pin_thread"),
        ClientAction::MarkUnread => Some("mark_unread"),
        ClientAction::ArchiveThread => Some("archive_thread"),
        ClientAction::UnarchiveThread => Some("unarchive_thread"),
        ClientAction::CopyThreadId => Some("copy_thread_id"),
        ClientAction::OpenAbout => Some("settings_about"),
        _ => None,
    }
}

/// Inverse of `action_id_spec` on bindable ids; `toggle_palette` is an alias.
pub open spec fn action_from_id_spec(id: Seq<char>) -> Option<ClientAction> {
    if id == "command_palette"@ || id == "toggle_palette"@ {
        Some(ClientAction::TogglePalette)
    } else if id == "toggle_search"@ {
        Some(ClientAction::ToggleSearch)
    } else if id == "settings"@ {
        Some(ClientAction::ToggleSettings)
    } else if id == "help"@ {
        Some(ClientAction::ToggleHelp)
    } else if id == "new_thread"@ {
        Some(ClientAction::NewThread)
    } else if id == "chats_toggle"@ {
        Some(ClientAction::ToggleLeft)
    } else if id == "inspector_toggle"@ {
        Some(ClientAction::ToggleRight)
    } else if id == "toggle_bottom"@ {
        Some(ClientAction::ToggleBottom)
    } else if id == "stop"@ {
        Some(ClientAction::Interrupt)
    } else if id == "create_checkpoint"@ {
        Some(ClientAction::CreateCheckpoint)
    } else if id == "center_tui"@ {
        Some(ClientAction::ToggleCenterMode)
    } else if id == "layout_reset"@ {
        Some(ClientAction::ResetOutlook)
    } else if id == "focus_layout"@ {
        Some(ClientAction::FocusLayout)
    } else if id == "left_section_threads"@ {
        Some(ClientAction::SelectLeftSection(LeftSection::Threads))
    } else if id == "left_section_agents"@ {
        Some(ClientAction::SelectLeftSection(LeftSection::Agents))
    } else if id == "left_section_files"@ {
        Some(ClientAction::SelectLeftSection(LeftSection::Files))
    } else if id == "left_section_activity"@ {
        Some(ClientAction::SelectLeftSection(LeftSection::Activity))
    } else if id == "close_overlay"@ {
        Some(ClientAction::CloseOverlay)
    } else if id == "send"@ {
        Some(ClientAction::Send)
    } else if id == "copy_last_message"@ {
        Some(ClientAction::CopyLastMessage)
    } else if id == "hide_left"@ {
        Some(ClientAction::HideLeft)
    } else if id == "hide_right"@ {
        Some(ClientAction::HideRight)
    } else if id == "hide_bottom"@ {
        Some(ClientAction::HideBottom)
    } else if id == "tab_session"@ {
        Some(ClientAction::SelectTab(InspectorTab::Session))
    } else if id == "tab_cores"@ {
        Some(ClientAction::SelectTab(InspectorTab::Resources))
    } else if id == "tab_mcp"@ {
        Some(ClientAction::SelectTab(InspectorTab::Mcp))
    } else if id == "tab_points"@ {
        Some(ClientAction::SelectTab(InspectorTab::Checkpoints))
    } else if id == "tab_git"@ {
        Some(ClientAction::SelectTab(InspectorTab::Git))
    } else if id == "tab_term"@ {
        Some(ClientAction::SelectTab(InspectorTab::Terminal))
    } else if id == "tab_skills"@ {
        Some(ClientAction::SelectTab(InspectorTab::Skills))
    } else if id == "tab_diff"@ {
        Some(ClientAction::SelectTab(InspectorTab::Diff))
    } else if id == "tab_browser"@ {
        Some(ClientAction::SelectTab(InspectorTab::Browser))
    } else if id == "tab_files"@ {
        Some(ClientAction::SelectTab(InspectorTab::Files))
    } else if id == "tab_activity"@ {
        Some(ClientAction::SelectTab(InspectorTab::Activity))
    } else if id == "tab_agents"@ {
        Some(ClientAction::SelectTab(InspectorTab::Agents))
    } else if id == "toast_dismiss"@ {
        Some(ClientAction::DismissToast)
    } else if id == "copy_session"@ {
        Some(ClientAction::CopySession)
    } else if id == "run_git_status"@ {
        Some(ClientAction::RunGitStatus)
    } else if id == "popout_inspector"@ {
        Some(ClientAction::PopOutInspector)
    } else if id == "dock_inspector"@ {
        Some(ClientAction::DockInspector)
    } else if id == "close_popout"@ {
        Some(ClientAction::ClosePopOut)
    } else if id == "next_region"@ {
        Some(ClientAction::NextRegion)
    } else if id == "nudge_bottom_up"@ {
        Some(ClientAction::NudgeBottomUp)
    } else if id == "nudge_bottom_down"@ {
        Some(ClientAction::NudgeBottomDown)
    } else if id == "allow_once"@ {
        Some(ClientAction::ApproveOnce)
    } else if id == "later"@ {
        Some(ClientAction::Later)
    } else if id == "pin_thread"@ {
        Some(ClientAction::PinThread)
    } else if id == "mark_unread"@ {
        Some(ClientAction::MarkUnread)
    } else if id == "archive_thread"@ {
        Some(ClientAction::ArchiveThread)
    } else if id == "unarchive_thread"@ {
        Some(ClientAction::UnarchiveThread)
    } else if id == "copy_thread_id"@ {
        Some(ClientAction::CopyThreadId)
    } else if id == "settings_about"@ {
        Some(ClientAction::OpenAbout)
    } else {
        None
    }
}

/// Inverse of [`action_id`] for bindable ids. Aliases accepted.
pub fn action_from_id(id: &str) -> (r: Option<ClientAction>)
    ensures
        r == action_from_id_spec(id@),
{
    let v = chars_of(id);
    if eq_str(&v, "command_palette") || eq_str(&v, "toggle_palette") {
        Some(ClientAction::TogglePalette)
    } else if eq_str(&v, "toggle_search") {
        Some(ClientAction::ToggleSearch)
    } else if eq_str(&v, "settings") {
        Some(ClientAction::ToggleSettings)
    } else if eq_str(&v, "help") {
        Some(ClientAction::ToggleHelp)
    } else if eq_str(&v, "new_thread") {
        Some(ClientAction::NewThread)
    } else if eq_str(&v, "chats_toggle") {
        Some(ClientAction::ToggleLeft)
    } else if eq_str(&v, "inspector_toggle") {
        Some(ClientAction::ToggleRight)
    } else if eq_str(&v, "toggle_bottom") {
        Some(ClientAction::ToggleBottom)
    } else if eq_str(&v, "stop") {
        Some(ClientAction::Interrupt)
    } else if eq_str(&v, "create_checkpoint") {
        Some(ClientAction::CreateCheckpoint)
    } else if eq_str(&v, "center_tui") {
        Some(ClientAction::ToggleCenterMode)
    } else if eq_str(&v, "layout_reset") {
        Some(ClientAction::ResetOutlook)
    } else if eq_str(&v, "focus_layout") {
        Some(ClientAction::FocusLayout)
    } else if eq_str(&v, "left_section_threads") {
        Some(ClientAction::SelectLeftSection(LeftSection::Threads))
    } else if eq_str(&v, "left_section_agents") {
        Some(ClientAction::SelectLeftSection(LeftSection::Agents))
    } else if eq_str(&v, "left_section_files") {
        Some(ClientAction::SelectLeftSection(LeftSection::Files))
    } else if eq_str(&v, "left_section_activity") {
        Some(ClientAction::SelectLeftSection(LeftSection::Activity))
    } else if eq_str(&v, "close_overlay") {
        Some(ClientAction::CloseOverlay)
    } else if eq_str(&v, "send") {
        Some(ClientAction::Send)
    } else if eq_str(&v, "copy_last_message") {
        Some(ClientAction::CopyLastMessage)
    } else if eq_str(&v, "hide_left") {
        Some(ClientAction::HideLeft)
    } else if eq_str(&v, "hide_right") {
        Some(ClientAction::HideRight)
    } else if eq_str(&v, "hide_bottom") {
        Some(ClientAction::HideBottom)
    } else if eq_str(&v, "tab_session") {
        Some(ClientAction::SelectTab(InspectorTab::Session))
    } else if eq_str(&v, "tab_cores") {
        Some(ClientAction::SelectTab(InspectorTab::Resources))
    } else if eq_str(&v, "tab_mcp") {
        Some(ClientAction::SelectTab(InspectorTab::Mcp))
    } else if eq_str(&v, "tab_points") {
        Some(ClientAction::SelectTab(InspectorTab::Checkpoints))
    } else if eq_str(&v, "tab_git") {
        Some(ClientAction::SelectTab(InspectorTab::Git))
    } else if eq_str(&v, "tab_term") {
        Some(ClientAction::SelectTab(InspectorTab::Terminal))
    } else if eq_str(&v, "tab_skills") {
        Some(ClientAction::SelectTab(InspectorTab::Skills))
    } else if eq_str(&v, "tab_diff") {
        Some(ClientAction::SelectTab(InspectorTab::Diff))
    } else if eq_str(&v, "tab_browser") {
        Some(ClientAction::SelectTab(InspectorTab::Browser))
    } else if eq_str(&v, "tab_files") {
        Some(ClientAction::SelectTab(InspectorTab::Files))
    } else if eq_str(&v, "tab_activity") {
        Some(ClientAction::SelectTab(InspectorTab::Activity))
    } else if eq_str(&v, "tab_agents") {
        Some(ClientAction::SelectTab(InspectorTab::Agents))
    } else if eq_str(&v, "toast_dismiss") {
        Some(ClientAction::DismissToast)
    } else if eq_str(&v, "copy_session") {
        Some(ClientAction::CopySession)
    } else if eq_str(&v, "run_git_status") {
        Some(ClientAction::RunGitStatus)
    } else if eq_str(&v, "popout_inspector") {
        Some(ClientAction::PopOutInspector)
    } else if eq_str(&v, "dock_inspector") {
        Some(ClientAction::DockInspector)
    } else if eq_str(&v, "close_popout") {
        Some(ClientAction::ClosePopOut)
    } else if eq_str(&v, "next_region") {
        Some(ClientAction::NextRegion)
    } else if eq_str(&v, "nudge_bottom_up") {
        Some(ClientAction::NudgeBottomUp)
    } else if eq_str(&v, "nudge_bottom_down") {
        Some(ClientAction::NudgeBottomDown)
    } else if eq_str(&v, "allow_once") {
        Some(ClientAction::ApproveOnce)
    } else if eq_str(&v, "later") {
        Some(ClientAction::Later)
    } else if eq_str(&v, "pin_thread") {
        Some(ClientAction::PinThread)
    } else if eq_str(&v, "mark_unread") {
        Some(ClientAction::MarkUnread)
    } else if eq_str(&v, "archive_thread") {
        Some(ClientAction::ArchiveThread)
    } else if eq_str(&v, "unarchive_thread") {
        Some(ClientAction::UnarchiveThread)
    } else if eq_str(&v, "copy_thread_id") {
        Some(ClientAction::CopyThreadId)
    } else if eq_str(&v, "settings_about") {
        Some(ClientAction::OpenAbout)
    } else {
        None
    }
}

pub open spec fn tui_hatch(a: ClientAction) -> bool {
    ||| a is ToggleCenterMode
    ||| a is SetCenterGui
    ||| a is SetCenterTui
    ||| a is ResetOutlook
    ||| a is ToggleLeft
    ||| a is ToggleRight
    ||| a is TogglePalette
    ||| a is ToggleBottom
    ||| a is ToggleSettings
    ||| a is CloseOverlay
    ||| a is FocusLayout
    ||| a is ToggleHelp
    ||| a is PopOutInspector
    ||| a is DockInspector
    ||| a is ClosePopOut
}

/// Hatch chords that stay live while an external Grok TUI is running.
pub fn is_tui_hatch(action: ClientAction) -> (r: bool)
    ensures
        r == tui_hatch(action),
{
    match action {
        ClientAction::ToggleCenterMode
        | ClientAction::SetCenterGui
        | ClientAction::SetCenterTui
        | ClientAction::ResetOutlook
        | ClientAction::ToggleLeft
        | ClientAction::ToggleRight
        | ClientAction::TogglePalette
        | ClientAction::ToggleBottom
        | ClientAction::ToggleSettings
        | ClientAction::CloseOverlay
        | ClientAction::FocusLayout
        | ClientAction::ToggleHelp
        | ClientAction::PopOutInspector
        | ClientAction::DockInspector
        | ClientAction::ClosePopOut => true,
        _ => false,
    }
}

} // verus!

verus! {

proof fn lemma_unbind_keeps(rows: Rows, c: ChordV, k: ChordV, n: int)
    requires
        k != c,
        0 <= n <= rows.len(),
    ensures
        last_match(unbind(rows.take(n), c), k, unbind(rows.take(n), c).len() as int)
            == last_match(rows, k, n),
    decreases n,
{
    let t = rows.take(n);
    if n > 0 {
        assert(t.drop_last() =~= rows.take(n - 1));
        lemma_unbind_keeps(rows, c, k, n - 1);
        let u = unbind(rows.take(n - 1), c);
        if t.last().0 != c {
            let u2 = u.push(t.last());
            assert(last_match(u2, k, u.len() as int) == last_match(u, k, u.len() as int)) by {
                lemma_last_match_prefix(u2, u, k, u.len() as int);
            }
        }
    }
}

proof fn lemma_last_match_prefix(long: Rows, short: Rows, k: ChordV, n: int)
    requires
        0 <= n <= short.len() <= long.len(),
        forall|i: int| 0 <= i < short.len() ==> long[i] == short[i],
    ensures
        last_match(long, k, n) == last_match(short, k, n),
    decreases n,
{
    if n > 0 {
        lemma_last_match_prefix(long, short, k, n - 1);
    }
}

/// No chord has two rows.
pub open spec fn chords_distinct(rows: Rows) -> bool {
    forall|i: int, j: int| 0 <= i < j < rows.len() ==> rows[i].0 != rows[j].0
}

proof fn lemma_last_match_none(rows: Rows, k: ChordV, n: int)
    requires
        0 <= n <= rows.len(),
    ensures
        last_match(rows, k, n) is None <==> forall|i: int| 0 <= i < n ==> rows[i].0 != k,
    decreases n,
{
    if n > 0 {
        lemma_last_match_none(rows, k, n - 1);
    }
}

/// Dropping the rows of `c` from a table without repeated chords: no row of
/// `c` is left, the chords left are chords of the table, none repeats, and
/// the table shrinks by one exactly when `c` was bound.
proof fn lemma_unbind_distinct(rows: Rows, c: ChordV)
    requires
        chords_distinct(rows),
    ensures
        forall|i: int| 0 <= i < unbind(rows, c).len() ==> (#[trigger] unbind(rows, c)[i]).0 != c,
        forall|i: int| 0 <= i < unbind(rows, c).len() ==> exists|j: int| 0 <= j < rows.len() && (#[trigger] unbind(rows, c)[i]).0 == rows[j].0,
        chords_distinct(unbind(rows, c)),
        unbind(rows, c).len() == rows.len() - if table_lookup(rows, c) is Some { 1int } else { 0int },
    decreases rows.len(),
{
    if rows.len() > 0 {
        let p = rows.drop_last();
        assert(chords_distinct(p));
        lemma_unbind_distinct(p, c);
        let r = unbind(p, c);
        lemma_last_match_prefix(rows, p, c, p.len() as int);
        lemma_last_match_none(p, c, p.len() as int);
        if rows.last().0 == c {
            assert forall|i: int| 0 <= i < p.len() implies p[i].0 != c by {
                assert(rows[i].0 != rows[rows.len() - 1].0);
            }
            assert forall|i: int| 0 <= i < r.len() implies exists|j: int| 0 <= j < rows.len() && (#[trigger] r[i]).0 == rows[j].0 by {
                let j = choose|j: int| 0 <= j < p.len() && r[i].0 == p[j].0;
                assert(rows[j] == p[j]);
            }
        } else {
            let u = r.push(rows.last());
            assert forall|i: int| 0 <= i < u.len() implies exists|j: int| 0 <= j < rows.len() && (#[trigger] u[i]).0 == rows[j].0 by {
                if i < r.len() {
                    let j = choose|j: int| 0 <= j < p.len() && r[i].0 == p[j].0;
                    assert(rows[j] == p[j]);
                } else {
                    assert(u[i].0 == rows[rows.len() - 1].0);
                }
            }
            assert forall|i: int, j: int| 0 <= i < j < u.len() implies u[i].0 != u[j].0 by {
                if j == r.len() {
                    let m = choose|m: int| 0 <= m < p.len() && r[i].0 == p[m].0;
                    assert(rows[m].0 != rows[rows.len() - 1].0);
                } else {
                    assert(u[i] == r[i] && u[j] == r[j]);
                }
            }
        }
    }
}

/// In a table where no chord repeats (every `BindingTable`, by its
/// invariant), binding keeps chords from repeating and adds a row exactly
/// when the chord was not bound yet.
pub proof fn law_bind_len(rows: Rows, c: ChordV, a: ClientAction)
    requires
        chords_distinct(rows),
    ensures
        chords_distinct(bind_view(rows, c, a)),
        bind_view(rows, c, a).len() == rows.len() + if table_lookup(rows, c) is Some { 0int } else { 1int },
{
    lemma_unbind_distinct(rows, c);
    let u = unbind(rows, c);
    let b = u.push((c, a));
    assert forall|i: int, j: int| 0 <= i < j < b.len() implies b[i].0 != b[j].0 by {
        if j == u.len() {
            assert(u[i].0 != c);
        } else {
            assert(b[i] == u[i] && b[j] == u[j]);
        }
    }
}

/// After `bind(c, a)`, looking `c` up gives `a`: the last bind wins.
pub proof fn law_last_bind_wins(rows: Rows, c: ChordV, a: ClientAction)
    ensures
        table_lookup(bind_view(rows, c, a), c) == Some(a),
{
}

/// Binding one chord leaves the lookup of every other chord unchanged.
pub proof fn law_bind_keeps_other_chords(rows: Rows, c: ChordV, a: ClientAction, k: ChordV)
    requires
        k != c,
    ensures
        table_lookup(bind_view(rows, c, a), k) == table_lookup(rows, k),
{
    let u = unbind(rows, c);
    let b = u.push((c, a));
    assert(rows.take(rows.len() as int) =~= rows);
    lemma_unbind_keeps(rows, c, k, rows.len() as int);
    lemma_last_match_prefix(b, u, k, u.len() as int);
}

/// A chord given to `Chord::new` or produced by `Chord::parse` is already
/// normal, so looking it up finds exactly what was bound to it.
pub proof fn law_parsed_chords_are_normal(spec: Seq<char>)
    ensures
        parse_chord(spec) matches Some(c) ==> norm_chord(c) == c,
{
    let s = lower_s(trim_s(spec));
    if s.len() != 0 {
        lemma_parse_parts_normal(split_s(s, '-'), 0, false, false, false, None);
    }
}

proof fn lemma_norm_key_idem(k: Seq<char>)
    ensures
        norm_key(norm_key(k)) == norm_key(k),
{
    reveal_strlit("`");
    reveal_strlit("oem_3");
    let l = lower_s(k);
    assert(lower_s(l) =~= l);
    assert(lower_s("`"@) =~= "`"@);
}

proof fn lemma_parse_parts_normal(
    parts: Seq<Seq<char>>,
    i: int,
    ctrl: bool,
    shift: bool,
    alt: bool,
    key: Option<Seq<char>>,
)
    ensures
        parse_parts(parts, i, ctrl, shift, alt, key) matches Some(c) ==> norm_chord(c) == c,
    decreases parts.len() - i,
{
    if i < 0 || i >= parts.len() {
        if let Some(k) = key {
            lemma_norm_key_idem(k);
        }
    } else {
        let p = parts[i];
        if p.len() == 0 {
        } else if p == "ctrl"@ || p == "control"@ {
            lemma_parse_parts_normal(parts, i + 1, true, shift, alt, key);
        } else if p == "shift"@ {
            lemma_parse_parts_normal(parts, i + 1, ctrl, true, alt, key);
        } else if p == "alt"@ {
            lemma_parse_parts_normal(parts, i + 1, ctrl, shift, true, key);
        } else if key is Some {
        } else {
            lemma_parse_parts_normal(parts, i + 1, ctrl, shift, alt, Some(p));
        }
    }
}

/// The id of every bindable action reads back as that action; the only
/// exceptions are the three actions that share an id with another one
/// (`ClosePalette`, `CloseSearch`, `SetCenterTui`).
#[verifier::rlimit(60)]
pub proof fn law_action_id_roundtrip(a: ClientAction)
    requires
        !(a is ClosePalette),
        !(a is CloseSearch),
        !(a is SetCenterTui),
    ensures
        action_id_spec(a) matches Some(id) ==> action_from_id_spec(id) == Some(a),
{
    reveal_strlit("command_palette");
    reveal_strlit("toggle_palette");
    reveal_strlit("toggle_search");
    reveal_strlit("settings");
    reveal_strlit("help");
    reveal_strlit("new_thread");
    reveal_strlit("chats_toggle");
    reveal_strlit("inspector_toggle");
    reveal_strlit("toggle_bottom");
    reveal_strlit("stop");
    reveal_strlit("create_checkpoint");
    reveal_strlit("center_tui");
    reveal_strlit("layout_reset");
    reveal_strlit("focus_layout");
    reveal_strlit("left_section_threads");
    reveal_strlit("left_section_agents");
    reveal_strlit("left_section_files");
    reveal_strlit("left_section_activity");
    reveal_strlit("close_overlay");
    reveal_strlit("send");
    reveal_strlit("copy_last_message");
    reveal_strlit("hide_left");
    reveal_strlit("hide_right");
    reveal_strlit("hide_bottom");
    reveal_strlit("tab_session");
    reveal_strlit("tab_cores");
    reveal_strlit("tab_mcp");
    reveal_strlit("tab_points");
    reveal_strlit("tab_git");
    reveal_strlit("tab_term");
    reveal_strlit("tab_skills");
    reveal_strlit("tab_diff");
    reveal_strlit("tab_browser");
    reveal_strlit("tab_files");
    reveal_strlit("tab_activity");
    reveal_strlit("tab_agents");
    reveal_strlit("toast_dismiss");
    reveal_strlit("copy_session");
    reveal_strlit("run_git_status");
    reveal_strlit("popout_inspector");
    reveal_strlit("dock_inspector");
    reveal_strlit("close_popout");
    reveal_strlit("next_region");
    reveal_strlit("nudge_bottom_up");
    reveal_strlit("nudge_bottom_down");
    reveal_strlit("allow_once");
    reveal_strlit("later");
    reveal_strlit("pin_thread");
    reveal_strlit("mark_unread");
    reveal_strlit("archive_thread");
    reveal_strlit("unarchive_thread");
    reveal_strlit("copy_thread_id");
    reveal_strlit("settings_about");
    assert("command_palette"@.len() == 15);
    assert("toggle_palette"@.len() == 14);
    assert("toggle_search"@.len() == 13);
    assert("settings"@.len() == 8);
    assert("help"@.len() == 4);
    assert("new_thread"@.len() == 10);
    assert("chats_toggle"@.len() == 12);
    assert("inspector_toggle"@.len() == 16);
    assert("toggle_bottom"@.len() == 13);
    assert("stop"@.len() == 4);
    assert("create_checkpoint"@.len() == 17);
    assert("center_tui"@.len() == 10);
    assert("layout_reset"@.len() == 12);
    assert("focus_layout"@.len() == 12);
    assert("left_section_threads"@.len() == 20);
    assert("left_section_agents"@.len() == 19);
    assert("left_section_files"@.len() == 18);
    assert("left_section_activity"@.len() == 21);
    assert("close_overlay"@.len() == 13);
    assert("send"@.len() == 4);
    assert("copy_last_message"@.len() == 17);
    assert("hide_left"@.len() == 9);
    assert("hide_right"@.len() == 10);
    assert("hide_bottom"@.len() == 11);
    assert("tab_session"@.len() == 11);
    assert("tab_cores"@.len() == 9);
    assert("tab_mcp"@.len() == 7);
    assert("tab_points"@.len() == 10);
    assert("tab_git"@.len() == 7);
    assert("tab_term"@.len() == 8);
    assert("tab_skills"@.len() == 10);
    assert("tab_diff"@.len() == 8);
    assert("tab_browser"@.len() == 11);
    assert("tab_files"@.len() == 9);
    assert("tab_activity"@.len() == 12);
    assert("tab_agents"@.len() == 10);
    assert("toast_dismiss"@.len() == 13);
    assert("copy_session"@.len() == 12);
    assert("run_git_status"@.len() == 14);
    assert("popout_inspector"@.len() == 16);
    assert("dock_inspector"@.len() == 14);
    assert("close_popout"@.len() == 12);
    assert("next_region"@.len() == 11);
    assert("nudge_bottom_up"@.len() == 15);
    assert("nudge_bottom_down"@.len() == 17);
    assert("allow_once"@.len() == 10);
    assert("later"@.len() == 5);
    assert("pin_thread"@.len() == 10);
    assert("mark_unread"@.len() == 11);
    assert("archive_thread"@.len() == 14);
    assert("unarchive_thread"@.len() == 16);
    assert("copy_thread_id"@.len() == 14);
    assert("settings_about"@.len() == 14);
    assert("command_palette"@[0] == 'c');
    assert("nudge_bottom_up"@[0] == 'n');
    assert("toggle_palette"@[0] == 't');
    assert("run_git_status"@[0] == 'r');
    assert("dock_inspector"@[0] == 'd');
    assert("archive_thread"@[0] == 'a');
    assert("copy_thread_id"@[0] == 'c');
    assert("settings_about"@[0] == 's');
    assert("toggle_search"@[7] == 's');
    assert("toggle_bottom"@[7] == 'b');
    assert("toggle_search"@[0] == 't');
    assert("close_overlay"@[0] == 'c');
    assert("toggle_search"@[2] == 'g');
    assert("toast_dismiss"@[2] == 'a');
    assert("settings"@[0] == 's');
    assert("tab_term"@[0] == 't');
    assert("tab_diff"@[0] == 't');
    assert("help"@[0] == 'h');
    assert("stop"@[0] == 's');
    assert("send"@[0] == 's');
    assert("new_thread"@[0] == 'n');
    assert("center_tui"@[0] == 'c');
    assert("hide_right"@[0] == 'h');
    assert("tab_points"@[0] == 't');
    assert("tab_skills"@[0] == 't');
    assert("tab_agents"@[0] == 't');
    assert("allow_once"@[0] == 'a');
    assert("pin_thread"@[0] == 'p');
    assert("chats_toggle"@[0] == 'c');
    assert("layout_reset"@[0] == 'l');
    assert("focus_layout"@[0] == 'f');
    assert("tab_activity"@[0] == 't');
    assert("chats_toggle"@[1] == 'h');
    assert("copy_session"@[1] == 'o');
    assert("close_popout"@[1] == 'l');
    assert("inspector_toggle"@[0] == 'i');
    assert("popout_inspector"@[0] == 'p');
    assert("unarchive_thread"@[0] == 'u');
    assert("toggle_bottom"@[0] == 't');
    assert("toggle_bottom"@[2] == 'g');
    assert("stop"@[1] == 't');
    assert("send"@[1] == 'e');
    assert("create_checkpoint"@[1] == 'r');
    assert("copy_last_message"@[1] == 'o');
    assert("create_checkpoint"@[0] == 'c');
    assert("nudge_bottom_down"@[0] == 'n');
    assert("copy_session"@[0] == 'c');
    assert("close_popout"@[0] == 'c');
    assert("toast_dismiss"@[0] == 't');
    assert("copy_last_message"@[0] == 'c');
    assert("hide_left"@[0] == 'h');
    assert("tab_cores"@[0] == 't');
    assert("tab_files"@[0] == 't');
    assert("hide_bottom"@[0] == 'h');
    assert("tab_session"@[0] == 't');
    assert("tab_browser"@[0] == 't');
    assert("next_region"@[0] == 'n');
    assert("mark_unread"@[0] == 'm');
    assert("tab_session"@[4] == 's');
    assert("tab_browser"@[4] == 'b');
    assert("tab_cores"@[4] == 'c');
    assert("tab_files"@[4] == 'f');
    assert("tab_mcp"@[4] == 'm');
    assert("tab_git"@[4] == 'g');
    assert("tab_points"@[4] == 'p');
    assert("tab_skills"@[4] == 's');
    assert("tab_agents"@[4] == 'a');
    assert("tab_term"@[4] == 't');
    assert("tab_diff"@[4] == 'd');
}

} // verus!
