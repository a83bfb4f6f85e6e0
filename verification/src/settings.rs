//! User settings the Settings page can change and persist.

use vstd::prelude::*;
use crate::keymap::{default_rows, encoded_pairs, overlay_pairs, pair_views, BindingTable, Rows};
use crate::json::{
    as_array_s, as_str_s, get_array, get_array_s, get_bool, get_bool_s, get_str, get_str_s,
    get_u64, get_u64_s, get_s, json_nodes, json_parse, keep_some, lemma_keep_some_step,
    parse_value, value_as_array, value_as_str, Node, arr_nodes, depth_at_most, lemma_arr, lemma_keep_some_all, lemma_obj_step,
    lemma_as_array, lemma_leaf, lemma_obj, leaf, obj_nodes, object_insert, plain_key, put_member,
    root, rooted, shallow, slashes, under, value_array, value_bool, value_object, value_string,
    value_text, value_u64,
};
use crate::text::{append_str, chars_of, dec, eq_str, join_s, push_dec, string_of, trim_s, trim_vec};
use crate::theme::{Density, ThemeMode};

verus! {

/// Settings navigation.
#[derive(Debug, Clone, Copy, PartialEq, Eq, Structural)]
pub enum SettingsSection {
    Appearance,
    Models,
    Bindings,
    Inspector,
    Session,
    Remotes,
    About,
}

pub open spec fn all_sections() -> Seq<SettingsSection> {
    seq![
        SettingsSection::Appearance,
        SettingsSection::Models,
        SettingsSection::Bindings,
        SettingsSection::Inspector,
        SettingsSection::Session,
        SettingsSection::Remotes,
        SettingsSection::About,
    ]
}

pub open spec fn section_label(s: SettingsSection) -> Seq<char> {
    match s {
        SettingsSection::Appearance => "Appearance"@,
        SettingsSection::Models => "Models"@,
        SettingsSection::Bindings => "Bindings"@,
        SettingsSection::Inspector => "Inspector"@,
        SettingsSection::Session => "Session"@,
        SettingsSection::Remotes => "Remotes"@,
        SettingsSection::About => "About"@,
    }
}

impl SettingsSection {
    pub fn all() -> (r: [Self; 7])
        ensures
            r@ == all_sections(),
    {
        let r = [
            SettingsSection::Appearance,
            SettingsSection::Models,
            SettingsSection::Bindings,
            SettingsSection::Inspector,
            SettingsSection::Session,
            SettingsSection::Remotes,
            SettingsSection::About,
        ];
        assert(r@ =~= all_sections());
        r
    }

    pub fn label(self) -> (r: &'static str)
        ensures
            r@ == section_label(self),
    {
        match self {
            SettingsSection::Appearance => "Appearance",
            SettingsSection::Models => "Models",
            SettingsSection::Bindings => "Bindings",
            SettingsSection::Inspector => "Inspector",
            SettingsSection::Session => "Session",
            SettingsSection::Remotes => "Remotes",
            SettingsSection::About => "About",
        }
    }
}

/// Persisted UI settings. No secrets.
#[derive(Debug, Clone, PartialEq, Eq)]
pub struct UiSettings {
    pub mode: ThemeMode,
    pub density: Density,
    pub default_model: String,
    pub bindings: Vec<(String, String)>,
    pub reduce_motion: bool,
    pub ui_scale: u16,
    pub high_contrast: bool,
}

/// Dark, comfortable, `grok`, the default bindings, 100 % scale.
pub open spec fn is_default_settings(s: UiSettings) -> bool {
    &&& s.mode == ThemeMode::Dark
    &&& s.density == Density::Comfortable
    &&& s.default_model@ == "grok"@
    &&& pair_views(s.bindings@) == encoded_pairs(default_rows())
    &&& !s.reduce_motion
    &&& s.ui_scale == 100
    &&& !s.high_contrast
}

impl Default for UiSettings {
    /// Dark, comfortable, `grok`, the default bindings, 100 % scale.
    fn default() -> (s: Self)
        ensures
            is_default_settings(s),
    {
        UiSettings {
            mode: ThemeMode::Dark,
            density: Density::Comfortable,
            default_model: "grok".to_owned(),
            bindings: BindingTable::defaults().pairs(),
            reduce_motion: false,
            ui_scale: 100,
            high_contrast: false,
        }
    }
}

/// `scale` clamped to `[100, 200]`.
pub open spec fn clamp_scale(scale: u16) -> u16 {
    if scale < 100 {
        100
    } else if scale > 200 {
        200
    } else {
        scale
    }
}

impl UiSettings {
    pub fn cycle_mode(&mut self)
        ensures
            *final(self) == (UiSettings {
                mode: match old(self).mode {
                    ThemeMode::Dark => ThemeMode::Light,
                    ThemeMode::Light => ThemeMode::Dark,
                },
                ..*old(self)
            }),
    {
        self.mode = match self.mode {
            ThemeMode::Dark => ThemeMode::Light,
            ThemeMode::Light => ThemeMode::Dark,
        };
    }

    pub fn cycle_density(&mut self)
        ensures
            *final(self) == (UiSettings {
                density: match old(self).density {
                    Density::Comfortable => Density::Compact,
                    Density::Compact => Density::Comfortable,
                },
                ..*old(self)
            }),
    {
        self.density = match self.density {
            Density::Comfortable => Density::Compact,
            Density::Compact => Density::Comfortable,
        };
    }

    /// A blank model name is ignored.
    pub fn set_default_model(&mut self, model: &str)
        ensures
            trim_s(model@).len() == 0 ==> *final(self) == *old(self),
            trim_s(model@).len() > 0 ==> *final(self) == (UiSettings {
                default_model: final(self).default_model,
                ..*old(self)
            }) && final(self).default_model@ == model@,
    {
        if trim_vec(&chars_of(model)).len() > 0 {
            self.default_model = model.to_owned();
        }
    }

    /// The saved pairs over the defaults; the defaults when none are saved.
    pub fn binding_table(&self) -> (t: BindingTable)
        ensures
            t@ == (if self.bindings@.len() == 0 {
                default_rows()
            } else {
                overlay_pairs(default_rows(), pair_views(self.bindings@), self.bindings@.len() as int)
            }),
    {
        if self.bindings.len() == 0 {
            BindingTable::defaults()
        } else {
            BindingTable::from_pairs(self.bindings.as_slice())
        }
    }

    pub fn clamp_ui_scale(scale: u16) -> (r: u16)
        ensures
            r == clamp_scale(scale),
    {
        if scale < 100 {
            100
        } else if scale > 200 {
            200
        } else {
            scale
        }
    }

    pub fn set_ui_scale(&mut self, scale: u16)
        ensures
            *final(self) == (UiSettings { ui_scale: clamp_scale(scale), ..*old(self) }),
    {
        self.ui_scale = Self::clamp_ui_scale(scale);
    }

    /// Step the scale up by 25, wrapping from 200 (or more) back to 100.
    pub fn bump_ui_scale(&mut self)
        ensures
            *final(self) == (UiSettings { ui_scale: bumped(old(self).ui_scale), ..*old(self) }),
    {
        let next = if self.ui_scale >= 200 {
            100
        } else {
            self.ui_scale.saturating_add(25)
        };
        self.set_ui_scale(next);
    }

    pub fn toggle_reduce_motion(&mut self)
        ensures
            *final(self) == (UiSettings { reduce_motion: !old(self).reduce_motion, ..*old(self) }),
    {
        self.reduce_motion = !self.reduce_motion;
    }

    pub fn toggle_high_contrast(&mut self)
        ensures
            *final(self) == (UiSettings { high_contrast: !old(self).high_contrast, ..*old(self) }),
    {
        self.high_contrast = !self.high_contrast;
    }
}

/// The scale one bump gives.
pub open spec fn bumped(s: u16) -> u16 {
    clamp_scale(
        if s >= 200 {
            100
        } else {
            s.saturating_add(25)
        },
    )
}

/// A bump keeps the scale within `[100, 200]`, and five bumps from 100
/// (125, 150, 175, 200) wrap back to 100.
pub proof fn law_scale_bump_cycles(s: u16)
    ensures
        100 <= bumped(s) <= 200,
        bumped(bumped(bumped(bumped(bumped(100))))) == 100,
{
}

/// Settings as plain values.
pub struct SettingsV {
    pub mode: ThemeMode,
    pub density: Density,
    pub default_model: Seq<char>,
    pub bindings: Seq<(Seq<char>, Seq<char>)>,
    pub reduce_motion: bool,
    pub ui_scale: u16,
    pub high_contrast: bool,
}

pub open spec fn settings_view(s: UiSettings) -> SettingsV {
    SettingsV {
        mode: s.mode,
        density: s.density,
        default_model: s.default_model@,
        bindings: pair_views(s.bindings@),
        reduce_motion: s.reduce_motion,
        ui_scale: s.ui_scale,
        high_contrast: s.high_contrast,
    }
}

pub open spec fn default_settings_view() -> SettingsV {
    SettingsV {
        mode: ThemeMode::Dark,
        density: Density::Comfortable,
        default_model: "grok"@,
        bindings: encoded_pairs(default_rows()),
        reduce_motion: false,
        ui_scale: 100,
        high_contrast: false,
    }
}

/// A saved binding: an array of exactly two strings, chord and action id.
pub open spec fn binding_entry(e: Map<Seq<char>, Node>) -> Option<(Seq<char>, Seq<char>)> {
    match as_array_s(e) {
        Some(p) => if p.len() == 2 {
            match (as_str_s(p[0]), as_str_s(p[1])) {
                (Some(c), Some(a)) => Some((c, a)),
                _ => None,
            }
        } else {
            None
        },
        None => None,
    }
}

/// The settings a parsed document describes, over the defaults: unknown
/// mode and density names read as dark and comfortable, a blank model is
/// ignored, saved bindings (if any are well formed) overlay the defaults,
/// and the scale is clamped.
pub open spec fn settings_of(m: Map<Seq<char>, Node>) -> SettingsV {
    SettingsV {
        mode: match get_str_s(m, "mode"@) {
            Some(s) => if s == "light"@ {
                ThemeMode::Light
            } else {
                ThemeMode::Dark
            },
            None => ThemeMode::Dark,
        },
        density: match get_str_s(m, "density"@) {
            Some(s) => if s == "compact"@ {
                Density::Compact
            } else {
                Density::Comfortable
            },
            None => Density::Comfortable,
        },
        default_model: match get_str_s(m, "default_model"@) {
            Some(s) => if trim_s(s).len() > 0 {
                s
            } else {
                "grok"@
            },
            None => "grok"@,
        },
        bindings: match get_array_s(m, "bindings"@) {
            Some(items) => {
                let pairs = keep_some(items, |e: Map<Seq<char>, Node>| binding_entry(e));
                if pairs.len() > 0 {
                    encoded_pairs(overlay_pairs(default_rows(), pairs, pairs.len() as int))
                } else {
                    encoded_pairs(default_rows())
                }
            },
            None => encoded_pairs(default_rows()),
        },
        reduce_motion: match get_bool_s(m, "reduce_motion"@) {
            Some(b) => b,
            None => false,
        },
        ui_scale: match get_u64_s(m, "ui_scale"@) {
            Some(n) => clamp_scale(n as u16),
            None => 100,
        },
        high_contrast: match get_bool_s(m, "high_contrast"@) {
            Some(b) => b,
            None => false,
        },
    }
}

/// The settings `raw` holds; the defaults when it is not JSON.
pub open spec fn settings_spec(raw: Seq<char>) -> SettingsV {
    match json_parse(raw) {
        Some(m) => settings_of(m),
        None => default_settings_view(),
    }
}

fn binding_entry_exec(e: &serde_json::Value) -> (r: Option<(String, String)>)
    ensures
        match r {
            Some(p) => binding_entry(json_nodes(*e)) == Some((p.0@, p.1@)),
            None => binding_entry(json_nodes(*e)) is None,
        },
{
    match value_as_array(e) {
        Some(pair) => {
            if pair.len() == 2 {
                match (value_as_str(&pair[0]), value_as_str(&pair[1])) {
                    (Some(c), Some(a)) => Some((c.to_owned(), a.to_owned())),
                    _ => None,
                }
            } else {
                None
            }
        },
        None => None,
    }
}

fn saved_bindings(v: &serde_json::Value) -> (r: Option<Vec<(String, String)>>)
    ensures
        match get_array_s(json_nodes(*v), "bindings"@) {
            Some(items) => r matches Some(p) && pair_views(p@) == keep_some(
                items,
                |e: Map<Seq<char>, Node>| binding_entry(e),
            ),
            None => r is None,
        },
{
    match get_array(v, "bindings") {
        Some(arr) => {
            let ghost items = get_array_s(json_nodes(*v), "bindings"@)->Some_0;
            let ghost f = |e: Map<Seq<char>, Node>| binding_entry(e);
            let mut pairs: Vec<(String, String)> = Vec::new();
            let mut k: usize = 0;
            while k < arr.len()
                invariant
                    k <= arr@.len(),
                    items.len() == arr@.len(),
                    forall|i: int| 0 <= i < items.len() ==> #[trigger] items[i] == json_nodes(arr@[i]),
                    f == (|e: Map<Seq<char>, Node>| binding_entry(e)),
                    pair_views(pairs@) == keep_some(items.take(k as int), f),
                decreases arr@.len() - k,
            {
                proof {
                    lemma_keep_some_step(items, f, k as int);
                }
                let ghost before = pairs@;
                let got = binding_entry_exec(&arr[k]);
                assert(f(items[k as int]) == binding_entry(json_nodes(arr@[k as int])));
                match got {
                    Some(p) => {
                        pairs.push(p);
                        assert(pair_views(pairs@) =~= pair_views(before).push((p.0@, p.1@)));
                        assert(keep_some(items.take(k + 1), f) =~= keep_some(items.take(k as int), f).push((p.0@, p.1@)));
                    },
                    None => {
                        assert(keep_some(items.take(k + 1), f) =~= keep_some(items.take(k as int), f));
                    },
                }
                k = k + 1;
            }
            assert(items.take(items.len() as int) =~= items);
            Some(pairs)
        },
        None => None,
    }
}

/// The settings a parsed document describes (see `settings_of`).
pub fn settings_from_value(v: &serde_json::Value) -> (s: UiSettings)
    ensures
        settings_view(s) == settings_of(json_nodes(*v)),
{
    let mut out = UiSettings::default();
    match get_str(v, "mode") {
        Some(mode) => {
            out.mode = if eq_str(&chars_of(mode), "light") {
                ThemeMode::Light
            } else {
                ThemeMode::Dark
            };
        },
        None => {},
    }
    match get_str(v, "density") {
        Some(density) => {
            out.density = if eq_str(&chars_of(density), "compact") {
                Density::Compact
            } else {
                Density::Comfortable
            };
        },
        None => {},
    }
    match get_str(v, "default_model") {
        Some(model) => {
            if trim_vec(&chars_of(model)).len() > 0 {
                out.default_model = model.to_owned();
            }
        },
        None => {},
    }
    match saved_bindings(v) {
        Some(pairs) => {
            if pairs.len() > 0 {
                out.bindings = BindingTable::from_pairs(pairs.as_slice()).pairs();
            }
        },
        None => {},
    }
    match get_bool(v, "reduce_motion") {
        Some(flag) => {
            out.reduce_motion = flag;
        },
        None => {},
    }
    match get_u64(v, "ui_scale") {
        Some(scale) => {
            out.set_ui_scale(scale as u16);
        },
        None => {},
    }
    match get_bool(v, "high_contrast") {
        Some(flag) => {
            out.high_contrast = flag;
        },
        None => {},
    }
    out
}

/// The settings held by the JSON text `raw`; the defaults when `raw` is not JSON.
pub fn settings_from_json(raw: &str) -> (s: UiSettings)
    ensures
        settings_view(s) == settings_spec(raw@),
{
    match parse_value(raw) {
        Some(v) => settings_from_value(&v),
        None => UiSettings::default(),
    }
}

/// A saved binding as a document: `[chord, action id]`.
pub open spec fn binding_doc(p: (Seq<char>, Seq<char>)) -> Map<Seq<char>, Node> {
    arr_nodes(seq![leaf(Node::Str(p.0)), leaf(Node::Str(p.1))])
}

pub open spec fn density_word(d: Density) -> Seq<char> {
    match d {
        Density::Comfortable => "comfortable"@,
        Density::Compact => "compact"@,
    }
}

pub open spec fn mode_word(m: ThemeMode) -> Seq<char> {
    match m {
        ThemeMode::Dark => "dark"@,
        ThemeMode::Light => "light"@,
    }
}

/// The members of the settings document, in key order.
pub open spec fn settings_members(s: SettingsV) -> Seq<(Seq<char>, Map<Seq<char>, Node>)> {
    seq![
        ("bindings"@, arr_nodes(s.bindings.map_values(|p: (Seq<char>, Seq<char>)| binding_doc(p)))),
        ("default_model"@, leaf(Node::Str(s.default_model))),
        ("density"@, leaf(Node::Str(density_word(s.density)))),
        ("high_contrast"@, leaf(Node::Bool(s.high_contrast))),
        ("mode"@, leaf(Node::Str(mode_word(s.mode)))),
        ("reduce_motion"@, leaf(Node::Bool(s.reduce_motion))),
        ("ui_scale"@, leaf(Node::Num(Some(s.ui_scale as u64)))),
    ]
}

/// The settings as a document.
pub open spec fn settings_doc(s: SettingsV) -> Map<Seq<char>, Node> {
    obj_nodes(settings_members(s))
}

proof fn lemma_keys_any(s: SettingsV)
    ensures
        forall|i: int| 0 <= i < 7 ==> plain_key(#[trigger] settings_members(s)[i].0),
        forall|i: int, j: int| 0 <= i < j < 7 ==> settings_members(s)[i].0 != settings_members(s)[j].0,
{
    reveal_strlit("bindings");
    reveal_strlit("default_model");
    reveal_strlit("density");
    reveal_strlit("high_contrast");
    reveal_strlit("mode");
    reveal_strlit("reduce_motion");
    reveal_strlit("ui_scale");
    let ms = settings_members(s);
    assert(ms[0].0.len() == 8 && ms[0].0[0] == 'b');
    assert(ms[1].0.len() == 13 && ms[1].0[0] == 'd');
    assert(ms[2].0.len() == 7);
    assert(ms[3].0.len() == 13 && ms[3].0[0] == 'h');
    assert(ms[4].0.len() == 4);
    assert(ms[5].0.len() == 13 && ms[5].0[0] == 'r');
    assert(ms[6].0.len() == 8 && ms[6].0[0] == 'u');
}

fn binding_value(p: &(String, String)) -> (r: serde_json::Value)
    ensures
        json_nodes(r) == binding_doc((p.0@, p.1@)),
{
    let mut items: Vec<serde_json::Value> = Vec::new();
    items.push(value_string(p.0.clone()));
    items.push(value_string(p.1.clone()));
    let r = value_array(items);
    assert(items@.map_values(|v: serde_json::Value| json_nodes(v)) =~= seq![
        leaf(Node::Str(p.0@)),
        leaf(Node::Str(p.1@)),
    ]);
    r
}


/// The settings as a JSON document.
fn settings_value(s: &UiSettings) -> (r: serde_json::Value)
    ensures
        json_nodes(r) == settings_doc(settings_view(*s)),
{
    let ghost sv = settings_view(*s);
    let ghost docs = sv.bindings.map_values(|p: (Seq<char>, Seq<char>)| binding_doc(p));
    let mut items: Vec<serde_json::Value> = Vec::new();
    let mut k: usize = 0;
    while k < s.bindings.len()
        invariant
            k <= s.bindings@.len(),
            sv == settings_view(*s),
            docs == sv.bindings.map_values(|p: (Seq<char>, Seq<char>)| binding_doc(p)),
            items@.map_values(|v: serde_json::Value| json_nodes(v)) == docs.take(k as int),
        decreases s.bindings@.len() - k,
    {
        let v = binding_value(&s.bindings[k]);
        assert(sv.bindings[k as int] == (s.bindings@[k as int].0@, s.bindings@[k as int].1@));
        assert(docs[k as int] == json_nodes(v));
        let ghost before = items@;
        items.push(v);
        assert(items@.map_values(|v: serde_json::Value| json_nodes(v)) =~= before.map_values(
            |v: serde_json::Value| json_nodes(v),
        ).push(json_nodes(v)));
        assert(docs.take(k + 1) =~= docs.take(k as int).push(docs[k as int]));
        k = k + 1;
    }
    assert(docs.take(docs.len() as int) =~= docs);
    let bv = value_array(items);
    let ghost ms = settings_members(sv);
    proof {
        lemma_keys_any(sv);
        lemma_leaf(Node::Obj);
        assert(ms.take(0) =~= Seq::<(Seq<char>, Map<Seq<char>, Node>)>::empty());
    }
    let mut o = value_object();
    object_insert(&mut o, "bindings", bv);
    proof {
        lemma_obj_step(ms, 0);
    }
    object_insert(&mut o, "default_model", value_string(s.default_model.clone()));
    proof {
        lemma_obj_step(ms, 1);
    }
    let density = match s.density {
        Density::Comfortable => "comfortable",
        Density::Compact => "compact",
    };
    object_insert(&mut o, "density", value_string(density.to_owned()));
    proof {
        lemma_obj_step(ms, 2);
    }
    object_insert(&mut o, "high_contrast", value_bool(s.high_contrast));
    proof {
        lemma_obj_step(ms, 3);
    }
    let mode = match s.mode {
        ThemeMode::Dark => "dark",
        ThemeMode::Light => "light",
    };
    object_insert(&mut o, "mode", value_string(mode.to_owned()));
    proof {
        lemma_obj_step(ms, 4);
    }
    object_insert(&mut o, "reduce_motion", value_bool(s.reduce_motion));
    proof {
        lemma_obj_step(ms, 5);
    }
    object_insert(&mut o, "ui_scale", value_u64(s.ui_scale as u64));
    proof {
        lemma_obj_step(ms, 6);
        assert(ms.take(7) =~= ms);
    }
    o
}

/// The settings as compact JSON text (`serde_json`'s writer).
pub fn settings_to_json(s: &UiSettings) -> (r: String)
    ensures
        json_parse(r@) == Some(settings_doc(settings_view(*s))),
{
    let v = settings_value(s);
    proof {
        lemma_settings_doc(settings_view(*s));
    }
    value_text(&v)
}

/// What reading the settings document back needs of the settings: a model
/// name that is not blank, a scale inside the clamp, and bindings that are
/// not empty and come back unchanged when laid over the defaults.
pub open spec fn settings_keep(s: SettingsV) -> bool {
    &&& trim_s(s.default_model).len() > 0
    &&& clamp_scale(s.ui_scale) == s.ui_scale
    &&& s.bindings.len() > 0
    &&& encoded_pairs(overlay_pairs(default_rows(), s.bindings, s.bindings.len() as int)) == s.bindings
}

proof fn lemma_settings_doc(s: SettingsV)
    ensures
        shallow(settings_doc(s)),
        settings_keep(s) ==> settings_of(settings_doc(s)) == s,
{
    let ms = settings_members(s);
    lemma_keys_any(s);
    let docs = s.bindings.map_values(|p: (Seq<char>, Seq<char>)| binding_doc(p));
    assert forall|i: int| 0 <= i < docs.len() implies rooted(#[trigger] docs[i]) && depth_at_most(docs[i], 1)
        && binding_entry(docs[i]) == Some(s.bindings[i]) by {
        let p = s.bindings[i];
        lemma_leaf(Node::Str(p.0));
        lemma_leaf(Node::Str(p.1));
        let cs = seq![leaf(Node::Str(p.0)), leaf(Node::Str(p.1))];
        lemma_arr(cs, 0);
        lemma_as_array(cs, 0);
    }
    lemma_arr(docs, 1);
    lemma_as_array(docs, 1);
    lemma_keep_some_all(docs, |e: Map<Seq<char>, Node>| binding_entry(e), s.bindings);
    lemma_leaf(Node::Str(s.default_model));
    lemma_leaf(Node::Str(density_word(s.density)));
    lemma_leaf(Node::Bool(s.high_contrast));
    lemma_leaf(Node::Str(mode_word(s.mode)));
    lemma_leaf(Node::Bool(s.reduce_motion));
    lemma_leaf(Node::Num(Some(s.ui_scale as u64)));
    assert forall|i: int| 0 <= i < ms.len() implies rooted(#[trigger] ms[i].1) && ms[i].1.contains_key(
        Seq::empty(),
    ) && depth_at_most(ms[i].1, 2) by {}
    lemma_obj(ms, 2);
    let doc = settings_doc(s);
    assert forall|k: Seq<char>| #[trigger] doc.contains_key(k) implies slashes(k) <= 100 by {}
    assert(get_s(doc, ms[0].0) == Some(ms[0].1));
    assert(get_s(doc, ms[1].0) == Some(ms[1].1));
    assert(get_s(doc, ms[2].0) == Some(ms[2].1));
    assert(get_s(doc, ms[3].0) == Some(ms[3].1));
    assert(get_s(doc, ms[4].0) == Some(ms[4].1));
    assert(get_s(doc, ms[5].0) == Some(ms[5].1));
    assert(get_s(doc, ms[6].0) == Some(ms[6].1));
    reveal_strlit("bindings");
    reveal_strlit("default_model");
    reveal_strlit("density");
    reveal_strlit("high_contrast");
    reveal_strlit("mode");
    reveal_strlit("reduce_motion");
    reveal_strlit("ui_scale");
    reveal_strlit("light");
    reveal_strlit("dark");
    reveal_strlit("compact");
    reveal_strlit("comfortable");
    assert("dark"@.len() != "light"@.len());
    assert("comfortable"@.len() != "compact"@.len());
    assert((s.ui_scale as u64) as u16 == s.ui_scale);
}

/// Writing settings and reading them back gives the same settings, when the
/// model name is not blank, the scale lies inside the clamp, and the bindings
/// are not empty and survive being laid over the defaults (true of the
/// defaults and of every table `from_pairs` builds).
pub proof fn law_settings_roundtrip(s: SettingsV, text: Seq<char>)
    requires
        settings_keep(s),
        json_parse(text) == Some(settings_doc(s)),
    ensures
        settings_spec(text) == s,
{
    lemma_settings_doc(s);
}

} // verus!
