//! Catalog helpers: models from the config file, slash arguments, remotes
//! and the external opener.

use vstd::prelude::*;
use crate::diff_view::{drop_lead, drop_trail};
use crate::json::{get_s, get_str, get_str_s, json_parse, parse_value, value_get};
use crate::text::{
    chars_of, contains_s, contains_str, ends_with_s, has_char, lines_of, lines_s, starts_with_s,
    starts_with_str, string_of, sub_vec, trim_s, trim_start_s, trim_start_vec, trim_vec, views,
    words_s, split_whitespace,
};

verus! {

pub open spec fn string_views(v: Seq<String>) -> Seq<Seq<char>> {
    v.map_values(|s: String| s@)
}

/// Model id of a `[model.<id>]` or `[models.<id>]` table header, when the id
/// is a single non-empty key.
pub open spec fn table_model(header: Seq<char>) -> Option<Seq<char>> {
    let inner = drop_trail(drop_lead(trim_s(header), '['), ']');
    let rest = if starts_with_s(inner, "model."@) {
        Some(inner.skip(6))
    } else if starts_with_s(inner, "models."@) {
        Some(inner.skip(7))
    } else {
        None
    };
    match rest {
        Some(r) => if r.len() == 0 || r.contains('.') {
            None
        } else {
            Some(r)
        },
        None => None,
    }
}

/// Reader state: ids found, the open table's id, whether it holds a secret
/// reference.
pub struct ModelScan {
    pub names: Seq<Seq<char>>,
    pub current: Option<Seq<char>>,
    pub skip: bool,
}

/// Keep `name` unless the table was skipped, it is empty, or already kept.
pub open spec fn keep_name(names: Seq<Seq<char>>, name: Seq<char>, skip: bool) -> Seq<Seq<char>> {
    if !skip && name.len() > 0 && !names.contains(name) {
        names.push(name)
    } else {
        names
    }
}

pub open spec fn close_table(st: ModelScan) -> Seq<Seq<char>> {
    match st.current {
        Some(n) => keep_name(st.names, n, st.skip),
        None => st.names,
    }
}

pub open spec fn model_step(st: ModelScan, raw: Seq<char>) -> ModelScan {
    let line = trim_s(raw);
    if line.len() == 0 || line[0] == '#' {
        st
    } else if line[0] == '[' && line.last() == ']' {
        ModelScan { names: close_table(st), current: table_model(line), skip: false }
    } else if contains_s(line, "op://"@) {
        ModelScan { skip: true, ..st }
    } else {
        st
    }
}

pub open spec fn model_fold(lines: Seq<Seq<char>>, n: int) -> ModelScan
    decreases n,
{
    if n <= 0 || n > lines.len() {
        ModelScan { names: Seq::empty(), current: None, skip: false }
    } else {
        model_step(model_fold(lines, n - 1), lines[n - 1])
    }
}

/// `parse_model_keys`: model table ids in order, without duplicates, empty
/// ids, or tables that hold an `op://` reference.
pub open spec fn model_keys(text: Seq<char>) -> Seq<Seq<char>> {
    close_table(model_fold(lines_s(text), lines_s(text).len() as int))
}

fn contains_name(names: &Vec<String>, name: &Vec<char>) -> (r: bool)
    ensures
        r == string_views(names@).contains(name@),
{
    let mut i: usize = 0;
    while i < names.len()
        invariant
            i <= names.len(),
            forall|k: int| 0 <= k < i ==> names@[k]@ != name@,
        decreases names.len() - i,
    {
        if crate::text::eq_chars(&chars_of(names[i].as_str()), name) {
            assert(string_views(names@)[i as int] == name@);
            return true;
        }
        i = i + 1;
    }
    proof {
        if string_views(names@).contains(name@) {
            let k = choose|k: int| 0 <= k < string_views(names@).len() && string_views(names@)[k] == name@;
            assert(names@[k]@ == name@);
        }
    }
    false
}

fn keep(names: &mut Vec<String>, name: &Vec<char>, skip: bool)
    ensures
        string_views(final(names)@) == keep_name(string_views(old(names)@), name@, skip),
{
    if !skip && name.len() > 0 && !contains_name(names, name) {
        let ghost before = names@;
        names.push(string_of(name));
        assert(string_views(names@) =~= string_views(before).push(name@));
    }
}

fn table_model_name(header: &Vec<char>) -> (r: Option<Vec<char>>)
    ensures
        match r {
            Some(n) => table_model(header@) == Some(n@),
            None => table_model(header@) is None,
        },
{
    let t = trim_vec(header);
    let inner = crate::diff_view::trim_brackets(&t);
    let rest: Option<Vec<char>> = if starts_with_str(&inner, "model.") {
        proof {
            reveal_strlit("model.");
        }
        let r = sub_vec(&inner, 6, inner.len());
        assert(r@ =~= inner@.skip(6));
        Some(r)
    } else if starts_with_str(&inner, "models.") {
        proof {
            reveal_strlit("models.");
        }
        let r = sub_vec(&inner, 7, inner.len());
        assert(r@ =~= inner@.skip(7));
        Some(r)
    } else {
        None
    };
    match rest {
        Some(r) => if r.len() == 0 || has_char(&r, '.') {
            None
        } else {
            Some(r)
        },
        None => None,
    }
}

/// `[model.name]` / `[models.name]` table keys. Skips tables holding an
/// `op://` value, and empty ids.
pub fn parse_model_keys(toml_text: &str) -> (r: Vec<String>)
    ensures
        string_views(r@) == model_keys(toml_text@),
{
    let s = chars_of(toml_text);
    let lines = lines_of(&s);
    let mut names: Vec<String> = Vec::new();
    let mut current: Option<Vec<char>> = None;
    let mut skip = false;
    let mut i: usize = 0;
    assert(string_views(names@) =~= Seq::<Seq<char>>::empty());
    while i < lines.len()
        invariant
            i <= lines.len(),
            views(lines@) == lines_s(toml_text@),
            (ModelScan {
                names: string_views(names@),
                current: match current {
                    Some(c) => Some(c@),
                    None => None,
                },
                skip,
            }) == model_fold(lines_s(toml_text@), i as int),
        decreases lines.len() - i,
    {
        assert(views(lines@)[i as int] == lines@[i as int]@);
        let line = trim_vec(&lines[i]);
        if line.len() == 0 || line[0] == '#' {
        } else if line[0] == '[' && line[line.len() - 1] == ']' {
            match current {
                Some(n) => keep(&mut names, &n, skip),
                None => {},
            }
            skip = false;
            current = table_model_name(&line);
        } else if contains_str(&line, "op://") {
            skip = true;
        }
        i = i + 1;
    }
    match current {
        Some(n) => keep(&mut names, &n, skip),
        None => {},
    }
    names
}

/// Config ids, then RPC ids: trimmed, without empties, secret references or
/// duplicates.
pub open spec fn merged_models(all: Seq<Seq<char>>, n: int) -> Seq<Seq<char>>
    decreases n,
{
    if n <= 0 || n > all.len() {
        Seq::empty()
    } else {
        let before = merged_models(all, n - 1);
        let name = trim_s(all[n - 1]);
        if name.len() == 0 || contains_s(name, "op://"@) || before.contains(name) {
            before
        } else {
            before.push(name)
        }
    }
}

/// Config ids first, then RPC ids. Drops empties and duplicates.
pub fn merge_models(config: &[String], rpc: &[String]) -> (r: Vec<String>)
    ensures
        string_views(r@) == merged_models(
            string_views(config@) + string_views(rpc@),
            (config@.len() + rpc@.len()) as int,
        ),
{
    let ghost all = string_views(config@) + string_views(rpc@);
    let mut out: Vec<String> = Vec::new();
    assert(string_views(out@) =~= Seq::<Seq<char>>::empty());
    let mut i: usize = 0;
    while i < config.len()
        invariant
            i <= config.len(),
            all == string_views(config@) + string_views(rpc@),
            string_views(out@) == merged_models(all, i as int),
        decreases config.len() - i,
    {
        let raw = chars_of(config[i].as_str());
        assert(raw@ == all[i as int]);
        add_model(&mut out, &raw);
        i = i + 1;
    }
    let mut j: usize = 0;
    while j < rpc.len()
        invariant
            j <= rpc.len(),
            all == string_views(config@) + string_views(rpc@),
            string_views(out@) == merged_models(all, config@.len() + j),
        decreases rpc.len() - j,
    {
        let raw = chars_of(rpc[j].as_str());
        assert(raw@ == all[config@.len() + j]);
        add_model(&mut out, &raw);
        j = j + 1;
    }
    out
}

fn add_model(out: &mut Vec<String>, raw: &Vec<char>)
    ensures
        string_views(final(out)@) == ({
            let before = string_views(old(out)@);
            let name = trim_s(raw@);
            if name.len() == 0 || contains_s(name, "op://"@) || before.contains(name) {
                before
            } else {
                before.push(name)
            }
        }),
{
    let name = trim_vec(raw);
    if !(name.len() == 0 || contains_str(&name, "op://")) && !contains_name(out, &name) {
        let ghost before = out@;
        out.push(string_of(&name));
        assert(string_views(out@) =~= string_views(before).push(name@));
    }
}

/// The word after a slash command, if any.
pub open spec fn slash_arg_spec(draft: Seq<char>) -> Option<Seq<char>> {
    let t = trim_start_s(draft);
    if t.len() == 0 || t[0] != '/' {
        None
    } else {
        let w = words_s(t.skip(1));
        if w.len() < 2 || trim_s(w[1]).len() == 0 {
            None
        } else {
            Some(trim_s(w[1]))
        }
    }
}

/// Token after the slash command, if any. `/model grok-4.6` gives `grok-4.6`.
pub fn slash_arg(draft: &str) -> (r: Option<String>)
    ensures
        match r {
            Some(a) => slash_arg_spec(draft@) == Some(a@),
            None => slash_arg_spec(draft@) is None,
        },
{
    let t = trim_start_vec(&chars_of(draft));
    if t.len() == 0 || t[0] != '/' {
        return None;
    }
    let rest = sub_vec(&t, 1, t.len());
    assert(rest@ =~= t@.skip(1));
    let words = split_whitespace(&rest);
    if words.len() < 2 {
        return None;
    }
    assert(views(words@)[1] == words@[1]@);
    let arg = trim_vec(&words[1]);
    if arg.len() == 0 {
        None
    } else {
        Some(string_of(&arg))
    }
}

/// The DNS name (trailing dot dropped, trimmed) of a raw value, if not empty.
pub open spec fn dns_name(raw: Seq<char>) -> Option<Seq<char>> {
    let n = drop_trail(trim_s(raw), '.');
    if n.len() == 0 {
        None
    } else {
        Some(n)
    }
}

/// `Self.DNSName` of the document `json` holds, when it is a string.
pub open spec fn self_dns(json: Seq<char>) -> Option<Seq<char>> {
    match json_parse(json) {
        Some(m) => match get_s(m, "Self"@) {
            Some(c) => get_str_s(c, "DNSName"@),
            None => None,
        },
        None => None,
    }
}

/// The DNS name in a raw `DNSName` value, if any.
pub fn dns_from_raw(raw: Option<String>) -> (r: Option<String>)
    ensures
        match raw {
            None => r is None,
            Some(x) => match r {
                Some(n) => dns_name(x@) == Some(n@),
                None => dns_name(x@) is None,
            },
        },
{
    match raw {
        None => None,
        Some(x) => {
            let t = trim_vec(&chars_of(x.as_str()));
            let mut n = t;
            while n.len() > 0 && n[n.len() - 1] == '.'
                invariant
                    drop_trail(n@, '.') == drop_trail(trim_s(x@), '.'),
                decreases n.len(),
            {
                n.pop();
            }
            if n.len() == 0 {
                None
            } else {
                Some(string_of(&n))
            }
        },
    }
}

/// `DNSName` from `tailscale status --json`. `None` when missing.
pub fn parse_tailscale_dns(json: &str) -> (r: Option<String>)
    ensures
        match self_dns(json@) {
            None => r is None,
            Some(x) => match r {
                Some(n) => dns_name(x) == Some(n@),
                None => dns_name(x) is None,
            },
        },
{
    let raw = match parse_value(json) {
        None => None,
        Some(v) => match value_get(&v, "Self") {
            None => None,
            Some(me) => match get_str(me, "DNSName") {
                None => None,
                Some(x) => Some(x.to_owned()),
            },
        },
    };
    dns_from_raw(raw)
}

pub open spec fn opt_str_view(o: Option<&str>) -> Option<Seq<char>> {
    match o {
        Some(s) => Some(s@),
        None => None,
    }
}

/// The first of `$VISUAL`, `$EDITOR` that is not blank (trimmed), else
/// `start`.
pub open spec fn opener(visual: Option<Seq<char>>, editor: Option<Seq<char>>) -> Seq<char> {
    if visual matches Some(v) && trim_s(v).len() > 0 {
        trim_s(visual->0)
    } else if editor matches Some(e) && trim_s(e).len() > 0 {
        trim_s(editor->0)
    } else {
        "start"@
    }
}

/// `$VISUAL` else `$EDITOR` else the system `start`.
pub fn open_external_program(visual: Option<&str>, editor: Option<&str>) -> (r: String)
    ensures
        r@ == opener(opt_str_view(visual), opt_str_view(editor)),
{
    match visual {
        Some(v) => {
            let t = trim_vec(&chars_of(v));
            if t.len() > 0 {
                return string_of(&t);
            }
        },
        None => {},
    }
    match editor {
        Some(e) => {
            let t = trim_vec(&chars_of(e));
            if t.len() > 0 {
                return string_of(&t);
            }
        },
        None => {},
    }
    "start".to_owned()
}

pub fn remotes_serve_note() -> (r: &'static str)
    ensures
        r@ == "Detect only. Tailscale Serve later."@,
{
    "Detect only. Tailscale Serve later."
}

} // verus!
