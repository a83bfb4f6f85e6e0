//! Directory tiles for models, MCP, skills and git.

use vstd::prelude::*;
use crate::icons::{glyph_mark, ChromeGlyph};
use crate::inspector_model::{mcp_icon};
use crate::text::{append_str, chars_of, contains, contains_s, dec, lower_s, lower_vec, push_dec, string_of, strs};
use crate::widgets::{BadgeSpec, Tone};
use crate::workspace::{McpRow, Workspace};

verus! {

/// One dashboard tile.
#[derive(Debug, Clone, PartialEq, Eq)]
pub struct TileSpec {
    pub id: String,
    pub title: String,
    pub subtitle: String,
    pub icon: String,
    pub badge: BadgeSpec,
}

pub open spec fn tile_hit(t: TileSpec, q: Seq<char>) -> bool {
    contains_s(lower_s(t.title@), q) || contains_s(lower_s(t.subtitle@), q) || contains_s(
        lower_s(t.id@),
        q,
    )
}

/// Indices, among the first `n` tiles, of those that hold `q`.
pub open spec fn tile_hits(tiles: Seq<TileSpec>, q: Seq<char>, n: int) -> Seq<int>
    decreases n,
{
    if n <= 0 || n > tiles.len() {
        Seq::empty()
    } else if tile_hit(tiles[n - 1], q) {
        tile_hits(tiles, q, n - 1).push(n - 1)
    } else {
        tile_hits(tiles, q, n - 1)
    }
}

/// Tiles whose title, subtitle or id holds the query (ASCII case folding);
/// all tiles for an empty query. Order is kept.
pub fn filter_tiles<'a>(tiles: &'a [TileSpec], query: &str) -> (r: Vec<&'a TileSpec>)
    ensures
        query@.len() == 0 ==> r@.len() == tiles@.len() && forall|i: int|
            0 <= i < r@.len() ==> *r@[i] == tiles@[i],
        query@.len() != 0 ==> ({
            let hits = tile_hits(tiles@, lower_s(query@), tiles@.len() as int);
            &&& r@.len() == hits.len()
            &&& forall|i: int| 0 <= i < r@.len() ==> *r@[i] == tiles@[hits[i]]
        }),
{
    let qv = chars_of(query);
    let q = lower_vec(&qv);
    let mut out: Vec<&'a TileSpec> = Vec::new();
    let mut i: usize = 0;
    while i < tiles.len()
        invariant
            i <= tiles.len(),
            q@ == lower_s(query@),
            qv@ == query@,
            query@.len() == 0 ==> out@.len() == i && forall|k: int|
                0 <= k < out@.len() ==> *out@[k] == tiles@[k],
            query@.len() != 0 ==> ({
                let hits = tile_hits(tiles@, q@, i as int);
                &&& out@.len() == hits.len()
                &&& forall|k: int| 0 <= k < out@.len() ==> *out@[k] == tiles@[hits[k]]
            }),
        decreases tiles.len() - i,
    {
        let t = &tiles[i];
        if qv.len() == 0 {
            out.push(t);
        } else {
            let hit = contains(&lower_vec(&chars_of(t.title.as_str())), &q) || contains(
                &lower_vec(&chars_of(t.subtitle.as_str())),
                &q,
            ) || contains(&lower_vec(&chars_of(t.id.as_str())), &q);
            if hit {
                out.push(t);
            }
        }
        i = i + 1;
    }
    out
}

/// A tile as plain values.
pub struct TileV {
    pub id: Seq<char>,
    pub title: Seq<char>,
    pub subtitle: Seq<char>,
    pub icon: Seq<char>,
    pub badge: (Tone, Seq<char>),
}

pub open spec fn tile_view(t: TileSpec) -> TileV {
    TileV {
        id: t.id@,
        title: t.title@,
        subtitle: t.subtitle@,
        icon: t.icon@,
        badge: (t.badge.tone, t.badge.text@),
    }
}

pub open spec fn tile_views(v: Seq<TileSpec>) -> Seq<TileV> {
    v.map_values(|t: TileSpec| tile_view(t))
}

pub open spec fn model_tile(m: Seq<char>, active: Seq<char>) -> TileV {
    TileV {
        id: "model:"@ + m,
        title: m,
        subtitle: "provider"@,
        icon: glyph_mark(ChromeGlyph::Sparkle),
        badge: if m == active {
            (Tone::Accent, "active"@)
        } else {
            (Tone::Neutral, "ready"@)
        },
    }
}

pub open spec fn mcp_tile(m: McpRow) -> TileV {
    TileV {
        id: "mcp:"@ + m.name@,
        title: m.name@,
        subtitle: m.transport@,
        icon: mcp_icon(m),
        badge: (Tone::Neutral, "configured"@),
    }
}

pub open spec fn skill_tile(s: Seq<char>) -> TileV {
    TileV {
        id: "skill:"@ + s,
        title: s,
        subtitle: "skill"@,
        icon: glyph_mark(ChromeGlyph::Sparkle),
        badge: (Tone::Good, "installed"@),
    }
}

pub open spec fn worktree_tile(i: int, path: Seq<char>) -> TileV {
    TileV {
        id: "git:"@ + dec(i as nat),
        title: path,
        subtitle: "worktree"@,
        icon: glyph_mark(ChromeGlyph::Git),
        badge: (Tone::Neutral, "git"@),
    }
}

/// Models, then MCP servers, then skills, then worktrees.
pub open spec fn tiles_spec(ws: Workspace) -> Seq<TileV> {
    strs(ws.models@).map_values(|m: Seq<char>| model_tile(m, ws.model@)) + ws.mcp@.map_values(
        |m: McpRow| mcp_tile(m),
    ) + strs(ws.skills@).map_values(|s: Seq<char>| skill_tile(s)) + Seq::new(
        ws.worktrees@.len(),
        |i: int| worktree_tile(i, ws.worktrees@[i]@),
    )
}

proof fn lemma_tile_views_push(v: Seq<TileSpec>, x: TileSpec)
    ensures
        tile_views(v.push(x)) == tile_views(v).push(tile_view(x)),
{
    assert(tile_views(v.push(x)) =~= tile_views(v).push(tile_view(x)));
}

fn tile(id: &Vec<char>, title: &str, subtitle: &str, icon: &str, tone: Tone, badge: &str) -> (t: TileSpec)
    ensures
        tile_view(t) == (TileV { id: id@, title: title@, subtitle: subtitle@, icon: icon@, badge: (tone, badge@) }),
{
    TileSpec {
        id: string_of(id),
        title: title.to_owned(),
        subtitle: subtitle.to_owned(),
        icon: icon.to_owned(),
        badge: BadgeSpec::new(tone, badge),
    }
}

/// All integration tiles for the workspace.
pub fn integration_tiles(ws: &Workspace) -> (r: Vec<TileSpec>)
    ensures
        tile_views(r@) == tiles_spec(*ws),
{
    let ghost ms = strs(ws.models@).map_values(|m: Seq<char>| model_tile(m, ws.model@));
    let ghost mc = ws.mcp@.map_values(|m: McpRow| mcp_tile(m));
    let ghost sk = strs(ws.skills@).map_values(|s: Seq<char>| skill_tile(s));
    let ghost wt = Seq::new(ws.worktrees@.len(), |i: int| worktree_tile(i, ws.worktrees@[i]@));
    let mut r: Vec<TileSpec> = Vec::new();
    let mut i: usize = 0;
    while i < ws.models.len()
        invariant
            i <= ws.models@.len(),
            ms == strs(ws.models@).map_values(|m: Seq<char>| model_tile(m, ws.model@)),
            tile_views(r@) == ms.take(i as int),
        decreases ws.models@.len() - i,
    {
        let m = &ws.models[i];
        let active = *m == ws.model;
        let mut id = chars_of("model:");
        append_str(&mut id, m.as_str());
        let t = tile(&id, m.as_str(), "provider", ChromeGlyph::Sparkle.mark(),
            if active { Tone::Accent } else { Tone::Neutral },
            if active { "active" } else { "ready" });
        proof {
            lemma_tile_views_push(r@, t);
            assert(strs(ws.models@)[i as int] == m@);
            assert(tile_view(t) == ms[i as int]);
        }
        r.push(t);
        assert(ms.take(i + 1) =~= ms.take(i as int).push(ms[i as int]));
        i = i + 1;
    }
    assert(ms.take(ms.len() as int) =~= ms);
    let mut j: usize = 0;
    while j < ws.mcp.len()
        invariant
            j <= ws.mcp@.len(),
            mc == ws.mcp@.map_values(|m: McpRow| mcp_tile(m)),
            tile_views(r@) == ms + mc.take(j as int),
        decreases ws.mcp@.len() - j,
    {
        let m = &ws.mcp[j];
        let icon = crate::inspector_model::mcp_icon_of(m);
        let mut id = chars_of("mcp:");
        append_str(&mut id, m.name.as_str());
        let t = tile(&id, m.name.as_str(), m.transport.as_str(), icon.as_str(), Tone::Neutral, "configured");
        proof {
            lemma_tile_views_push(r@, t);
            assert(tile_view(t) == mc[j as int]);
        }
        r.push(t);
        assert(mc.take(j + 1) =~= mc.take(j as int).push(mc[j as int]));
        j = j + 1;
    }
    assert(mc.take(mc.len() as int) =~= mc);
    let mut k: usize = 0;
    while k < ws.skills.len()
        invariant
            k <= ws.skills@.len(),
            sk == strs(ws.skills@).map_values(|s: Seq<char>| skill_tile(s)),
            tile_views(r@) == ms + mc + sk.take(k as int),
        decreases ws.skills@.len() - k,
    {
        let sname = ws.skills[k].as_str();
        let mut id = chars_of("skill:");
        append_str(&mut id, sname);
        let t = tile(&id, sname, "skill", ChromeGlyph::Sparkle.mark(), Tone::Good, "installed");
        proof {
            lemma_tile_views_push(r@, t);
            assert(strs(ws.skills@)[k as int] == ws.skills@[k as int]@);
            assert(tile_view(t) == sk[k as int]);
        }
        r.push(t);
        assert(sk.take(k + 1) =~= sk.take(k as int).push(sk[k as int]));
        k = k + 1;
    }
    assert(sk.take(sk.len() as int) =~= sk);
    let mut w: usize = 0;
    while w < ws.worktrees.len()
        invariant
            w <= ws.worktrees@.len(),
            wt == Seq::new(ws.worktrees@.len(), |i: int| worktree_tile(i, ws.worktrees@[i]@)),
            tile_views(r@) == ms + mc + sk + wt.take(w as int),
        decreases ws.worktrees@.len() - w,
    {
        let mut id = chars_of("git:");
        push_dec(&mut id, w as u64);
        let t = tile(&id, ws.worktrees[w].as_str(), "worktree", ChromeGlyph::Git.mark(), Tone::Neutral, "git");
        proof {
            lemma_tile_views_push(r@, t);
            assert(tile_view(t) == wt[w as int]);
        }
        r.push(t);
        assert(wt.take(w + 1) =~= wt.take(w as int).push(wt[w as int]));
        w = w + 1;
    }
    assert(wt.take(wt.len() as int) =~= wt);
    r
}

} // verus!
