//! Chrome glyphs and brand-icon name mapping.

use vstd::prelude::*;
use crate::text::{append_str, chars_of, contains_s, contains_str, eq_str, lower_s, lower_vec, occurs_at, string_of, matches_at};

verus! {

/// First-party chrome glyph. The desktop draws these as text marks or paths.
#[derive(Debug, Clone, Copy, PartialEq, Eq, Structural)]
pub enum ChromeGlyph {
    Chat,
    Agent,
    Folder,
    Git,
    Terminal,
    Cpu,
    Plug,
    Flag,
    Search,
    Plus,
    Close,
    Chevron,
    Play,
    Stop,
    Copy,
    Settings,
    Sparkle,
    Layout,
    Browser,
    Diff,
    Activity,
    Palette,
    Session,
    Skills,
}

pub open spec fn glyph_mark(g: ChromeGlyph) -> Seq<char> {
    match g {
        ChromeGlyph::Chat => "☰"@,
        ChromeGlyph::Agent => "⚡"@,
        ChromeGlyph::Folder => "▤"@,
        ChromeGlyph::Git => "⎇"@,
        ChromeGlyph::Terminal => ">_"@,
        ChromeGlyph::Cpu => "▣"@,
        ChromeGlyph::Plug => "⬡"@,
        ChromeGlyph::Flag => "⚑"@,
        ChromeGlyph::Search => "⌕"@,
        ChromeGlyph::Plus => "+"@,
        ChromeGlyph::Close => "×"@,
        ChromeGlyph::Chevron => "›"@,
        ChromeGlyph::Play => "▶"@,
        ChromeGlyph::Stop => "■"@,
        ChromeGlyph::Copy => "⧉"@,
        ChromeGlyph::Settings => "⚙"@,
        ChromeGlyph::Sparkle => "✦"@,
        ChromeGlyph::Layout => "▦"@,
        ChromeGlyph::Browser => "◎"@,
        ChromeGlyph::Diff => "±"@,
        ChromeGlyph::Activity => "●"@,
        ChromeGlyph::Palette => "⌘"@,
        ChromeGlyph::Session => "◉"@,
        ChromeGlyph::Skills => "✦"@,
    }
}

pub open spec fn glyph_file(g: ChromeGlyph) -> Seq<char> {
    match g {
        ChromeGlyph::Chat => "icons/message-square.svg"@,
        ChromeGlyph::Agent => "icons/zap.svg"@,
        ChromeGlyph::Folder => "icons/folder.svg"@,
        ChromeGlyph::Git => "icons/git-branch.svg"@,
        ChromeGlyph::Terminal => "icons/square-terminal.svg"@,
        ChromeGlyph::Cpu => "icons/cpu.svg"@,
        ChromeGlyph::Plug => "icons/unplug.svg"@,
        ChromeGlyph::Flag => "icons/flag.svg"@,
        ChromeGlyph::Search => "icons/search.svg"@,
        ChromeGlyph::Plus => "icons/plus.svg"@,
        ChromeGlyph::Close => "icons/x.svg"@,
        ChromeGlyph::Chevron => "icons/chevron-right.svg"@,
        ChromeGlyph::Play => "icons/play.svg"@,
        ChromeGlyph::Stop => "icons/square.svg"@,
        ChromeGlyph::Copy => "icons/copy.svg"@,
        ChromeGlyph::Settings => "icons/settings.svg"@,
        ChromeGlyph::Sparkle => "icons/sparkles.svg"@,
        ChromeGlyph::Layout => "icons/panel-left.svg"@,
        ChromeGlyph::Browser => "icons/globe.svg"@,
        ChromeGlyph::Diff => "icons/file-diff.svg"@,
        ChromeGlyph::Activity => "icons/activity.svg"@,
        ChromeGlyph::Palette => "icons/command.svg"@,
        ChromeGlyph::Session => "icons/circle-user.svg"@,
        ChromeGlyph::Skills => "icons/book-open.svg"@,
    }
}

pub open spec fn all_glyphs() -> Seq<ChromeGlyph> {
    seq![
        ChromeGlyph::Chat,
        ChromeGlyph::Agent,
        ChromeGlyph::Folder,
        ChromeGlyph::Git,
        ChromeGlyph::Terminal,
        ChromeGlyph::Cpu,
        ChromeGlyph::Plug,
        ChromeGlyph::Flag,
        ChromeGlyph::Search,
        ChromeGlyph::Plus,
        ChromeGlyph::Close,
        ChromeGlyph::Chevron,
        ChromeGlyph::Play,
        ChromeGlyph::Stop,
        ChromeGlyph::Copy,
        ChromeGlyph::Settings,
        ChromeGlyph::Sparkle,
        ChromeGlyph::Layout,
        ChromeGlyph::Browser,
        ChromeGlyph::Diff,
        ChromeGlyph::Activity,
        ChromeGlyph::Palette,
        ChromeGlyph::Session,
        ChromeGlyph::Skills,
    ]
}

impl ChromeGlyph {
    pub fn all() -> (r: [ChromeGlyph; 24])
        ensures
            r@ == all_glyphs(),
    {
        let r = [
            ChromeGlyph::Chat,
        ChromeGlyph::Agent,
        ChromeGlyph::Folder,
        ChromeGlyph::Git,
        ChromeGlyph::Terminal,
        ChromeGlyph::Cpu,
        ChromeGlyph::Plug,
        ChromeGlyph::Flag,
        ChromeGlyph::Search,
        ChromeGlyph::Plus,
        ChromeGlyph::Close,
        ChromeGlyph::Chevron,
        ChromeGlyph::Play,
        ChromeGlyph::Stop,
        ChromeGlyph::Copy,
        ChromeGlyph::Settings,
        ChromeGlyph::Sparkle,
        ChromeGlyph::Layout,
        ChromeGlyph::Browser,
        ChromeGlyph::Diff,
        ChromeGlyph::Activity,
        ChromeGlyph::Palette,
        ChromeGlyph::Session,
        ChromeGlyph::Skills,
        ];
        assert(r@ =~= all_glyphs());
        r
    }

    pub fn mark(self) -> (r: &'static str)
        ensures
            r@ == glyph_mark(self),
    {
        match self {
            ChromeGlyph::Chat => "☰",
            ChromeGlyph::Agent => "⚡",
            ChromeGlyph::Folder => "▤",
            ChromeGlyph::Git => "⎇",
            ChromeGlyph::Terminal => ">_",
            ChromeGlyph::Cpu => "▣",
            ChromeGlyph::Plug => "⬡",
            ChromeGlyph::Flag => "⚑",
            ChromeGlyph::Search => "⌕",
            ChromeGlyph::Plus => "+",
            ChromeGlyph::Close => "×",
            ChromeGlyph::Chevron => "›",
            ChromeGlyph::Play => "▶",
            ChromeGlyph::Stop => "■",
            ChromeGlyph::Copy => "⧉",
            ChromeGlyph::Settings => "⚙",
            ChromeGlyph::Sparkle => "✦",
            ChromeGlyph::Layout => "▦",
            ChromeGlyph::Browser => "◎",
            ChromeGlyph::Diff => "±",
            ChromeGlyph::Activity => "●",
            ChromeGlyph::Palette => "⌘",
            ChromeGlyph::Session => "◉",
            ChromeGlyph::Skills => "✦",
        }
    }

    pub fn icon_file(self) -> (r: &'static str)
        ensures
            r@ == glyph_file(self),
    {
        match self {
            ChromeGlyph::Chat => "icons/message-square.svg",
            ChromeGlyph::Agent => "icons/zap.svg",
            ChromeGlyph::Folder => "icons/folder.svg",
            ChromeGlyph::Git => "icons/git-branch.svg",
            ChromeGlyph::Terminal => "icons/square-terminal.svg",
            ChromeGlyph::Cpu => "icons/cpu.svg",
            ChromeGlyph::Plug => "icons/unplug.svg",
            ChromeGlyph::Flag => "icons/flag.svg",
            ChromeGlyph::Search => "icons/search.svg",
            ChromeGlyph::Plus => "icons/plus.svg",
            ChromeGlyph::Close => "icons/x.svg",
            ChromeGlyph::Chevron => "icons/chevron-right.svg",
            ChromeGlyph::Play => "icons/play.svg",
            ChromeGlyph::Stop => "icons/square.svg",
            ChromeGlyph::Copy => "icons/copy.svg",
            ChromeGlyph::Settings => "icons/settings.svg",
            ChromeGlyph::Sparkle => "icons/sparkles.svg",
            ChromeGlyph::Layout => "icons/panel-left.svg",
            ChromeGlyph::Browser => "icons/globe.svg",
            ChromeGlyph::Diff => "icons/file-diff.svg",
            ChromeGlyph::Activity => "icons/activity.svg",
            ChromeGlyph::Palette => "icons/command.svg",
            ChromeGlyph::Session => "icons/circle-user.svg",
            ChromeGlyph::Skills => "icons/book-open.svg",
        }
    }
}

/// `str::replace`: every non-overlapping occurrence of `p`, left to right,
/// from position `i` on, replaced by `r`.
pub open spec fn replace_from(s: Seq<char>, p: Seq<char>, r: Seq<char>, i: int) -> Seq<char>
    decreases s.len() - i,
{
    if i < 0 || i >= s.len() {
        Seq::empty()
    } else if p.len() > 0 && occurs_at(s, p, i) {
        r + replace_from(s, p, r, i + p.len())
    } else {
        seq![s[i]] + replace_from(s, p, r, i + 1)
    }
}

/// An SVG with `currentColor` painted black, so a tint can show.
pub fn lucide_for_gpui(svg: &str) -> (r: String)
    ensures
        r@ == replace_from(svg@, "currentColor"@, "#000000"@, 0),
{
    let s = chars_of(svg);
    let p = chars_of("currentColor");
    let rep = chars_of("#000000");
    proof {
        reveal_strlit("currentColor");
    }
    let mut out: Vec<char> = Vec::new();
    let mut i: usize = 0;
    while i < s.len()
        invariant
            i <= s.len(),
            s@ == svg@,
            p@ == "currentColor"@,
            p@.len() == 12,
            rep@ == "#000000"@,
            out@ + replace_from(s@, p@, rep@, i as int) == replace_from(s@, p@, rep@, 0),
        decreases s.len() - i,
    {
        if matches_at(&s, &p, i) {
            let ghost before = out@;
            crate::text::append_vec(&mut out, &rep);
            assert(out@ + replace_from(s@, p@, rep@, i + 12) =~= before + replace_from(s@, p@, rep@, i as int));
            i = i + 12;
        } else {
            let ghost before = out@;
            out.push(s[i]);
            assert(out@ + replace_from(s@, p@, rep@, i + 1) =~= before + replace_from(s@, p@, rep@, i as int));
            i = i + 1;
        }
    }
    assert(out@ =~= out@ + replace_from(s@, p@, rep@, i as int));
    string_of(&out)
}

/// Vendored brand icon (png).
#[derive(Debug, Clone, Copy, PartialEq, Eq, Structural)]
pub enum BrandIcon {
    Github,
    Git,
    Rust,
    Docker,
    Cloudflare,
    Slack,
    Windows,
    Nodejs,
    Linear,
    Notion,
}

pub open spec fn brand_slug(g: BrandIcon) -> Seq<char> {
    match g {
        BrandIcon::Github => "github-light"@,
        BrandIcon::Git => "git"@,
        BrandIcon::Rust => "rust"@,
        BrandIcon::Docker => "docker"@,
        BrandIcon::Cloudflare => "cloudflare"@,
        BrandIcon::Slack => "slack"@,
        BrandIcon::Windows => "windows"@,
        BrandIcon::Nodejs => "nodejs"@,
        BrandIcon::Linear => "linear"@,
        BrandIcon::Notion => "notion"@,
    }
}

pub open spec fn all_brands() -> Seq<BrandIcon> {
    seq![
        BrandIcon::Github,
        BrandIcon::Git,
        BrandIcon::Rust,
        BrandIcon::Docker,
        BrandIcon::Cloudflare,
        BrandIcon::Slack,
        BrandIcon::Windows,
        BrandIcon::Nodejs,
        BrandIcon::Linear,
        BrandIcon::Notion,
    ]
}

/// The brand a tool or server name mentions (checked in this order).
pub open spec fn brand_of(name: Seq<char>) -> Option<BrandIcon> {
    let n = lower_s(name);
    if contains_s(n, "github"@) || n == "gh"@ {
        Some(BrandIcon::Github)
    } else if contains_s(n, "cloudflare"@) || contains_s(n, "wrangler"@) {
        Some(BrandIcon::Cloudflare)
    } else if contains_s(n, "docker"@) {
        Some(BrandIcon::Docker)
    } else if contains_s(n, "slack"@) {
        Some(BrandIcon::Slack)
    } else if contains_s(n, "linear"@) {
        Some(BrandIcon::Linear)
    } else if contains_s(n, "notion"@) {
        Some(BrandIcon::Notion)
    } else if contains_s(n, "node"@) || contains_s(n, "npx"@) {
        Some(BrandIcon::Nodejs)
    } else if contains_s(n, "windows"@) {
        Some(BrandIcon::Windows)
    } else if contains_s(n, "rust"@) || contains_s(n, "cargo"@) {
        Some(BrandIcon::Rust)
    } else if n == "git"@ || contains_s(n, "git "@) {
        Some(BrandIcon::Git)
    } else {
        None
    }
}

impl BrandIcon {
    pub fn all() -> (r: [BrandIcon; 10])
        ensures
            r@ == all_brands(),
    {
        let r = [
            BrandIcon::Github,
        BrandIcon::Git,
        BrandIcon::Rust,
        BrandIcon::Docker,
        BrandIcon::Cloudflare,
        BrandIcon::Slack,
        BrandIcon::Windows,
        BrandIcon::Nodejs,
        BrandIcon::Linear,
        BrandIcon::Notion,
        ];
        assert(r@ =~= all_brands());
        r
    }

    pub fn slug(self) -> (r: &'static str)
        ensures
            r@ == brand_slug(self),
    {
        match self {
            BrandIcon::Github => "github-light",
            BrandIcon::Git => "git",
            BrandIcon::Rust => "rust",
            BrandIcon::Docker => "docker",
            BrandIcon::Cloudflare => "cloudflare",
            BrandIcon::Slack => "slack",
            BrandIcon::Windows => "windows",
            BrandIcon::Nodejs => "nodejs",
            BrandIcon::Linear => "linear",
            BrandIcon::Notion => "notion",
        }
    }

    pub fn asset_path(self) -> (r: String)
        ensures
            r@ == "assets/brands/"@ + brand_slug(self) + ".png"@,
    {
        let mut v: Vec<char> = Vec::new();
        append_str(&mut v, "assets/brands/");
        append_str(&mut v, self.slug());
        append_str(&mut v, ".png");
        let r = string_of(&v);
        assert(r@ =~= "assets/brands/"@ + brand_slug(self) + ".png"@);
        r
    }

    pub fn from_name(name: &str) -> (r: Option<Self>)
        ensures
            r == brand_of(name@),
    {
        let n = lower_vec(&chars_of(name));
        if contains_str(&n, "github") || eq_str(&n, "gh") {
            Some(BrandIcon::Github)
        } else if contains_str(&n, "cloudflare") || contains_str(&n, "wrangler") {
            Some(BrandIcon::Cloudflare)
        } else if contains_str(&n, "docker") {
            Some(BrandIcon::Docker)
        } else if contains_str(&n, "slack") {
            Some(BrandIcon::Slack)
        } else if contains_str(&n, "linear") {
            Some(BrandIcon::Linear)
        } else if contains_str(&n, "notion") {
            Some(BrandIcon::Notion)
        } else if contains_str(&n, "node") || contains_str(&n, "npx") {
            Some(BrandIcon::Nodejs)
        } else if contains_str(&n, "windows") {
            Some(BrandIcon::Windows)
        } else if contains_str(&n, "rust") || contains_str(&n, "cargo") {
            Some(BrandIcon::Rust)
        } else if eq_str(&n, "git") || contains_str(&n, "git ") {
            Some(BrandIcon::Git)
        } else {
            None
        }
    }
}

/// Every chrome glyph has its own icon file.
pub proof fn law_icon_files_distinct(a: ChromeGlyph, b: ChromeGlyph)
    requires
        a != b,
    ensures
        glyph_file(a) != glyph_file(b),
{
    reveal_strlit("icons/message-square.svg");
    reveal_strlit("icons/zap.svg");
    reveal_strlit("icons/folder.svg");
    reveal_strlit("icons/git-branch.svg");
    reveal_strlit("icons/square-terminal.svg");
    reveal_strlit("icons/cpu.svg");
    reveal_strlit("icons/unplug.svg");
    reveal_strlit("icons/flag.svg");
    reveal_strlit("icons/search.svg");
    reveal_strlit("icons/plus.svg");
    reveal_strlit("icons/x.svg");
    reveal_strlit("icons/chevron-right.svg");
    reveal_strlit("icons/play.svg");
    reveal_strlit("icons/square.svg");
    reveal_strlit("icons/copy.svg");
    reveal_strlit("icons/settings.svg");
    reveal_strlit("icons/sparkles.svg");
    reveal_strlit("icons/panel-left.svg");
    reveal_strlit("icons/globe.svg");
    reveal_strlit("icons/file-diff.svg");
    reveal_strlit("icons/activity.svg");
    reveal_strlit("icons/command.svg");
    reveal_strlit("icons/circle-user.svg");
    reveal_strlit("icons/book-open.svg");
    assert("icons/message-square.svg"@.len() == 24);
    assert("icons/zap.svg"@.len() == 13);
    assert("icons/folder.svg"@.len() == 16);
    assert("icons/git-branch.svg"@.len() == 20);
    assert("icons/square-terminal.svg"@.len() == 25);
    assert("icons/cpu.svg"@.len() == 13);
    assert("icons/unplug.svg"@.len() == 16);
    assert("icons/flag.svg"@.len() == 14);
    assert("icons/search.svg"@.len() == 16);
    assert("icons/plus.svg"@.len() == 14);
    assert("icons/x.svg"@.len() == 11);
    assert("icons/chevron-right.svg"@.len() == 23);
    assert("icons/play.svg"@.len() == 14);
    assert("icons/square.svg"@.len() == 16);
    assert("icons/copy.svg"@.len() == 14);
    assert("icons/settings.svg"@.len() == 18);
    assert("icons/sparkles.svg"@.len() == 18);
    assert("icons/panel-left.svg"@.len() == 20);
    assert("icons/globe.svg"@.len() == 15);
    assert("icons/file-diff.svg"@.len() == 19);
    assert("icons/activity.svg"@.len() == 18);
    assert("icons/command.svg"@.len() == 17);
    assert("icons/circle-user.svg"@.len() == 21);
    assert("icons/book-open.svg"@.len() == 19);
    assert("icons/zap.svg"@[6] == 'z');
    assert("icons/cpu.svg"@[6] == 'c');
    assert("icons/folder.svg"@[6] == 'f');
    assert("icons/unplug.svg"@[6] == 'u');
    assert("icons/search.svg"@[6] == 's');
    assert("icons/square.svg"@[6] == 's');
    assert("icons/git-branch.svg"@[6] == 'g');
    assert("icons/panel-left.svg"@[6] == 'p');
    assert("icons/flag.svg"@[6] == 'f');
    assert("icons/plus.svg"@[6] == 'p');
    assert("icons/play.svg"@[6] == 'p');
    assert("icons/copy.svg"@[6] == 'c');
    assert("icons/search.svg"@[7] == 'e');
    assert("icons/square.svg"@[7] == 'q');
    assert("icons/plus.svg"@[8] == 'u');
    assert("icons/play.svg"@[8] == 'a');
    assert("icons/settings.svg"@[7] == 'e');
    assert("icons/sparkles.svg"@[7] == 'p');
    assert("icons/settings.svg"@[6] == 's');
    assert("icons/activity.svg"@[6] == 'a');
    assert("icons/sparkles.svg"@[6] == 's');
    assert("icons/file-diff.svg"@[6] == 'f');
    assert("icons/book-open.svg"@[6] == 'b');
}

} // verus!
