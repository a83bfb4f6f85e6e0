//! UI kit specs the desktop projects into its widgets.

use vstd::prelude::*;

verus! {

pub const HEIGHT_COMPACT: u16 = 32;
pub const HEIGHT_ROW: u16 = 36;
pub const HEIGHT_COMFORT: u16 = 44;
pub const HEIGHT_TITLE: u16 = 48;
pub const HEIGHT_RAIL: u16 = 48;
pub const HEIGHT_CARD: u16 = 56;

/// Visual treatment of a button.
#[derive(Debug, Clone, Copy, PartialEq, Eq, Structural)]
pub enum ButtonKind {
    Primary,
    Plain,
    Danger,
    Icon,
}

/// One clickable control.
#[derive(Debug, Clone, PartialEq, Eq)]
pub struct ButtonSpec {
    pub kind: ButtonKind,
    pub label: String,
    pub hint: String,
    pub icon: String,
    pub enabled: bool,
    pub busy: bool,
}

impl ButtonSpec {
    pub fn ghost(label: &str, hint: &str) -> (b: Self)
        ensures
            b.kind == ButtonKind::Plain,
            b.label@ == label@,
            b.hint@ == hint@,
            b.icon@ == Seq::<char>::empty(),
            b.enabled,
            !b.busy,
    {
        ButtonSpec {
            kind: ButtonKind::Plain,
            label: label.to_owned(),
            hint: hint.to_owned(),
            icon: String::new(),
            enabled: true,
            busy: false,
        }
    }

    pub fn primary(label: &str, hint: &str) -> (b: Self)
        ensures
            b.kind == ButtonKind::Primary,
            b.label@ == label@,
            b.hint@ == hint@,
            b.icon@ == Seq::<char>::empty(),
            b.enabled,
            !b.busy,
    {
        ButtonSpec {
            kind: ButtonKind::Primary,
            label: label.to_owned(),
            hint: hint.to_owned(),
            icon: String::new(),
            enabled: true,
            busy: false,
        }
    }

    pub fn icon(icon: &str, hint: &str) -> (b: Self)
        ensures
            b.kind == ButtonKind::Icon,
            b.label@ == Seq::<char>::empty(),
            b.hint@ == hint@,
            b.icon@ == icon@,
            b.enabled,
            !b.busy,
    {
        ButtonSpec {
            kind: ButtonKind::Icon,
            label: String::new(),
            hint: hint.to_owned(),
            icon: icon.to_owned(),
            enabled: true,
            busy: false,
        }
    }

    /// Icon and ghost buttons are compact; primary and danger are roomy.
    pub fn height(self) -> (h: u16)
        ensures
            h == (match self.kind {
                ButtonKind::Icon | ButtonKind::Plain => HEIGHT_COMPACT,
                ButtonKind::Primary | ButtonKind::Danger => HEIGHT_COMFORT,
            }),
    {
        match self.kind {
            ButtonKind::Icon | ButtonKind::Plain => HEIGHT_COMPACT,
            ButtonKind::Primary | ButtonKind::Danger => HEIGHT_COMFORT,
        }
    }
}

/// Tone for badges and pills.
#[derive(Debug, Clone, Copy, PartialEq, Eq, Structural)]
pub enum Tone {
    Neutral,
    Accent,
    Good,
    Warn,
    Danger,
}

#[derive(Debug, Clone, PartialEq, Eq)]
pub struct BadgeSpec {
    pub tone: Tone,
    pub text: String,
}

impl BadgeSpec {
    pub fn new(tone: Tone, text: &str) -> (b: Self)
        ensures
            b.tone == tone,
            b.text@ == text@,
    {
        BadgeSpec { tone, text: text.to_owned() }
    }
}

/// One list row that can expand.
#[derive(Debug, Clone, PartialEq, Eq)]
pub struct ListRowSpec {
    pub id: String,
    pub icon: String,
    pub title: String,
    pub subtitle: String,
    pub meta: String,
    pub badge: Option<BadgeSpec>,
    pub selected: bool,
    pub busy: bool,
    pub expandable: bool,
    pub expanded: bool,
    pub children_count: usize,
}

impl ListRowSpec {
    /// An expandable, collapsed, idle row with only an id and a title.
    pub fn new(id: &str, title: &str) -> (r: Self)
        ensures
            r.id@ == id@,
            r.title@ == title@,
            r.icon@ == Seq::<char>::empty(),
            r.subtitle@ == Seq::<char>::empty(),
            r.meta@ == Seq::<char>::empty(),
            r.badge is None,
            !r.selected,
            !r.busy,
            r.expandable,
            !r.expanded,
            r.children_count == 0,
    {
        ListRowSpec {
            id: id.to_owned(),
            icon: String::new(),
            title: title.to_owned(),
            subtitle: String::new(),
            meta: String::new(),
            badge: None,
            selected: false,
            busy: false,
            expandable: true,
            expanded: false,
            children_count: 0,
        }
    }

    pub fn with_icon(self, icon: &str) -> (r: Self)
        ensures
            r == (ListRowSpec { icon: r.icon, ..self }),
            r.icon@ == icon@,
    {
        let mut s = self;
        s.icon = icon.to_owned();
        s
    }

    pub fn with_subtitle(self, subtitle: &str) -> (r: Self)
        ensures
            r == (ListRowSpec { subtitle: r.subtitle, ..self }),
            r.subtitle@ == subtitle@,
    {
        let mut s = self;
        s.subtitle = subtitle.to_owned();
        s
    }

    pub fn with_meta(self, meta: &str) -> (r: Self)
        ensures
            r == (ListRowSpec { meta: r.meta, ..self }),
            r.meta@ == meta@,
    {
        let mut s = self;
        s.meta = meta.to_owned();
        s
    }

    pub fn with_badge(self, badge: BadgeSpec) -> (r: Self)
        ensures
            r == (ListRowSpec { badge: Some(badge), ..self }),
    {
        let mut s = self;
        s.badge = Some(badge);
        s
    }

    pub fn height(&self) -> (h: u16)
        ensures
            h == HEIGHT_CARD,
    {
        HEIGHT_CARD
    }
}

#[derive(Debug, Clone, PartialEq, Eq)]
pub struct TabSpec {
    pub id: String,
    pub icon: String,
    pub label: String,
    pub selected: bool,
    pub count: usize,
}

impl TabSpec {
    pub fn height() -> (h: u16)
        ensures
            h == HEIGHT_ROW,
    {
        HEIGHT_ROW
    }
}

#[derive(Debug, Clone, PartialEq, Eq)]
pub struct EmptyStateSpec {
    pub title: String,
    pub body: String,
    pub action: String,
}

pub open spec fn suggestion_tiles() -> Seq<Seq<char>> {
    seq!["What can you do?"@, "Summarize this repo"@, "git status"@, "Run the tests"@]
}

impl EmptyStateSpec {
    pub fn chat() -> (e: Self)
        ensures
            e.title@ == "What should we build?"@,
            e.body@ == "Send a grok -p turn, or switch to TUI for a system shell."@,
            e.action@ == "New chat"@,
    {
        EmptyStateSpec {
            title: "What should we build?".to_owned(),
            body: "Send a grok -p turn, or switch to TUI for a system shell.".to_owned(),
            action: "New chat".to_owned(),
        }
    }

    pub fn tiles() -> (r: [&'static str; 4])
        ensures
            r@.map_values(|s: &str| s@) == suggestion_tiles(),
    {
        empty_state_tiles()
    }
}

/// Suggestion tiles on the empty center.
pub fn empty_state_tiles() -> (r: [&'static str; 4])
    ensures
        r@.map_values(|s: &str| s@) == suggestion_tiles(),
{
    let r = ["What can you do?", "Summarize this repo", "git status", "Run the tests"];
    assert(r@.map_values(|s: &str| s@) =~= suggestion_tiles());
    r
}

} // verus!
