//! Modal overlay policy: Settings and Search replace everything, Palette and
//! Help stack.

use vstd::prelude::*;

verus! {

/// One exclusive or stackable overlay.
#[derive(Debug, Clone, Copy, PartialEq, Eq, Structural)]
pub enum OverlayKind {
    Palette,
    Help,
    Settings,
    Search,
}

/// Painted overlay flags.
#[derive(Debug, Clone, Copy, PartialEq, Eq, Structural)]
pub struct OverlayFlags {
    pub palette: bool,
    pub help: bool,
    pub settings: bool,
    pub search: bool,
}

pub open spec fn shows(f: OverlayFlags, k: OverlayKind) -> bool {
    match k {
        OverlayKind::Palette => f.palette,
        OverlayKind::Help => f.help,
        OverlayKind::Settings => f.settings,
        OverlayKind::Search => f.search,
    }
}

pub open spec fn top_of(f: OverlayFlags) -> Option<OverlayKind> {
    if f.settings {
        Some(OverlayKind::Settings)
    } else if f.search {
        Some(OverlayKind::Search)
    } else if f.palette {
        Some(OverlayKind::Palette)
    } else if f.help {
        Some(OverlayKind::Help)
    } else {
        None
    }
}

pub open spec fn opened(f: OverlayFlags, k: OverlayKind) -> OverlayFlags {
    match k {
        OverlayKind::Settings => OverlayFlags {
            palette: false,
            help: false,
            settings: true,
            search: false,
        },
        OverlayKind::Search => OverlayFlags {
            palette: false,
            help: false,
            settings: false,
            search: true,
        },
        OverlayKind::Palette => OverlayFlags { settings: false, search: false, palette: true, ..f },
        OverlayKind::Help => OverlayFlags { settings: false, search: false, help: true, ..f },
    }
}

pub open spec fn without(f: OverlayFlags, k: OverlayKind) -> OverlayFlags {
    match k {
        OverlayKind::Palette => OverlayFlags { palette: false, ..f },
        OverlayKind::Help => OverlayFlags { help: false, ..f },
        OverlayKind::Settings => OverlayFlags { settings: false, ..f },
        OverlayKind::Search => OverlayFlags { search: false, ..f },
    }
}

/// An exclusive overlay is painted alone.
pub open spec fn exclusive_alone(f: OverlayFlags) -> bool {
    &&& f.settings ==> !f.palette && !f.help && !f.search
    &&& f.search ==> !f.palette && !f.help && !f.settings
}

impl OverlayFlags {
    pub fn contains(self, kind: OverlayKind) -> (r: bool)
        ensures
            r == shows(self, kind),
    {
        match kind {
            OverlayKind::Palette => self.palette,
            OverlayKind::Help => self.help,
            OverlayKind::Settings => self.settings,
            OverlayKind::Search => self.search,
        }
    }

    pub fn any(self) -> (r: bool)
        ensures
            r == (self.palette || self.help || self.settings || self.search),
    {
        self.palette || self.help || self.settings || self.search
    }

    pub fn is_exclusive(self) -> (r: bool)
        ensures
            r == (self.settings || self.search),
    {
        self.settings || self.search
    }

    /// Top of the Esc stack: exclusive first, then palette, then help.
    pub fn top(self) -> (r: Option<OverlayKind>)
        ensures
            r == top_of(self),
    {
        if self.settings {
            Some(OverlayKind::Settings)
        } else if self.search {
            Some(OverlayKind::Search)
        } else if self.palette {
            Some(OverlayKind::Palette)
        } else if self.help {
            Some(OverlayKind::Help)
        } else {
            None
        }
    }

    pub fn open(&mut self, kind: OverlayKind)
        ensures
            *final(self) == opened(*old(self), kind),
    {
        match kind {
            OverlayKind::Settings => {
                self.palette = false;
                self.help = false;
                self.search = false;
                self.settings = true;
            },
            OverlayKind::Search => {
                self.palette = false;
                self.help = false;
                self.settings = false;
                self.search = true;
            },
            OverlayKind::Palette => {
                self.settings = false;
                self.search = false;
                self.palette = true;
            },
            OverlayKind::Help => {
                self.settings = false;
                self.search = false;
                self.help = true;
            },
        }
    }

    pub fn close(&mut self, kind: OverlayKind)
        ensures
            *final(self) == without(*old(self), kind),
    {
        match kind {
            OverlayKind::Palette => self.palette = false,
            OverlayKind::Help => self.help = false,
            OverlayKind::Settings => self.settings = false,
            OverlayKind::Search => self.search = false,
        }
    }

    pub fn toggle(&mut self, kind: OverlayKind)
        ensures
            *final(self) == (if shows(*old(self), kind) {
                without(*old(self), kind)
            } else {
                opened(*old(self), kind)
            }),
    {
        if self.contains(kind) {
            self.close(kind);
        } else {
            self.open(kind);
        }
    }

    pub fn pop(&mut self) -> (r: Option<OverlayKind>)
        ensures
            r == top_of(*old(self)),
            *final(self) == match r {
                Some(k) => without(*old(self), k),
                None => *old(self),
            },
    {
        match self.top() {
            Some(top) => {
                self.close(top);
                Some(top)
            },
            None => None,
        }
    }
}

impl Default for OverlayFlags {
    fn default() -> (f: Self)
        ensures
            f == (OverlayFlags { palette: false, help: false, settings: false, search: false }),
    {
        OverlayFlags { palette: false, help: false, settings: false, search: false }
    }
}

/// Opening, closing, toggling and popping keep an exclusive overlay alone.
pub proof fn law_exclusive_stays_alone(f: OverlayFlags, k: OverlayKind)
    requires
        exclusive_alone(f),
    ensures
        exclusive_alone(opened(f, k)),
        exclusive_alone(without(f, k)),
        exclusive_alone(if shows(f, k) {
            without(f, k)
        } else {
            opened(f, k)
        }),
{
}

/// Toggling flips exactly the toggled overlay's flag.
pub proof fn law_toggle_flips(f: OverlayFlags, k: OverlayKind)
    ensures
        shows(
            if shows(f, k) {
                without(f, k)
            } else {
                opened(f, k)
            },
            k,
        ) == !shows(f, k),
{
}

/// After opening `k`, `k` is painted, and on top unless `k` is Help (the
/// palette stays above help).
pub proof fn law_open_shows(f: OverlayFlags, k: OverlayKind)
    ensures
        shows(opened(f, k), k),
        k != OverlayKind::Help ==> top_of(opened(f, k)) == Some(k),
{
}

/// Popping removes the top overlay, and the stack is empty exactly when
/// there is no top.
pub proof fn law_pop_removes_top(f: OverlayFlags)
    ensures
        top_of(f) matches Some(k) ==> !shows(without(f, k), k),
        top_of(f) is None ==> !(f.palette || f.help || f.settings || f.search),
{
}

} // verus!
