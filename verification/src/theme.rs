//! Theme vocabulary: mode, density and elevation steps.

use vstd::prelude::*;

verus! {

/// Highest elevation step.
pub const ELEVATION_MAX: usize = 4;

#[derive(Debug, Clone, Copy, PartialEq, Eq, Structural)]
pub enum ThemeMode {
    Dark,
    Light,
}

#[derive(Debug, Clone, Copy, PartialEq, Eq, Structural)]
pub enum Density {
    Comfortable,
    Compact,
}

/// Panel lift. 0 is the page, 4 is a floating overlay.
#[derive(Debug, Clone, Copy, PartialEq, Eq, Structural)]
pub enum Elevation {
    Base,
    Sunken,
    Raised,
    Overlay,
    Float,
}

pub open spec fn elevation_index(e: Elevation) -> nat {
    match e {
        Elevation::Base => 0,
        Elevation::Sunken => 1,
        Elevation::Raised => 2,
        Elevation::Overlay => 3,
        Elevation::Float => 4,
    }
}

pub open spec fn elevations() -> Seq<Elevation> {
    seq![Elevation::Base, Elevation::Sunken, Elevation::Raised, Elevation::Overlay, Elevation::Float]
}

impl Elevation {
    /// Every step, lowest first.
    pub fn all() -> (r: [Elevation; 5])
        ensures
            r@ == elevations(),
    {
        let r = [
            Elevation::Base,
            Elevation::Sunken,
            Elevation::Raised,
            Elevation::Overlay,
            Elevation::Float,
        ];
        assert(r@ =~= elevations());
        r
    }

    /// Step number, 0 to `ELEVATION_MAX`.
    pub fn index(self) -> (i: usize)
        ensures
            i == elevation_index(self),
    {
        match self {
            Elevation::Base => 0,
            Elevation::Sunken => 1,
            Elevation::Raised => 2,
            Elevation::Overlay => 3,
            Elevation::Float => 4,
        }
    }
}

/// `all` lists each step at its own index, up to `ELEVATION_MAX`.
pub proof fn law_elevation_index_matches_all(i: int)
    requires
        0 <= i < elevations().len(),
    ensures
        elevation_index(elevations()[i]) == i,
        elevation_index(elevations()[i]) <= ELEVATION_MAX,
{
}

/// Motion durations. Easing names only.
#[derive(Debug, Clone, Copy, PartialEq, Eq)]
pub struct Motion {
    pub ms: u16,
    pub easing: &'static str,
}

impl Motion {
    /// 90 ms, ease-out.
    pub fn fast() -> (m: Motion)
        ensures
            m.ms == 90,
            m.easing@ == "ease-out"@,
    {
        Motion { ms: 90, easing: "ease-out" }
    }

    /// 160 ms, ease-in-out.
    pub fn normal() -> (m: Motion)
        ensures
            m.ms == 160,
            m.easing@ == "ease-in-out"@,
    {
        Motion { ms: 160, easing: "ease-in-out" }
    }

    /// 240 ms, ease-in-out.
    pub fn slow() -> (m: Motion)
        ensures
            m.ms == 240,
            m.easing@ == "ease-in-out"@,
    {
        Motion { ms: 240, easing: "ease-in-out" }
    }
}

} // verus!
