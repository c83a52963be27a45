//! Construction options of the chart-bar control: how bars are drawn,
//! how they fit the view, and the optional features, kept as a small
//! bit set (scroll bars are bit 0, the search bar bit 1, check boxes
//! bit 2, automatic scrolling bit 3, highlighting the selected item
//! while inactive bit 4).

use vstd::prelude::*;

verus! {

/// How the chart draws its values.
#[derive(Clone, Copy, PartialEq, Eq, Structural, Debug)]
pub enum Type {
    VerticalBar,
    HorizontalBar,
    Line,
}

/// How values are scaled into the view.
#[derive(Clone, Copy, PartialEq, Eq, Structural, Debug)]
pub enum Fit {
    FitToHeight,
    NoFit,
}

/// The optional features of a chart bar.
#[derive(Clone, Copy, PartialEq, Eq, Structural, Debug)]
pub struct Flags {
    pub bits: u8,
}

impl Flags {
    pub fn none() -> (r: Flags)
        ensures
            r.bits == 0,
    {
        Flags { bits: 0 }
    }

    pub fn scroll_bars() -> (r: Flags)
        ensures
            r.bits == 1,
    {
        Flags { bits: 1 }
    }

    pub fn search_bar() -> (r: Flags)
        ensures
            r.bits == 2,
    {
        Flags { bits: 2 }
    }

    pub fn check_boxes() -> (r: Flags)
        ensures
            r.bits == 4,
    {
        Flags { bits: 4 }
    }

    pub fn auto_scroll() -> (r: Flags)
        ensures
            r.bits == 8,
    {
        Flags { bits: 8 }
    }

    pub fn highlight_selected_item_when_inactive() -> (r: Flags)
        ensures
            r.bits == 16,
    {
        Flags { bits: 16 }
    }

    /// The combination of two feature sets.
    pub fn union(self, other: Flags) -> (r: Flags)
        ensures
            r.bits == (self.bits | other.bits),
    {
        Flags { bits: self.bits | other.bits }
    }

    /// Whether every feature of `other` is also on in `self`.
    pub fn contains(self, other: Flags) -> (r: bool)
        ensures
            r == ((self.bits & other.bits) == other.bits),
    {
        (self.bits & other.bits) == other.bits
    }
}

} // verus!
