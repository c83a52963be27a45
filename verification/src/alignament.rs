//! Alignments and anchors: the symbolic positioning vocabulary of the
//! layout engine.
//!
//! An [`Alignament`] names one of nine reference points of a rectangle
//! (four corners, four edge midpoints, the centre).  The same keywords
//! serve the `align` key (which point of the control the given
//! coordinate refers to) and the `dock` key (which point of the parent
//! the control is attached to).  [`Anchors`] records which of the four
//! edge anchors were supplied and drives the choice of layout mode.

use vstd::prelude::*;
use crate::text::{lower_seq, window_eq_ci};

verus! {

/// One of the nine reference points of a rectangle.
#[derive(Clone, Copy, PartialEq, Eq, Structural, Debug)]
pub enum Alignament {
    TopLeft,
    Top,
    TopRight,
    Right,
    BottomRight,
    Bottom,
    BottomLeft,
    Left,
    Center,
}

/// Where a reference point stands along one axis: at the start edge, in
/// the middle, or at the end edge.
#[derive(Clone, Copy, PartialEq, Eq, Structural, Debug)]
pub enum AxisRef {
    Start,
    Middle,
    End,
}

/// The horizontal component of an alignment.
pub open spec fn h_ref(a: Alignament) -> AxisRef {
    match a {
        Alignament::TopLeft | Alignament::Left | Alignament::BottomLeft => AxisRef::Start,
        Alignament::Top | Alignament::Center | Alignament::Bottom => AxisRef::Middle,
        Alignament::TopRight | Alignament::Right | Alignament::BottomRight => AxisRef::End,
    }
}

/// The vertical component of an alignment.
pub open spec fn v_ref(a: Alignament) -> AxisRef {
    match a {
        Alignament::TopLeft | Alignament::Top | Alignament::TopRight => AxisRef::Start,
        Alignament::Left | Alignament::Center | Alignament::Right => AxisRef::Middle,
        Alignament::BottomLeft | Alignament::Bottom | Alignament::BottomRight => AxisRef::End,
    }
}

impl Alignament {
    /// Exec counterpart of [`h_ref`].
    pub fn horizontal(self) -> (r: AxisRef)
        ensures
            r == h_ref(self),
    {
        match self {
            Alignament::TopLeft | Alignament::Left | Alignament::BottomLeft => AxisRef::Start,
            Alignament::Top | Alignament::Center | Alignament::Bottom => AxisRef::Middle,
            Alignament::TopRight | Alignament::Right | Alignament::BottomRight => AxisRef::End,
        }
    }

    /// Exec counterpart of [`v_ref`].
    pub fn vertical(self) -> (r: AxisRef)
        ensures
            r == v_ref(self),
    {
        match self {
            Alignament::TopLeft | Alignament::Top | Alignament::TopRight => AxisRef::Start,
            Alignament::Left | Alignament::Center | Alignament::Right => AxisRef::Middle,
            Alignament::BottomLeft | Alignament::Bottom | Alignament::BottomRight => AxisRef::End,
        }
    }
}

/// The alignment a keyword names, compared without regard to ASCII
/// case: full names, the two-letter corner forms in either order, and
/// the one-letter edge forms.
pub open spec fn spec_alignament_of(s: Seq<char>) -> Option<Alignament> {
    let t = lower_seq(s);
    if t == "topleft"@ || t == "tl"@ || t == "lefttop"@ || t == "lt"@ {
        Option::Some(Alignament::TopLeft)
    } else if t == "top"@ || t == "t"@ {
        Option::Some(Alignament::Top)
    } else if t == "topright"@ || t == "tr"@ || t == "righttop"@ || t == "rt"@ {
        Option::Some(Alignament::TopRight)
    } else if t == "right"@ || t == "r"@ {
        Option::Some(Alignament::Right)
    } else if t == "bottomright"@ || t == "br"@ || t == "rightbottom"@ || t == "rb"@ {
        Option::Some(Alignament::BottomRight)
    } else if t == "bottom"@ || t == "b"@ {
        Option::Some(Alignament::Bottom)
    } else if t == "bottomleft"@ || t == "bl"@ || t == "leftbottom"@ || t == "lb"@ {
        Option::Some(Alignament::BottomLeft)
    } else if t == "left"@ || t == "l"@ {
        Option::Some(Alignament::Left)
    } else if t == "center"@ || t == "c"@ {
        Option::Some(Alignament::Center)
    } else {
        Option::None
    }
}

/// Reads an alignment keyword.
pub fn alignament_of(v: &Vec<char>) -> (r: Option<Alignament>)
    ensures
        r == spec_alignament_of(v@),
{
    let n: usize = v.len();
    proof {
        assert(v@.subrange(0, n as int) =~= v@);
    }
    if window_eq_ci(v, 0, n, "topleft") || window_eq_ci(v, 0, n, "tl") || window_eq_ci(
        v,
        0,
        n,
        "lefttop",
    ) || window_eq_ci(v, 0, n, "lt") {
        Some(Alignament::TopLeft)
    } else if window_eq_ci(v, 0, n, "top") || window_eq_ci(v, 0, n, "t") {
        Some(Alignament::Top)
    } else if window_eq_ci(v, 0, n, "topright") || window_eq_ci(v, 0, n, "tr") || window_eq_ci(
        v,
        0,
        n,
        "righttop",
    ) || window_eq_ci(v, 0, n, "rt") {
        Some(Alignament::TopRight)
    } else if window_eq_ci(v, 0, n, "right") || window_eq_ci(v, 0, n, "r") {
        Some(Alignament::Right)
    } else if window_eq_ci(v, 0, n, "bottomright") || window_eq_ci(v, 0, n, "br") || window_eq_ci(
        v,
        0,
        n,
        "rightbottom",
    ) || window_eq_ci(v, 0, n, "rb") {
        Some(Alignament::BottomRight)
    } else if window_eq_ci(v, 0, n, "bottom") || window_eq_ci(v, 0, n, "b") {
        Some(Alignament::Bottom)
    } else if window_eq_ci(v, 0, n, "bottomleft") || window_eq_ci(v, 0, n, "bl") || window_eq_ci(
        v,
        0,
        n,
        "leftbottom",
    ) || window_eq_ci(v, 0, n, "lb") {
        Some(Alignament::BottomLeft)
    } else if window_eq_ci(v, 0, n, "left") || window_eq_ci(v, 0, n, "l") {
        Some(Alignament::Left)
    } else if window_eq_ci(v, 0, n, "center") || window_eq_ci(v, 0, n, "c") {
        Some(Alignament::Center)
    } else {
        None
    }
}

/// Which of the four edge anchors a parameter list supplied.
#[derive(Clone, Copy, PartialEq, Eq, Structural, Debug)]
pub struct Anchors {
    pub left: bool,
    pub top: bool,
    pub right: bool,
    pub bottom: bool,
}

impl Anchors {
    pub fn new(left: bool, top: bool, right: bool, bottom: bool) -> (r: Anchors)
        ensures
            r == (Anchors { left, top, right, bottom }),
    {
        Anchors { left, top, right, bottom }
    }

    /// How many anchors are set.
    pub fn count(self) -> (r: u32)
        ensures
            r as int == (if self.left {
                1int
            } else {
                0int
            }) + (if self.top {
                1int
            } else {
                0int
            }) + (if self.right {
                1int
            } else {
                0int
            }) + (if self.bottom {
                1int
            } else {
                0int
            }),
    {
        let mut c: u32 = 0;
        if self.left {
            c = c + 1;
        }
        if self.top {
            c = c + 1;
        }
        if self.right {
            c = c + 1;
        }
        if self.bottom {
            c = c + 1;
        }
        c
    }
}

} // verus!
