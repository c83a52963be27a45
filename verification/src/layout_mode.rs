//! The layout mode classifier: which of the nine resolution strategies
//! a validated parameter bag selects, or why none fits.
//!
//! The rules, first match wins:
//!
//! 1. A position key and an anchor key on the same axis (`x` with
//!    `left`, `y` with `top`), `dock` with `align`, and `dock` with any
//!    anchor or position key, are conflicts.
//! 2. No edge anchors: `dock` or `align` select point-and-size
//!    placement; otherwise any of `x`, `y`, `width`, `height` selects
//!    absolute placement.  A missing position defaults to `0`, a
//!    missing size to the whole parent extent.
//! 3. `left` and `right` alone stretch horizontally; `top` and `bottom`
//!    alone stretch vertically; the free axis is placed point-and-size
//!    style from the remaining position, size and alignment keys.  A
//!    size key on a stretched axis is a conflict.
//! 4. Three anchors stretch one axis and pin the free axis at the third
//!    anchor; all four anchors stretch both axes.  A size key on a
//!    stretched axis, a position key on the axis the third anchor pins,
//!    and `align` (there is no free placement left) are conflicts.
//! 5. Anything else (a single anchor, two anchors of one corner, or an
//!    empty list) forms no mode.

use vstd::prelude::*;
use vstd::string::StringExecFns;
use crate::alignament::Alignament;
use crate::coordinates::{Coordonate, Dimension};
use crate::layout_params::{LayoutError, LayoutErrorSpec, LayoutParameters};

verus! {

/// One of the nine resolution strategies, carrying exactly the values
/// its algorithm needs.
#[derive(Clone, Copy, PartialEq, Debug)]
pub enum LayoutMode {
    /// All four values given outright.
    Absolute { x: Coordonate, y: Coordonate, width: Dimension, height: Dimension },
    /// A reference point plus a size; with `dock` the point is the
    /// matching point of the parent, with `align` it is the given
    /// coordinate.
    PointAndSize {
        x: Coordonate,
        y: Coordonate,
        align: Alignament,
        dock: bool,
        width: Dimension,
        height: Dimension,
    },
    /// Horizontal stretch between the left and right anchors.
    LeftRight {
        left: Coordonate,
        right: Coordonate,
        y: Coordonate,
        height: Dimension,
        align: Alignament,
    },
    /// Vertical stretch between the top and bottom anchors.
    TopBottom {
        top: Coordonate,
        bottom: Coordonate,
        x: Coordonate,
        width: Dimension,
        align: Alignament,
    },
    /// Horizontal stretch, top edge pinned.
    LeftTopRight { left: Coordonate, top: Coordonate, right: Coordonate, height: Dimension },
    /// Horizontal stretch, bottom edge pinned.
    LeftBottomRight { left: Coordonate, bottom: Coordonate, right: Coordonate, height: Dimension },
    /// Vertical stretch, left edge pinned.
    TopLeftBottom { top: Coordonate, left: Coordonate, bottom: Coordonate, width: Dimension },
    /// Vertical stretch, right edge pinned.
    TopRightBottom { top: Coordonate, right: Coordonate, bottom: Coordonate, width: Dimension },
    /// Both axes stretched between their anchors.
    AllAnchors { left: Coordonate, top: Coordonate, right: Coordonate, bottom: Coordonate },
}

/// A missing position key counts as offset zero.
pub open spec fn or_zero(o: Option<Coordonate>) -> Coordonate {
    match o {
        Option::Some(c) => c,
        Option::None => Coordonate::Absolute(0),
    }
}

/// A missing size key counts as the whole parent extent.
pub open spec fn or_full(o: Option<Dimension>) -> Dimension {
    match o {
        Option::Some(d) => d,
        Option::None => Dimension::Percentage(10000),
    }
}

/// A missing alignment counts as the top-left corner.
pub open spec fn or_top_left(o: Option<Alignament>) -> Alignament {
    match o {
        Option::Some(a) => a,
        Option::None => Alignament::TopLeft,
    }
}

/// The mode a parameter bag selects, or the error that rejects it.
pub open spec fn spec_classify(p: LayoutParameters) -> Result<LayoutMode, LayoutErrorSpec> {
    if p.x is Some && p.left is Some {
        Result::Err(LayoutErrorSpec::Conflicting { first: "x"@, second: "left"@ })
    } else if p.y is Some && p.top is Some {
        Result::Err(LayoutErrorSpec::Conflicting { first: "y"@, second: "top"@ })
    } else if p.dock is Some && p.align is Some {
        Result::Err(LayoutErrorSpec::Conflicting { first: "dock"@, second: "align"@ })
    } else if p.dock is Some && p.left is Some {
        Result::Err(LayoutErrorSpec::Conflicting { first: "dock"@, second: "left"@ })
    } else if p.dock is Some && p.top is Some {
        Result::Err(LayoutErrorSpec::Conflicting { first: "dock"@, second: "top"@ })
    } else if p.dock is Some && p.right is Some {
        Result::Err(LayoutErrorSpec::Conflicting { first: "dock"@, second: "right"@ })
    } else if p.dock is Some && p.bottom is Some {
        Result::Err(LayoutErrorSpec::Conflicting { first: "dock"@, second: "bottom"@ })
    } else if p.dock is Some && p.x is Some {
        Result::Err(LayoutErrorSpec::Conflicting { first: "dock"@, second: "x"@ })
    } else if p.dock is Some && p.y is Some {
        Result::Err(LayoutErrorSpec::Conflicting { first: "dock"@, second: "y"@ })
    } else {
        let l = p.left is Some;
        let t = p.top is Some;
        let r = p.right is Some;
        let b = p.bottom is Some;
        if !l && !t && !r && !b {
            if p.dock is Some {
                Result::Ok(
                    LayoutMode::PointAndSize {
                        x: Coordonate::Absolute(0),
                        y: Coordonate::Absolute(0),
                        align: p.dock->0,
                        dock: true,
                        width: or_full(p.width),
                        height: or_full(p.height),
                    },
                )
            } else if p.align is Some {
                Result::Ok(
                    LayoutMode::PointAndSize {
                        x: or_zero(p.x),
                        y: or_zero(p.y),
                        align: p.align->0,
                        dock: false,
                        width: or_full(p.width),
                        height: or_full(p.height),
                    },
                )
            } else if p.x is Some || p.y is Some || p.width is Some || p.height is Some {
                Result::Ok(
                    LayoutMode::Absolute {
                        x: or_zero(p.x),
                        y: or_zero(p.y),
                        width: or_full(p.width),
                        height: or_full(p.height),
                    },
                )
            } else {
                Result::Err(LayoutErrorSpec::Missing)
            }
        } else if l && r && !t && !b {
            if p.width is Some {
                Result::Err(LayoutErrorSpec::Conflicting { first: "width"@, second: "right"@ })
            } else {
                Result::Ok(
                    LayoutMode::LeftRight {
                        left: p.left->0,
                        right: p.right->0,
                        y: or_zero(p.y),
                        height: or_full(p.height),
                        align: or_top_left(p.align),
                    },
                )
            }
        } else if t && b && !l && !r {
            if p.height is Some {
                Result::Err(LayoutErrorSpec::Conflicting { first: "height"@, second: "bottom"@ })
            } else {
                Result::Ok(
                    LayoutMode::TopBottom {
                        top: p.top->0,
                        bottom: p.bottom->0,
                        x: or_zero(p.x),
                        width: or_full(p.width),
                        align: or_top_left(p.align),
                    },
                )
            }
        } else if l && t && r && !b {
            if p.width is Some {
                Result::Err(LayoutErrorSpec::Conflicting { first: "width"@, second: "right"@ })
            } else if p.align is Some {
                Result::Err(LayoutErrorSpec::Conflicting { first: "align"@, second: "top"@ })
            } else {
                Result::Ok(
                    LayoutMode::LeftTopRight {
                        left: p.left->0,
                        top: p.top->0,
                        right: p.right->0,
                        height: or_full(p.height),
                    },
                )
            }
        } else if l && b && r && !t {
            if p.width is Some {
                Result::Err(LayoutErrorSpec::Conflicting { first: "width"@, second: "right"@ })
            } else if p.y is Some {
                Result::Err(LayoutErrorSpec::Conflicting { first: "y"@, second: "bottom"@ })
            } else if p.align is Some {
                Result::Err(LayoutErrorSpec::Conflicting { first: "align"@, second: "bottom"@ })
            } else {
                Result::Ok(
                    LayoutMode::LeftBottomRight {
                        left: p.left->0,
                        bottom: p.bottom->0,
                        right: p.right->0,
                        height: or_full(p.height),
                    },
                )
            }
        } else if t && l && b && !r {
            if p.height is Some {
                Result::Err(LayoutErrorSpec::Conflicting { first: "height"@, second: "bottom"@ })
            } else if p.align is Some {
                Result::Err(LayoutErrorSpec::Conflicting { first: "align"@, second: "left"@ })
            } else {
                Result::Ok(
                    LayoutMode::TopLeftBottom {
                        top: p.top->0,
                        left: p.left->0,
                        bottom: p.bottom->0,
                        width: or_full(p.width),
                    },
                )
            }
        } else if t && r && b && !l {
            if p.height is Some {
                Result::Err(LayoutErrorSpec::Conflicting { first: "height"@, second: "bottom"@ })
            } else if p.x is Some {
                Result::Err(LayoutErrorSpec::Conflicting { first: "x"@, second: "right"@ })
            } else if p.align is Some {
                Result::Err(LayoutErrorSpec::Conflicting { first: "align"@, second: "right"@ })
            } else {
                Result::Ok(
                    LayoutMode::TopRightBottom {
                        top: p.top->0,
                        right: p.right->0,
                        bottom: p.bottom->0,
                        width: or_full(p.width),
                    },
                )
            }
        } else if l && t && r && b {
            if p.width is Some {
                Result::Err(LayoutErrorSpec::Conflicting { first: "width"@, second: "right"@ })
            } else if p.height is Some {
                Result::Err(LayoutErrorSpec::Conflicting { first: "height"@, second: "bottom"@ })
            } else if p.align is Some {
                Result::Err(LayoutErrorSpec::Conflicting { first: "align"@, second: "left"@ })
            } else {
                Result::Ok(
                    LayoutMode::AllAnchors {
                        left: p.left->0,
                        top: p.top->0,
                        right: p.right->0,
                        bottom: p.bottom->0,
                    },
                )
            }
        } else {
            Result::Err(LayoutErrorSpec::Missing)
        }
    }
}

/// The mathematical content of a classification result.
pub open spec fn mode_result_view(r: Result<LayoutMode, LayoutError>) -> Result<
    LayoutMode,
    LayoutErrorSpec,
> {
    match r {
        Result::Ok(m) => Result::Ok(m),
        Result::Err(e) => Result::Err(e@),
    }
}

/// Builds the conflict error for two literal key names.
fn conflict(first: &str, second: &str) -> (r: LayoutError)
    ensures
        r@ == (LayoutErrorSpec::Conflicting { first: first@, second: second@ }),
{
    LayoutError::ConflictingAnchors {
        first: String::from_str(first),
        second: String::from_str(second),
    }
}

impl LayoutMode {
    /// Selects the mode for a validated parameter bag.
    pub fn classify(p: &LayoutParameters) -> (r: Result<LayoutMode, LayoutError>)
        ensures
            mode_result_view(r) == spec_classify(*p),
    {
        if p.x.is_some() && p.left.is_some() {
            return Err(conflict("x", "left"));
        }
        if p.y.is_some() && p.top.is_some() {
            return Err(conflict("y", "top"));
        }
        if p.dock.is_some() {
            if p.align.is_some() {
                return Err(conflict("dock", "align"));
            }
            if p.left.is_some() {
                return Err(conflict("dock", "left"));
            }
            if p.top.is_some() {
                return Err(conflict("dock", "top"));
            }
            if p.right.is_some() {
                return Err(conflict("dock", "right"));
            }
            if p.bottom.is_some() {
                return Err(conflict("dock", "bottom"));
            }
            if p.x.is_some() {
                return Err(conflict("dock", "x"));
            }
            if p.y.is_some() {
                return Err(conflict("dock", "y"));
            }
        }
        let l = p.left.is_some();
        let t = p.top.is_some();
        let r = p.right.is_some();
        let b = p.bottom.is_some();
        if !l && !t && !r && !b {
            if let Some(d) = p.dock {
                Ok(
                    LayoutMode::PointAndSize {
                        x: Coordonate::Absolute(0),
                        y: Coordonate::Absolute(0),
                        align: d,
                        dock: true,
                        width: Self::dim_or_full(p.width),
                        height: Self::dim_or_full(p.height),
                    },
                )
            } else if let Some(a) = p.align {
                Ok(
                    LayoutMode::PointAndSize {
                        x: Self::coord_or_zero(p.x),
                        y: Self::coord_or_zero(p.y),
                        align: a,
                        dock: false,
                        width: Self::dim_or_full(p.width),
                        height: Self::dim_or_full(p.height),
                    },
                )
            } else if p.x.is_some() || p.y.is_some() || p.width.is_some() || p.height.is_some() {
                Ok(
                    LayoutMode::Absolute {
                        x: Self::coord_or_zero(p.x),
                        y: Self::coord_or_zero(p.y),
                        width: Self::dim_or_full(p.width),
                        height: Self::dim_or_full(p.height),
                    },
                )
            } else {
                Err(LayoutError::MissingRequiredCombination)
            }
        } else if l && r && !t && !b {
            if p.width.is_some() {
                return Err(conflict("width", "right"));
            }
            Ok(
                LayoutMode::LeftRight {
                    left: p.left.unwrap(),
                    right: p.right.unwrap(),
                    y: Self::coord_or_zero(p.y),
                    height: Self::dim_or_full(p.height),
                    align: Self::align_or_top_left(p.align),
                },
            )
        } else if t && b && !l && !r {
            if p.height.is_some() {
                return Err(conflict("height", "bottom"));
            }
            Ok(
                LayoutMode::TopBottom {
                    top: p.top.unwrap(),
                    bottom: p.bottom.unwrap(),
                    x: Self::coord_or_zero(p.x),
                    width: Self::dim_or_full(p.width),
                    align: Self::align_or_top_left(p.align),
                },
            )
        } else if l && t && r && !b {
            if p.width.is_some() {
                return Err(conflict("width", "right"));
            }
            if p.align.is_some() {
                return Err(conflict("align", "top"));
            }
            Ok(
                LayoutMode::LeftTopRight {
                    left: p.left.unwrap(),
                    top: p.top.unwrap(),
                    right: p.right.unwrap(),
                    height: Self::dim_or_full(p.height),
                },
            )
        } else if l && b && r && !t {
            if p.width.is_some() {
                return Err(conflict("width", "right"));
            }
            if p.y.is_some() {
                return Err(conflict("y", "bottom"));
            }
            if p.align.is_some() {
                return Err(conflict("align", "bottom"));
            }
            Ok(
                LayoutMode::LeftBottomRight {
                    left: p.left.unwrap(),
                    bottom: p.bottom.unwrap(),
                    right: p.right.unwrap(),
                    height: Self::dim_or_full(p.height),
                },
            )
        } else if t && l && b && !r {
            if p.height.is_some() {
                return Err(conflict("height", "bottom"));
            }
            if p.align.is_some() {
                return Err(conflict("align", "left"));
            }
            Ok(
                LayoutMode::TopLeftBottom {
                    top: p.top.unwrap(),
                    left: p.left.unwrap(),
                    bottom: p.bottom.unwrap(),
                    width: Self::dim_or_full(p.width),
                },
            )
        } else if t && r && b && !l {
            if p.height.is_some() {
                return Err(conflict("height", "bottom"));
            }
            if p.x.is_some() {
                return Err(conflict("x", "right"));
            }
            if p.align.is_some() {
                return Err(conflict("align", "right"));
            }
            Ok(
                LayoutMode::TopRightBottom {
                    top: p.top.unwrap(),
                    right: p.right.unwrap(),
                    bottom: p.bottom.unwrap(),
                    width: Self::dim_or_full(p.width),
                },
            )
        } else if l && t && r && b {
            if p.width.is_some() {
                return Err(conflict("width", "right"));
            }
            if p.height.is_some() {
                return Err(conflict("height", "bottom"));
            }
            if p.align.is_some() {
                return Err(conflict("align", "left"));
            }
            Ok(
                LayoutMode::AllAnchors {
                    left: p.left.unwrap(),
                    top: p.top.unwrap(),
                    right: p.right.unwrap(),
                    bottom: p.bottom.unwrap(),
                },
            )
        } else {
            Err(LayoutError::MissingRequiredCombination)
        }
    }

    fn coord_or_zero(o: Option<Coordonate>) -> (r: Coordonate)
        ensures
            r == or_zero(o),
    {
        match o {
            Some(c) => c,
            None => Coordonate::Absolute(0),
        }
    }

    fn dim_or_full(o: Option<Dimension>) -> (r: Dimension)
        ensures
            r == or_full(o),
    {
        match o {
            Some(d) => d,
            None => Dimension::Percentage(10000),
        }
    }

    fn align_or_top_left(o: Option<Alignament>) -> (r: Alignament)
        ensures
            r == or_top_left(o),
    {
        match o {
            Some(a) => a,
            None => Alignament::TopLeft,
        }
    }
}

/// With all four anchors supplied, a `width` or `height` key is never
/// accepted: classification ends in a conflict error, whatever else the
/// bag holds.
pub proof fn lemma_all_anchors_reject_sizes(p: LayoutParameters)
    requires
        p.left is Some,
        p.top is Some,
        p.right is Some,
        p.bottom is Some,
        p.width is Some || p.height is Some,
    ensures
        spec_classify(p) is Err,
        spec_classify(p)->Err_0 is Conflicting,
{
}

/// A position key and the anchor key of the same axis are never
/// accepted together: `x` beside `left` is rejected as a conflict
/// naming the two keys.
pub proof fn lemma_position_anchor_conflict(p: LayoutParameters)
    requires
        p.x is Some,
        p.left is Some,
    ensures
        spec_classify(p) == Result::<LayoutMode, LayoutErrorSpec>::Err(
            LayoutErrorSpec::Conflicting { first: "x"@, second: "left"@ },
        ),
{
}

} // verus!
