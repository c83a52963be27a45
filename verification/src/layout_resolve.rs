//! The nine strategy resolvers: from a layout mode and a parent size to
//! an absolute rectangle.
//!
//! Shared rules, applied by every resolver:
//!
//! - a percentage resolves against the parent width (horizontal) or
//!   height (vertical), rounding half away from zero;
//! - a position whose resolved value is negative counts from the far
//!   edge of the parent (`x:-2` is two cells left of the right edge);
//! - an anchor is an inset from its own edge: `right:2` puts the right
//!   edge two cells inside the parent's right edge, and a negative
//!   inset goes outside;
//! - a stretched extent (far edge minus near edge) is floored at zero;
//! - nothing panics: every result is saturated into the machine range
//!   of the rectangle fields.

use vstd::prelude::*;
use vstd::arithmetic::div_mod::{lemma_div_is_ordered, lemma_div_pos_is_pos};
use vstd::arithmetic::mul::{lemma_mul_nonnegative, lemma_mul_upper_bound};
use crate::alignament::{h_ref, v_ref, Alignament, AxisRef};
use crate::coordinates::{abs_int, clamp_to_u32, coord_raw, dim_resolved, pct_of, Coordonate, Dimension};
use crate::graphics::{clamp_to_i32, Rect, Size};
use crate::layout_mode::LayoutMode;

verus! {

/// A rectangle as four unbounded integers, before the machine range is
/// considered.
pub struct RectSpec {
    pub x: int,
    pub y: int,
    pub w: int,
    pub h: int,
}

/// A resolved position: a negative raw value counts from the far edge.
pub open spec fn pos_of(c: Coordonate, extent: int) -> int {
    let r = coord_raw(c, extent);
    if r < 0 {
        extent + r
    } else {
        r
    }
}

/// Where a rectangle of `size` starts, so that its `r` reference point
/// lands on `pos`.
pub open spec fn place(pos: int, size: int, r: AxisRef) -> int {
    match r {
        AxisRef::Start => pos,
        AxisRef::Middle => pos - size / 2,
        AxisRef::End => pos - size,
    }
}

/// The coordinate of a parent's own reference point along one axis.
pub open spec fn parent_point(r: AxisRef, extent: int) -> int {
    match r {
        AxisRef::Start => 0,
        AxisRef::Middle => extent / 2,
        AxisRef::End => extent,
    }
}

/// The resolved rectangle of a mode against a parent of `pw` by `ph`.
pub open spec fn spec_resolve(m: LayoutMode, pw: int, ph: int) -> RectSpec {
    match m {
        LayoutMode::Absolute { x, y, width, height } => RectSpec {
            x: clamp_to_i32(pos_of(x, pw)),
            y: clamp_to_i32(pos_of(y, ph)),
            w: dim_resolved(width, pw),
            h: dim_resolved(height, ph),
        },
        LayoutMode::PointAndSize { x, y, align, dock, width, height } => {
            let w = dim_resolved(width, pw);
            let h = dim_resolved(height, ph);
            let px = if dock {
                parent_point(h_ref(align), pw)
            } else {
                pos_of(x, pw)
            };
            let py = if dock {
                parent_point(v_ref(align), ph)
            } else {
                pos_of(y, ph)
            };
            RectSpec {
                x: clamp_to_i32(place(px, w, h_ref(align))),
                y: clamp_to_i32(place(py, h, v_ref(align))),
                w,
                h,
            }
        },
        LayoutMode::LeftRight { left, right, y, height, align } => {
            let lp = coord_raw(left, pw);
            let rp = pw - coord_raw(right, pw);
            let h = dim_resolved(height, ph);
            RectSpec {
                x: clamp_to_i32(lp),
                y: clamp_to_i32(place(pos_of(y, ph), h, v_ref(align))),
                w: clamp_to_u32(rp - lp),
                h,
            }
        },
        LayoutMode::TopBottom { top, bottom, x, width, align } => {
            let tp = coord_raw(top, ph);
            let bp = ph - coord_raw(bottom, ph);
            let w = dim_resolved(width, pw);
            RectSpec {
                x: clamp_to_i32(place(pos_of(x, pw), w, h_ref(align))),
                y: clamp_to_i32(tp),
                w,
                h: clamp_to_u32(bp - tp),
            }
        },
        LayoutMode::LeftTopRight { left, top, right, height } => {
            let lp = coord_raw(left, pw);
            let rp = pw - coord_raw(right, pw);
            RectSpec {
                x: clamp_to_i32(lp),
                y: clamp_to_i32(coord_raw(top, ph)),
                w: clamp_to_u32(rp - lp),
                h: dim_resolved(height, ph),
            }
        },
        LayoutMode::LeftBottomRight { left, bottom, right, height } => {
            let lp = coord_raw(left, pw);
            let rp = pw - coord_raw(right, pw);
            let h = dim_resolved(height, ph);
            let bp = ph - coord_raw(bottom, ph);
            RectSpec {
                x: clamp_to_i32(lp),
                y: clamp_to_i32(bp - h),
                w: clamp_to_u32(rp - lp),
                h,
            }
        },
        LayoutMode::TopLeftBottom { top, left, bottom, width } => {
            let tp = coord_raw(top, ph);
            let bp = ph - coord_raw(bottom, ph);
            RectSpec {
                x: clamp_to_i32(coord_raw(left, pw)),
                y: clamp_to_i32(tp),
                w: dim_resolved(width, pw),
                h: clamp_to_u32(bp - tp),
            }
        },
        LayoutMode::TopRightBottom { top, right, bottom, width } => {
            let tp = coord_raw(top, ph);
            let bp = ph - coord_raw(bottom, ph);
            let w = dim_resolved(width, pw);
            let rp = pw - coord_raw(right, pw);
            RectSpec {
                x: clamp_to_i32(rp - w),
                y: clamp_to_i32(tp),
                w,
                h: clamp_to_u32(bp - tp),
            }
        },
        LayoutMode::AllAnchors { left, top, right, bottom } => {
            let lp = coord_raw(left, pw);
            let rp = pw - coord_raw(right, pw);
            let tp = coord_raw(top, ph);
            let bp = ph - coord_raw(bottom, ph);
            RectSpec {
                x: clamp_to_i32(lp),
                y: clamp_to_i32(tp),
                w: clamp_to_u32(rp - lp),
                h: clamp_to_u32(bp - tp),
            }
        },
    }
}

/// A rectangle's fields as unbounded integers.
pub open spec fn rect_view(r: Rect) -> RectSpec {
    RectSpec { x: r.x as int, y: r.y as int, w: r.width as int, h: r.height as int }
}

/// The raw value of a coordinate, wide enough never to saturate.
impl Coordonate {
    pub fn raw_value(self, extent: u32) -> (r: i64)
        ensures
            r as int == coord_raw(self, extent as int),
            -1000000000000000 <= r <= 1000000000000000,
    {
        match self {
            Coordonate::Absolute(v) => v as i64,
            Coordonate::Percentage(p) => {
                let pi: i64 = p as i64;
                let pa: u64 = if pi < 0 {
                    (-pi) as u64
                } else {
                    pi as u64
                };
                proof {
                    lemma_mul_nonnegative(pa as int, extent as int);
                    lemma_mul_upper_bound(pa as int, 0x8000_0000, extent as int, 0xFFFF_FFFF);
                }
                let m: u64 = pa * (extent as u64);
                let q: u64 = (m + 5000) / 10000;
                proof {
                    lemma_div_pos_is_pos(m as int + 5000, 10000);
                    lemma_div_is_ordered(m as int + 5000, 9223372034707297160int, 10000);
                    assert(abs_int(p as int) == pa as int);
                }
                if pi < 0 {
                    -(q as i64)
                } else {
                    q as i64
                }
            },
        }
    }

    /// The resolved position of this coordinate: negative values count
    /// from the far edge.
    pub fn position(self, extent: u32) -> (r: i64)
        ensures
            r as int == pos_of(self, extent as int),
            -1000000000000000 <= r <= 1005000000000000,
    {
        let raw: i64 = self.raw_value(extent);
        if raw < 0 {
            (extent as i64) + raw
        } else {
            raw
        }
    }
}

/// Saturates into the `i32` range.
fn sat_i32(v: i64) -> (r: i32)
    ensures
        r as int == clamp_to_i32(v as int),
{
    if v < -2147483648i64 {
        i32::MIN
    } else if v > 2147483647i64 {
        i32::MAX
    } else {
        v as i32
    }
}

/// Floors at zero and saturates into the `u32` range.
fn sat_u32(v: i64) -> (r: u32)
    ensures
        r as int == clamp_to_u32(v as int),
{
    if v < 0i64 {
        0
    } else if v > 4294967295i64 {
        u32::MAX
    } else {
        v as u32
    }
}

/// Exec counterpart of [`place`].
fn place_at(pos: i64, size: u32, r: AxisRef) -> (v: i64)
    requires
        -1005000000000000 <= pos <= 1005000000000000,
    ensures
        v as int == place(pos as int, size as int, r),
{
    match r {
        AxisRef::Start => pos,
        AxisRef::Middle => pos - ((size / 2) as i64),
        AxisRef::End => pos - (size as i64),
    }
}

/// Exec counterpart of [`parent_point`].
fn parent_point_at(r: AxisRef, extent: u32) -> (v: i64)
    ensures
        v as int == parent_point(r, extent as int),
{
    match r {
        AxisRef::Start => 0,
        AxisRef::Middle => (extent / 2) as i64,
        AxisRef::End => extent as i64,
    }
}

impl LayoutMode {
    /// Resolves this mode against a parent size.  Resolution is pure
    /// and total: it never fails, and the same mode and parent size
    /// always give the same rectangle.
    pub fn resolve(&self, parent: Size) -> (r: Rect)
        ensures
            rect_view(r) == spec_resolve(*self, parent.width as int, parent.height as int),
    {
        let pw: u32 = parent.width;
        let ph: u32 = parent.height;
        match *self {
            LayoutMode::Absolute { x, y, width, height } => Rect {
                x: sat_i32(x.position(pw)),
                y: sat_i32(y.position(ph)),
                width: width.resolve(pw),
                height: height.resolve(ph),
            },
            LayoutMode::PointAndSize { x, y, align, dock, width, height } => {
                let w: u32 = width.resolve(pw);
                let h: u32 = height.resolve(ph);
                let px: i64 = if dock {
                    parent_point_at(align.horizontal(), pw)
                } else {
                    x.position(pw)
                };
                let py: i64 = if dock {
                    parent_point_at(align.vertical(), ph)
                } else {
                    y.position(ph)
                };
                Rect {
                    x: sat_i32(place_at(px, w, align.horizontal())),
                    y: sat_i32(place_at(py, h, align.vertical())),
                    width: w,
                    height: h,
                }
            },
            LayoutMode::LeftRight { left, right, y, height, align } => {
                let lp: i64 = left.raw_value(pw);
                let rp: i64 = (pw as i64) - right.raw_value(pw);
                let h: u32 = height.resolve(ph);
                Rect {
                    x: sat_i32(lp),
                    y: sat_i32(place_at(y.position(ph), h, align.vertical())),
                    width: sat_u32(rp - lp),
                    height: h,
                }
            },
            LayoutMode::TopBottom { top, bottom, x, width, align } => {
                let tp: i64 = top.raw_value(ph);
                let bp: i64 = (ph as i64) - bottom.raw_value(ph);
                let w: u32 = width.resolve(pw);
                Rect {
                    x: sat_i32(place_at(x.position(pw), w, align.horizontal())),
                    y: sat_i32(tp),
                    width: w,
                    height: sat_u32(bp - tp),
                }
            },
            LayoutMode::LeftTopRight { left, top, right, height } => {
                let lp: i64 = left.raw_value(pw);
                let rp: i64 = (pw as i64) - right.raw_value(pw);
                Rect {
                    x: sat_i32(lp),
                    y: sat_i32(top.raw_value(ph)),
                    width: sat_u32(rp - lp),
                    height: height.resolve(ph),
                }
            },
            LayoutMode::LeftBottomRight { left, bottom, right, height } => {
                let lp: i64 = left.raw_value(pw);
                let rp: i64 = (pw as i64) - right.raw_value(pw);
                let h: u32 = height.resolve(ph);
                let bp: i64 = (ph as i64) - bottom.raw_value(ph);
                Rect {
                    x: sat_i32(lp),
                    y: sat_i32(bp - (h as i64)),
                    width: sat_u32(rp - lp),
                    height: h,
                }
            },
            LayoutMode::TopLeftBottom { top, left, bottom, width } => {
                let tp: i64 = top.raw_value(ph);
                let bp: i64 = (ph as i64) - bottom.raw_value(ph);
                Rect {
                    x: sat_i32(left.raw_value(pw)),
                    y: sat_i32(tp),
                    width: width.resolve(pw),
                    height: sat_u32(bp - tp),
                }
            },
            LayoutMode::TopRightBottom { top, right, bottom, width } => {
                let tp: i64 = top.raw_value(ph);
                let bp: i64 = (ph as i64) - bottom.raw_value(ph);
                let w: u32 = width.resolve(pw);
                let rp: i64 = (pw as i64) - right.raw_value(pw);
                Rect {
                    x: sat_i32(rp - (w as i64)),
                    y: sat_i32(tp),
                    width: w,
                    height: sat_u32(bp - tp),
                }
            },
            LayoutMode::AllAnchors { left, top, right, bottom } => {
                let lp: i64 = left.raw_value(pw);
                let rp: i64 = (pw as i64) - right.raw_value(pw);
                let tp: i64 = top.raw_value(ph);
                let bp: i64 = (ph as i64) - bottom.raw_value(ph);
                Rect {
                    x: sat_i32(lp),
                    y: sat_i32(tp),
                    width: sat_u32(rp - lp),
                    height: sat_u32(bp - tp),
                }
            },
        }
    }
}

/// Resolution is a pure function of the mode and the parent size:
/// equal inputs give one and the same rectangle, on every repetition.
pub proof fn lemma_resolution_is_pure(
    m1: LayoutMode,
    m2: LayoutMode,
    pw1: int,
    ph1: int,
    pw2: int,
    ph2: int,
)
    requires
        m1 == m2,
        pw1 == pw2,
        ph1 == ph2,
    ensures
        spec_resolve(m1, pw1, ph1) == spec_resolve(m2, pw2, ph2),
{
}

/// Absolute placement with nonnegative positions passes its four
/// values through verbatim, whatever the parent size is.
pub proof fn lemma_absolute_verbatim(x: i32, y: i32, w: u32, h: u32, pw: int, ph: int)
    requires
        x >= 0,
        y >= 0,
    ensures
        spec_resolve(
            LayoutMode::Absolute {
                x: Coordonate::Absolute(x),
                y: Coordonate::Absolute(y),
                width: Dimension::Absolute(w),
                height: Dimension::Absolute(h),
            },
            pw,
            ph,
        ) == (RectSpec { x: x as int, y: y as int, w: w as int, h: h as int }),
{
}

/// Horizontal stretch between two nonnegative absolute insets that fit
/// the parent: the left edge sits at the left inset and the width is
/// what remains between the two insets — whatever the parent height,
/// and whatever the vertical parameters say.
pub proof fn lemma_left_right_stretch(
    a: i32,
    b: i32,
    y: Coordonate,
    height: Dimension,
    align: Alignament,
    pw: int,
    ph: int,
)
    requires
        0 <= a,
        0 <= b,
        a + b <= pw,
        pw <= u32::MAX as int,
    ensures
        spec_resolve(
            LayoutMode::LeftRight {
                left: Coordonate::Absolute(a),
                right: Coordonate::Absolute(b),
                y,
                height,
                align,
            },
            pw,
            ph,
        ).x == a as int,
        spec_resolve(
            LayoutMode::LeftRight {
                left: Coordonate::Absolute(a),
                right: Coordonate::Absolute(b),
                y,
                height,
                align,
            },
            pw,
            ph,
        ).w == pw - a - b,
{
}

/// The one rounding rule of the engine, written out: a nonnegative
/// percentage of an extent is the whole quotient, rounded up exactly
/// when the remainder is half or more — half away from zero.  (For a
/// negative percentage the same holds on the magnitude, by the
/// definition of [`pct_of`].)
pub proof fn lemma_pct_rounds_half_away_from_zero(p: int, extent: int)
    requires
        0 <= p,
        0 <= extent,
    ensures
        pct_of(p, extent) == (p * extent) / 10000 + (if (p * extent) % 10000 >= 5000 {
            1int
        } else {
            0int
        }),
{
    let m = p * extent;
    lemma_mul_nonnegative(p, extent);
    let q0 = m / 10000;
    let r0 = m % 10000;
    vstd::arithmetic::div_mod::lemma_fundamental_div_mod(m, 10000);
    if r0 >= 5000 {
        assert(m + 5000 == 10000 * (q0 + 1) + (r0 - 5000));
        vstd::arithmetic::div_mod::lemma_div_multiples_vanish_fancy(q0 + 1, r0 - 5000, 10000);
    } else {
        assert(m + 5000 == 10000 * q0 + (r0 + 5000));
        vstd::arithmetic::div_mod::lemma_div_multiples_vanish_fancy(q0, r0 + 5000, 10000);
    }
}

} // verus!
