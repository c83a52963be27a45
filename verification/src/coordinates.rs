//! Coordinates and dimensions: a single-axis position or size, either an
//! absolute number of cells or a percentage of the parent extent.
//!
//! Percentages are kept as fixed-point integers in hundredths of a
//! percent (`2500` is `25%`), so a full parent extent is `10000`.  A
//! percentage is resolved against the parent extent with one rounding
//! rule used everywhere in the engine: round half away from zero.
//!
//! Each type also has a compact 16-bit form used by the per-control
//! layout record; conversion to and from the full-width form is exact
//! for every value the compact form can represent.

use vstd::prelude::*;
use vstd::arithmetic::div_mod::{lemma_div_is_ordered, lemma_div_multiples_vanish_fancy, lemma_div_pos_is_pos};
use vstd::arithmetic::mul::{lemma_mul_inequality, lemma_mul_nonnegative, lemma_mul_upper_bound};
use crate::graphics::clamp_to_i32;

verus! {

/// A single-axis position: a cell offset, or a percentage of the parent
/// extent in hundredths of a percent (may be negative).
#[derive(Clone, Copy, PartialEq, Eq, Structural, Debug)]
pub enum Coordonate {
    Absolute(i32),
    Percentage(i32),
}

/// A single-axis size: a cell count, or a percentage of the parent
/// extent in hundredths of a percent.
#[derive(Clone, Copy, PartialEq, Eq, Structural, Debug)]
pub enum Dimension {
    Absolute(u32),
    Percentage(i32),
}

/// Compact form of [`Coordonate`]: absolute offsets span the `i16`
/// range, percentages up to about `±327%`.
#[derive(Clone, Copy, PartialEq, Eq, Structural, Debug)]
pub enum Coordonate16 {
    Absolute(i16),
    Percentage(i16),
}

/// Compact form of [`Dimension`].
#[derive(Clone, Copy, PartialEq, Eq, Structural, Debug)]
pub enum Dimension16 {
    Absolute(u16),
    Percentage(i16),
}

/// The magnitude of a mathematical integer.
pub open spec fn abs_int(v: int) -> int {
    if v < 0 {
        -v
    } else {
        v
    }
}

/// A percentage `p` (hundredths of a percent) of `extent`, rounded half
/// away from zero.
pub open spec fn pct_of(p: int, extent: int) -> int
    recommends
        extent >= 0,
{
    let q = (abs_int(p) * extent + 5000) / 10000;
    if p < 0 {
        -q
    } else {
        q
    }
}

/// The value of a coordinate against a parent extent, before any
/// clamping to the machine range.
pub open spec fn coord_raw(c: Coordonate, extent: int) -> int {
    match c {
        Coordonate::Absolute(v) => v as int,
        Coordonate::Percentage(p) => pct_of(p as int, extent),
    }
}

/// The resolved value of a coordinate: the raw value saturated at the
/// `i32` range.
pub open spec fn coord_resolved(c: Coordonate, extent: int) -> int {
    clamp_to_i32(coord_raw(c, extent))
}

/// Clamps a mathematical integer into the `u32` range.
pub open spec fn clamp_to_u32(v: int) -> int {
    if v < 0 {
        0
    } else if v > u32::MAX as int {
        u32::MAX as int
    } else {
        v
    }
}

/// The value of a dimension against a parent extent, before clamping.
pub open spec fn dim_raw(d: Dimension, extent: int) -> int {
    match d {
        Dimension::Absolute(v) => v as int,
        Dimension::Percentage(p) => pct_of(p as int, extent),
    }
}

/// The resolved value of a dimension: the raw value floored at zero and
/// saturated at the `u32` range.
pub open spec fn dim_resolved(d: Dimension, extent: int) -> int {
    clamp_to_u32(dim_raw(d, extent))
}

/// A percentage of an extent, computed on magnitudes: `pa` and `extent`
/// are nonnegative, and the result is `(pa * extent + 5000) / 10000`
/// saturated at `bound`.
fn pct_magnitude(pa: u64, extent: u32, bound: u64) -> (r: u64)
    requires
        pa <= 0x8000_0000,
    ensures
        r as int == if (pa * extent + 5000) / 10000 > bound {
            bound as int
        } else {
            (pa * extent + 5000) / 10000
        },
{
    proof {
        lemma_mul_upper_bound(pa as int, 0x8000_0000, extent as int, u32::MAX as int);
    }
    let m: u64 = pa * (extent as u64);
    let q: u64 = (m + 5000) / 10000;
    if q > bound {
        bound
    } else {
        q
    }
}

impl Coordonate {
    /// Resolves this coordinate against a parent extent.
    pub fn resolve(self, extent: u32) -> (r: i32)
        ensures
            r as int == coord_resolved(self, extent as int),
    {
        match self {
            Coordonate::Absolute(v) => v,
            Coordonate::Percentage(p) => {
                let pi: i64 = p as i64;
                if p < 0 {
                    let pa: u64 = (-pi) as u64;
                    let q: u64 = pct_magnitude(pa, extent, 0x8000_0000);
                    if q >= 0x8000_0000 {
                        i32::MIN
                    } else {
                        (-(q as i64)) as i32
                    }
                } else {
                    let pa: u64 = pi as u64;
                    let q: u64 = pct_magnitude(pa, extent, 0x8000_0000);
                    if q >= 0x7FFF_FFFF {
                        i32::MAX
                    } else {
                        q as i32
                    }
                }
            },
        }
    }

    /// Narrows to the compact form, saturating values outside its range.
    pub fn compact(self) -> (r: Coordonate16)
        ensures
            r == spec_compact_coord(self),
    {
        match self {
            Coordonate::Absolute(v) => Coordonate16::Absolute(sat_i16(v)),
            Coordonate::Percentage(p) => Coordonate16::Percentage(sat_i16(p)),
        }
    }
}

impl Dimension {
    /// Resolves this dimension against a parent extent; the result is
    /// never negative.
    pub fn resolve(self, extent: u32) -> (r: u32)
        ensures
            r as int == dim_resolved(self, extent as int),
    {
        match self {
            Dimension::Absolute(v) => v,
            Dimension::Percentage(p) => {
                if p <= 0 {
                    proof {
                        lemma_mul_nonnegative(abs_int(p as int), extent as int);
                        lemma_div_pos_is_pos(abs_int(p as int) * (extent as int) + 5000, 10000);
                        if p == 0 {
                            assert(abs_int(p as int) * (extent as int) == 0);
                            assert(pct_of(p as int, extent as int) == 0);
                        }
                    }
                    0
                } else {
                    let q: u64 = pct_magnitude(p as u64, extent, 0xFFFF_FFFF);
                    q as u32
                }
            },
        }
    }

    /// Narrows to the compact form, saturating values outside its range.
    pub fn compact(self) -> (r: Dimension16)
        ensures
            r == spec_compact_dim(self),
    {
        match self {
            Dimension::Absolute(v) => Dimension16::Absolute(
                if v > 0xFFFF {
                    0xFFFF
                } else {
                    v as u16
                },
            ),
            Dimension::Percentage(p) => Dimension16::Percentage(sat_i16(p)),
        }
    }
}

/// Saturates an `i32` into the `i16` range.
fn sat_i16(v: i32) -> (r: i16)
    ensures
        r as int == if v > i16::MAX as int {
            i16::MAX as int
        } else if v < i16::MIN as int {
            i16::MIN as int
        } else {
            v as int
        },
{
    if v > 32767 {
        32767
    } else if v < -32768 {
        -32768
    } else {
        v as i16
    }
}

/// The compact form of a coordinate, with saturation.
pub open spec fn spec_compact_coord(c: Coordonate) -> Coordonate16 {
    match c {
        Coordonate::Absolute(v) => Coordonate16::Absolute(sat_i16_spec(v as int)),
        Coordonate::Percentage(p) => Coordonate16::Percentage(sat_i16_spec(p as int)),
    }
}

/// The compact form of a dimension, with saturation.
pub open spec fn spec_compact_dim(d: Dimension) -> Dimension16 {
    match d {
        Dimension::Absolute(v) => Dimension16::Absolute(
            if v > 0xFFFF {
                0xFFFF as u16
            } else {
                v as u16
            },
        ),
        Dimension::Percentage(p) => Dimension16::Percentage(sat_i16_spec(p as int)),
    }
}

pub open spec fn sat_i16_spec(v: int) -> i16 {
    if v > i16::MAX as int {
        i16::MAX
    } else if v < i16::MIN as int {
        i16::MIN
    } else {
        v as i16
    }
}

impl Coordonate16 {
    /// Widens back to the full form; always exact.
    pub fn widen(self) -> (r: Coordonate)
        ensures
            r == spec_widen_coord(self),
    {
        match self {
            Coordonate16::Absolute(v) => Coordonate::Absolute(v as i32),
            Coordonate16::Percentage(p) => Coordonate::Percentage(p as i32),
        }
    }
}

impl Dimension16 {
    /// Widens back to the full form; always exact.
    pub fn widen(self) -> (r: Dimension)
        ensures
            r == spec_widen_dim(self),
    {
        match self {
            Dimension16::Absolute(v) => Dimension::Absolute(v as u32),
            Dimension16::Percentage(p) => Dimension::Percentage(p as i32),
        }
    }
}

pub open spec fn spec_widen_coord(c: Coordonate16) -> Coordonate {
    match c {
        Coordonate16::Absolute(v) => Coordonate::Absolute(v as i32),
        Coordonate16::Percentage(p) => Coordonate::Percentage(p as i32),
    }
}

pub open spec fn spec_widen_dim(d: Dimension16) -> Dimension {
    match d {
        Dimension16::Absolute(v) => Dimension::Absolute(v as u32),
        Dimension16::Percentage(p) => Dimension::Percentage(p as i32),
    }
}

/// Whether a coordinate lies in the range the compact form represents.
pub open spec fn coord_fits_compact(c: Coordonate) -> bool {
    match c {
        Coordonate::Absolute(v) => i16::MIN as int <= v as int <= i16::MAX as int,
        Coordonate::Percentage(p) => i16::MIN as int <= p as int <= i16::MAX as int,
    }
}

/// Whether a dimension lies in the range the compact form represents.
pub open spec fn dim_fits_compact(d: Dimension) -> bool {
    match d {
        Dimension::Absolute(v) => v as int <= u16::MAX as int,
        Dimension::Percentage(p) => i16::MIN as int <= p as int <= i16::MAX as int,
    }
}

/// Narrowing a coordinate to the compact form and widening it again is
/// the identity for every value the compact form can represent.
pub proof fn lemma_coordonate_compact_roundtrip(c: Coordonate)
    requires
        coord_fits_compact(c),
    ensures
        spec_widen_coord(spec_compact_coord(c)) == c,
{
}

/// Narrowing a dimension to the compact form and widening it again is
/// the identity for every value the compact form can represent.
pub proof fn lemma_dimension_compact_roundtrip(d: Dimension)
    requires
        dim_fits_compact(d),
    ensures
        spec_widen_dim(spec_compact_dim(d)) == d,
{
}

/// For a percentage within plus or minus one hundred percent, the raw
/// resolved offset lies within `[-extent, extent]`.
pub proof fn lemma_pct_within_extent(p: int, extent: int)
    requires
        -10000 <= p <= 10000,
        0 <= extent,
    ensures
        -extent <= pct_of(p, extent) <= extent,
{
    let m = abs_int(p) * extent;
    lemma_mul_inequality(abs_int(p), 10000, extent);
    assert(m <= 10000 * extent);
    lemma_div_pos_is_pos(m + 5000, 10000);
    lemma_div_is_ordered(m + 5000, 10000 * extent + 5000, 10000);
    lemma_div_multiples_vanish_fancy(extent, 5000, 10000);
    assert((10000 * extent + 5000) / 10000 == extent);
}

/// The resolved value of a percentage coordinate within plus or minus
/// one hundred percent lies within `[-extent, extent]`: saturation at
/// the machine range only ever moves a value toward zero.
pub proof fn lemma_percentage_coordinate_within_extent(p: i32, extent: u32)
    requires
        -10000 <= p as int <= 10000,
    ensures
        -(extent as int) <= coord_resolved(Coordonate::Percentage(p), extent as int) <= extent as int,
{
    lemma_pct_within_extent(p as int, extent as int);
}

} // verus!
