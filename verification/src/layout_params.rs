//! The validated bag of layout parameters a textual description yields,
//! and the errors that reading one can raise.
//!
//! The recognized keys and their aliases are `x`, `y`, `left`/`l`,
//! `top`/`t`, `right`/`r`, `bottom`/`b`, `width`/`w`, `height`/`h`,
//! `align`/`a`/`alignament` and `dock`/`d`, compared without regard to
//! ASCII case.  An unknown key is a hard error.  A coordinate or size
//! whose value reads as neither a number nor a percentage is rejected;
//! a negative absolute size is floored at zero.  When one key is given
//! twice, the later value stands.

use vstd::prelude::*;
use crate::alignament::{alignament_of, spec_alignament_of, Alignament, Anchors};
use crate::coordinates::{Coordonate, Dimension};
use crate::kv_parser::{pairs_of, parse_pairs, PairSpec, RawPair, ValueType};
use crate::text::{lower_seq, string_from_chars, window_eq_ci};

verus! {

/// Why a textual layout description was rejected.
#[derive(PartialEq, Eq, Debug)]
pub enum LayoutError {
    /// A key that is not part of the layout vocabulary.
    UnknownParameter { key: String },
    /// Two keys that pin the same thing twice (a position and an anchor
    /// on the same axis, or a size on a stretched axis).
    ConflictingAnchors { first: String, second: String },
    /// The keys present form no recognizable layout mode.
    MissingRequiredCombination,
    /// A coordinate or size value that reads as neither a number nor a
    /// percentage.
    InvalidPercentageValue { key: String },
    /// An `align` or `dock` value that names no reference point.
    InvalidAlignmentKeyword { key: String, value: String },
}

/// Mathematical content of a [`LayoutError`].
pub enum LayoutErrorSpec {
    Unknown { key: Seq<char> },
    Conflicting { first: Seq<char>, second: Seq<char> },
    Missing,
    InvalidPercentage { key: Seq<char> },
    InvalidAlignment { key: Seq<char>, value: Seq<char> },
}

impl View for LayoutError {
    type V = LayoutErrorSpec;

    open spec fn view(&self) -> LayoutErrorSpec {
        match self {
            LayoutError::UnknownParameter { key } => LayoutErrorSpec::Unknown { key: key@ },
            LayoutError::ConflictingAnchors { first, second } => LayoutErrorSpec::Conflicting {
                first: first@,
                second: second@,
            },
            LayoutError::MissingRequiredCombination => LayoutErrorSpec::Missing,
            LayoutError::InvalidPercentageValue { key } => LayoutErrorSpec::InvalidPercentage {
                key: key@,
            },
            LayoutError::InvalidAlignmentKeyword { key, value } => LayoutErrorSpec::InvalidAlignment {
                key: key@,
                value: value@,
            },
        }
    }
}

/// The typed, still unclassified content of a parameter list.
#[derive(Clone, Copy, PartialEq, Debug)]
pub struct LayoutParameters {
    pub x: Option<Coordonate>,
    pub y: Option<Coordonate>,
    pub left: Option<Coordonate>,
    pub top: Option<Coordonate>,
    pub right: Option<Coordonate>,
    pub bottom: Option<Coordonate>,
    pub width: Option<Dimension>,
    pub height: Option<Dimension>,
    pub align: Option<Alignament>,
    pub dock: Option<Alignament>,
}

/// The slot a parameter key addresses.
#[derive(Clone, Copy, PartialEq, Eq, Structural, Debug)]
pub enum SlotKind {
    X,
    Y,
    Left,
    Top,
    Right,
    Bottom,
    Width,
    Height,
    Align,
    Dock,
    Unknown,
}

/// Which slot a key addresses, compared without regard to ASCII case.
pub open spec fn slot_of(k: Seq<char>) -> SlotKind {
    let t = lower_seq(k);
    if t == "x"@ {
        SlotKind::X
    } else if t == "y"@ {
        SlotKind::Y
    } else if t == "l"@ || t == "left"@ {
        SlotKind::Left
    } else if t == "t"@ || t == "top"@ {
        SlotKind::Top
    } else if t == "r"@ || t == "right"@ {
        SlotKind::Right
    } else if t == "b"@ || t == "bottom"@ {
        SlotKind::Bottom
    } else if t == "w"@ || t == "width"@ {
        SlotKind::Width
    } else if t == "h"@ || t == "height"@ {
        SlotKind::Height
    } else if t == "a"@ || t == "align"@ || t == "alignament"@ {
        SlotKind::Align
    } else if t == "d"@ || t == "dock"@ {
        SlotKind::Dock
    } else {
        SlotKind::Unknown
    }
}

/// Exec counterpart of [`slot_of`].
pub fn slot_of_key(key: &Vec<char>) -> (r: SlotKind)
    ensures
        r == slot_of(key@),
{
    let n: usize = key.len();
    proof {
        assert(key@.subrange(0, n as int) =~= key@);
    }
    if window_eq_ci(key, 0, n, "x") {
        SlotKind::X
    } else if window_eq_ci(key, 0, n, "y") {
        SlotKind::Y
    } else if window_eq_ci(key, 0, n, "l") || window_eq_ci(key, 0, n, "left") {
        SlotKind::Left
    } else if window_eq_ci(key, 0, n, "t") || window_eq_ci(key, 0, n, "top") {
        SlotKind::Top
    } else if window_eq_ci(key, 0, n, "r") || window_eq_ci(key, 0, n, "right") {
        SlotKind::Right
    } else if window_eq_ci(key, 0, n, "b") || window_eq_ci(key, 0, n, "bottom") {
        SlotKind::Bottom
    } else if window_eq_ci(key, 0, n, "w") || window_eq_ci(key, 0, n, "width") {
        SlotKind::Width
    } else if window_eq_ci(key, 0, n, "h") || window_eq_ci(key, 0, n, "height") {
        SlotKind::Height
    } else if window_eq_ci(key, 0, n, "a") || window_eq_ci(key, 0, n, "align") || window_eq_ci(
        key,
        0,
        n,
        "alignament",
    ) {
        SlotKind::Align
    } else if window_eq_ci(key, 0, n, "d") || window_eq_ci(key, 0, n, "dock") {
        SlotKind::Dock
    } else {
        SlotKind::Unknown
    }
}

/// The coordinate a pair value carries, if it reads as one.
pub open spec fn coord_from_pair(p: PairSpec) -> Option<Coordonate> {
    match p.value_type {
        ValueType::Number => Option::Some(Coordonate::Absolute(p.num as i32)),
        ValueType::Percentage => Option::Some(Coordonate::Percentage(p.num as i32)),
        ValueType::String => Option::None,
    }
}

/// The size a pair value carries, if it reads as one; a negative
/// absolute size is floored at zero.
pub open spec fn dim_from_pair(p: PairSpec) -> Option<Dimension> {
    match p.value_type {
        ValueType::Number => Option::Some(
            Dimension::Absolute(
                if p.num < 0 {
                    0u32
                } else {
                    p.num as u32
                },
            ),
        ),
        ValueType::Percentage => Option::Some(Dimension::Percentage(p.num as i32)),
        ValueType::String => Option::None,
    }
}

/// How one pair changes the parameter bag, or fails.
pub open spec fn apply_pair_spec(acc: LayoutParameters, p: PairSpec) -> Result<
    LayoutParameters,
    LayoutErrorSpec,
> {
    match slot_of(p.key) {
        SlotKind::X => match coord_from_pair(p) {
            Option::Some(c) => Result::Ok(LayoutParameters { x: Option::Some(c), ..acc }),
            Option::None => Result::Err(LayoutErrorSpec::InvalidPercentage { key: p.key }),
        },
        SlotKind::Y => match coord_from_pair(p) {
            Option::Some(c) => Result::Ok(LayoutParameters { y: Option::Some(c), ..acc }),
            Option::None => Result::Err(LayoutErrorSpec::InvalidPercentage { key: p.key }),
        },
        SlotKind::Left => match coord_from_pair(p) {
            Option::Some(c) => Result::Ok(LayoutParameters { left: Option::Some(c), ..acc }),
            Option::None => Result::Err(LayoutErrorSpec::InvalidPercentage { key: p.key }),
        },
        SlotKind::Top => match coord_from_pair(p) {
            Option::Some(c) => Result::Ok(LayoutParameters { top: Option::Some(c), ..acc }),
            Option::None => Result::Err(LayoutErrorSpec::InvalidPercentage { key: p.key }),
        },
        SlotKind::Right => match coord_from_pair(p) {
            Option::Some(c) => Result::Ok(LayoutParameters { right: Option::Some(c), ..acc }),
            Option::None => Result::Err(LayoutErrorSpec::InvalidPercentage { key: p.key }),
        },
        SlotKind::Bottom => match coord_from_pair(p) {
            Option::Some(c) => Result::Ok(LayoutParameters { bottom: Option::Some(c), ..acc }),
            Option::None => Result::Err(LayoutErrorSpec::InvalidPercentage { key: p.key }),
        },
        SlotKind::Width => match dim_from_pair(p) {
            Option::Some(d) => Result::Ok(LayoutParameters { width: Option::Some(d), ..acc }),
            Option::None => Result::Err(LayoutErrorSpec::InvalidPercentage { key: p.key }),
        },
        SlotKind::Height => match dim_from_pair(p) {
            Option::Some(d) => Result::Ok(LayoutParameters { height: Option::Some(d), ..acc }),
            Option::None => Result::Err(LayoutErrorSpec::InvalidPercentage { key: p.key }),
        },
        SlotKind::Align => match spec_alignament_of(p.value) {
            Option::Some(a) => Result::Ok(LayoutParameters { align: Option::Some(a), ..acc }),
            Option::None => Result::Err(
                LayoutErrorSpec::InvalidAlignment { key: p.key, value: p.value },
            ),
        },
        SlotKind::Dock => match spec_alignament_of(p.value) {
            Option::Some(a) => Result::Ok(LayoutParameters { dock: Option::Some(a), ..acc }),
            Option::None => Result::Err(
                LayoutErrorSpec::InvalidAlignment { key: p.key, value: p.value },
            ),
        },
        SlotKind::Unknown => Result::Err(LayoutErrorSpec::Unknown { key: p.key }),
    }
}

/// Folding the pairs from position `i` on into the bag.
pub open spec fn build_from(pairs: Seq<PairSpec>, i: int, acc: LayoutParameters) -> Result<
    LayoutParameters,
    LayoutErrorSpec,
>
    decreases pairs.len() - i,
{
    if i < 0 || i >= pairs.len() {
        Result::Ok(acc)
    } else {
        match apply_pair_spec(acc, pairs[i]) {
            Result::Ok(a) => build_from(pairs, i + 1, a),
            Result::Err(e) => Result::Err(e),
        }
    }
}

/// What reading a whole textual description yields.
pub open spec fn spec_parse_params(s: Seq<char>) -> Result<LayoutParameters, LayoutErrorSpec> {
    build_from(pairs_of(s), 0, empty_params())
}

pub open spec fn empty_params() -> LayoutParameters {
    LayoutParameters {
        x: Option::None,
        y: Option::None,
        left: Option::None,
        top: Option::None,
        right: Option::None,
        bottom: Option::None,
        width: Option::None,
        height: Option::None,
        align: Option::None,
        dock: Option::None,
    }
}

/// The mathematical content of a parse result.
pub open spec fn params_result_view(r: Result<LayoutParameters, LayoutError>) -> Result<
    LayoutParameters,
    LayoutErrorSpec,
> {
    match r {
        Result::Ok(p) => Result::Ok(p),
        Result::Err(e) => Result::Err(e@),
    }
}

/// Exec counterpart of [`apply_pair_spec`].
fn apply_pair(acc: LayoutParameters, p: &RawPair) -> (r: Result<LayoutParameters, LayoutError>)
    ensures
        params_result_view(r) == apply_pair_spec(acc, p@),
{
    let slot = slot_of_key(&p.key);
    match slot {
        SlotKind::X | SlotKind::Y | SlotKind::Left | SlotKind::Top | SlotKind::Right
            | SlotKind::Bottom => {
            let c: Coordonate = match p.value_type {
                ValueType::Number => Coordonate::Absolute(p.numerical_value),
                ValueType::Percentage => Coordonate::Percentage(p.numerical_value),
                ValueType::String => {
                    return Err(
                        LayoutError::InvalidPercentageValue { key: string_from_chars(&p.key) },
                    );
                },
            };
            match slot {
                SlotKind::X => Ok(LayoutParameters { x: Some(c), ..acc }),
                SlotKind::Y => Ok(LayoutParameters { y: Some(c), ..acc }),
                SlotKind::Left => Ok(LayoutParameters { left: Some(c), ..acc }),
                SlotKind::Top => Ok(LayoutParameters { top: Some(c), ..acc }),
                SlotKind::Right => Ok(LayoutParameters { right: Some(c), ..acc }),
                _ => Ok(LayoutParameters { bottom: Some(c), ..acc }),
            }
        },
        SlotKind::Width | SlotKind::Height => {
            let d: Dimension = match p.value_type {
                ValueType::Number => Dimension::Absolute(
                    if p.numerical_value < 0 {
                        0u32
                    } else {
                        p.numerical_value as u32
                    },
                ),
                ValueType::Percentage => Dimension::Percentage(p.numerical_value),
                ValueType::String => {
                    return Err(
                        LayoutError::InvalidPercentageValue { key: string_from_chars(&p.key) },
                    );
                },
            };
            match slot {
                SlotKind::Width => Ok(LayoutParameters { width: Some(d), ..acc }),
                _ => Ok(LayoutParameters { height: Some(d), ..acc }),
            }
        },
        SlotKind::Align | SlotKind::Dock => match alignament_of(&p.value) {
            Some(a) => match slot {
                SlotKind::Align => Ok(LayoutParameters { align: Some(a), ..acc }),
                _ => Ok(LayoutParameters { dock: Some(a), ..acc }),
            },
            None => Err(
                LayoutError::InvalidAlignmentKeyword {
                    key: string_from_chars(&p.key),
                    value: string_from_chars(&p.value),
                },
            ),
        },
        SlotKind::Unknown => Err(
            LayoutError::UnknownParameter { key: string_from_chars(&p.key) },
        ),
    }
}

impl LayoutParameters {
    /// The bag with nothing supplied.
    pub fn empty() -> (r: LayoutParameters)
        ensures
            r == empty_params(),
    {
        LayoutParameters {
            x: None,
            y: None,
            left: None,
            top: None,
            right: None,
            bottom: None,
            width: None,
            height: None,
            align: None,
            dock: None,
        }
    }

    /// Reads and validates a textual parameter list.
    pub fn parse(text: &str) -> (r: Result<LayoutParameters, LayoutError>)
        ensures
            params_result_view(r) == spec_parse_params(text@),
    {
        let pairs = parse_pairs(text);
        let ghost ps = pairs@.map_values(|p: RawPair| p@);
        let mut acc = LayoutParameters::empty();
        let mut i: usize = 0;
        while i < pairs.len()
            invariant
                i <= pairs@.len(),
                ps == pairs@.map_values(|p: RawPair| p@),
                ps == pairs_of(text@),
                build_from(ps, i as int, acc) == spec_parse_params(text@),
            decreases pairs@.len() - i,
        {
            proof {
                assert(ps[i as int] == pairs@[i as int]@);
            }
            match apply_pair(acc, &pairs[i]) {
                Ok(a) => {
                    acc = a;
                },
                Err(e) => {
                    return Err(e);
                },
            }
            i = i + 1;
        }
        Ok(acc)
    }

    /// Which edge anchors this bag supplies.
    pub fn anchors(&self) -> (r: Anchors)
        ensures
            r.left == self.left is Some,
            r.top == self.top is Some,
            r.right == self.right is Some,
            r.bottom == self.bottom is Some,
    {
        Anchors {
            left: self.left.is_some(),
            top: self.top.is_some(),
            right: self.right.is_some(),
            bottom: self.bottom.is_some(),
        }
    }
}

} // verus!
