//! Elementary graphics values: colors, character attributes and the
//! geometric types (sizes, points, rectangles) the layout engine produces.

use vstd::prelude::*;

verus! {

/// One of the 16 terminal palette colors, or transparency (keep whatever
/// is already on the screen cell).
#[derive(Clone, Copy, PartialEq, Eq, Structural, Debug)]
pub enum Color {
    Black,
    DarkBlue,
    DarkGreen,
    Teal,
    DarkRed,
    Magenta,
    Olive,
    Silver,
    Gray,
    Blue,
    Green,
    Aqua,
    Red,
    Pink,
    Yellow,
    White,
    Transparent,
}

/// Text emphasis flags of a screen cell, kept as a small bit set:
/// bold is bit 0, italic bit 1, underline bit 2.
#[derive(Clone, Copy, PartialEq, Eq, Structural, Debug)]
pub struct CharFlags {
    pub bits: u16,
}

impl CharFlags {
    /// No emphasis at all.
    pub fn none() -> (r: CharFlags)
        ensures
            r.bits == 0,
    {
        CharFlags { bits: 0 }
    }

    pub fn bold() -> (r: CharFlags)
        ensures
            r.bits == 1,
    {
        CharFlags { bits: 1 }
    }

    pub fn italic() -> (r: CharFlags)
        ensures
            r.bits == 2,
    {
        CharFlags { bits: 2 }
    }

    pub fn underline() -> (r: CharFlags)
        ensures
            r.bits == 4,
    {
        CharFlags { bits: 4 }
    }

    /// The combination of two flag sets.
    pub fn union(self, other: CharFlags) -> (r: CharFlags)
        ensures
            r.bits == (self.bits | other.bits),
    {
        CharFlags { bits: self.bits | other.bits }
    }

    /// Whether every flag of `other` is also set in `self`.
    pub fn contains(self, other: CharFlags) -> (r: bool)
        ensures
            r == ((self.bits & other.bits) == other.bits),
    {
        (self.bits & other.bits) == other.bits
    }
}

/// The painting attribute of one screen cell: a foreground color, a
/// background color and the emphasis flags.
#[derive(Clone, Copy, PartialEq, Eq, Structural, Debug)]
pub struct CharAttribute {
    pub foreground: Color,
    pub background: Color,
    pub flags: CharFlags,
}

impl CharAttribute {
    pub fn new(fore: Color, back: Color, flags: CharFlags) -> (r: CharAttribute)
        ensures
            r.foreground == fore,
            r.background == back,
            r.flags == flags,
    {
        CharAttribute { foreground: fore, background: back, flags }
    }

    /// Both colors given, no emphasis.
    pub fn with_color(fore: Color, back: Color) -> (r: CharAttribute)
        ensures
            r.foreground == fore,
            r.background == back,
            r.flags.bits == 0,
    {
        CharAttribute { foreground: fore, background: back, flags: CharFlags { bits: 0 } }
    }

    /// Only the foreground given; the background stays transparent.
    pub fn with_fore_color(fore: Color) -> (r: CharAttribute)
        ensures
            r.foreground == fore,
            r.background == Color::Transparent,
            r.flags.bits == 0,
    {
        CharAttribute { foreground: fore, background: Color::Transparent, flags: CharFlags { bits: 0 } }
    }

    /// Only the background given; the foreground stays transparent.
    pub fn with_back_color(back: Color) -> (r: CharAttribute)
        ensures
            r.foreground == Color::Transparent,
            r.background == back,
            r.flags.bits == 0,
    {
        CharAttribute { foreground: Color::Transparent, background: back, flags: CharFlags { bits: 0 } }
    }
}

impl Default for CharAttribute {
    /// White on black, no emphasis.
    fn default() -> (r: CharAttribute)
        ensures
            r.foreground == Color::White,
            r.background == Color::Black,
            r.flags.bits == 0,
    {
        CharAttribute { foreground: Color::White, background: Color::Black, flags: CharFlags { bits: 0 } }
    }
}

/// A width and a height, in character cells.
#[derive(Clone, Copy, PartialEq, Eq, Structural, Debug)]
pub struct Size {
    pub width: u32,
    pub height: u32,
}

impl Size {
    pub fn new(width: u32, height: u32) -> (r: Size)
        ensures
            r.width == width,
            r.height == height,
    {
        Size { width, height }
    }
}

/// A position in parent-relative screen coordinates.
#[derive(Clone, Copy, PartialEq, Eq, Structural, Debug)]
pub struct Point {
    pub x: i32,
    pub y: i32,
}

impl Point {
    pub fn new(x: i32, y: i32) -> (r: Point)
        ensures
            r.x == x,
            r.y == y,
    {
        Point { x, y }
    }
}

/// Clamps a mathematical integer into the `i32` range.
pub open spec fn clamp_to_i32(v: int) -> int {
    if v < i32::MIN as int {
        i32::MIN as int
    } else if v > i32::MAX as int {
        i32::MAX as int
    } else {
        v
    }
}

/// An absolute rectangle in parent-relative coordinates: the cell at
/// `(x, y)` is its top-left corner, and it spans `width` columns and
/// `height` rows (the right and bottom edges are exclusive).
#[derive(Clone, Copy, PartialEq, Eq, Structural, Debug)]
pub struct Rect {
    pub x: i32,
    pub y: i32,
    pub width: u32,
    pub height: u32,
}

impl Rect {
    pub fn new(x: i32, y: i32, width: u32, height: u32) -> (r: Rect)
        ensures
            r == (Rect { x, y, width, height }),
    {
        Rect { x, y, width, height }
    }

    /// The column of the left edge.
    pub fn left(&self) -> (r: i32)
        ensures
            r == self.x,
    {
        self.x
    }

    /// The row of the top edge.
    pub fn top(&self) -> (r: i32)
        ensures
            r == self.y,
    {
        self.y
    }

    /// The first column to the right of the rectangle, saturated at the
    /// `i32` range.
    pub fn right(&self) -> (r: i32)
        ensures
            r as int == clamp_to_i32(self.x + self.width),
    {
        let v: i64 = (self.x as i64) + (self.width as i64);
        if v > (i32::MAX as i64) {
            i32::MAX
        } else {
            v as i32
        }
    }

    /// The first row below the rectangle, saturated at the `i32` range.
    pub fn bottom(&self) -> (r: i32)
        ensures
            r as int == clamp_to_i32(self.y + self.height),
    {
        let v: i64 = (self.y as i64) + (self.height as i64);
        if v > (i32::MAX as i64) {
            i32::MAX
        } else {
            v as i32
        }
    }

    /// The column of the horizontal middle, saturated at the `i32` range.
    pub fn center_x(&self) -> (r: i32)
        ensures
            r as int == clamp_to_i32(self.x + self.width / 2),
    {
        let v: i64 = (self.x as i64) + ((self.width / 2) as i64);
        if v > (i32::MAX as i64) {
            i32::MAX
        } else {
            v as i32
        }
    }
}

/// The few special drawing characters the components here refer to.
#[derive(Clone, Copy, PartialEq, Eq, Structural, Debug)]
pub enum SpecialChar {
    ArrowUp,
    ArrowDown,
    CheckMark,
}

} // verus!
