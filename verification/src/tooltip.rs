//! Tooltip measurement and placement.
//!
//! A tooltip's text is measured into a line count and a best line
//! width (lines break at newlines, and are wrapped hard at half the
//! screen width).  The bubble is then placed above the object it
//! annotates when there is room, below it otherwise, and not at all
//! when neither side has room; the arrow sits at the object's
//! horizontal centre, clamped to the screen.

use vstd::prelude::*;
use vstd::math::{max, min};
use crate::graphics::{clamp_to_i32, Point, Rect, Size, SpecialChar};
use crate::text::chars_of;

verus! {

/// The running state of the measurement: full lines seen, width of
/// the open line, best width so far.
pub struct MeasureState {
    pub lines: int,
    pub w: int,
    pub best: int,
}

/// One character of measurement: a line break closes the open line; a
/// character past the wrap width opens a new line holding it.
pub open spec fn measure_step(st: MeasureState, c: char, mw: int) -> MeasureState {
    if c == '\n' || c == '\r' {
        MeasureState { lines: st.lines + 1, w: 0, best: max(st.best, st.w) }
    } else if st.w + 1 > mw {
        MeasureState { lines: st.lines + 1, w: 1, best: mw }
    } else {
        MeasureState { lines: st.lines, w: st.w + 1, best: st.best }
    }
}

/// The whole text measured, character by character.
pub open spec fn measure(s: Seq<char>, mw: int) -> MeasureState
    decreases s.len(),
{
    if s.len() == 0 {
        MeasureState { lines: 0, w: 0, best: 0 }
    } else {
        measure_step(measure(s.drop_last(), mw), s.last(), mw)
    }
}

/// The measurement never leaves these bounds.
pub proof fn lemma_measure_bounds(s: Seq<char>, mw: int)
    requires
        mw >= 0,
    ensures
        0 <= measure(s, mw).w <= max(mw, 1),
        0 <= measure(s, mw).best <= max(mw, 1),
        0 <= measure(s, mw).lines <= s.len(),
    decreases s.len(),
{
    if s.len() > 0 {
        lemma_measure_bounds(s.drop_last(), mw);
    }
}

/// The line count of a text: the full lines plus the open one.
pub open spec fn raw_lines(s: Seq<char>, mw: int) -> int {
    let m = measure(s, mw);
    if m.w > 0 {
        m.lines + 1
    } else {
        m.lines
    }
}

/// The widest line of a text.
pub open spec fn raw_best(s: Seq<char>, mw: int) -> int {
    let m = measure(s, mw);
    if m.w > 0 {
        max(m.best, m.w)
    } else {
        m.best
    }
}

/// The bubble's height: the line count, at most a third of the screen,
/// at least one.
pub open spec fn tip_lines(s: Seq<char>, mw: int, screen_h: int) -> int {
    max(min(raw_lines(s, mw), screen_h / 3), 1)
}

/// The bubble's width: the widest line, at least five, plus a border
/// cell on each side.
pub open spec fn tip_width(s: Seq<char>, mw: int) -> int {
    max(raw_best(s, mw), 5) + 2
}

/// The bubble's left edge: centred on `cx`, pushed inside the screen.
pub open spec fn tip_x(cx: int, bw: int, screen_w: int) -> int {
    max(min(cx - bw / 2, screen_w - bw), 0)
}

/// A value forced into `[lo, hi]`.
pub open spec fn clamped(v: int, lo: int, hi: int) -> int {
    if v < lo {
        lo
    } else if v > hi {
        hi
    } else {
        v
    }
}

/// A tooltip bubble: its placement, its arrow, and the text it shows.
pub struct ToolTip {
    pub visible: bool,
    pub text_pos: Point,
    pub arrow_pos: Point,
    pub arrow_char: SpecialChar,
    pub size: Size,
    pub text: String,
}

impl ToolTip {
    /// A hidden tooltip.
    pub fn new() -> (r: ToolTip)
        ensures
            !r.visible,
            r.arrow_char == SpecialChar::ArrowDown,
    {
        ToolTip {
            visible: false,
            text_pos: Point { x: 0, y: 0 },
            arrow_pos: Point { x: 0, y: 0 },
            arrow_char: SpecialChar::ArrowDown,
            size: Size { width: 0, height: 0 },
            text: String::new(),
        }
    }

    pub fn is_visible(&self) -> (r: bool)
        ensures
            r == self.visible,
    {
        self.visible
    }

    pub fn dismiss(&mut self)
        ensures
            *final(self) == (ToolTip { visible: false, ..*old(self) }),
    {
        self.visible = false;
    }

    /// Measures `text` and places the bubble: above `object_rect` when
    /// there is room (then the call answers `true`), below it when
    /// only that side has room, nowhere otherwise.
    pub fn show(&mut self, text: &str, object_rect: &Rect, screen_size: Size) -> (r: bool)
        requires
            1 <= screen_size.width <= i32::MAX as u32,
            screen_size.height <= i32::MAX as u32,
        ensures
            ({
                let s = text@;
                let mw = screen_size.width as int / 2;
                let nl = tip_lines(s, mw, screen_size.height as int);
                let bw = tip_width(s, mw);
                let cx = clamp_to_i32(object_rect.x + object_rect.width / 2);
                let top = object_rect.y as int;
                let bot = clamp_to_i32(object_rect.y + object_rect.height);
                let x = tip_x(cx, bw, screen_size.width as int);
                let ax = clamped(cx, 0, screen_size.width as int - 1);
                if top >= nl + 1 {
                    &&& r == true
                    &&& final(self).visible
                    &&& final(self).arrow_char == SpecialChar::ArrowDown
                    &&& final(self).arrow_pos.x as int == ax
                    &&& final(self).arrow_pos.y as int == top - 1
                    &&& final(self).text_pos.x as int == x
                    &&& final(self).text_pos.y as int == top - nl - 1
                    &&& final(self).size.width as int == bw
                    &&& final(self).size.height as int == nl
                    &&& final(self).text@ == s
                } else if bot + nl + 1 <= screen_size.height as int {
                    &&& r == false
                    &&& final(self).visible
                    &&& final(self).arrow_char == SpecialChar::ArrowUp
                    &&& final(self).arrow_pos.x as int == ax
                    &&& final(self).arrow_pos.y as int == bot + 1
                    &&& final(self).text_pos.x as int == x
                    &&& final(self).text_pos.y as int == bot + 2
                    &&& final(self).size.width as int == bw
                    &&& final(self).size.height as int == nl
                    &&& final(self).text@ == s
                } else {
                    r == false && *final(self) == (ToolTip { visible: false, ..*old(self) })
                }
            }),
    {
        self.visible = false;
        let chars = chars_of(text);
        let n: usize = chars.len();
        let mw: u32 = screen_size.width / 2;
        let mut lines: u128 = 0;
        let mut w: u32 = 0;
        let mut best: u32 = 0;
        let mut i: usize = 0;
        proof {
            assert(chars@.take(0) =~= Seq::<char>::empty());
        }
        while i < n
            invariant
                i <= n,
                n == chars@.len(),
                chars@ == text@,
                mw == screen_size.width as int / 2,
                mw <= 0x4000_0000,
                lines as int == measure(text@.take(i as int), mw as int).lines,
                w as int == measure(text@.take(i as int), mw as int).w,
                best as int == measure(text@.take(i as int), mw as int).best,
                lines <= i,
                w <= mw + 1,
                best <= mw + 1,
            decreases n - i,
        {
            let ghost pre = measure(text@.take(i as int), mw as int);
            proof {
                lemma_measure_bounds(text@.take(i as int), mw as int);
                assert(text@.take(i as int + 1).drop_last() =~= text@.take(i as int));
                assert(text@.take(i as int + 1).last() == text@[i as int]);
            }
            let c: char = chars[i];
            if c == '\n' || c == '\r' {
                if w > best {
                    best = w;
                }
                w = 0;
                lines = lines + 1;
            } else if w + 1 > mw {
                best = mw;
                w = 1;
                lines = lines + 1;
            } else {
                w = w + 1;
            }
            i = i + 1;
        }
        proof {
            assert(text@.take(n as int) =~= text@);
            lemma_measure_bounds(text@, mw as int);
        }
        // close the open line
        let raw_l: u128 = if w > 0 {
            if w > best {
                best = w;
            }
            lines + 1
        } else {
            lines
        };
        // clamp the height, floor the width
        let h3: u32 = screen_size.height / 3;
        let mut nl: u128 = if raw_l > h3 as u128 {
            h3 as u128
        } else {
            raw_l
        };
        if nl < 1 {
            nl = 1;
        }
        let bw: u32 = if best < 5 {
            7
        } else {
            best + 2
        };
        // placement
        let cx: i32 = object_rect.center_x();
        let top: i32 = object_rect.top();
        let wi: i64 = screen_size.width as i64;
        let x64: i64 = {
            let x0: i64 = (cx as i64) - ((bw / 2) as i64);
            let lim: i64 = wi - (bw as i64);
            let x1: i64 = if x0 > lim {
                lim
            } else {
                x0
            };
            if x1 < 0 {
                0
            } else {
                x1
            }
        };
        let ax: i32 = if (cx as i64) < 0 {
            0
        } else if (cx as i64) > wi - 1 {
            (wi - 1) as i32
        } else {
            cx
        };
        if (top as i64) >= (nl as i64) + 1 {
            self.arrow_pos = Point { x: ax, y: top - 1 };
            self.arrow_char = SpecialChar::ArrowDown;
            self.text_pos = Point { x: x64 as i32, y: ((top as i64) - (nl as i64) - 1) as i32 };
            self.size = Size { width: bw, height: nl as u32 };
            self.text = text.to_owned();
            self.visible = true;
            return true;
        }
        let bot: i32 = object_rect.bottom();
        if (bot as i64) + (nl as i64) + 1 <= (screen_size.height as i64) {
            self.arrow_pos = Point { x: ax, y: bot + 1 };
            self.arrow_char = SpecialChar::ArrowUp;
            self.text_pos = Point { x: x64 as i32, y: bot + 2 };
            self.size = Size { width: bw, height: nl as u32 };
            self.text = text.to_owned();
            self.visible = true;
        }
        false
    }
}

} // verus!
