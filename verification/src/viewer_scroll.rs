//! The scrolling decisions of an image viewer.
//!
//! A viewer shows a content surface through a smaller view.  The
//! scroll offsets are kept non-positive (the content slides left and
//! up): along each axis, content no wider than the view sits at zero;
//! otherwise the desired offset is clamped so that neither edge of the
//! view leaves the content.  Keys and wheel turns ask for relative
//! moves; the far-jump keys ask for the extreme offsets.

use vstd::prelude::*;
use crate::graphics::{Point, Size};

verus! {

/// The clamped scroll offset of one axis: zero when the content fits
/// the view, else `desired` held inside `[view - content, 0]`.
pub open spec fn spec_scroll_origin(desired: int, view: int, content: int) -> int {
    if content <= view {
        0
    } else {
        let low = view - content;
        let v = if desired < low {
            low
        } else {
            desired
        };
        if v > 0 {
            0
        } else {
            v
        }
    }
}

/// Exec counterpart of [`spec_scroll_origin`].
pub fn scroll_origin(desired: i64, view: u32, content: u32) -> (r: i32)
    requires
        view <= i32::MAX as u32,
        content <= i32::MAX as u32,
    ensures
        r as int == spec_scroll_origin(desired as int, view as int, content as int),
        r <= 0,
    {
    if content <= view {
        0
    } else {
        let low: i64 = (view as i64) - (content as i64);
        let v: i64 = if desired < low {
            low
        } else {
            desired
        };
        if v > 0 {
            0
        } else {
            v as i32
        }
    }
}

/// The scroll state of a viewer: both offsets, never positive.
#[derive(Clone, Copy, PartialEq, Eq, Structural, Debug)]
pub struct ScrollState {
    pub x: i32,
    pub y: i32,
}

/// What one scroll request settles to.
pub open spec fn spec_move_scroll(
    desired_x: int,
    desired_y: int,
    view: Size,
    content: Size,
) -> ScrollState {
    ScrollState {
        x: spec_scroll_origin(desired_x, view.width as int, content.width as int) as i32,
        y: spec_scroll_origin(desired_y, view.height as int, content.height as int) as i32,
    }
}

/// The relative and absolute scroll moves a viewer understands: the
/// arrow keys and wheel turns slide one cell, the shift-arrows jump to
/// an edge, the control-arrows and page keys slide a whole view, home
/// and end jump to the corners.
#[derive(Clone, Copy, PartialEq, Eq, Structural, Debug)]
pub enum ScrollCommand {
    StepLeft,
    StepRight,
    StepUp,
    StepDown,
    JumpLeftEdge,
    JumpRightEdge,
    JumpTopEdge,
    JumpBottomEdge,
    PageLeft,
    PageRight,
    PageUp,
    PageDown,
    Home,
    End,
}

/// The offsets a command asks for, before clamping.
pub open spec fn spec_command_target(cmd: ScrollCommand, st: ScrollState, view: Size) -> (
    int,
    int,
) {
    match cmd {
        ScrollCommand::StepLeft => (st.x + 1, st.y as int),
        ScrollCommand::StepRight => (st.x - 1, st.y as int),
        ScrollCommand::StepUp => (st.x as int, st.y + 1),
        ScrollCommand::StepDown => (st.x as int, st.y - 1),
        ScrollCommand::JumpLeftEdge => (0, st.y as int),
        ScrollCommand::JumpRightEdge => (i32::MIN as int, st.y as int),
        ScrollCommand::JumpTopEdge => (st.x as int, 0),
        ScrollCommand::JumpBottomEdge => (st.x as int, i32::MIN as int),
        ScrollCommand::PageLeft => (st.x + view.width, st.y as int),
        ScrollCommand::PageRight => (st.x - view.width, st.y as int),
        ScrollCommand::PageUp => (st.x as int, st.y + view.height),
        ScrollCommand::PageDown => (st.x as int, st.y - view.height),
        ScrollCommand::Home => (0, 0),
        ScrollCommand::End => (i32::MIN as int, i32::MIN as int),
    }
}

impl ScrollState {
    /// Both axes at their origin.
    pub fn new() -> (r: ScrollState)
        ensures
            r == (ScrollState { x: 0, y: 0 }),
    {
        ScrollState { x: 0, y: 0 }
    }

    /// Settles a scroll request: each axis clamped so the view never
    /// leaves the content.
    pub fn move_scroll_to(&mut self, x: i64, y: i64, view: Size, content: Size)
        requires
            view.width <= i32::MAX as u32,
            view.height <= i32::MAX as u32,
            content.width <= i32::MAX as u32,
            content.height <= i32::MAX as u32,
        ensures
            *final(self) == spec_move_scroll(x as int, y as int, view, content),
            final(self).x <= 0,
            final(self).y <= 0,
    {
        self.x = scroll_origin(x, view.width, content.width);
        self.y = scroll_origin(y, view.height, content.height);
    }

    /// Runs one keyboard or wheel command.
    pub fn on_command(&mut self, cmd: ScrollCommand, view: Size, content: Size)
        requires
            view.width <= i32::MAX as u32,
            view.height <= i32::MAX as u32,
            content.width <= i32::MAX as u32,
            content.height <= i32::MAX as u32,
        ensures
            ({
                let t = spec_command_target(cmd, *old(self), view);
                *final(self) == spec_move_scroll(t.0, t.1, view, content)
            }),
            final(self).x <= 0,
            final(self).y <= 0,
    {
        let sx: i64 = self.x as i64;
        let sy: i64 = self.y as i64;
        let vw: i64 = view.width as i64;
        let vh: i64 = view.height as i64;
        let tx: i64;
        let ty: i64;
        match cmd {
            ScrollCommand::StepLeft => {
                tx = sx + 1;
                ty = sy;
            },
            ScrollCommand::StepRight => {
                tx = sx - 1;
                ty = sy;
            },
            ScrollCommand::StepUp => {
                tx = sx;
                ty = sy + 1;
            },
            ScrollCommand::StepDown => {
                tx = sx;
                ty = sy - 1;
            },
            ScrollCommand::JumpLeftEdge => {
                tx = 0;
                ty = sy;
            },
            ScrollCommand::JumpRightEdge => {
                tx = i32::MIN as i64;
                ty = sy;
            },
            ScrollCommand::JumpTopEdge => {
                tx = sx;
                ty = 0;
            },
            ScrollCommand::JumpBottomEdge => {
                tx = sx;
                ty = i32::MIN as i64;
            },
            ScrollCommand::PageLeft => {
                tx = sx + vw;
                ty = sy;
            },
            ScrollCommand::PageRight => {
                tx = sx - vw;
                ty = sy;
            },
            ScrollCommand::PageUp => {
                tx = sx;
                ty = sy + vh;
            },
            ScrollCommand::PageDown => {
                tx = sx;
                ty = sy - vh;
            },
            ScrollCommand::Home => {
                tx = 0;
                ty = 0;
            },
            ScrollCommand::End => {
                tx = i32::MIN as i64;
                ty = i32::MIN as i64;
            },
        }
        self.move_scroll_to(tx, ty, view, content);
    }

    /// Follows a mouse drag: the content moves with the pointer, from
    /// the offsets at the press.
    pub fn on_drag(&mut self, pressed_at: Point, now_at: Point, view: Size, content: Size)
        requires
            view.width <= i32::MAX as u32,
            view.height <= i32::MAX as u32,
            content.width <= i32::MAX as u32,
            content.height <= i32::MAX as u32,
        ensures
            *final(self) == spec_move_scroll(
                old(self).x + now_at.x - pressed_at.x,
                old(self).y + now_at.y - pressed_at.y,
                view,
                content,
            ),
    {
        let tx: i64 = (self.x as i64) + (now_at.x as i64) - (pressed_at.x as i64);
        let ty: i64 = (self.y as i64) + (now_at.y as i64) - (pressed_at.y as i64);
        self.move_scroll_to(tx, ty, view, content);
    }
}

} // verus!
