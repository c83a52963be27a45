//! What a scroll-bar component answers after it handles an event:
//! whether to repaint, whether to read an updated value, and whether
//! the control underneath should still see the event.  Kept as a small
//! bit set so that answers can be combined: repaint is bit 0, value
//! update bit 1, handled-by-component bit 2.

use vstd::prelude::*;

verus! {

#[derive(Clone, Copy, PartialEq, Eq, Structural, Debug)]
pub struct ProcessEventResult {
    pub value: u8,
}

impl ProcessEventResult {
    /// Handled by the component; repaint.
    pub fn repaint() -> (r: ProcessEventResult)
        ensures
            r.value == 5,
    {
        ProcessEventResult { value: 5 }
    }

    /// Handled by the component; the value changed (so repaint too).
    pub fn update() -> (r: ProcessEventResult)
        ensures
            r.value == 6,
    {
        ProcessEventResult { value: 6 }
    }

    /// Not handled: pass the event to the control.
    pub fn pass_to_control() -> (r: ProcessEventResult)
        ensures
            r.value == 0,
    {
        ProcessEventResult { value: 0 }
    }

    /// Not handled, but repaint anyway.
    pub fn pass_to_control_and_repaint() -> (r: ProcessEventResult)
        ensures
            r.value == 1,
    {
        ProcessEventResult { value: 1 }
    }

    /// Handled by the component; nothing else to do.
    pub fn processed() -> (r: ProcessEventResult)
        ensures
            r.value == 4,
    {
        ProcessEventResult { value: 4 }
    }

    /// Whether the screen must be repainted: a repaint or an update
    /// was requested.
    pub fn should_repaint(&self) -> (r: bool)
        ensures
            r == ((self.value & 3) != 0),
    {
        (self.value & 3) != 0
    }

    /// Whether the component's value must be read again.
    pub fn should_update(&self) -> (r: bool)
        ensures
            r == ((self.value & 2) != 0),
    {
        (self.value & 2) != 0
    }

    /// The combination of two answers.
    pub fn combine(self, rhs: ProcessEventResult) -> (r: ProcessEventResult)
        ensures
            r.value == (self.value | rhs.value),
    {
        ProcessEventResult { value: self.value | rhs.value }
    }
}

} // verus!
