//! The per-control layout state: the chosen mode plus the last
//! resolved rectangle, recomputed whenever the parent size changes.

use vstd::prelude::*;
use crate::graphics::{Rect, Size};
use crate::layout_mode::{mode_result_view, spec_classify, LayoutMode};
use crate::layout_params::{LayoutError, LayoutErrorSpec, LayoutParameters, params_result_view, spec_parse_params};
use crate::layout_resolve::{rect_view, spec_resolve, RectSpec};

verus! {

/// What a whole textual description yields: parameters are read and
/// validated, then classified into a mode.
pub open spec fn spec_layout_of(s: Seq<char>) -> Result<LayoutMode, LayoutErrorSpec> {
    match spec_parse_params(s) {
        Result::Ok(p) => spec_classify(p),
        Result::Err(e) => Result::Err(e),
    }
}

/// A fully classified layout description, ready to be attached to a
/// control.
#[derive(Clone, Copy, PartialEq, Debug)]
pub struct Layout {
    pub mode: LayoutMode,
}

impl Layout {
    /// Reads a textual description all the way to a mode.
    pub fn new(text: &str) -> (r: Result<Layout, LayoutError>)
        ensures
            match r {
                Result::Ok(l) => spec_layout_of(text@) == Result::<
                    LayoutMode,
                    LayoutErrorSpec,
                >::Ok(l.mode),
                Result::Err(e) => spec_layout_of(text@) == Result::<
                    LayoutMode,
                    LayoutErrorSpec,
                >::Err(e@),
            },
    {
        let params = match LayoutParameters::parse(text) {
            Ok(p) => p,
            Err(e) => {
                return Err(e);
            },
        };
        match LayoutMode::classify(&params) {
            Ok(m) => Ok(Layout { mode: m }),
            Err(e) => Err(e),
        }
    }

    /// Wraps an already classified mode.
    pub fn with_mode(mode: LayoutMode) -> (r: Layout)
        ensures
            r.mode == mode,
    {
        Layout { mode }
    }
}

/// The runtime layout state of one control: uninitialized until the
/// first parent size arrives, then always resolved, and re-resolved on
/// every parent resize or parameter change.
pub struct ControlLayout {
    mode: LayoutMode,
    parent: Size,
    rect: Rect,
    resolved: bool,
}

impl ControlLayout {
    /// The mode this state resolves with.
    pub closed spec fn mode_spec(&self) -> LayoutMode {
        self.mode
    }

    /// Whether a rectangle has been resolved yet.
    pub closed spec fn is_resolved(&self) -> bool {
        self.resolved
    }

    /// The parent size of the last resolution.
    pub closed spec fn parent_spec(&self) -> Size {
        self.parent
    }

    /// The cached rectangle is exactly what the mode resolves to
    /// against the recorded parent size, and all zeroes before the
    /// first resolution.
    pub closed spec fn wf(&self) -> bool {
        &&& self.resolved ==> rect_view(self.rect) == spec_resolve(
            self.mode,
            self.parent.width as int,
            self.parent.height as int,
        )
        &&& !self.resolved ==> self.rect == (Rect { x: 0, y: 0, width: 0, height: 0 })
    }

    /// A fresh, still unresolved state.
    pub fn new(layout: Layout) -> (r: ControlLayout)
        ensures
            r.wf(),
            !r.is_resolved(),
            r.mode_spec() == layout.mode,
    {
        ControlLayout {
            mode: layout.mode,
            parent: Size { width: 0, height: 0 },
            rect: Rect { x: 0, y: 0, width: 0, height: 0 },
            resolved: false,
        }
    }

    /// The chosen mode.
    pub fn mode(&self) -> (r: LayoutMode)
        ensures
            r == self.mode_spec(),
    {
        self.mode
    }

    /// Re-resolves against a new parent size.  Resolving twice with
    /// the same size leaves the same rectangle: the cached value is a
    /// pure function of the mode and the size.
    pub fn on_parent_resized(&mut self, new_size: Size)
        requires
            old(self).wf(),
        ensures
            final(self).wf(),
            final(self).is_resolved(),
            final(self).mode_spec() == old(self).mode_spec(),
            final(self).parent_spec() == new_size,
            rect_view(final(self).rect_value()) == spec_resolve(
                old(self).mode_spec(),
                new_size.width as int,
                new_size.height as int,
            ),
    {
        self.parent = new_size;
        self.rect = self.mode.resolve(new_size);
        self.resolved = true;
    }

    /// Replaces the layout description; an already resolved state is
    /// re-resolved at once against the recorded parent size.
    pub fn set_layout(&mut self, layout: Layout)
        requires
            old(self).wf(),
        ensures
            final(self).wf(),
            final(self).mode_spec() == layout.mode,
            final(self).is_resolved() == old(self).is_resolved(),
            final(self).parent_spec() == old(self).parent_spec(),
            final(self).is_resolved() ==> rect_view(final(self).rect_value()) == spec_resolve(
                layout.mode,
                old(self).parent_spec().width as int,
                old(self).parent_spec().height as int,
            ),
    {
        self.mode = layout.mode;
        if self.resolved {
            self.rect = self.mode.resolve(self.parent);
        }
    }

    /// The cached rectangle as a value (for contracts).
    pub closed spec fn rect_value(&self) -> Rect {
        self.rect
    }

    /// The last resolved rectangle; all zeroes while unresolved.
    pub fn resolved_rect(&self) -> (r: Rect)
        requires
            self.wf(),
        ensures
            r == self.rect_value(),
            self.is_resolved() ==> rect_view(r) == spec_resolve(
                self.mode_spec(),
                self.parent_spec().width as int,
                self.parent_spec().height as int,
            ),
            !self.is_resolved() ==> r == (Rect { x: 0, y: 0, width: 0, height: 0 }),
    {
        self.rect
    }
}

} // verus!
