//! The state of one capture session: the layout, the scale, and the
//! selection in progress, with one entry point per input event.
use vstd::prelude::*;
use crate::geometry::valid;
use crate::layout::{Layout, LayoutError, OutputGeometry, layout_result};
use crate::selection::{Event, ExitState, Selector, step_spec, initial};
use crate::capture::{Outcome, Scale, outcome, outcome_spec};

verus! {

/// A selector state whose selections are all valid.
pub open spec fn selector_ok(s: Selector) -> bool {
    &&& valid(s.selection)
    &&& s.exit matches ExitState::ExitWithSelection(r) ==> valid(r)
}

/// The event loop's context: built once the outputs are known, then fed one
/// event at a time.
#[derive(Debug)]
pub struct Session {
    pub layout: Layout,
    pub scale: Scale,
    pub selector: Selector,
}

impl Session {
    pub open spec fn wf(&self) -> bool {
        &&& self.layout.wf()
        &&& self.scale.wf()
        &&& selector_ok(self.selector)
    }

    /// Builds the layout from the reported outputs and derives the scale of a
    /// composite image `composite_width` pixels wide. Fails exactly as
    /// building the layout does.
    pub fn start(outs: &Vec<OutputGeometry>, composite_width: u32) -> (r: Result<Session, LayoutError>)
        ensures
            match (r, layout_result(outs@)) {
                (Ok(s), Ok((rects, area))) => {
                    &&& s.wf()
                    &&& s.layout.rects@ == rects
                    &&& s.layout.area == area
                    &&& s.scale == (Scale { pixels: composite_width, logical: area.width })
                    &&& s.selector == initial()
                },
                (Err(e), Err(f)) => e == f,
                _ => false,
            },
    {
        let layout = Layout::from_outputs(outs)?;
        let scale = Scale::new(composite_width, &layout);
        Ok(Session { layout, scale, selector: Selector::new() })
    }

    /// Handles one event and says what the event loop does next.
    pub fn handle(&mut self, e: Event) -> (r: Outcome)
        requires
            old(self).wf(),
        ensures
            final(self).wf(),
            final(self).selector == step_spec(old(self).selector, e),
            final(self).layout.rects@ == old(self).layout.rects@,
            final(self).layout.area == old(self).layout.area,
            final(self).scale == old(self).scale,
            r == outcome_spec(final(self).selector.exit, final(self).layout.rects@, final(self).scale),
    {
        self.selector.handle(e);
        outcome(self.selector.exit, &self.layout, &self.scale)
    }
}

} // verus!
