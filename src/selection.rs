//! Turning pointer and keyboard events into a finished selection.
use vstd::prelude::*;
use crate::geometry::{Rect, valid};

verus! {

/// A pointer position in global logical coordinates.
#[derive(Clone, Copy, Debug, PartialEq, Eq, Structural)]
pub struct Point {
    pub x: i32,
    pub y: i32,
}

/// One input event, in the order it arrived.
#[derive(Clone, Copy, Debug, PartialEq, Eq, Structural)]
pub enum Event {
    PointerDown(Point),
    PointerMove(Point),
    PointerUp,
    Cancel,
}

/// How the interactive session ends. `Pending` means it has not ended yet.
#[derive(Clone, Copy, Debug, PartialEq, Eq, Structural)]
pub enum ExitState {
    Pending,
    ExitOnly,
    ExitWithSelection(Rect),
}

/// The selection state: the drag anchor while a button is held, the current
/// selection, and the exit decision.
#[derive(Clone, Copy, Debug, PartialEq, Eq, Structural)]
pub struct Selector {
    pub anchor: Option<Point>,
    pub selection: Rect,
    pub exit: ExitState,
}

pub open spec fn abs_diff(a: i32, b: i32) -> int {
    if a <= b { b - a } else { a - b }
}

/// The rectangle spanned by `anchor` and `p`, whichever way the drag went.
pub open spec fn span(anchor: Point, p: Point) -> Rect {
    Rect {
        x: (if anchor.x <= p.x { anchor.x } else { p.x }) as i64,
        y: (if anchor.y <= p.y { anchor.y } else { p.y }) as i64,
        width: abs_diff(anchor.x, p.x) as i64,
        height: abs_diff(anchor.y, p.y) as i64,
    }
}

/// The state after `e` is handled in state `s`. A terminal state ignores
/// every event; a cancel ends any other state at once; the pointer events
/// act only in the phase they belong to.
pub open spec fn step_spec(s: Selector, e: Event) -> Selector {
    if s.exit != ExitState::Pending {
        s
    } else {
        match e {
            Event::Cancel => Selector { exit: ExitState::ExitOnly, ..s },
            Event::PointerDown(p) => {
                if s.anchor.is_none() {
                    Selector {
                        anchor: Some(p),
                        selection: Rect { x: p.x as i64, y: p.y as i64, width: 0, height: 0 },
                        ..s
                    }
                } else {
                    s
                }
            },
            Event::PointerMove(p) => {
                match s.anchor {
                    Some(a) => Selector { selection: span(a, p), ..s },
                    None => s,
                }
            },
            Event::PointerUp => {
                if s.anchor.is_some() {
                    Selector { exit: ExitState::ExitWithSelection(s.selection), ..s }
                } else {
                    s
                }
            },
        }
    }
}

/// The state after all of `es` is handled in order, starting from `s`.
pub open spec fn run_spec(s: Selector, es: Seq<Event>) -> Selector
    decreases es.len(),
{
    if es.len() == 0 {
        s
    } else {
        step_spec(run_spec(s, es.drop_last()), es.last())
    }
}

pub open spec fn initial() -> Selector {
    Selector { anchor: None, selection: Rect { x: 0, y: 0, width: 0, height: 0 }, exit: ExitState::Pending }
}

fn span_exec(anchor: Point, p: Point) -> (r: Rect)
    ensures
        r == span(anchor, p),
        valid(r),
{
    let x: i32 = if anchor.x <= p.x { anchor.x } else { p.x };
    let y: i32 = if anchor.y <= p.y { anchor.y } else { p.y };
    let w: i64 = if anchor.x <= p.x { p.x as i64 - anchor.x as i64 } else { anchor.x as i64 - p.x as i64 };
    let h: i64 = if anchor.y <= p.y { p.y as i64 - anchor.y as i64 } else { anchor.y as i64 - p.y as i64 };
    Rect { x: x as i64, y: y as i64, width: w, height: h }
}

impl Selector {
    /// Idle, with no selection yet and no exit decided.
    pub fn new() -> (r: Selector)
        ensures
            r == initial(),
    {
        Selector { anchor: None, selection: Rect { x: 0, y: 0, width: 0, height: 0 }, exit: ExitState::Pending }
    }

    /// Whether the session has ended.
    pub fn is_done(&self) -> (r: bool)
        ensures
            r == (self.exit != ExitState::Pending),
    {
        !matches!(self.exit, ExitState::Pending)
    }

    /// Handles one event.
    pub fn handle(&mut self, e: Event)
        ensures
            *final(self) == step_spec(*old(self), e),
    {
        if !matches!(self.exit, ExitState::Pending) {
            return;
        }
        match e {
            Event::Cancel => {
                self.exit = ExitState::ExitOnly;
            },
            Event::PointerDown(p) => {
                if self.anchor.is_none() {
                    self.anchor = Some(p);
                    self.selection = Rect { x: p.x as i64, y: p.y as i64, width: 0, height: 0 };
                }
            },
            Event::PointerMove(p) => {
                if let Some(a) = self.anchor {
                    self.selection = span_exec(a, p);
                }
            },
            Event::PointerUp => {
                if self.anchor.is_some() {
                    self.exit = ExitState::ExitWithSelection(self.selection);
                }
            },
        }
    }

    /// Handles the events in order and returns the exit decision reached.
    pub fn handle_all(&mut self, es: &Vec<Event>) -> (r: ExitState)
        ensures
            *final(self) == run_spec(*old(self), es@),
            r == final(self).exit,
    {
        let mut i: usize = 0;
        while i < es.len()
            invariant
                0 <= i <= es@.len(),
                *self == run_spec(*old(self), es@.take(i as int)),
            decreases es@.len() - i,
        {
            proof {
                assert(es@.take(i as int + 1).drop_last() == es@.take(i as int));
            }
            self.handle(es[i]);
            i = i + 1;
        }
        proof {
            assert(es@.take(es@.len() as int) == es@);
        }
        self.exit
    }
}

/// Dragging from `a` to `b` selects the same rectangle as dragging from `b`
/// to `a`.
pub proof fn lemma_span_symmetric(a: Point, b: Point)
    ensures
        span(a, b) == span(b, a),
{
}

/// A cancel ends any session that is still pending with `ExitOnly`, whatever
/// the drag has selected so far.
pub proof fn lemma_cancel_wins(s: Selector)
    requires
        s.exit == ExitState::Pending,
    ensures
        step_spec(s, Event::Cancel).exit == ExitState::ExitOnly,
{
}

/// Whatever events arrive, the selection held, and the one a finished
/// session ends with, is valid.
pub proof fn lemma_selection_valid(es: Seq<Event>)
    ensures
        valid(run_spec(initial(), es).selection),
        run_spec(initial(), es).exit matches ExitState::ExitWithSelection(r) ==> valid(r),
    decreases es.len(),
{
    if es.len() > 0 {
        lemma_selection_valid(es.drop_last());
    }
}

} // verus!
