//! Deciding where a finished selection is cut from, and cutting it.
use vstd::prelude::*;
use image::DynamicImage;
use crate::geometry::{Rect, valid, contains_spec, local_spec};
use crate::layout::{Layout, small};
use crate::selection::ExitState;
use crate::image_ops::{cropped, pixel_width};

verus! {

/// The ratio between the composite image's pixel width and the layout's
/// logical width, kept exact as `pixels / logical`.
#[derive(Clone, Copy, Debug, PartialEq, Eq, Structural)]
pub struct Scale {
    pub pixels: u32,
    pub logical: i64,
}

/// Which buffer a selection is cut from.
#[derive(Clone, Copy, Debug, PartialEq, Eq, Structural)]
pub enum CropSource {
    /// The image of the output at this index in the layout.
    Monitor(usize),
    /// The composite image of the whole desktop.
    Composite,
}

/// A buffer and the pixel rectangle to cut from it.
#[derive(Clone, Copy, Debug, PartialEq, Eq, Structural)]
pub struct CropPlan {
    pub source: CropSource,
    pub x: u32,
    pub y: u32,
    pub width: u32,
    pub height: u32,
}

impl Scale {
    pub open spec fn wf(&self) -> bool {
        self.logical > 0
    }

    /// The scale between a composite image `pixels` wide and the layout.
    pub fn new(pixels: u32, layout: &Layout) -> (r: Scale)
        requires
            layout.wf(),
        ensures
            r.pixels == pixels,
            r.logical == layout.area.width,
            r.wf(),
    {
        Scale { pixels, logical: layout.area.width }
    }

    /// The scale between the composite image `composite` and the layout.
    pub fn of_image(composite: &DynamicImage, layout: &Layout) -> (r: Scale)
        requires
            layout.wf(),
        ensures
            r.pixels == pixel_width(*composite),
            r.logical == layout.area.width,
            r.wf(),
    {
        Scale::new(composite.width(), layout)
    }
}

/// A logical coordinate or extent in composite pixels: scaled, truncated
/// toward zero, and held to the range of `u32`.
pub open spec fn to_pixels(v: int, s: Scale) -> u32 {
    if v <= 0 {
        0
    } else if v * s.pixels / (s.logical as int) > u32::MAX {
        u32::MAX
    } else {
        (v * s.pixels / (s.logical as int)) as u32
    }
}

/// The index of the first of `rects` that contains `sel`, if any.
pub open spec fn first_container(sel: Rect, rects: Seq<Rect>) -> Option<int>
    decreases rects.len(),
{
    if rects.len() == 0 {
        None
    } else {
        match first_container(sel, rects.drop_last()) {
            Some(i) => Some(i),
            None => if contains_spec(rects.last(), sel) {
                Some(rects.len() - 1)
            } else {
                None
            },
        }
    }
}

/// Where `sel` is cut from: the first output that holds it wholly, at its
/// local position; otherwise the composite image, scaled.
pub open spec fn plan_spec(sel: Rect, rects: Seq<Rect>, s: Scale) -> CropPlan {
    match first_container(sel, rects) {
        Some(i) => {
            let l = local_spec(sel, rects[i]);
            CropPlan {
                source: CropSource::Monitor(i as usize),
                x: l.x as u32,
                y: l.y as u32,
                width: l.width as u32,
                height: l.height as u32,
            }
        },
        None => CropPlan {
            source: CropSource::Composite,
            x: to_pixels(sel.x as int, s),
            y: to_pixels(sel.y as int, s),
            width: to_pixels(sel.width as int, s),
            height: to_pixels(sel.height as int, s),
        },
    }
}

proof fn lemma_first_container_found(sel: Rect, rects: Seq<Rect>, n: int)
    requires
        0 <= n < rects.len(),
        first_container(sel, rects.take(n)).is_none(),
        contains_spec(rects[n], sel),
    ensures
        first_container(sel, rects.take(n + 1)) == Some(n),
{
    assert(rects.take(n + 1).drop_last() == rects.take(n));
}

/// The first match among a prefix is the first match overall.
proof fn lemma_first_container_prefix(sel: Rect, rects: Seq<Rect>, k: int, n: int)
    requires
        0 <= k <= n <= rects.len(),
        first_container(sel, rects.take(k)).is_some(),
    ensures
        first_container(sel, rects.take(n)) == first_container(sel, rects.take(k)),
    decreases n - k,
{
    if n > k {
        lemma_first_container_prefix(sel, rects, k, n - 1);
        assert(rects.take(n).drop_last() == rects.take(n - 1));
    }
}

fn scale_coord(v: i64, s: &Scale) -> (r: u32)
    requires
        s.wf(),
    ensures
        r == to_pixels(v as int, *s),
{
    if v <= 0 {
        return 0;
    }
    assert((v as int) * (s.pixels as int) <= (i64::MAX as int) * (u32::MAX as int)) by (nonlinear_arith)
        requires
            0 < v <= i64::MAX,
            0 <= s.pixels <= u32::MAX,
    ;
    let q: u128 = (v as u128) * (s.pixels as u128) / (s.logical as u128);
    if q > u32::MAX as u128 {
        u32::MAX
    } else {
        q as u32
    }
}

/// Decides where `sel` is cut from. Outputs are tried in layout order and
/// the first that holds the whole selection wins.
pub fn plan_crop(sel: &Rect, layout: &Layout, scale: &Scale) -> (r: CropPlan)
    requires
        layout.wf(),
        scale.wf(),
        valid(*sel),
    ensures
        r == plan_spec(*sel, layout.rects@, *scale),
{
    let mut i: usize = 0;
    while i < layout.rects.len()
        invariant
            0 <= i <= layout.rects@.len(),
            layout.wf(),
            valid(*sel),
            first_container(*sel, layout.rects@.take(i as int)).is_none(),
        decreases layout.rects@.len() - i,
    {
        let m = &layout.rects[i];
        if m.contains(sel) {
            proof {
                lemma_first_container_found(*sel, layout.rects@, i as int);
                lemma_first_container_prefix(*sel, layout.rects@, i as int + 1, layout.rects@.len() as int);
                assert(layout.rects@.take(layout.rects@.len() as int) == layout.rects@);
                assert(small(*m));
            }
            let l = sel.to_local(m);
            return CropPlan {
                source: CropSource::Monitor(i),
                x: l.x as u32,
                y: l.y as u32,
                width: l.width as u32,
                height: l.height as u32,
            };
        }
        proof {
            assert(layout.rects@.take(i as int + 1).drop_last() == layout.rects@.take(i as int));
        }
        i = i + 1;
    }
    proof {
        assert(layout.rects@.take(layout.rects@.len() as int) == layout.rects@);
    }
    CropPlan {
        source: CropSource::Composite,
        x: scale_coord(sel.x, scale),
        y: scale_coord(sel.y, scale),
        width: scale_coord(sel.width, scale),
        height: scale_coord(sel.height, scale),
    }
}

/// What the event loop does once an event has been handled.
#[derive(Clone, Copy, Debug, PartialEq, Eq, Structural)]
pub enum Outcome {
    /// The session goes on: wait for the next event.
    Continue,
    /// The session ended without a selection: produce nothing.
    Quit,
    /// The session ended with a selection: cut it as planned.
    Crop(CropPlan),
}

pub open spec fn outcome_spec(exit: ExitState, rects: Seq<Rect>, s: Scale) -> Outcome {
    match exit {
        ExitState::Pending => Outcome::Continue,
        ExitState::ExitOnly => Outcome::Quit,
        ExitState::ExitWithSelection(sel) => Outcome::Crop(plan_spec(sel, rects, s)),
    }
}

/// Turns an exit decision into what the event loop does next.
pub fn outcome(exit: ExitState, layout: &Layout, scale: &Scale) -> (r: Outcome)
    requires
        layout.wf(),
        scale.wf(),
        exit matches ExitState::ExitWithSelection(sel) ==> valid(sel),
    ensures
        r == outcome_spec(exit, layout.rects@, *scale),
{
    match exit {
        ExitState::Pending => Outcome::Continue,
        ExitState::ExitOnly => Outcome::Quit,
        ExitState::ExitWithSelection(sel) => Outcome::Crop(plan_crop(&sel, layout, scale)),
    }
}

/// The image that `plan` describes.
pub open spec fn crop_result(plan: CropPlan, images: Seq<DynamicImage>, composite: DynamicImage) -> DynamicImage {
    let src = match plan.source {
        CropSource::Monitor(i) => images[i as int],
        CropSource::Composite => composite,
    };
    cropped(src, plan.x, plan.y, plan.width, plan.height)
}

/// Cuts `plan`'s rectangle out of its buffer: the image of that output, or
/// the composite.
pub fn apply_plan(plan: &CropPlan, images: &Vec<DynamicImage>, composite: &DynamicImage) -> (r: DynamicImage)
    requires
        plan.source matches CropSource::Monitor(i) ==> i < images@.len(),
    ensures
        r == crop_result(*plan, images@, *composite),
{
    match plan.source {
        CropSource::Monitor(i) => images[i].crop_imm(plan.x, plan.y, plan.width, plan.height),
        CropSource::Composite => composite.crop_imm(plan.x, plan.y, plan.width, plan.height),
    }
}

/// Cuts the finished selection `sel` out of the captured buffers: `images`
/// holds one image per output of `layout`, in the same order.
pub fn capture(
    sel: &Rect,
    layout: &Layout,
    scale: &Scale,
    images: &Vec<DynamicImage>,
    composite: &DynamicImage,
) -> (r: DynamicImage)
    requires
        layout.wf(),
        scale.wf(),
        valid(*sel),
        images@.len() == layout.rects@.len(),
    ensures
        r == crop_result(plan_spec(*sel, layout.rects@, *scale), images@, *composite),
{
    let plan = plan_crop(sel, layout, scale);
    proof {
        lemma_first_container_is_first_match(*sel, layout.rects@);
    }
    apply_plan(&plan, images, composite)
}

/// The output a selection is cut from is the first in layout order that
/// holds it wholly; when none does, the composite is used.
pub proof fn lemma_first_container_is_first_match(sel: Rect, rects: Seq<Rect>)
    ensures
        match first_container(sel, rects) {
            Some(i) => {
                &&& 0 <= i < rects.len()
                &&& contains_spec(rects[i], sel)
                &&& forall|j: int| 0 <= j < i ==> !contains_spec(#[trigger] rects[j], sel)
            },
            None => forall|j: int| 0 <= j < rects.len() ==> !contains_spec(#[trigger] rects[j], sel),
        },
    decreases rects.len(),
{
    if rects.len() > 0 {
        let init = rects.drop_last();
        lemma_first_container_is_first_match(sel, init);
        assert forall|j: int| 0 <= j < init.len() implies init[j] == rects[j] by {}
    }
}

} // verus!
