//! The display layout: one rectangle per output and the area spanning them.
use vstd::prelude::*;
use crate::geometry::{Rect, valid, bounding, fold_fits, union_fits, union_spec, contains_spec, lemma_bounding_contains_all};

verus! {

/// What the display server reported about one output, in logical units.
#[derive(Clone, Copy, Debug)]
pub struct OutputGeometry {
    pub logical_size: Option<(i32, i32)>,
    pub logical_position: Option<(i32, i32)>,
}

/// Why a layout could not be established.
#[derive(Clone, Copy, Debug, PartialEq, Eq, Structural)]
pub enum LayoutError {
    /// The output at this index has no logical size.
    MissingSize { output: usize },
    /// The output at this index reported a negative logical size.
    InvalidSize { output: usize },
    /// The output at this index has no logical position.
    MissingPosition { output: usize },
    /// No output was reported at all.
    NoMonitors,
    /// The outputs span no horizontal extent, so no scale can be derived.
    EmptyArea,
}

/// The rectangles of all outputs, in the order they were reported, and their
/// bounding area.
#[derive(Debug)]
pub struct Layout {
    pub rects: Vec<Rect>,
    pub area: Rect,
}

/// What is wrong with the output at `index`, if anything. The size is looked
/// at before the position.
pub open spec fn output_error(o: OutputGeometry, index: usize) -> Option<LayoutError> {
    match o.logical_size {
        None => Some(LayoutError::MissingSize { output: index }),
        Some((w, h)) => {
            if w < 0 || h < 0 {
                Some(LayoutError::InvalidSize { output: index })
            } else if o.logical_position.is_none() {
                Some(LayoutError::MissingPosition { output: index })
            } else {
                None
            }
        },
    }
}

/// The first error among the first `n` outputs.
pub open spec fn first_error(outs: Seq<OutputGeometry>, n: int) -> Option<LayoutError>
    decreases n,
{
    if n <= 0 {
        None
    } else {
        match first_error(outs, n - 1) {
            Some(e) => Some(e),
            None => output_error(outs[n - 1], (n - 1) as usize),
        }
    }
}

/// Once an error is found among the first `k` outputs, looking at more
/// outputs does not change it.
proof fn lemma_first_error_stays(outs: Seq<OutputGeometry>, k: int, n: int)
    requires
        0 <= k <= n,
        first_error(outs, k).is_some(),
    ensures
        first_error(outs, n) == first_error(outs, k),
    decreases n - k,
{
    if n > k {
        lemma_first_error_stays(outs, k, n - 1);
    }
}

/// The rectangle of an output whose geometry is complete.
pub open spec fn output_rect(o: OutputGeometry) -> Rect {
    Rect {
        x: o.logical_position.unwrap().0 as i64,
        y: o.logical_position.unwrap().1 as i64,
        width: o.logical_size.unwrap().0 as i64,
        height: o.logical_size.unwrap().1 as i64,
    }
}

pub open spec fn output_rects(outs: Seq<OutputGeometry>) -> Seq<Rect> {
    outs.map_values(|o: OutputGeometry| output_rect(o))
}

/// What building a layout from `outs` gives.
pub open spec fn layout_result(outs: Seq<OutputGeometry>) -> Result<(Seq<Rect>, Rect), LayoutError> {
    if outs.len() == 0 {
        Err(LayoutError::NoMonitors)
    } else if first_error(outs, outs.len() as int).is_some() {
        Err(first_error(outs, outs.len() as int).unwrap())
    } else if bounding(output_rects(outs)).width == 0 {
        Err(LayoutError::EmptyArea)
    } else {
        Ok((output_rects(outs), bounding(output_rects(outs))))
    }
}

/// A rectangle built from 32-bit geometry.
pub open spec fn small(r: Rect) -> bool {
    &&& i32::MIN <= r.x <= i32::MAX
    &&& i32::MIN <= r.y <= i32::MAX
    &&& 0 <= r.width <= i32::MAX
    &&& 0 <= r.height <= i32::MAX
}

/// The bounding box of rectangles built from 32-bit geometry stays within
/// bounds that a 64-bit rectangle holds with room to spare.
proof fn lemma_bounding_bounds(rs: Seq<Rect>)
    requires
        rs.len() > 0,
        forall|i: int| 0 <= i < rs.len() ==> small(#[trigger] rs[i]),
    ensures
        fold_fits(rs),
        i32::MIN <= bounding(rs).x,
        i32::MIN <= bounding(rs).y,
        0 <= bounding(rs).width,
        0 <= bounding(rs).height,
        bounding(rs).x + bounding(rs).width <= 2 * (i32::MAX as int),
        bounding(rs).y + bounding(rs).height <= 2 * (i32::MAX as int),
    decreases rs.len(),
{
    if rs.len() > 1 {
        let init = rs.drop_last();
        assert forall|i: int| 0 <= i < init.len() implies small(#[trigger] init[i]) by {
            assert(init[i] == rs[i]);
        }
        lemma_bounding_bounds(init);
        assert(small(rs.last()));
    } else {
        assert(small(rs[0]));
    }
}

impl Layout {
    /// Well-formed: at least one output, every rectangle valid, and `area`
    /// the bounding box of the rectangles with a positive width.
    pub open spec fn wf(&self) -> bool {
        &&& self.rects@.len() > 0
        &&& forall|i: int| 0 <= i < self.rects@.len() ==> valid(#[trigger] self.rects@[i])
        &&& forall|i: int| 0 <= i < self.rects@.len() ==> small(#[trigger] self.rects@[i])
        &&& fold_fits(self.rects@)
        &&& self.area == bounding(self.rects@)
        &&& valid(self.area)
        &&& self.area.width > 0
    }

    /// Builds the layout from the outputs in the order they were reported,
    /// growing the area by each output's rectangle in turn.
    pub fn from_outputs(outs: &Vec<OutputGeometry>) -> (r: Result<Layout, LayoutError>)
        ensures
            match (r, layout_result(outs@)) {
                (Ok(l), Ok((rects, area))) => l.rects@ == rects && l.area == area && l.wf(),
                (Err(e), Err(f)) => e == f,
                _ => false,
            },
    {
        if outs.len() == 0 {
            return Err(LayoutError::NoMonitors);
        }
        let mut rects: Vec<Rect> = Vec::new();
        let mut area = Rect { x: 0, y: 0, width: 0, height: 0 };
        let mut i: usize = 0;
        while i < outs.len()
            invariant
                0 <= i <= outs@.len(),
                outs@.len() > 0,
                first_error(outs@, i as int).is_none(),
                rects@ == output_rects(outs@.take(i as int)),
                forall|j: int| 0 <= j < rects@.len() ==> small(#[trigger] rects@[j]),
                i > 0 ==> area == bounding(rects@),
            decreases outs@.len() - i,
        {
            let o = outs[i];
            let (w, h) = match o.logical_size {
                None => {
                    proof {
                        lemma_first_error_stays(outs@, i as int + 1, outs@.len() as int);
                    }
                    return Err(LayoutError::MissingSize { output: i });
                },
                Some(s) => s,
            };
            if w < 0 || h < 0 {
                proof {
                    lemma_first_error_stays(outs@, i as int + 1, outs@.len() as int);
                }
                return Err(LayoutError::InvalidSize { output: i });
            }
            let (px, py) = match o.logical_position {
                None => {
                    proof {
                        lemma_first_error_stays(outs@, i as int + 1, outs@.len() as int);
                    }
                    return Err(LayoutError::MissingPosition { output: i });
                },
                Some(p) => p,
            };
            let rect = Rect { x: px as i64, y: py as i64, width: w as i64, height: h as i64 };
            assert(rect == output_rect(outs@[i as int]));
            proof {
                if i > 0 {
                    lemma_bounding_bounds(rects@);
                }
            }
            if i == 0 {
                area = rect;
            } else {
                area.extend(&rect);
            }
            let ghost prev = rects@;
            rects.push(rect);
            proof {
                assert(outs@.take(i as int + 1) == outs@.take(i as int).push(outs@[i as int]));
                assert(output_rects(outs@.take(i as int + 1)) == output_rects(outs@.take(i as int)).push(rect));
                assert(rects@.drop_last() == prev);
            }
            i = i + 1;
        }
        proof {
            assert(outs@.take(outs@.len() as int) == outs@);
            lemma_bounding_bounds(rects@);
            assert forall|j: int| 0 <= j < rects@.len() implies valid(#[trigger] rects@[j]) by {
                assert(small(rects@[j]));
            }
        }
        if area.width == 0 {
            return Err(LayoutError::EmptyArea);
        }
        Ok(Layout { rects, area })
    }
}

/// The area of a layout contains the rectangle of every output.
pub proof fn lemma_area_contains_outputs(l: &Layout)
    requires
        l.wf(),
    ensures
        forall|i: int| 0 <= i < l.rects@.len() ==> contains_spec(l.area, #[trigger] l.rects@[i]),
{
    lemma_bounding_contains_all(l.rects@);
}

/// Without any output there is no layout, and so no scale is ever derived.
pub proof fn lemma_no_outputs_rejected(outs: Seq<OutputGeometry>)
    requires
        outs.len() == 0,
    ensures
        layout_result(outs) == Err::<(Seq<Rect>, Rect), LayoutError>(LayoutError::NoMonitors),
{
}

} // verus!
