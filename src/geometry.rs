//! Axis-aligned rectangles in logical coordinates.
use vstd::prelude::*;

verus! {

/// An axis-aligned rectangle: top-left corner and extent.
#[derive(Clone, Copy, Debug, PartialEq, Eq, Structural)]
pub struct Rect {
    pub x: i64,
    pub y: i64,
    pub width: i64,
    pub height: i64,
}

/// A rectangle whose extent is non-negative and whose right and bottom edges
/// are representable.
pub open spec fn valid(r: Rect) -> bool {
    &&& r.width >= 0
    &&& r.height >= 0
    &&& r.x + r.width <= i64::MAX
    &&& r.y + r.height <= i64::MAX
}

/// The x coordinate just past the right edge.
pub open spec fn right(r: Rect) -> int {
    r.x + r.width
}

/// The y coordinate just past the bottom edge.
pub open spec fn bottom(r: Rect) -> int {
    r.y + r.height
}

pub open spec fn min_int(a: int, b: int) -> int {
    if a <= b { a } else { b }
}

pub open spec fn max_int(a: int, b: int) -> int {
    if a >= b { a } else { b }
}

// The components of the smallest rectangle holding both `a` and `b`, in
// unbounded integers.
pub open spec fn union_x(a: Rect, b: Rect) -> int {
    min_int(a.x as int, b.x as int)
}

pub open spec fn union_y(a: Rect, b: Rect) -> int {
    min_int(a.y as int, b.y as int)
}

pub open spec fn union_width(a: Rect, b: Rect) -> int {
    max_int(right(a), right(b)) - union_x(a, b)
}

pub open spec fn union_height(a: Rect, b: Rect) -> int {
    max_int(bottom(a), bottom(b)) - union_y(a, b)
}

/// The bounding union of `a` and `b` fits the rectangle type.
pub open spec fn union_fits(a: Rect, b: Rect) -> bool {
    union_width(a, b) <= i64::MAX && union_height(a, b) <= i64::MAX
}

/// `inner` lies wholly inside `outer` (edges may touch).
pub open spec fn contains_spec(outer: Rect, inner: Rect) -> bool {
    &&& inner.x >= outer.x
    &&& inner.y >= outer.y
    &&& right(inner) <= right(outer)
    &&& bottom(inner) <= bottom(outer)
}

/// `r` moved into the coordinate space whose origin is `origin`'s corner.
pub open spec fn local_spec(r: Rect, origin: Rect) -> Rect {
    Rect {
        x: (r.x - origin.x) as i64,
        y: (r.y - origin.y) as i64,
        width: r.width,
        height: r.height,
    }
}

fn min_i64(a: i64, b: i64) -> (r: i64)
    ensures
        r == min_int(a as int, b as int),
{
    if a <= b { a } else { b }
}

fn max_i64(a: i64, b: i64) -> (r: i64)
    ensures
        r == max_int(a as int, b as int),
{
    if a >= b { a } else { b }
}

impl Rect {
    /// Grows `self` to the bounding box of itself and `other`.
    pub fn extend(&mut self, other: &Rect)
        requires
            valid(*old(self)),
            valid(*other),
            union_fits(*old(self), *other),
        ensures
            valid(*final(self)),
            final(self).x == union_x(*old(self), *other),
            final(self).y == union_y(*old(self), *other),
            final(self).width == union_width(*old(self), *other),
            final(self).height == union_height(*old(self), *other),
            *final(self) == union_spec(*old(self), *other),
    {
        let x = min_i64(self.x, other.x);
        let y = min_i64(self.y, other.y);
        let r = max_i64(self.x + self.width, other.x + other.width);
        let b = max_i64(self.y + self.height, other.y + other.height);
        self.x = x;
        self.y = y;
        self.width = r - x;
        self.height = b - y;
    }

    /// Whether `inner` lies wholly inside `self`.
    pub fn contains(&self, inner: &Rect) -> (r: bool)
        requires
            valid(*self),
            valid(*inner),
        ensures
            r == contains_spec(*self, *inner),
    {
        inner.x >= self.x && inner.y >= self.y && inner.x + inner.width <= self.x + self.width
            && inner.y + inner.height <= self.y + self.height
    }

    /// `self` expressed relative to the top-left corner of `origin`.
    pub fn to_local(&self, origin: &Rect) -> (r: Rect)
        requires
            valid(*origin),
            valid(*self),
            contains_spec(*origin, *self),
        ensures
            r == local_spec(*self, *origin),
            valid(r),
            contains_spec(Rect { x: 0, y: 0, width: origin.width, height: origin.height }, r),
    {
        Rect {
            x: self.x - origin.x,
            y: self.y - origin.y,
            width: self.width,
            height: self.height,
        }
    }
}

/// The bounding union of `a` and `b` as a rectangle.
pub open spec fn union_spec(a: Rect, b: Rect) -> Rect {
    Rect {
        x: union_x(a, b) as i64,
        y: union_y(a, b) as i64,
        width: union_width(a, b) as i64,
        height: union_height(a, b) as i64,
    }
}

/// The bounding box of a non-empty sequence of rectangles, folded from the
/// first onwards with `union_spec`.
pub open spec fn bounding(rs: Seq<Rect>) -> Rect
    decreases rs.len(),
{
    if rs.len() <= 1 {
        if rs.len() == 1 { rs[0] } else { Rect { x: 0, y: 0, width: 0, height: 0 } }
    } else {
        union_spec(bounding(rs.drop_last()), rs.last())
    }
}

/// Every step of the fold that builds `bounding(rs)` stays representable.
pub open spec fn fold_fits(rs: Seq<Rect>) -> bool
    decreases rs.len(),
{
    if rs.len() <= 1 {
        true
    } else {
        fold_fits(rs.drop_last()) && union_fits(bounding(rs.drop_last()), rs.last())
    }
}

/// The union of two valid rectangles contains both of them.
pub proof fn lemma_union_contains(a: Rect, b: Rect)
    requires
        valid(a),
        valid(b),
        union_fits(a, b),
    ensures
        valid(union_spec(a, b)),
        contains_spec(union_spec(a, b), a),
        contains_spec(union_spec(a, b), b),
{
}

/// Containment is transitive.
pub proof fn lemma_contains_transitive(a: Rect, b: Rect, c: Rect)
    requires
        contains_spec(a, b),
        contains_spec(b, c),
    ensures
        contains_spec(a, c),
{
}

/// Folding any non-empty sequence of valid rectangles with `extend` gives a
/// rectangle that contains every one of them.
pub proof fn lemma_bounding_contains_all(rs: Seq<Rect>)
    requires
        rs.len() > 0,
        forall|i: int| 0 <= i < rs.len() ==> valid(#[trigger] rs[i]),
        fold_fits(rs),
    ensures
        valid(bounding(rs)),
        forall|i: int| 0 <= i < rs.len() ==> contains_spec(bounding(rs), #[trigger] rs[i]),
    decreases rs.len(),
{
    if rs.len() > 1 {
        let init = rs.drop_last();
        assert forall|i: int| 0 <= i < init.len() implies valid(#[trigger] init[i]) by {
            assert(init[i] == rs[i]);
        }
        lemma_bounding_contains_all(init);
        lemma_union_contains(bounding(init), rs.last());
        assert forall|i: int| 0 <= i < rs.len() implies contains_spec(
            bounding(rs),
            #[trigger] rs[i],
        ) by {
            if i < rs.len() - 1 {
                assert(init[i] == rs[i]);
                lemma_contains_transitive(bounding(rs), bounding(init), rs[i]);
            }
        }
    }
}

/// Every rectangle contains itself.
pub proof fn lemma_contains_reflexive(r: Rect)
    requires
        valid(r),
    ensures
        contains_spec(r, r),
{
}

/// Moving a contained rectangle into its container's local space and back by
/// the container's corner gives the rectangle back unchanged.
pub proof fn lemma_local_round_trip(r: Rect, origin: Rect)
    requires
        valid(r),
        valid(origin),
        contains_spec(origin, r),
    ensures
        ({
            let l = local_spec(r, origin);
            l.x + origin.x == r.x && l.y + origin.y == r.y && l.width == r.width && l.height
                == r.height
        }),
{
}

} // verus!
