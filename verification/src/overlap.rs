//! Intersection area of two axis-aligned rectangles.

use vstd::math::{max, min};
use vstd::prelude::*;

use crate::rect::{RectModel, RectObj};

verus! {

/// The x coordinate of a rectangle's left edge.
pub open spec fn rect_left(a: RectModel) -> int {
    a.x
}

/// The x coordinate of a rectangle's right edge.
pub open spec fn rect_right(a: RectModel) -> int {
    a.x + a.width
}

/// The y coordinate of a rectangle's top edge (the y axis grows downwards).
pub open spec fn rect_top(a: RectModel) -> int {
    a.y
}

/// The y coordinate of a rectangle's bottom edge.
pub open spec fn rect_bottom(a: RectModel) -> int {
    a.y - a.height
}

/// The area of the intersection of rectangles `a` and `b`.
///
/// A rectangle with zero width or zero height cannot meaningfully overlap
/// anything, so any such operand gives area 0. Otherwise the intersection
/// of the two rectangles spans `[max(left), min(right)]` horizontally and
/// `[max(bottom), min(top)]` vertically; the overlap area is the product
/// of the two spans when both are strictly positive, and 0 when the spans
/// are empty or degenerate — rectangles that merely touch along an edge or
/// at a corner do not overlap.
pub open spec fn spec_overlap(a: RectModel, b: RectModel) -> int {
    if a.width == 0 || a.height == 0 || b.width == 0 || b.height == 0 {
        0
    } else {
        let l = max(rect_left(a), rect_left(b));
        let r = min(rect_right(a), rect_right(b));
        let b_edge = max(rect_bottom(a), rect_bottom(b));
        let t = min(rect_top(a), rect_top(b));
        if l < r && b_edge < t {
            (r - l) * (t - b_edge)
        } else {
            0
        }
    }
}

/// The overlap area is never negative.
pub proof fn lemma_overlap_nonneg(a: RectModel, b: RectModel)
    ensures
        spec_overlap(a, b) >= 0,
{
    if a.width != 0 && a.height != 0 && b.width != 0 && b.height != 0 {
        let l = max(rect_left(a), rect_left(b));
        let r = min(rect_right(a), rect_right(b));
        let b_edge = max(rect_bottom(a), rect_bottom(b));
        let t = min(rect_top(a), rect_top(b));
        if l < r && b_edge < t {
            assert((r - l) * (t - b_edge) >= 0) by (nonlinear_arith)
                requires
                    r - l > 0,
                    t - b_edge > 0,
            ;
        }
    }
}

/// Overlap is symmetric: the intersection area does not depend on the
/// order of the two rectangles.
pub proof fn lemma_overlap_symmetric(a: RectModel, b: RectModel)
    ensures
        spec_overlap(a, b) == spec_overlap(b, a),
{
}

/// A rectangle of positive dimensions overlaps itself in its full area.
pub proof fn lemma_overlap_self(a: RectModel)
    requires
        a.width > 0,
        a.height > 0,
    ensures
        spec_overlap(a, a) == a.width * a.height,
{
}

/// A degenerate rectangle — zero width or zero height — overlaps nothing.
pub proof fn lemma_overlap_zero_size(a: RectModel, b: RectModel)
    requires
        a.width == 0 || a.height == 0,
    ensures
        spec_overlap(a, b) == 0,
        spec_overlap(b, a) == 0,
{
}

/// Rectangles that share only an edge or a corner do not overlap: when
/// some right edge coincides with the other rectangle's left edge, or some
/// bottom edge with the other's top edge, the intersection is degenerate
/// and its area is 0.
pub proof fn lemma_touching_not_overlapping(a: RectModel, b: RectModel)
    requires
        rect_right(a) == rect_left(b) || rect_right(b) == rect_left(a) || rect_bottom(a)
            == rect_top(b) || rect_bottom(b) == rect_top(a),
    ensures
        spec_overlap(a, b) == 0,
{
}

/// Disjoint rectangles — separated by a gap along some axis — do not
/// overlap.
pub proof fn lemma_disjoint_not_overlapping(a: RectModel, b: RectModel)
    requires
        rect_right(a) < rect_left(b) || rect_right(b) < rect_left(a) || rect_bottom(a)
            > rect_top(b) || rect_bottom(b) > rect_top(a),
    ensures
        spec_overlap(a, b) == 0,
{
}

/// The intersection area of two rectangles, following the edge convention
/// `left = x`, `right = x + width`, `top = y`, `bottom = y - height`.
///
/// Returns a positive area exactly when the two rectangles share interior
/// points; touching or disjoint rectangles, and any operand of zero width
/// or height, give 0.
pub fn compute_overlap(rc0: &RectObj, rc1: &RectObj) -> (area: i128)
    ensures
        area == spec_overlap(rc0@, rc1@),
        area >= 0,
{
    proof {
        lemma_overlap_nonneg(rc0@, rc1@);
    }
    if rc0.width == 0 || rc0.height == 0 || rc1.width == 0 || rc1.height == 0 {
        return 0;
    }
    let l0: i128 = rc0.x as i128;
    let r0: i128 = rc0.x as i128 + rc0.width as i128;
    let t0: i128 = rc0.y as i128;
    let b0: i128 = rc0.y as i128 - rc0.height as i128;
    let l1: i128 = rc1.x as i128;
    let r1: i128 = rc1.x as i128 + rc1.width as i128;
    let t1: i128 = rc1.y as i128;
    let b1: i128 = rc1.y as i128 - rc1.height as i128;
    let l: i128 = if l0 > l1 { l0 } else { l1 };
    let r: i128 = if r0 < r1 { r0 } else { r1 };
    let b: i128 = if b0 > b1 { b0 } else { b1 };
    let t: i128 = if t0 < t1 { t0 } else { t1 };

    if l < r && b < t {
        let x_overlap = r - l;
        let y_overlap = t - b;
        assert(x_overlap * y_overlap <= i128::MAX) by (nonlinear_arith)
            requires
                0 < x_overlap <= r0 - l0,
                0 < y_overlap <= t0 - b0,
                r0 - l0 < 0x8000_0000_0000_0000,
                t0 - b0 < 0x8000_0000_0000_0000,
        ;
        assert(x_overlap * y_overlap >= 0) by (nonlinear_arith)
            requires
                x_overlap > 0,
                y_overlap > 0,
        ;
        x_overlap * y_overlap
    } else {
        0
    }
}

} // verus!
