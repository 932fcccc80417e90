//! The rectangle record and its mathematical model.

use vstd::prelude::*;

verus! {

/// Mathematical view of a [`RectFlags`] record: the three strings as
/// character sequences.
pub ghost struct RectFlagsModel {
    pub name: Seq<char>,
    pub kind: Seq<char>,
    pub value: Seq<char>,
}

/// Mathematical view of a [`RectProps`] payload.
pub ghost struct RectPropsModel {
    pub flags: RectFlagsModel,
}

/// Mathematical view of a rectangle: the name as a character sequence and
/// the four geometric attributes as unbounded integers.
///
/// The rectangle spans `[x, x + width]` horizontally and
/// `[y - height, y]` vertically (the y axis grows downwards, so `y` is the
/// top edge and `y - height` the bottom edge).
pub ghost struct RectModel {
    pub name: Seq<char>,
    pub properties: Option<RectPropsModel>,
    pub width: int,
    pub height: int,
    pub x: int,
    pub y: int,
}

/// A named flag carried in a rectangle's optional properties payload.
pub struct RectFlags {
    pub name: String,
    pub kind: String,
    pub value: String,
}

/// Optional payload attached to a rectangle; irrelevant to geometry.
pub struct RectProps {
    pub flags: RectFlags,
}

/// An axis-aligned rectangle with origin `(x, y)`, extending `width` to the
/// right and `height` downwards: its edges are `left = x`,
/// `right = x + width`, `top = y`, `bottom = y - height`.
///
/// Coordinates are whole units. `width` and `height` are intended to be
/// non-negative but are not validated; a rectangle with a negative
/// dimension never overlaps anything, since its right edge lies left of
/// its left edge (or its bottom above its top).
pub struct RectObj {
    pub name: String,
    pub properties: Option<RectProps>,
    pub width: i64,
    pub height: i64,
    pub x: i64,
    pub y: i64,
}

impl View for RectFlags {
    type V = RectFlagsModel;

    open spec fn view(&self) -> RectFlagsModel {
        RectFlagsModel { name: self.name@, kind: self.kind@, value: self.value@ }
    }
}

impl View for RectProps {
    type V = RectPropsModel;

    open spec fn view(&self) -> RectPropsModel {
        RectPropsModel { flags: self.flags@ }
    }
}

impl View for RectObj {
    type V = RectModel;

    open spec fn view(&self) -> RectModel {
        RectModel {
            name: self.name@,
            properties: match self.properties {
                Some(p) => Some(p@),
                None => None,
            },
            width: self.width as int,
            height: self.height as int,
            x: self.x as int,
            y: self.y as int,
        }
    }
}

impl Clone for RectFlags {
    fn clone(&self) -> (res: Self)
        ensures
            res@ == self@,
    {
        RectFlags { name: self.name.clone(), kind: self.kind.clone(), value: self.value.clone() }
    }
}

impl Clone for RectProps {
    fn clone(&self) -> (res: Self)
        ensures
            res@ == self@,
    {
        RectProps { flags: self.flags.clone() }
    }
}

impl Clone for RectObj {
    fn clone(&self) -> (res: Self)
        ensures
            res@ == self@,
    {
        RectObj {
            name: self.name.clone(),
            properties: match &self.properties {
                Some(p) => Some(p.clone()),
                None => None,
            },
            width: self.width,
            height: self.height,
            x: self.x,
            y: self.y,
        }
    }
}

/// The area of a `width` by `height` rectangle, as an exact product.
///
/// The result type is wide enough that the product never overflows.
pub fn calculate_rect_area(w: i64, h: i64) -> (area: i128)
    ensures
        area == w * h,
{
    let wi: i128 = w as i128;
    let hi: i128 = h as i128;
    assert(i128::MIN <= wi * hi <= i128::MAX) by (nonlinear_arith)
        requires
            -0x8000_0000_0000_0000 <= wi <= 0x7fff_ffff_ffff_ffff,
            -0x8000_0000_0000_0000 <= hi <= 0x7fff_ffff_ffff_ffff,
    ;
    wi * hi
}

} // verus!
