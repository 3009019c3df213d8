//! Axis-aligned rectangles with integer corner coordinates.
//!
//! A rectangle is stored as two corners and is not kept normalized: while a
//! shape is being dragged out, the start corner may lie to the right of or
//! below the end corner.  Every containment test therefore normalizes both
//! operands first, so a box dragged in any direction behaves identically.

use vstd::prelude::*;

verus! {

/// An axis-aligned box given by two corner points, not necessarily normalized.
#[derive(Debug, Clone, Copy, PartialEq, Eq, Structural)]
pub struct Rect {
    pub start_x: i32,
    pub start_y: i32,
    pub end_x: i32,
    pub end_y: i32,
}

/// Mathematical minimum of two coordinates.
pub open spec fn spec_min(a: int, b: int) -> int {
    if a < b {
        a
    } else {
        b
    }
}

/// Mathematical maximum of two coordinates.
pub open spec fn spec_max(a: int, b: int) -> int {
    if a < b {
        b
    } else {
        a
    }
}

/// The normalized form of a rectangle: start <= end on both axes.
pub open spec fn spec_fix(r: Rect) -> Rect {
    Rect {
        start_x: spec_min(r.start_x as int, r.end_x as int) as i32,
        start_y: spec_min(r.start_y as int, r.end_y as int) as i32,
        end_x: spec_max(r.start_x as int, r.end_x as int) as i32,
        end_y: spec_max(r.start_y as int, r.end_y as int) as i32,
    }
}

/// Whether the point (x, y) lies strictly inside the normalized bounds of `r`
/// (points on the boundary do not count).
pub open spec fn spec_in_point(r: Rect, x: int, y: int) -> bool {
    let f = spec_fix(r);
    f.start_x < x < f.end_x && f.start_y < y < f.end_y
}

/// Whether `inner`'s normalized bounds lie strictly inside `outer`'s
/// normalized bounds on all four sides.
pub open spec fn spec_inside(inner: Rect, outer: Rect) -> bool {
    let i = spec_fix(inner);
    let o = spec_fix(outer);
    o.start_x < i.start_x && o.start_y < i.start_y && i.end_x < o.end_x && i.end_y < o.end_y
}

impl Rect {
    pub fn new(start_x: i32, start_y: i32, end_x: i32, end_y: i32) -> (r: Rect)
        ensures
            r == (Rect { start_x, start_y, end_x, end_y }),
    {
        Rect { start_x, start_y, end_x, end_y }
    }

    /// True iff this rectangle lies strictly inside `rect` once both are
    /// normalized (full containment, used for marquee selection).
    pub fn is_inside(&self, rect: Rect) -> (r: bool)
        ensures
            r == spec_inside(*self, rect),
    {
        let rect = fix_rect(&rect);
        let target_rect = fix_rect(self);
        if target_rect.start_x > rect.start_x && target_rect.start_y > rect.start_y {
            if target_rect.end_x < rect.end_x && target_rect.end_y < rect.end_y {
                return true;
            }
        }
        false
    }

    /// Signed width: negative while a shape is dragged leftwards.
    pub fn get_width(&self) -> (w: i32)
        requires
            i32::MIN <= self.end_x - self.start_x <= i32::MAX,
        ensures
            w == self.end_x - self.start_x,
    {
        self.end_x - self.start_x
    }

    /// Signed height: negative while a shape is dragged upwards.
    pub fn get_height(&self) -> (h: i32)
        requires
            i32::MIN <= self.end_y - self.start_y <= i32::MAX,
        ensures
            h == self.end_y - self.start_y,
    {
        self.end_y - self.start_y
    }

    /// True iff the point (x, y) is strictly inside the normalized bounds.
    pub fn is_in_point(&self, x: i32, y: i32) -> (r: bool)
        ensures
            r == spec_in_point(*self, x as int, y as int),
    {
        let rect = fix_rect(self);
        if x > rect.start_x && x < rect.end_x {
            if y > rect.start_y && y < rect.end_y {
                return true;
            }
        }
        false
    }
}

impl Default for Rect {
    fn default() -> (r: Rect)
        ensures
            r == (Rect { start_x: 0, start_y: 0, end_x: 0, end_y: 0 }),
    {
        Rect { start_x: 0, start_y: 0, end_x: 0, end_y: 0 }
    }
}

/// The normalized form of `rect`: the same box with start <= end on both axes.
pub fn fix_rect(rect: &Rect) -> (r: Rect)
    ensures
        r == spec_fix(*rect),
{
    let start_x = if rect.start_x < rect.end_x {
        rect.start_x
    } else {
        rect.end_x
    };
    let start_y = if rect.start_y < rect.end_y {
        rect.start_y
    } else {
        rect.end_y
    };
    let end_x = if rect.start_x < rect.end_x {
        rect.end_x
    } else {
        rect.start_x
    };
    let end_y = if rect.start_y < rect.end_y {
        rect.end_y
    } else {
        rect.start_y
    };
    Rect { start_x, start_y, end_x, end_y }
}

/// Whether shifting both corners of `r` by (dx, dy) stays within the i32
/// coordinate range.
pub open spec fn spec_can_translate(r: Rect, dx: int, dy: int) -> bool {
    &&& i32::MIN <= r.start_x + dx <= i32::MAX
    &&& i32::MIN <= r.start_y + dy <= i32::MAX
    &&& i32::MIN <= r.end_x + dx <= i32::MAX
    &&& i32::MIN <= r.end_y + dy <= i32::MAX
}

/// The rectangle shifted by (dx, dy): both corners move by the same offset,
/// so width and height are preserved exactly.
pub open spec fn spec_translate(r: Rect, dx: int, dy: int) -> Rect {
    Rect {
        start_x: (r.start_x + dx) as i32,
        start_y: (r.start_y + dy) as i32,
        end_x: (r.end_x + dx) as i32,
        end_y: (r.end_y + dy) as i32,
    }
}

/// Normalization is idempotent: normalizing a normalized rectangle changes
/// nothing.
pub proof fn lemma_fix_rect_idempotent(r: Rect)
    ensures
        spec_fix(spec_fix(r)) == spec_fix(r),
{
}

/// Point containment does not depend on the order in which the corners were
/// supplied: all four ways of pairing the same two corners agree (drag
/// direction invariance).
pub proof fn lemma_in_point_drag_invariance(x1: i32, y1: i32, x2: i32, y2: i32, px: int, py: int)
    ensures
        spec_in_point(Rect { start_x: x1, start_y: y1, end_x: x2, end_y: y2 }, px, py)
            == spec_in_point(Rect { start_x: x2, start_y: y2, end_x: x1, end_y: y1 }, px, py),
        spec_in_point(Rect { start_x: x1, start_y: y1, end_x: x2, end_y: y2 }, px, py)
            == spec_in_point(Rect { start_x: x1, start_y: y2, end_x: x2, end_y: y1 }, px, py),
        spec_in_point(Rect { start_x: x1, start_y: y1, end_x: x2, end_y: y2 }, px, py)
            == spec_in_point(Rect { start_x: x2, start_y: y1, end_x: x1, end_y: y2 }, px, py),
{
}

} // verus!
