//! The computed part of raster export: the tight bounding box around all
//! elements, expanded by the configured padding.  The drawing shell copies
//! that area of the canvas into the image file.

use vstd::prelude::*;

use crate::element::ElementView;
use crate::rect::{spec_max, spec_min, Rect};
use crate::scene::AppData;

verus! {

/// The running bounds (x1, y1, x2, y2) of all element corners, folded in
/// scene order.  The fold starts from (i32::MAX, i32::MAX, 0, 0), so an
/// empty scene yields that degenerate start value.
pub open spec fn spec_scene_bounds(s: Seq<ElementView>) -> (int, int, int, int)
    decreases s.len(),
{
    if s.len() == 0 {
        (i32::MAX as int, i32::MAX as int, 0int, 0int)
    } else {
        let (x1, y1, x2, y2) = spec_scene_bounds(s.drop_last());
        let r = s.last().rect;
        (
            spec_min(x1, spec_min(r.start_x as int, r.end_x as int)),
            spec_min(y1, spec_min(r.start_y as int, r.end_y as int)),
            spec_max(x2, spec_max(r.start_x as int, r.end_x as int)),
            spec_max(y2, spec_max(r.start_y as int, r.end_y as int)),
        )
    }
}

/// The area to export: the scene bounds expanded by `padding` on every
/// side, or `None` if the expanded area leaves the i32 coordinate range or
/// its width or height does not fit in i32.
pub open spec fn spec_export_area(s: Seq<ElementView>, padding: u32) -> Option<Rect> {
    let (x1, y1, x2, y2) = spec_scene_bounds(s);
    let sx = x1 - padding;
    let sy = y1 - padding;
    let ex = x2 + padding;
    let ey = y2 + padding;
    if i32::MIN <= sx && i32::MIN <= sy && ex <= i32::MAX && ey <= i32::MAX && ex - sx <= i32::MAX
        && ey - sy <= i32::MAX {
        Some(Rect { start_x: sx as i32, start_y: sy as i32, end_x: ex as i32, end_y: ey as i32 })
    } else {
        None
    }
}

/// The bounding box of all element corners in the scene, folded as
/// `spec_scene_bounds` does.
pub fn scene_bounds(data: &AppData) -> (r: (i32, i32, i32, i32))
    ensures
        (r.0 as int, r.1 as int, r.2 as int, r.3 as int) == spec_scene_bounds(data@),
{
    let mut x1: i32 = i32::MAX;
    let mut y1: i32 = i32::MAX;
    let mut x2: i32 = 0;
    let mut y2: i32 = 0;
    let n = data.elements.len();
    let mut i: usize = 0;
    while i < n
        invariant
            n == data.elements.len(),
            0 <= i <= n,
            (x1 as int, y1 as int, x2 as int, y2 as int) == spec_scene_bounds(data@.take(i as int)),
        decreases n - i,
    {
        proof {
            assert(data@.take(i + 1).drop_last() =~= data@.take(i as int));
            assert(data@.take(i + 1).last() == data@[i as int]);
            assert(data@[i as int] == data.elements@[i as int]@);
        }
        let r = &data.elements[i].rect;
        let lo_x = if r.start_x < r.end_x {
            r.start_x
        } else {
            r.end_x
        };
        let hi_x = if r.start_x < r.end_x {
            r.end_x
        } else {
            r.start_x
        };
        let lo_y = if r.start_y < r.end_y {
            r.start_y
        } else {
            r.end_y
        };
        let hi_y = if r.start_y < r.end_y {
            r.end_y
        } else {
            r.start_y
        };
        if lo_x < x1 {
            x1 = lo_x;
        }
        if lo_y < y1 {
            y1 = lo_y;
        }
        if hi_x > x2 {
            x2 = hi_x;
        }
        if hi_y > y2 {
            y2 = hi_y;
        }
        i = i + 1;
    }
    proof {
        assert(data@.take(n as int) == data@);
    }
    (x1, y1, x2, y2)
}

/// The area to export with the given padding, or `None` if it leaves the
/// coordinate range.
pub fn export_area(data: &AppData, padding: u32) -> (r: Option<Rect>)
    ensures
        r == spec_export_area(data@, padding),
{
    let (x1, y1, x2, y2) = scene_bounds(data);
    let p = padding as i64;
    let sx = x1 as i64 - p;
    let sy = y1 as i64 - p;
    let ex = x2 as i64 + p;
    let ey = y2 as i64 + p;
    if i32::MIN as i64 <= sx && i32::MIN as i64 <= sy && ex <= i32::MAX as i64 && ey <= i32::MAX
        as i64 && ex - sx <= i32::MAX as i64 && ey - sy <= i32::MAX as i64 {
        Some(
            Rect {
                start_x: sx as i32,
                start_y: sy as i32,
                end_x: ex as i32,
                end_y: ey as i32,
            },
        )
    } else {
        None
    }
}

} // verus!
