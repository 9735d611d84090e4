//! The fallback placement of new windows, used until a Lua hook places them.
use vstd::prelude::*;

use crate::canvas::{coord_ok, Point, Rect, Size, Vec2};

verus! {

/// Where a new window goes.
#[derive(Debug, Clone, Copy, PartialEq, Eq, Structural)]
pub struct PlacementTarget {
    pub bounds: Rect,
}

/// Fallback placement: windows are centred in the visible part of the canvas, cascaded
/// by `cascade_step` per existing window (eight steps, then round again), and kept
/// `padding` away from the visible edges where they fit.
#[derive(Debug, Clone, Copy, PartialEq, Eq, Structural)]
pub struct PlacementPolicy {
    pub default_size: Size,
    pub padding: i64,
    pub cascade_step: Vec2,
}

impl PlacementPolicy {
    pub open spec fn ok(self) -> bool {
        self.default_size.ok() && coord_ok(self.padding as int) && self.cascade_step.ok()
    }
}

impl Default for PlacementPolicy {
    /// 900 by 600, padding 32, cascading by (32, 24).
    fn default() -> (p: Self)
        ensures
            p.default_size == (Size { w: 900, h: 600 }),
            p.padding == 32,
            p.cascade_step == (Vec2 { x: 32, y: 24 }),
    {
        PlacementPolicy { default_size: Size { w: 900, h: 600 }, padding: 32, cascade_step: Vec2 { x: 32, y: 24 } }
    }
}

pub open spec fn min_int(a: int, b: int) -> int {
    if a <= b { a } else { b }
}

pub open spec fn max_int(a: int, b: int) -> int {
    if a >= b { a } else { b }
}

/// `v` brought into `[lo, hi]` (with `lo <= hi`).
pub open spec fn clamp_int(v: int, lo: int, hi: int) -> int {
    if v < lo { lo } else if v > hi { hi } else { v }
}

/// One axis of a placement: the extent that fits, then the start centred, cascaded and
/// kept inside the padded span.
pub open spec fn placed_span(vis_start: int, vis_extent: int, requested: int, padding: int, step: int, cascade: int) -> (int, int) {
    let max_extent = max_int(vis_extent - padding * 2, 1);
    let extent = min_int(requested, max_extent);
    let centred = vis_start + (vis_extent - extent) / 2 + step * cascade;
    let lo = vis_start + padding;
    let hi = max_int(vis_start + vis_extent - extent - padding, lo);
    (clamp_int(centred, lo, hi), extent)
}

/// Where the policy places a new window in the visible area `visible`, given how many
/// windows exist and the size the client asked for (else the policy's default size).
/// Halving rounds down.
pub open spec fn placement_bounds(p: PlacementPolicy, visible: Rect, existing: nat, requested: Option<Size>) -> Rect {
    let req = match requested {
        Some(s) => s,
        None => p.default_size,
    };
    let cascade = (existing % 8) as int;
    let (x, w) = placed_span(visible.origin.x as int, visible.size.w as int, req.w as int, p.padding as int, p.cascade_step.x as int, cascade);
    let (y, h) = placed_span(visible.origin.y as int, visible.size.h as int, req.h as int, p.padding as int, p.cascade_step.y as int, cascade);
    Rect { origin: Point { x: x as i64, y: y as i64 }, size: Size { w: w as i64, h: h as i64 } }
}

fn half_floor(v: i64) -> (r: i64)
    requires
        -8 * crate::canvas::COORD_LIMIT <= v <= 8 * crate::canvas::COORD_LIMIT,
    ensures
        r as int == v as int / 2,
{
    if v >= 0 {
        v / 2
    } else {
        -((1 - v) / 2)
    }
}

fn place_span(vis_start: i64, vis_extent: i64, requested: i64, padding: i64, step: i64, cascade: i64) -> (r: (i64, i64))
    requires
        coord_ok(vis_start as int),
        coord_ok(vis_extent as int),
        coord_ok(requested as int),
        coord_ok(padding as int),
        coord_ok(step as int),
        0 <= cascade < 8,
    ensures
        r.0 as int == placed_span(vis_start as int, vis_extent as int, requested as int, padding as int, step as int, cascade as int).0,
        r.1 as int == placed_span(vis_start as int, vis_extent as int, requested as int, padding as int, step as int, cascade as int).1,
{
    let room = vis_extent - padding * 2;
    let max_extent = if room >= 1 { room } else { 1 };
    let extent = if requested <= max_extent { requested } else { max_extent };
    assert(-8 * crate::canvas::COORD_LIMIT <= step * cascade <= 8 * crate::canvas::COORD_LIMIT) by (nonlinear_arith)
        requires
            coord_ok(step as int),
            0 <= cascade < 8,
    ;
    let centred = vis_start + half_floor(vis_extent - extent) + step * cascade;
    let lo = vis_start + padding;
    let far = vis_start + vis_extent - extent - padding;
    let hi = if far >= lo { far } else { lo };
    let start = if centred < lo {
        lo
    } else if centred > hi {
        hi
    } else {
        centred
    };
    (start, extent)
}

impl PlacementPolicy {
    /// Places a new window in the visible area `visible` (see `placement_bounds`).
    pub fn place_new_window(&self, visible: Rect, existing_count: usize, requested_size: Option<Size>) -> (t: PlacementTarget)
        requires
            self.ok(),
            visible.ok(),
            requested_size matches Some(s) ==> s.ok(),
        ensures
            t.bounds == placement_bounds(*self, visible, existing_count as nat, requested_size),
    {
        let requested = match requested_size {
            Some(s) => s,
            None => self.default_size,
        };
        let cascade = (existing_count % 8) as i64;
        let (x, w) = place_span(visible.origin.x, visible.size.w, requested.w, self.padding, self.cascade_step.x, cascade);
        let (y, h) = place_span(visible.origin.y, visible.size.h, requested.h, self.padding, self.cascade_step.y, cascade);
        PlacementTarget { bounds: Rect { origin: Point { x, y }, size: Size { w, h } } }
    }
}

/// A placed window fits the padded visible area whenever the area is wider than twice the
/// padding: it is no larger than that area, and it starts at or after its padded start.
pub proof fn law_placement_fits(p: PlacementPolicy, visible: Rect, existing: nat, requested: Option<Size>)
    requires
        p.ok(),
        visible.ok(),
        requested matches Some(s) ==> s.ok(),
        p.padding >= 0,
        visible.size.w > 2 * p.padding,
        visible.size.h > 2 * p.padding,
    ensures
        placement_bounds(p, visible, existing, requested).size.w <= visible.size.w - 2 * p.padding,
        placement_bounds(p, visible, existing, requested).size.h <= visible.size.h - 2 * p.padding,
        placement_bounds(p, visible, existing, requested).origin.x >= visible.origin.x + p.padding,
        placement_bounds(p, visible, existing, requested).origin.y >= visible.origin.y + p.padding,
{
}


/// A requested size that fits the padded visible area is kept exactly, and the first
/// window of a cascade round (`existing` a multiple of 8) is centred in the visible area;
/// without a request the policy's default size stands in for it.
pub proof fn law_requested_size_is_kept(p: PlacementPolicy, visible: Rect, existing: nat, s: Size)
    requires
        p.ok(),
        visible.ok(),
        s.ok(),
        p.padding >= 0,
        s.w <= visible.size.w - 2 * p.padding,
        s.h <= visible.size.h - 2 * p.padding,
    ensures
        placement_bounds(p, visible, existing, Some(s)).size == s,
        existing % 8 == 0 ==> placement_bounds(p, visible, existing, Some(s)).origin.x == visible.origin.x + (visible.size.w - s.w) / 2,
        existing % 8 == 0 ==> placement_bounds(p, visible, existing, Some(s)).origin.y == visible.origin.y + (visible.size.h - s.h) / 2,
        placement_bounds(p, visible, existing, None) == placement_bounds(p, visible, existing, Some(p.default_size)),
{
    let b = placement_bounds(p, visible, existing, Some(s));
    assert(b.size.w == s.w);
    assert(b.size.h == s.h);
}


/// With a requested size that fits the padded visible area, each further window of a
/// cascade round is offset from the centred position by the cascade step times its place
/// in the round (`existing % 8`), as long as that keeps it inside the padded area; it
/// never reaches past the padded far edges.
pub proof fn law_cascade_offsets_placement(p: PlacementPolicy, visible: Rect, existing: nat, s: Size)
    requires
        p.ok(),
        visible.ok(),
        s.ok(),
        p.padding >= 0,
        s.w <= visible.size.w - 2 * p.padding,
        s.h <= visible.size.h - 2 * p.padding,
    ensures
        ({
            let b = placement_bounds(p, visible, existing, Some(s));
            let k = (existing % 8) as int;
            let cx = visible.origin.x + (visible.size.w - s.w) / 2 + p.cascade_step.x * k;
            let cy = visible.origin.y + (visible.size.h - s.h) / 2 + p.cascade_step.y * k;
            &&& visible.origin.x + p.padding <= cx <= visible.origin.x + visible.size.w - s.w - p.padding ==> b.origin.x == cx
            &&& visible.origin.y + p.padding <= cy <= visible.origin.y + visible.size.h - s.h - p.padding ==> b.origin.y == cy
            &&& b.origin.x + b.size.w <= visible.origin.x + visible.size.w - p.padding
            &&& b.origin.y + b.size.h <= visible.origin.y + visible.size.h - p.padding
        }),
{
    let b = placement_bounds(p, visible, existing, Some(s));
    assert(b.size.w == s.w);
    assert(b.size.h == s.h);
}

} // verus!
