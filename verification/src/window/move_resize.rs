//! Moving and resizing windows, with size limits and edge snapping.
use vstd::prelude::*;

use crate::canvas::{coord_ok, Point, Rect, Size, Vec2};
use crate::window::model::Window;

verus! {

/// Limits applied while resizing a window.
#[derive(Debug, Clone, Copy, PartialEq, Eq, Structural)]
pub struct ResizePolicy {
    pub min_size: Size,
    pub max_size: Option<Size>,
    pub snap_distance: i64,
}

impl ResizePolicy {
    pub open spec fn ok(self) -> bool {
        &&& self.min_size.ok()
        &&& (self.max_size matches Some(m) ==> m.ok())
    }
}

impl Default for ResizePolicy {
    fn default() -> (p: Self)
        ensures
            p.min_size == (Size { w: 120, h: 80 }),
            p.max_size is None,
            p.snap_distance == 16,
    {
        ResizePolicy { min_size: Size { w: 120, h: 80 }, max_size: None, snap_distance: 16 }
    }
}

/// The edges of a window that an interactive resize drags.
#[derive(Debug, Clone, Copy, PartialEq, Eq, Structural)]
pub struct ResizeEdges {
    pub left: bool,
    pub right: bool,
    pub top: bool,
    pub bottom: bool,
}

impl ResizeEdges {
    /// All four edges.
    pub fn all() -> (e: ResizeEdges)
        ensures
            e.left && e.right && e.top && e.bottom,
    {
        ResizeEdges { left: true, right: true, top: true, bottom: true }
    }
}

/// An extent brought into the policy's limits: at least `min`, then at most `max` if
/// there is one.
pub open spec fn limited_extent(extent: int, min: int, max: Option<int>) -> int {
    let at_least = if extent < min { min } else { extent };
    match max {
        Some(m) => if at_least > m { m } else { at_least },
        None => at_least,
    }
}

/// One axis of a resize: the start and extent of a span after its leading and/or
/// trailing end is dragged by `d`, its extent brought into the limits. When the leading
/// end is dragged, the trailing end stays where the drag put it.
pub open spec fn resized_span(start: int, extent: int, d: int, lead: bool, trail: bool, min: int, max: Option<int>) -> (int, int) {
    let s0 = if lead { start + d } else { start };
    let e0 = extent + (if trail { d } else { 0 }) - (if lead { d } else { 0 });
    let e = limited_extent(e0, min, max);
    let s = if lead { s0 + e0 - e } else { s0 };
    (s, e)
}

/// The bounds after dragging `edges` of `b` by `d` under `p`, each axis as `resized_span`
/// describes.
pub open spec fn resized_bounds(b: Rect, d: Vec2, e: ResizeEdges, p: ResizePolicy) -> Rect {
    let (x, w) = resized_span(b.origin.x as int, b.size.w as int, d.x as int, e.left, e.right, p.min_size.w as int, match p.max_size { Some(m) => Some(m.w as int), None => None });
    let (y, h) = resized_span(b.origin.y as int, b.size.h as int, d.y as int, e.top, e.bottom, p.min_size.h as int, match p.max_size { Some(m) => Some(m.h as int), None => None });
    Rect { origin: Point { x: x as i64, y: y as i64 }, size: Size { w: w as i64, h: h as i64 } }
}

/// One axis of a resize, in the order the corrections are applied.
fn resize_span(start: i64, extent: i64, d: i64, lead: bool, trail: bool, min: i64, max: Option<i64>) -> (r: (i64, i64))
    requires
        coord_ok(start as int),
        coord_ok(extent as int),
        coord_ok(d as int),
        coord_ok(min as int),
        max matches Some(m) ==> coord_ok(m as int),
    ensures
        r.0 as int == resized_span(start as int, extent as int, d as int, lead, trail, min as int, match max { Some(m) => Some(m as int), None => None }).0,
        r.1 as int == resized_span(start as int, extent as int, d as int, lead, trail, min as int, match max { Some(m) => Some(m as int), None => None }).1,
{
    let mut s = start;
    let mut e = extent;
    if lead {
        s = s + d;
        e = e - d;
    }
    if trail {
        e = e + d;
    }
    if e < min {
        let correction = min - e;
        if lead {
            s = s - correction;
        }
        e = min;
    }
    if let Some(m) = max {
        if e > m {
            let correction = e - m;
            if lead {
                s = s + correction;
            }
            e = m;
        }
    }
    (s, e)
}

impl Window {
    /// The window translated by `delta`.
    pub fn moved_by(&self, delta: Vec2) -> (w: Window)
        requires
            self.bounds.origin.ok(),
            delta.ok(),
        ensures
            w == (Window {
                bounds: Rect {
                    origin: Point { x: (self.bounds.origin.x + delta.x) as i64, y: (self.bounds.origin.y + delta.y) as i64 },
                    size: self.bounds.size,
                },
                ..*self
            }),
    {
        let mut window = self.clone();
        window.bounds.origin.x = self.bounds.origin.x + delta.x;
        window.bounds.origin.y = self.bounds.origin.y + delta.y;
        window
    }

    /// The window with `edges` dragged by `delta` under `policy` (see `resized_bounds`).
    pub fn resized_by(&self, delta: Vec2, edges: ResizeEdges, policy: ResizePolicy) -> (w: Window)
        requires
            self.bounds.ok(),
            delta.ok(),
            policy.ok(),
        ensures
            w == (Window { bounds: resized_bounds(self.bounds, delta, edges, policy), ..*self }),
    {
        let max_w = match policy.max_size {
            Some(m) => Some(m.w),
            None => None,
        };
        let max_h = match policy.max_size {
            Some(m) => Some(m.h),
            None => None,
        };
        let (x, w) = resize_span(self.bounds.origin.x, self.bounds.size.w, delta.x, edges.left, edges.right, policy.min_size.w, max_w);
        let (y, h) = resize_span(self.bounds.origin.y, self.bounds.size.h, delta.y, edges.top, edges.bottom, policy.min_size.h, max_h);
        let bounds = Rect { origin: Point { x, y }, size: Size { w, h } };
        let mut window = self.clone();
        window.bounds = bounds;
        window
    }
}

/// The absolute difference of two coordinates.
pub open spec fn distance(a: int, b: int) -> int {
    if a >= b { a - b } else { b - a }
}

/// `rect` snapped to `target`: an edge within `snap_distance` of the matching edge of
/// the target is moved onto it, the far (right, bottom) edges taking precedence.
pub open spec fn snapped_rect(rect: Rect, target: Rect, snap_distance: int) -> Rect {
    let x = if distance(rect.right(), target.right()) <= snap_distance {
        target.right() - rect.size.w
    } else if distance(rect.origin.x as int, target.origin.x as int) <= snap_distance {
        target.origin.x as int
    } else {
        rect.origin.x as int
    };
    let y = if distance(rect.bottom(), target.bottom()) <= snap_distance {
        target.bottom() - rect.size.h
    } else if distance(rect.origin.y as int, target.origin.y as int) <= snap_distance {
        target.origin.y as int
    } else {
        rect.origin.y as int
    };
    Rect { origin: Point { x: x as i64, y: y as i64 }, size: rect.size }
}

fn abs_diff(a: i64, b: i64) -> (r: i64)
    requires
        -3 * crate::canvas::COORD_LIMIT <= a <= 3 * crate::canvas::COORD_LIMIT,
        -3 * crate::canvas::COORD_LIMIT <= b <= 3 * crate::canvas::COORD_LIMIT,
    ensures
        r == distance(a as int, b as int),
{
    if a >= b {
        a - b
    } else {
        b - a
    }
}

/// Snaps the edges of `rect` to those of `target` (see `snapped_rect`).
pub fn snap_to_rect(rect: Rect, target: Rect, snap_distance: i64) -> (r: Rect)
    requires
        rect.ok(),
        target.ok(),
    ensures
        r == snapped_rect(rect, target, snap_distance as int),
{
    let mut snapped = rect;

    if abs_diff(rect.origin.x, target.origin.x) <= snap_distance {
        snapped.origin.x = target.origin.x;
    }
    if abs_diff(rect.origin.y, target.origin.y) <= snap_distance {
        snapped.origin.y = target.origin.y;
    }

    let rect_right = rect.origin.x + rect.size.w;
    let target_right = target.origin.x + target.size.w;
    if abs_diff(rect_right, target_right) <= snap_distance {
        snapped.origin.x = target_right - rect.size.w;
    }

    let rect_bottom = rect.origin.y + rect.size.h;
    let target_bottom = target.origin.y + target.size.h;
    if abs_diff(rect_bottom, target_bottom) <= snap_distance {
        snapped.origin.y = target_bottom - rect.size.h;
    }

    snapped
}

} // verus!

verus! {

/// Resizing keeps the size within the policy's limits: at least the minimum, and at most
/// the maximum when there is one that is not below the minimum.
pub proof fn law_resize_respects_limits(b: Rect, d: Vec2, e: ResizeEdges, p: ResizePolicy)
    requires
        b.ok(),
        d.ok(),
        p.ok(),
    ensures
        resized_bounds(b, d, e, p).size.w >= p.min_size.w || (p.max_size matches Some(m) && resized_bounds(b, d, e, p).size.w == m.w),
        resized_bounds(b, d, e, p).size.h >= p.min_size.h || (p.max_size matches Some(m) && resized_bounds(b, d, e, p).size.h == m.h),
        p.max_size matches Some(m) ==> resized_bounds(b, d, e, p).size.w <= m.w && resized_bounds(b, d, e, p).size.h <= m.h,
        (p.max_size matches Some(m) && m.w >= p.min_size.w && m.h >= p.min_size.h) ==> resized_bounds(b, d, e, p).size.w >= p.min_size.w && resized_bounds(b, d, e, p).size.h >= p.min_size.h,
{
}

/// Dragging one edge of an axis leaves the opposite edge where it was: dragging only the
/// left (top) edge keeps the right (bottom) edge, dragging only the right (bottom) edge or
/// neither keeps the left (top) edge.
pub proof fn law_resize_keeps_opposite_edge(b: Rect, d: Vec2, e: ResizeEdges, p: ResizePolicy)
    requires
        b.ok(),
        d.ok(),
        p.ok(),
    ensures
        (e.left && !e.right) ==> resized_bounds(b, d, e, p).right() == b.right(),
        !e.left ==> resized_bounds(b, d, e, p).origin.x == b.origin.x,
        (e.top && !e.bottom) ==> resized_bounds(b, d, e, p).bottom() == b.bottom(),
        !e.top ==> resized_bounds(b, d, e, p).origin.y == b.origin.y,
{
}

/// Snapping moves a rectangle without resizing it.
pub proof fn law_snap_keeps_size(rect: Rect, target: Rect, snap_distance: int)
    requires
        rect.ok(),
        target.ok(),
    ensures
        snapped_rect(rect, target, snap_distance).size == rect.size,
{
}


/// Snapping puts an edge onto the target's matching edge exactly when it lies within the
/// snap distance of it: a far (right, bottom) edge within reach lands on the target's far
/// edge; otherwise a near (left, top) edge within reach lands on the target's near edge;
/// an edge out of reach on both sides stays where it was.
pub proof fn law_snap_lands_on_edges_in_reach(rect: Rect, target: Rect, snap_distance: int)
    requires
        rect.ok(),
        target.ok(),
    ensures
        ({
            let r = snapped_rect(rect, target, snap_distance);
            let right_in = -snap_distance <= rect.right() - target.right() <= snap_distance;
            let left_in = -snap_distance <= rect.origin.x - target.origin.x <= snap_distance;
            let bottom_in = -snap_distance <= rect.bottom() - target.bottom() <= snap_distance;
            let top_in = -snap_distance <= rect.origin.y - target.origin.y <= snap_distance;
            &&& right_in ==> r.right() == target.right()
            &&& !right_in && left_in ==> r.origin.x == target.origin.x
            &&& !right_in && !left_in ==> r.origin.x == rect.origin.x
            &&& bottom_in ==> r.bottom() == target.bottom()
            &&& !bottom_in && top_in ==> r.origin.y == target.origin.y
            &&& !bottom_in && !top_in ==> r.origin.y == rect.origin.y
            &&& r.size == rect.size
        }),
{
}

} // verus!

verus! {

/// The edge or corner that a client asks to resize from.
#[derive(Debug, Clone, Copy, PartialEq, Eq, Structural)]
pub enum ResizeEdge {
    NoEdge,
    Top,
    Bottom,
    Left,
    TopLeft,
    BottomLeft,
    Right,
    TopRight,
    BottomRight,
}

/// The edges dragged when resizing from `edge`: the named sides, or all four when no
/// edge is named.
pub open spec fn edges_of(edge: ResizeEdge) -> ResizeEdges {
    match edge {
        ResizeEdge::Top => ResizeEdges { left: false, right: false, top: true, bottom: false },
        ResizeEdge::Bottom => ResizeEdges { left: false, right: false, top: false, bottom: true },
        ResizeEdge::Left => ResizeEdges { left: true, right: false, top: false, bottom: false },
        ResizeEdge::TopLeft => ResizeEdges { left: true, right: false, top: true, bottom: false },
        ResizeEdge::BottomLeft => ResizeEdges { left: true, right: false, top: false, bottom: true },
        ResizeEdge::Right => ResizeEdges { left: false, right: true, top: false, bottom: false },
        ResizeEdge::TopRight => ResizeEdges { left: false, right: true, top: true, bottom: false },
        ResizeEdge::BottomRight => ResizeEdges { left: false, right: true, top: false, bottom: true },
        ResizeEdge::NoEdge => ResizeEdges { left: true, right: true, top: true, bottom: true },
    }
}

/// The edges dragged when a client resizes from `edge` (see `edges_of`).
pub fn resize_edges_from(edge: ResizeEdge) -> (e: ResizeEdges)
    ensures
        e == edges_of(edge),
{
    match edge {
        ResizeEdge::Top => ResizeEdges { left: false, right: false, top: true, bottom: false },
        ResizeEdge::Bottom => ResizeEdges { left: false, right: false, top: false, bottom: true },
        ResizeEdge::Left => ResizeEdges { left: true, right: false, top: false, bottom: false },
        ResizeEdge::TopLeft => ResizeEdges { left: true, right: false, top: true, bottom: false },
        ResizeEdge::BottomLeft => ResizeEdges { left: true, right: false, top: false, bottom: true },
        ResizeEdge::Right => ResizeEdges { left: false, right: true, top: false, bottom: false },
        ResizeEdge::TopRight => ResizeEdges { left: false, right: true, top: true, bottom: false },
        ResizeEdge::BottomRight => ResizeEdges { left: false, right: true, top: false, bottom: true },
        ResizeEdge::NoEdge => ResizeEdges::all(),
    }
}

} // verus!
