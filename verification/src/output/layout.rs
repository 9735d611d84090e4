//! The arrangement of outputs in the logical layout space.
use vstd::prelude::*;

use crate::canvas::{Point, Rect, Size};

verus! {

/// An output placed in the layout.
#[derive(Debug, Clone, PartialEq)]
pub struct OutputPlacement {
    pub name: String,
    pub origin: Point,
    pub size: Size,
}

/// Whether `p` lies inside the output (left and top edges included, right and bottom
/// edges excluded).
pub open spec fn placement_contains(o: OutputPlacement, p: Point) -> bool {
    &&& p.x >= o.origin.x
    &&& p.y >= o.origin.y
    &&& p.x < o.origin.x + o.size.w
    &&& p.y < o.origin.y + o.size.h
}

/// Distance along one axis from `v` to the span `[lo, hi]`.
pub open spec fn axis_gap(v: int, lo: int, hi: int) -> int {
    if v < lo {
        lo - v
    } else if v > hi {
        v - hi
    } else {
        0
    }
}

/// The squared distance from `p` to the nearest point of `r`.
pub open spec fn distance_squared_spec(p: Point, r: Rect) -> int {
    let dx = axis_gap(p.x as int, r.origin.x as int, r.right());
    let dy = axis_gap(p.y as int, r.origin.y as int, r.bottom());
    dx * dx + dy * dy
}

pub open spec fn placement_rect(o: OutputPlacement) -> Rect {
    Rect { origin: o.origin, size: o.size }
}

impl OutputPlacement {
    pub open spec fn ok(&self) -> bool {
        self.origin.ok() && self.size.ok()
    }

    /// The area the output covers.
    pub fn rect(&self) -> (r: Rect)
        ensures
            r == placement_rect(*self),
    {
        Rect { origin: self.origin, size: self.size }
    }

    /// Whether `point` lies inside the output (see `placement_contains`).
    pub fn contains(&self, point: Point) -> (r: bool)
        requires
            self.ok(),
        ensures
            r == placement_contains(*self, point),
    {
        point.x >= self.origin.x && point.y >= self.origin.y && point.x < self.origin.x
            + self.size.w && point.y < self.origin.y + self.size.h
    }
}

/// The outputs of the layout, in the order they were added.
#[derive(Debug, Clone, PartialEq)]
pub struct OutputLayout {
    outputs: Vec<OutputPlacement>,
}

/// The smallest of `f(i)` over the indices of a non-empty sequence.
pub open spec fn is_first_nearest(outputs: Seq<OutputPlacement>, p: Point, i: int) -> bool {
    &&& 0 <= i < outputs.len()
    &&& forall|j: int| 0 <= j < outputs.len() ==> distance_squared_spec(p, placement_rect(outputs[i])) <= distance_squared_spec(p, placement_rect(#[trigger] outputs[j]))
    &&& forall|j: int| 0 <= j < i ==> distance_squared_spec(p, placement_rect(outputs[i])) < distance_squared_spec(p, placement_rect(#[trigger] outputs[j]))
}

/// The smallest rectangle covering every output of a non-empty layout.
pub open spec fn covers_all(outputs: Seq<OutputPlacement>, r: Rect) -> bool {
    &&& forall|i: int| 0 <= i < outputs.len() ==> r.origin.x <= (#[trigger] outputs[i]).origin.x
        && r.origin.y <= outputs[i].origin.y
        && outputs[i].origin.x + outputs[i].size.w <= r.right()
        && outputs[i].origin.y + outputs[i].size.h <= r.bottom()
    &&& exists|i: int| 0 <= i < outputs.len() && (#[trigger] outputs[i]).origin.x == r.origin.x
    &&& exists|i: int| 0 <= i < outputs.len() && (#[trigger] outputs[i]).origin.y == r.origin.y
    &&& exists|i: int| 0 <= i < outputs.len() && (#[trigger] outputs[i]).origin.x + outputs[i].size.w == r.right()
    &&& exists|i: int| 0 <= i < outputs.len() && (#[trigger] outputs[i]).origin.y + outputs[i].size.h == r.bottom()
}

impl OutputLayout {
    /// The outputs, in the order they were added.
    pub closed spec fn placements(&self) -> Seq<OutputPlacement> {
        self.outputs@
    }

    /// Every output's position and size lie within the coordinate limits.
    pub open spec fn wf(&self) -> bool {
        forall|i: int| 0 <= i < self.placements().len() ==> (#[trigger] self.placements()[i]).ok()
    }

    /// A layout without outputs.
    pub fn new() -> (l: OutputLayout)
        ensures
            l.placements() == Seq::<OutputPlacement>::empty(),
            l.wf(),
    {
        OutputLayout { outputs: Vec::new() }
    }

    /// Adds an output after the existing ones.
    pub fn add_output(&mut self, name: String, origin: Point, size: Size)
        requires
            origin.ok(),
            size.ok(),
        ensures
            final(self).placements() == old(self).placements().push(OutputPlacement { name, origin, size }),
            old(self).wf() ==> final(self).wf(),
    {
        self.outputs.push(OutputPlacement { name, origin, size });
        proof {
            if old(self).wf() {
                assert forall|i: int| 0 <= i < self.placements().len() implies (#[trigger] self.placements()[i]).ok() by {
                    if i < old(self).placements().len() {
                        assert(self.placements()[i] == old(self).placements()[i]);
                    }
                }
            }
        }
    }

    /// The outputs, in the order they were added.
    pub fn outputs(&self) -> (r: &[OutputPlacement])
        ensures
            r@ == self.placements(),
    {
        self.outputs.as_slice()
    }

    /// The first output that contains `point`.
    pub fn output_at(&self, point: Point) -> (r: Option<&OutputPlacement>)
        requires
            self.wf(),
        ensures
            match r {
                None => forall|i: int| 0 <= i < self.placements().len() ==> !placement_contains(#[trigger] self.placements()[i], point),
                Some(o) => exists|i: int| 0 <= i < self.placements().len() && *o == self.placements()[i]
                    && placement_contains(self.placements()[i], point)
                    && forall|j: int| 0 <= j < i ==> !placement_contains(#[trigger] self.placements()[j], point),
            },
    {
        let mut i: usize = 0;
        while i < self.outputs.len()
            invariant
                self.wf(),
                i <= self.placements().len(),
                self.placements() == self.outputs@,
                forall|j: int| 0 <= j < i ==> !placement_contains(#[trigger] self.placements()[j], point),
            decreases self.placements().len() - i,
        {
            assert(self.placements()[i as int].ok());
            if self.outputs[i].contains(point) {
                return Some(&self.outputs[i]);
            }
            i += 1;
        }
        None
    }

    /// The smallest rectangle that covers every output, or `None` without outputs.
    pub fn bounding_rect(&self) -> (r: Option<Rect>)
        requires
            self.wf(),
        ensures
            r is None <==> self.placements().len() == 0,
            r matches Some(b) ==> covers_all(self.placements(), b),
    {
        if self.outputs.len() == 0 {
            return None;
        }
        let ghost outs = self.placements();
        assert(outs[0].ok());
        let first = &self.outputs[0];
        let mut min_x = first.origin.x;
        let mut min_y = first.origin.y;
        let mut max_x = first.origin.x + first.size.w;
        let mut max_y = first.origin.y + first.size.h;
        let ghost mut ix: int = 0;
        let ghost mut iy: int = 0;
        let ghost mut jx: int = 0;
        let ghost mut jy: int = 0;
        let mut i: usize = 1;
        while i < self.outputs.len()
            invariant
                self.wf(),
                outs == self.placements(),
                outs == self.outputs@,
                1 <= i <= outs.len(),
                0 <= ix < i && outs[ix].origin.x == min_x,
                0 <= iy < i && outs[iy].origin.y == min_y,
                0 <= jx < i && outs[jx].origin.x + outs[jx].size.w == max_x,
                0 <= jy < i && outs[jy].origin.y + outs[jy].size.h == max_y,
                forall|k: int| 0 <= k < i ==> min_x <= (#[trigger] outs[k]).origin.x
                    && min_y <= outs[k].origin.y
                    && outs[k].origin.x + outs[k].size.w <= max_x
                    && outs[k].origin.y + outs[k].size.h <= max_y,
            decreases outs.len() - i,
        {
            assert(outs[i as int].ok());
            let o = &self.outputs[i];
            if o.origin.x < min_x {
                min_x = o.origin.x;
                proof { ix = i as int; }
            }
            if o.origin.y < min_y {
                min_y = o.origin.y;
                proof { iy = i as int; }
            }
            if o.origin.x + o.size.w > max_x {
                max_x = o.origin.x + o.size.w;
                proof { jx = i as int; }
            }
            if o.origin.y + o.size.h > max_y {
                max_y = o.origin.y + o.size.h;
                proof { jy = i as int; }
            }
            i += 1;
        }
        assert(outs[ix].ok() && outs[jx].ok() && outs[iy].ok() && outs[jy].ok());
        let r = Rect { origin: Point { x: min_x, y: min_y }, size: Size { w: max_x - min_x, h: max_y - min_y } };
        assert(outs[ix].origin.x == r.origin.x);
        assert(outs[iy].origin.y == r.origin.y);
        assert(outs[jx].origin.x + outs[jx].size.w == r.right());
        assert(outs[jy].origin.y + outs[jy].size.h == r.bottom());
        Some(r)
    }

    /// The output nearest to `point`; of equally near outputs, the first.
    pub fn nearest_output(&self, point: Point) -> (r: Option<&OutputPlacement>)
        requires
            self.wf(),
            point.ok(),
        ensures
            r is None <==> self.placements().len() == 0,
            r matches Some(o) ==> exists|i: int| is_first_nearest(self.placements(), point, i) && *o == self.placements()[i],
    {
        if self.outputs.len() == 0 {
            return None;
        }
        let ghost outs = self.placements();
        assert(outs[0].ok());
        let mut best: usize = 0;
        let mut best_d = distance_squared(point, self.outputs[0].rect());
        let mut i: usize = 1;
        while i < self.outputs.len()
            invariant
                self.wf(),
                point.ok(),
                outs == self.placements(),
                outs == self.outputs@,
                1 <= i <= outs.len(),
                best < i,
                best_d as int == distance_squared_spec(point, placement_rect(outs[best as int])),
                forall|j: int| 0 <= j < i ==> best_d <= distance_squared_spec(point, placement_rect(#[trigger] outs[j])),
                forall|j: int| 0 <= j < best ==> best_d < distance_squared_spec(point, placement_rect(#[trigger] outs[j])),
            decreases outs.len() - i,
        {
            assert(outs[i as int].ok());
            let d = distance_squared(point, self.outputs[i].rect());
            if d < best_d {
                best = i;
                best_d = d;
            }
            i += 1;
        }
        assert(is_first_nearest(outs, point, best as int));
        Some(&self.outputs[best])
    }
}

fn axis_gap_exec(v: i64, lo: i64, extent: i64) -> (r: i128)
    requires
        crate::canvas::coord_ok(v as int),
        crate::canvas::coord_ok(lo as int),
        crate::canvas::coord_ok(extent as int),
    ensures
        r as int == axis_gap(v as int, lo as int, lo + extent),
        0 <= r <= 4 * crate::canvas::COORD_LIMIT,
{
    let hi = lo + extent;
    if v < lo {
        (lo - v) as i128
    } else if v > hi {
        (v - hi) as i128
    } else {
        0
    }
}

/// The squared distance from `point` to the nearest point of `rect`.
fn distance_squared(point: Point, rect: Rect) -> (r: i128)
    requires
        point.ok(),
        rect.ok(),
    ensures
        r as int == distance_squared_spec(point, rect),
{
    let dx = axis_gap_exec(point.x, rect.origin.x, rect.size.w);
    let dy = axis_gap_exec(point.y, rect.origin.y, rect.size.h);
    assert(dx * dx <= 16 * crate::canvas::COORD_LIMIT * crate::canvas::COORD_LIMIT) by (nonlinear_arith)
        requires
            0 <= dx <= 4 * crate::canvas::COORD_LIMIT,
    ;
    assert(dy * dy <= 16 * crate::canvas::COORD_LIMIT * crate::canvas::COORD_LIMIT) by (nonlinear_arith)
        requires
            0 <= dy <= 4 * crate::canvas::COORD_LIMIT,
    ;
    dx * dx + dy * dy
}

} // verus!

verus! {

/// Whether the centre of `bounds` lies inside `area` (left and top edges included,
/// right and bottom edges excluded); coordinates are doubled so the centre is exact.
pub open spec fn center_inside(bounds: Rect, area: Rect) -> bool {
    let cx2 = 2 * bounds.origin.x + bounds.size.w;
    let cy2 = 2 * bounds.origin.y + bounds.size.h;
    &&& 2 * area.origin.x <= cx2 < 2 * (area.origin.x + area.size.w)
    &&& 2 * area.origin.y <= cy2 < 2 * (area.origin.y + area.size.h)
}

/// Whether `i` is the first of `areas` that holds the centre of `bounds`.
pub open spec fn is_first_holding_center(areas: Seq<OutputPlacement>, bounds: Rect, i: int) -> bool {
    &&& 0 <= i < areas.len()
    &&& center_inside(bounds, placement_rect(areas[i]))
    &&& forall|j: int| 0 <= j < i ==> !center_inside(bounds, placement_rect(#[trigger] areas[j]))
}

/// The output a window belongs to: the first of `areas` (each output's visible part of
/// the canvas, by output name) that holds the centre of the window's bounds.
pub fn output_for_window_bounds(areas: &[OutputPlacement], bounds: Rect) -> (r: Option<String>)
    requires
        bounds.ok(),
        forall|i: int| 0 <= i < areas@.len() ==> (#[trigger] areas@[i]).ok(),
    ensures
        match r {
            Some(name) => exists|i: int| is_first_holding_center(areas@, bounds, i) && name@ == areas@[i].name@,
            None => forall|i: int| 0 <= i < areas@.len() ==> !center_inside(bounds, placement_rect(#[trigger] areas@[i])),
        },
{
    let cx2 = 2 * bounds.origin.x + bounds.size.w;
    let cy2 = 2 * bounds.origin.y + bounds.size.h;
    let mut i: usize = 0;
    while i < areas.len()
        invariant
            i <= areas@.len(),
            bounds.ok(),
            cx2 == 2 * bounds.origin.x + bounds.size.w,
            cy2 == 2 * bounds.origin.y + bounds.size.h,
            forall|k: int| 0 <= k < areas@.len() ==> (#[trigger] areas@[k]).ok(),
            forall|j: int| 0 <= j < i ==> !center_inside(bounds, placement_rect(#[trigger] areas@[j])),
        decreases areas@.len() - i,
    {
        let a = &areas[i];
        assert(areas@[i as int].ok());
        if 2 * a.origin.x <= cx2 && cx2 < 2 * (a.origin.x + a.size.w) && 2 * a.origin.y <= cy2 && cy2 < 2 * (a.origin.y + a.size.h) {
            assert(is_first_holding_center(areas@, bounds, i as int));
            return Some(a.name.clone());
        }
        i += 1;
    }
    None
}

} // verus!

verus! {

/// `v` brought into `[lo, hi]` (with `lo <= hi`), as `f64::clamp` does.
pub open spec fn clamp_to(v: int, lo: int, hi: int) -> int {
    if v < lo { lo } else if v > hi { hi } else { v }
}

/// `p` kept inside `area` (edges included).
pub open spec fn clamped_into(p: Point, area: Rect) -> Point {
    Point { x: clamp_to(p.x as int, area.origin.x as int, area.right()) as i64, y: clamp_to(p.y as int, area.origin.y as int, area.bottom()) as i64 }
}

/// `fallback` with each extent at least 1.
pub open spec fn at_least_one_unit(fallback: Rect) -> Rect {
    Rect {
        origin: fallback.origin,
        size: Size { w: if fallback.size.w < 1 { 1 } else { fallback.size.w }, h: if fallback.size.h < 1 { 1 } else { fallback.size.h } },
    }
}

/// Two rectangles that both cover the outputs tightly are the same.
proof fn lemma_covering_rect_unique(outputs: Seq<OutputPlacement>, a: Rect, b: Rect)
    requires
        covers_all(outputs, a),
        covers_all(outputs, b),
    ensures
        a == b,
{
    let i = choose|i: int| 0 <= i < outputs.len() && (#[trigger] outputs[i]).origin.x == b.origin.x;
    let j = choose|i: int| 0 <= i < outputs.len() && (#[trigger] outputs[i]).origin.x == a.origin.x;
    assert(a.origin.x <= outputs[i].origin.x && b.origin.x <= outputs[j].origin.x);
    let k = choose|i: int| 0 <= i < outputs.len() && (#[trigger] outputs[i]).origin.y == b.origin.y;
    let l = choose|i: int| 0 <= i < outputs.len() && (#[trigger] outputs[i]).origin.y == a.origin.y;
    assert(a.origin.y <= outputs[k].origin.y && b.origin.y <= outputs[l].origin.y);
    let m = choose|i: int| 0 <= i < outputs.len() && (#[trigger] outputs[i]).origin.x + outputs[i].size.w == b.right();
    let n = choose|i: int| 0 <= i < outputs.len() && (#[trigger] outputs[i]).origin.x + outputs[i].size.w == a.right();
    assert(outputs[m].origin.x + outputs[m].size.w <= a.right() && outputs[n].origin.x + outputs[n].size.w <= b.right());
    let o = choose|i: int| 0 <= i < outputs.len() && (#[trigger] outputs[i]).origin.y + outputs[i].size.h == b.bottom();
    let q = choose|i: int| 0 <= i < outputs.len() && (#[trigger] outputs[i]).origin.y + outputs[i].size.h == a.bottom();
    assert(outputs[o].origin.y + outputs[o].size.h <= a.bottom() && outputs[q].origin.y + outputs[q].size.h <= b.bottom());
}

impl OutputLayout {
    /// Keeps a pointer position inside the area the outputs cover together, or, without
    /// outputs, inside `fallback` (the visible part of the canvas) taken at least one unit
    /// wide and high.
    pub fn clamp_pointer(&self, fallback: Rect, point: Point) -> (r: Point)
        requires
            self.wf(),
            fallback.ok(),
            point.ok(),
            forall|b: Rect| #[trigger] covers_all(self.placements(), b) ==> b.origin.x <= b.right() && b.origin.y <= b.bottom(),
        ensures
            self.placements().len() == 0 ==> r == clamped_into(point, at_least_one_unit(fallback)),
            forall|b: Rect| #[trigger] covers_all(self.placements(), b) ==> r == clamped_into(point, b),
    {
        match self.bounding_rect() {
            None => {
                let w = if fallback.size.w < 1 { 1 } else { fallback.size.w };
                let h = if fallback.size.h < 1 { 1 } else { fallback.size.h };
                let hi_x = fallback.origin.x + w;
                let hi_y = fallback.origin.y + h;
                let x = if point.x < fallback.origin.x { fallback.origin.x } else if point.x > hi_x { hi_x } else { point.x };
                let y = if point.y < fallback.origin.y { fallback.origin.y } else if point.y > hi_y { hi_y } else { point.y };
                proof {
                    assert forall|b: Rect| #[trigger] covers_all(self.placements(), b) implies Point { x, y } == clamped_into(point, b) by {
                        let i = choose|i: int| 0 <= i < self.placements().len() && (#[trigger] self.placements()[i]).origin.x == b.origin.x;
                    }
                }
                Point { x, y }
            },
            Some(b) => {
                let ghost outs = self.placements();
                proof {
                    let i = choose|i: int| 0 <= i < outs.len() && (#[trigger] outs[i]).origin.x == b.origin.x;
                    let j = choose|i: int| 0 <= i < outs.len() && (#[trigger] outs[i]).origin.x + outs[i].size.w == b.right();
                    let k = choose|i: int| 0 <= i < outs.len() && (#[trigger] outs[i]).origin.y == b.origin.y;
                    let l = choose|i: int| 0 <= i < outs.len() && (#[trigger] outs[i]).origin.y + outs[i].size.h == b.bottom();
                    assert(outs[i].ok() && outs[j].ok() && outs[k].ok() && outs[l].ok());
                }
                let hi_x = b.origin.x + b.size.w;
                let hi_y = b.origin.y + b.size.h;
                let x = if point.x < b.origin.x { b.origin.x } else if point.x > hi_x { hi_x } else { point.x };
                let y = if point.y < b.origin.y { b.origin.y } else if point.y > hi_y { hi_y } else { point.y };
                proof {
                    assert forall|c: Rect| #[trigger] covers_all(self.placements(), c) implies Point { x, y } == clamped_into(point, c) by {
                        lemma_covering_rect_unique(self.placements(), b, c);
                    }
                }
                Point { x, y }
            },
        }
    }
}

} // verus!

verus! {

/// The extent of the first `n` outputs along the arranging axis: heights when stacking
/// vertically, widths otherwise.
pub open spec fn extent_before(sizes: Seq<Size>, n: int, vertical: bool) -> int
    decreases n,
{
    if n <= 0 {
        0
    } else {
        extent_before(sizes, n - 1, vertical) + (if vertical { sizes[n - 1].h as int } else { sizes[n - 1].w as int })
    }
}

proof fn lemma_extent_before_monotone(sizes: Seq<Size>, i: int, j: int, vertical: bool)
    requires
        0 <= i <= j <= sizes.len(),
        forall|k: int| 0 <= k < sizes.len() ==> (#[trigger] sizes[k]).w >= 0 && sizes[k].h >= 0,
    ensures
        0 <= extent_before(sizes, i, vertical) <= extent_before(sizes, j, vertical),
    decreases j,
{
    if j > i {
        lemma_extent_before_monotone(sizes, i, j - 1, vertical);
        assert(sizes[j - 1].w >= 0 && sizes[j - 1].h >= 0);
    } else if i > 0 {
        lemma_extent_before_monotone(sizes, i - 1, i - 1, vertical);
        assert(sizes[i - 1].w >= 0 && sizes[i - 1].h >= 0);
    }
}

/// Lays outputs out edge to edge from the origin, in order: side by side from left to
/// right, or stacked from top to bottom for the vertical tty layout.
pub fn arrange_outputs(names: &[String], sizes: &[Size], layout: crate::tty::TtyOutputLayout) -> (r: OutputLayout)
    requires
        names@.len() == sizes@.len(),
        forall|k: int| 0 <= k < sizes@.len() ==> (#[trigger] sizes@[k]).ok() && sizes@[k].w >= 0 && sizes@[k].h >= 0,
        extent_before(sizes@, sizes@.len() as int, layout == crate::tty::TtyOutputLayout::Vertical) <= crate::canvas::COORD_LIMIT,
    ensures
        r.wf(),
        r.placements().len() == sizes@.len(),
        forall|i: int| 0 <= i < sizes@.len() ==> {
            &&& (#[trigger] r.placements()[i]).name@ == names@[i]@
            &&& r.placements()[i].size == sizes@[i]
            &&& r.placements()[i].origin == (if layout == crate::tty::TtyOutputLayout::Vertical {
                Point { x: 0, y: extent_before(sizes@, i, true) as i64 }
            } else {
                Point { x: extent_before(sizes@, i, false) as i64, y: 0 }
            })
        },
{
    let vertical = match layout {
        crate::tty::TtyOutputLayout::Vertical => true,
        crate::tty::TtyOutputLayout::Horizontal => false,
    };
    let mut out = OutputLayout::new();
    let mut offset: i64 = 0;
    let mut i: usize = 0;
    while i < sizes.len()
        invariant
            i <= sizes@.len(),
            names@.len() == sizes@.len(),
            vertical == (layout == crate::tty::TtyOutputLayout::Vertical),
            forall|k: int| 0 <= k < sizes@.len() ==> (#[trigger] sizes@[k]).ok() && sizes@[k].w >= 0 && sizes@[k].h >= 0,
            extent_before(sizes@, sizes@.len() as int, vertical) <= crate::canvas::COORD_LIMIT,
            offset as int == extent_before(sizes@, i as int, vertical),
            out.wf(),
            out.placements().len() == i,
            forall|j: int| 0 <= j < i ==> {
                &&& (#[trigger] out.placements()[j]).name@ == names@[j]@
                &&& out.placements()[j].size == sizes@[j]
                &&& out.placements()[j].origin == (if vertical {
                    Point { x: 0, y: extent_before(sizes@, j, true) as i64 }
                } else {
                    Point { x: extent_before(sizes@, j, false) as i64, y: 0 }
                })
            },
        decreases sizes@.len() - i,
    {
        proof {
            lemma_extent_before_monotone(sizes@, i as int, sizes@.len() as int, vertical);
            lemma_extent_before_monotone(sizes@, (i + 1) as int, sizes@.len() as int, vertical);
            assert(sizes@[i as int].ok());
        }
        let origin = if vertical { Point { x: 0, y: offset } } else { Point { x: offset, y: 0 } };
        let ghost before = out.placements();
        out.add_output(names[i].clone(), origin, sizes[i]);
        offset = if vertical { offset + sizes[i].h } else { offset + sizes[i].w };
        proof {
            assert forall|j: int| 0 <= j < i + 1 implies {
                &&& (#[trigger] out.placements()[j]).name@ == names@[j]@
                &&& out.placements()[j].size == sizes@[j]
                &&& out.placements()[j].origin == (if vertical {
                    Point { x: 0, y: extent_before(sizes@, j, true) as i64 }
                } else {
                    Point { x: extent_before(sizes@, j, false) as i64, y: 0 }
                })
            } by {
                if j < i {
                    assert(out.placements()[j] == before[j]);
                }
            }
        }
        i += 1;
    }
    out
}

} // verus!
