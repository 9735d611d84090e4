//! Rendering geometry in physical pixels.
use vstd::prelude::*;

verus! {

/// A rectangle in physical pixels.
#[derive(Debug, Clone, Copy, PartialEq, Eq, Structural)]
pub struct PhysicalRect {
    pub x: i32,
    pub y: i32,
    pub w: i32,
    pub h: i32,
}

pub open spec fn fits_i32(v: int) -> bool {
    i32::MIN <= v <= i32::MAX
}

/// Whether a stroke of `width` drawn `outer` pixels outside `rect` is drawn at all.
pub open spec fn stroke_drawn(rect: PhysicalRect, width: i32, outer: i32) -> bool {
    rect.w > 0 && rect.h > 0 && width > 0 && outer >= 0
}

/// The four bands of a stroke: top, bottom, left and right, each `width` thick, around
/// `rect` grown by `outer` on every side.
pub open spec fn stroke_bands(rect: PhysicalRect, width: int, outer: int) -> Seq<(int, int, int, int)> {
    let x = rect.x - outer;
    let y = rect.y - outer;
    let w = rect.w + outer * 2;
    let h = rect.h + outer * 2;
    seq![(x, y, w, width), (x, y + h - width, w, width), (x, y, width, h), (x + w - width, y, width, h)]
}

pub open spec fn band_view(r: PhysicalRect) -> (int, int, int, int) {
    (r.x as int, r.y as int, r.w as int, r.h as int)
}

/// The rectangles that draw a stroke of `width` around `rect`, `outer` pixels outside
/// it; none for an empty rectangle, a width that is not positive or a negative offset.
pub fn stroke_rects(rect: PhysicalRect, width: i32, outer: i32) -> (r: Vec<PhysicalRect>)
    requires
        stroke_drawn(rect, width, outer) ==> {
            let x = rect.x - outer;
            let y = rect.y - outer;
            let w = rect.w + outer * 2;
            let h = rect.h + outer * 2;
            fits_i32(x) && fits_i32(y) && fits_i32(w) && fits_i32(h) && fits_i32(outer * 2)
                && fits_i32(y + h) && fits_i32(x + w) && fits_i32(y + h - width) && fits_i32(x + w - width)
        },
    ensures
        !stroke_drawn(rect, width, outer) ==> r@.len() == 0,
        stroke_drawn(rect, width, outer) ==> r@.len() == 4
            && forall|i: int| 0 <= i < 4 ==> band_view(#[trigger] r@[i]) == stroke_bands(rect, width as int, outer as int)[i],
{
    if rect.w <= 0 || rect.h <= 0 || width <= 0 || outer < 0 {
        return Vec::new();
    }
    let x = rect.x - outer;
    let y = rect.y - outer;
    let w = rect.w + outer * 2;
    let h = rect.h + outer * 2;
    let mut bands: Vec<PhysicalRect> = Vec::new();
    bands.push(PhysicalRect { x, y, w, h: width });
    bands.push(PhysicalRect { x, y: y + h - width, w, h: width });
    bands.push(PhysicalRect { x, y, w: width, h });
    bands.push(PhysicalRect { x: x + w - width, y, w: width, h });
    bands
}

} // verus!

verus! {

/// The layer stack a frame is built from, bottom-most first: the configured one, or the
/// default order without a configuration.
pub fn configured_draw_stack(config: &Option<crate::config::Config>) -> (r: Vec<crate::config::DrawLayer>)
    ensures
        r@ == match config {
            Some(c) => c.draw.stack@,
            None => crate::config::default_stack(),
        },
{
    match config {
        Some(c) => {
            let v = c.draw.stack.clone();
            assert(v@ =~= c.draw.stack@);
            v
        },
        None => crate::config::DrawConfig::default().stack,
    }
}

/// The layers in the order they are drawn over one another, top-most first.
pub fn render_stack_front_to_back(config: &Option<crate::config::Config>) -> (r: Vec<crate::config::DrawLayer>)
    ensures
        r@ == (match config {
            Some(c) => c.draw.stack@,
            None => crate::config::default_stack(),
        }).reverse(),
{
    let stack = configured_draw_stack(config);
    let mut out: Vec<crate::config::DrawLayer> = Vec::new();
    let mut i: usize = stack.len();
    while i > 0
        invariant
            i <= stack@.len(),
            out@ == stack@.subrange(i as int, stack@.len() as int).reverse(),
        decreases i,
    {
        i -= 1;
        out.push(stack[i]);
        assert(out@ =~= stack@.subrange(i as int, stack@.len() as int).reverse());
    }
    assert(stack@.subrange(0, stack@.len() as int) =~= stack@);
    out
}

} // verus!
