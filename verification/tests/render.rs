use evilwm::config::{ConfigBuilder, DrawLayer};
use evilwm::render::{stroke_rects, PhysicalRect};

fn rect(x: i32, y: i32, w: i32, h: i32) -> PhysicalRect {
    PhysicalRect { x, y, w, h }
}

#[test]
fn strokes_are_four_bands_around_the_grown_rect() {
    assert_eq!(
        stroke_rects(rect(10, 10, 100, 50), 2, 1),
        vec![rect(9, 9, 102, 2), rect(9, 59, 102, 2), rect(9, 9, 2, 52), rect(109, 9, 2, 52)]
    );
    assert_eq!(
        stroke_rects(rect(0, 0, 10, 10), 1, 0),
        vec![rect(0, 0, 10, 1), rect(0, 9, 10, 1), rect(0, 0, 1, 10), rect(9, 0, 1, 10)]
    );
}

#[test]
fn empty_rects_and_widths_draw_nothing() {
    assert!(stroke_rects(rect(0, 0, 0, 10), 2, 0).is_empty());
    assert!(stroke_rects(rect(0, 0, 10, 10), 0, 0).is_empty());
    assert!(stroke_rects(rect(0, 0, 10, 10), 2, -1).is_empty());
}

#[test]
fn layers_are_drawn_top_most_first() {
    let defaults = evilwm::render::render_stack_front_to_back(&None);
    assert_eq!(
        defaults,
        vec![DrawLayer::Cursor, DrawLayer::Overlay, DrawLayer::Popups, DrawLayer::WindowOverlay, DrawLayer::Windows, DrawLayer::Background]
    );
    let mut builder = ConfigBuilder::new();
    builder.draw.stack = vec![
        DrawLayer::Windows,
        DrawLayer::Background,
        DrawLayer::WindowOverlay,
        DrawLayer::Popups,
        DrawLayer::Overlay,
        DrawLayer::Cursor,
    ];
    let config = Some(builder.build(".").expect("valid"));
    assert_eq!(evilwm::render::configured_draw_stack(&config)[0], DrawLayer::Windows);
    assert_eq!(evilwm::render::render_stack_front_to_back(&config)[5], DrawLayer::Windows);
}
