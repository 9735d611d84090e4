use evilwm::canvas::{Point, Rect, Size};
use evilwm::output::layout::{arrange_outputs, output_for_window_bounds, OutputLayout, OutputPlacement};
use evilwm::tty::TtyOutputLayout;

fn two_outputs() -> OutputLayout {
    let mut layout = OutputLayout::new();
    layout.add_output("left".into(), Point::new(0, 0), Size::new(800, 600));
    layout.add_output("right".into(), Point::new(800, 0), Size::new(1024, 768));
    layout
}

#[test]
fn output_at_uses_half_open_bounds() {
    let layout = two_outputs();
    assert_eq!(layout.output_at(Point::new(0, 0)).map(|o| o.name.as_str()), Some("left"));
    assert_eq!(layout.output_at(Point::new(799, 599)).map(|o| o.name.as_str()), Some("left"));
    assert_eq!(layout.output_at(Point::new(800, 0)).map(|o| o.name.as_str()), Some("right"));
    assert!(layout.output_at(Point::new(100, 700)).is_none());
    assert!(layout.output_at(Point::new(-1, 0)).is_none());
}

#[test]
fn bounding_rect_covers_every_output() {
    assert_eq!(OutputLayout::new().bounding_rect(), None);
    assert_eq!(two_outputs().bounding_rect(), Some(Rect::new(0, 0, 1824, 768)));
}

#[test]
fn nearest_output_prefers_the_first_of_equals() {
    let layout = two_outputs();
    assert_eq!(layout.nearest_output(Point::new(100, 700)).map(|o| o.name.as_str()), Some("left"));
    assert_eq!(layout.nearest_output(Point::new(900, 900)).map(|o| o.name.as_str()), Some("right"));
    assert_eq!(layout.nearest_output(Point::new(-50, 10)).map(|o| o.name.as_str()), Some("left"));
    assert!(OutputLayout::new().nearest_output(Point::new(0, 0)).is_none());
    let mut gap = OutputLayout::new();
    gap.add_output("a".into(), Point::new(0, 0), Size::new(100, 100));
    gap.add_output("b".into(), Point::new(200, 0), Size::new(100, 100));
    assert_eq!(gap.nearest_output(Point::new(150, 50)).map(|o| o.name.as_str()), Some("a"));
    let outputs = layout.outputs();
    assert_eq!(outputs.len(), 2);
    assert!(outputs[1].contains(Point::new(1823, 767)));
    assert!(!outputs[1].contains(Point::new(1824, 767)));
}

#[test]
fn windows_belong_to_the_output_holding_their_centre() {
    let areas = vec![
        OutputPlacement { name: "a".into(), origin: Point::new(0, 0), size: Size::new(100, 100) },
        OutputPlacement { name: "b".into(), origin: Point::new(100, 0), size: Size::new(100, 100) },
    ];
    // Centre at (99.5, 10): still inside "a".
    assert_eq!(output_for_window_bounds(&areas, Rect::new(90, 0, 19, 20)).as_deref(), Some("a"));
    // Centre at (100, 10): the right edge of "a" is excluded.
    assert_eq!(output_for_window_bounds(&areas, Rect::new(90, 0, 20, 20)).as_deref(), Some("b"));
    assert_eq!(output_for_window_bounds(&areas, Rect::new(500, 500, 10, 10)), None);
}

#[test]
fn tty_output_layout_can_stack_outputs_vertically() {
    let names = vec!["top".to_string(), "bottom".to_string()];
    let sizes = vec![Size::new(800, 600), Size::new(1024, 768)];
    let layout = arrange_outputs(&names, &sizes, TtyOutputLayout::Vertical);
    assert_eq!(layout.outputs()[0].origin, Point::new(0, 0));
    assert_eq!(layout.outputs()[1].origin, Point::new(0, 600));

    let side_by_side = arrange_outputs(&names, &sizes, TtyOutputLayout::Horizontal);
    assert_eq!(side_by_side.outputs()[1].origin, Point::new(800, 0));
    assert_eq!(side_by_side.outputs()[1].name, "bottom");
}

#[test]
fn pointers_stay_inside_the_outputs() {
    let layout = two_outputs();
    let fallback = Rect::new(0, 0, 1280, 720);
    assert_eq!(layout.clamp_pointer(fallback, Point::new(-10, 900)), Point::new(0, 768));
    assert_eq!(layout.clamp_pointer(fallback, Point::new(5000, 10)), Point::new(1824, 10));
    assert_eq!(layout.clamp_pointer(fallback, Point::new(100, 100)), Point::new(100, 100));
    let empty = OutputLayout::new();
    assert_eq!(empty.clamp_pointer(fallback, Point::new(2000, -5)), Point::new(1280, 0));
    assert_eq!(empty.clamp_pointer(Rect::new(10, 10, 0, 0), Point::new(50, 50)), Point::new(11, 11));
}
