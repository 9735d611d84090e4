use evilwm::canvas::{Point, Vec2};
use evilwm::interactive::{ActiveInteractiveKind, ActiveInteractiveOp, InteractiveEnd, InteractiveStep};
use evilwm::window::{ResizeEdges, WindowId};

#[test]
fn interactive_op_reports_incremental_and_total_delta() {
    let mut op = ActiveInteractiveOp::new(
        ActiveInteractiveKind::Move,
        WindowId(7),
        Point::new(100, 200),
        None,
        Some(272),
    );

    let first = op.advance(Point::new(130, 250));
    assert_eq!(first.x, 30);
    assert_eq!(first.y, 50);

    let second = op.advance(Point::new(150, 255));
    assert_eq!(second.x, 20);
    assert_eq!(second.y, 5);

    let total = op.total_delta();
    assert_eq!(total.x, 50);
    assert_eq!(total.y, 55);
}

#[test]
fn interactive_op_only_ends_on_initiating_button() {
    let op = ActiveInteractiveOp::new(
        ActiveInteractiveKind::Resize,
        WindowId(9),
        Point::new(0, 0),
        Some(ResizeEdges::all()),
        Some(274),
    );
    assert!(!op.should_end_on_button(272));
    assert!(op.should_end_on_button(274));

    let op_without_button = ActiveInteractiveOp::new(
        ActiveInteractiveKind::Move,
        WindowId(10),
        Point::new(0, 0),
        None,
        None,
    );
    assert!(op_without_button.should_end_on_button(272));
}

#[test]
fn total_delta_is_distance_from_start_after_moving_back() {
    let mut op = ActiveInteractiveOp::new(ActiveInteractiveKind::PanCanvas, WindowId(1), Point::new(5, 5), None, None);
    op.advance(Point::new(-40, 90));
    op.advance(Point::new(5, 5));
    let total = op.total_delta();
    assert_eq!((total.x, total.y), (0, 0));
    assert_eq!(op.kind(), ActiveInteractiveKind::PanCanvas);
    assert_eq!(op.window_id(), WindowId(1));
    assert_eq!(op.resize_edges(), None);
}

#[test]
fn motion_steps_name_the_operation() {
    let mut resize = ActiveInteractiveOp::new(ActiveInteractiveKind::Resize, WindowId(3), Point::new(0, 0), None, Some(272));
    assert_eq!(resize.step(Point::new(0, 0), false), InteractiveStep::Still);
    assert_eq!(
        resize.step(Point::new(4, -2), false),
        InteractiveStep::Resize { id: WindowId(3), delta: Vec2::new(4, -2), edges: ResizeEdges::all() }
    );
    assert_eq!(resize.step(Point::new(10, 0), false), InteractiveStep::Resize { id: WindowId(3), delta: Vec2::new(6, 2), edges: ResizeEdges::all() });
    assert_eq!(resize.end_on_release(273), InteractiveEnd::Continue);
    assert_eq!(
        resize.end_on_release(272),
        InteractiveEnd::ResizeEnded { id: WindowId(3), total: Vec2::new(10, 0), edges: ResizeEdges::all() }
    );

    let mut pan = ActiveInteractiveOp::new(ActiveInteractiveKind::PanCanvas, WindowId(0), Point::new(5, 5), None, None);
    assert_eq!(pan.step(Point::new(7, 5), false), InteractiveStep::Pan { delta: Vec2::new(2, 0) });
    assert_eq!(pan.end_on_release(999), InteractiveEnd::PanEnded);

    let mut drag = ActiveInteractiveOp::new(ActiveInteractiveKind::Move, WindowId(8), Point::new(1, 1), None, Some(272));
    drag.step(Point::new(3, 4), false);
    assert_eq!(drag.end_on_release(272), InteractiveEnd::MoveEnded { id: WindowId(8), total: Vec2::new(2, 3) });
}

#[test]
fn window_operations_end_with_their_window() {
    let mv = ActiveInteractiveOp::new(ActiveInteractiveKind::Move, WindowId(7), Point::new(0, 0), None, Some(272));
    assert!(mv.outlives_motion(true));
    assert!(!mv.outlives_motion(false));
    let rs = ActiveInteractiveOp::new(ActiveInteractiveKind::Resize, WindowId(7), Point::new(0, 0), None, Some(272));
    assert!(!rs.outlives_motion(false));
    let pan = ActiveInteractiveOp::new(ActiveInteractiveKind::PanCanvas, WindowId(0), Point::new(0, 0), None, Some(274));
    assert!(pan.outlives_motion(false));
}

#[test]
fn a_locked_session_holds_interactive_operations_still() {
    let mut drag = ActiveInteractiveOp::new(ActiveInteractiveKind::Move, WindowId(2), Point::new(1, 1), None, Some(272));
    assert_eq!(drag.step(Point::new(50, 60), true), InteractiveStep::Locked);
    assert_eq!(drag.total_delta(), Vec2::new(0, 0));
    assert_eq!(drag.step(Point::new(4, 5), false), InteractiveStep::Move { id: WindowId(2), delta: Vec2::new(3, 4) });
}
