use evilwm::canvas::{Point, Rect};
use evilwm::config::{BindingConfig, ConfigBuilder};
use evilwm::input::bindings::ModifierSet;
use evilwm::input::Action;
use evilwm::number::Double;
use evilwm::config::ConfigError;
use evilwm::hooks::{apply_hook_action, HookAction};
use evilwm::session::{BindingEffect, CameraRequest, HeadlessSession};
use evilwm::window::{WindowId, WindowProperties};

fn zoom_out() -> Double {
    Double((1.0f64 / 1.2).to_bits())
}

fn props(app_id: &str) -> WindowProperties {
    WindowProperties { app_id: Some(app_id.to_string()), title: None, pid: None }
}

fn super_only() -> ModifierSet {
    ModifierSet { ctrl: false, alt: false, shift: false, logo: true }
}

#[test]
fn created_windows_get_fresh_ascending_ids() {
    let mut session = HeadlessSession::new(None, None, zoom_out());
    let a = session.create_window(Rect::new(0, 0, 100, 100), props("foot"));
    let b = session.create_window(Rect::new(10, 10, 200, 100), props("kitty"));
    assert_eq!(a, WindowId(1));
    assert_eq!(b, WindowId(2));
    let ids: Vec<u64> = session.windows().iter().map(|w| w.id.0).collect();
    assert_eq!(ids, vec![1, 2]);
    assert_eq!(session.window(b).expect("mapped").properties.app_id.as_deref(), Some("kitty"));
    assert!(session.window(WindowId(3)).is_none());
}

#[test]
fn focus_moves_to_front_and_clears() {
    let mut session = HeadlessSession::new(None, None, zoom_out());
    let a = session.create_window(Rect::new(0, 0, 100, 100), props("a"));
    let b = session.create_window(Rect::new(0, 0, 100, 100), props("b"));
    assert!(session.focus_window(a));
    assert!(session.focus_window(b));
    assert_eq!(session.focused_window_id(), Some(b));
    assert_eq!(session.focus_order(), &[b, a]);
    assert!(!session.focus_window(WindowId(99)));
    assert!(session.clear_focus());
    assert_eq!(session.focused_window_id(), None);
    assert!(!session.clear_focus());
}

#[test]
fn windows_move_and_resize() {
    let mut session = HeadlessSession::new(None, None, zoom_out());
    let id = session.create_window(Rect::new(0, 0, 100, 100), props("a"));
    assert!(session.move_window(id, 40, -20));
    assert_eq!(session.window(id).expect("mapped").bounds, Rect::new(40, -20, 100, 100));
    assert!(session.resize_window(id, 300, 200));
    assert_eq!(session.window(id).expect("mapped").bounds, Rect::new(40, -20, 300, 200));
    assert!(!session.resize_window(id, 0, 200));
    assert!(!session.set_window_bounds(id, Rect::new(0, 0, 10, -1)));
    assert!(session.set_window_bounds(id, Rect::new(1, 2, 3, 4)));
    assert_eq!(session.window(id).expect("mapped").bounds, Rect::new(1, 2, 3, 4));
    assert!(!session.move_window(WindowId(42), 0, 0));
}

#[test]
fn close_lifecycle_unmaps_then_destroys() {
    let mut session = HeadlessSession::new(None, None, zoom_out());
    let a = session.create_window(Rect::new(0, 0, 100, 100), props("a"));
    let b = session.create_window(Rect::new(0, 0, 100, 100), props("b"));
    session.focus_window(a);
    session.focus_window(b);

    assert!(session.request_close_window(b));
    assert!(session.is_close_requested(b));
    assert!(session.unmap_window(b));
    assert!(!session.is_close_requested(b));
    assert!(session.window(b).is_none());
    assert!(session.unmapped_window(b).is_some());
    assert_eq!(session.focused_window_id(), None);
    assert_eq!(session.focus_order(), &[a]);
    assert!(session.destroy_window(b));
    assert!(session.unmapped_window(b).is_none());
    assert!(!session.destroy_window(b));

    assert!(session.close_window(a));
    assert!(session.windows().is_empty());
    assert!(!session.close_window(a));
}

#[test]
fn next_placement_cascades_with_window_count() {
    let mut session = HeadlessSession::new(None, None, zoom_out());
    let visible = Rect::new(0, 0, 1280, 720);
    assert_eq!(session.next_placement(visible), Rect::new(190, 60, 900, 600));
    session.create_window(Rect::new(0, 0, 10, 10), props("a"));
    assert_eq!(session.next_placement(visible), Rect::new(222, 84, 900, 600));
    session.create_window(Rect::new(0, 0, 10, 10), props("b"));
    assert_eq!(session.next_placement(visible), Rect::new(254, 88, 900, 600));
}

#[test]
fn bindings_close_the_focused_window_or_hand_back_camera_moves() {
    let mut builder = ConfigBuilder::new();
    builder.bindings.push(BindingConfig {
        mods: vec!["Super".into()],
        key: "Q".into(),
        action: "close_window".into(),
        amount: None,
        command: None,
    });
    builder.bindings.push(BindingConfig {
        mods: vec!["Super".into()],
        key: "Left".into(),
        action: "pan_left".into(),
        amount: None,
        command: None,
    });
    let config = builder.build(".").expect("valid");
    let mut session = HeadlessSession::new(Some("init.lua".into()), Some(config), zoom_out());
    let id = session.create_window(Rect::new(0, 0, 100, 100), props("a"));
    session.focus_window(id);

    match session.trigger_binding("left", super_only()) {
        BindingEffect::Camera(Action::PanLeft { amount }) => assert_eq!(amount, Double(64.0f64.to_bits())),
        other => panic!("expected a camera pan, got {other:?}"),
    }
    assert!(matches!(session.trigger_binding("q", ModifierSet::none()), BindingEffect::Unbound));
    assert!(matches!(session.trigger_binding("q", super_only()), BindingEffect::Applied));
    assert!(session.windows().is_empty());
    assert_eq!(session.config_path().as_deref(), Some("init.lua"));
}

#[test]
fn spawn_and_camera_actions_leave_the_windows_alone() {
    let mut session = HeadlessSession::new(None, None, zoom_out());
    session.create_window(Rect::new(0, 0, 100, 100), props("a"));
    assert!(session.apply_action(Action::Spawn { command: "foot".into() }).is_none());
    let zoom = Action::ZoomIn { factor: Double(1.2f64.to_bits()) };
    assert_eq!(session.apply_action(zoom.clone()), Some(zoom));
    assert!(session.apply_action(Action::CloseWindow).is_none());
    assert_eq!(session.windows().len(), 1);
}

#[test]
fn pointer_position_is_kept() {
    let mut session = HeadlessSession::new(None, None, zoom_out());
    assert_eq!(session.pointer_position(), Point::new(0, 0));
    session.set_pointer_position(Point::new(5, -7));
    assert_eq!(session.pointer_position(), Point::new(5, -7));
}

#[test]
fn hook_actions_act_on_the_headless_session() {
    let mut session = HeadlessSession::new(None, None, zoom_out());
    let a = session.create_window(Rect::new(0, 0, 100, 100), props("foot"));
    let b = session.create_window(Rect::new(10, 10, 200, 100), props("kitty"));
    assert_eq!(apply_hook_action(&mut session, HookAction::MoveWindow { id: a.0, x: 40, y: 50 }), Ok(()));
    assert_eq!(session.window(a).expect("mapped").bounds, Rect::new(40, 50, 100, 100));
    assert_eq!(apply_hook_action(&mut session, HookAction::ResizeWindow { id: b.0, w: 300, h: 90 }), Ok(()));
    assert_eq!(session.window(b).expect("mapped").bounds, Rect::new(10, 10, 300, 90));
    assert_eq!(
        apply_hook_action(&mut session, HookAction::ResizeWindow { id: b.0, w: 0, h: 90 }),
        Err(ConfigError::Validation("hook action resize_window failed for window id 2".into()))
    );
    assert_eq!(apply_hook_action(&mut session, HookAction::SetBounds { id: a.0, x: 1, y: 2, w: 3, h: 4 }), Ok(()));
    assert_eq!(session.window(a).expect("mapped").bounds, Rect::new(1, 2, 3, 4));
    assert_eq!(apply_hook_action(&mut session, HookAction::FocusWindow { id: b.0 }), Ok(()));
    assert_eq!(session.focused_window_id(), Some(b));
    assert_eq!(apply_hook_action(&mut session, HookAction::ClearFocus), Ok(()));
    assert_eq!(session.focused_window_id(), None);
    assert_eq!(apply_hook_action(&mut session, HookAction::CloseWindow { id: a.0 }), Ok(()));
    assert!(session.window(a).is_none());
    assert_eq!(
        apply_hook_action(&mut session, HookAction::CloseWindow { id: 99 }),
        Err(ConfigError::Validation("hook action close_window failed for window id 99".into()))
    );
    let one = Double(1.0f64.to_bits());
    let two = Double(2.0f64.to_bits());
    assert_eq!(apply_hook_action(&mut session, HookAction::PanCanvas { dx: one, dy: two }), Ok(()));
    assert_eq!(
        apply_hook_action(&mut session, HookAction::ZoomCanvas { factor: Double(0.0f64.to_bits()) }),
        Err(ConfigError::Validation("hook action zoom_canvas requires factor > 0".into()))
    );
    assert_eq!(apply_hook_action(&mut session, HookAction::ZoomCanvas { factor: two }), Ok(()));
    assert_eq!(
        session.take_camera_requests(),
        vec![CameraRequest::Pan { dx: one, dy: two }, CameraRequest::Zoom { factor: two }]
    );
    assert!(session.take_camera_requests().is_empty());
}
