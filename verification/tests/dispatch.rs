use evilwm::config::BindingConfig;
use evilwm::input::bindings::ModifierSet;
use evilwm::canvas::Point;
use evilwm::input::dispatch::{
    motion_focus_request, press_focus_request,
    route_input_event, route_key_press, settle_key_press, ButtonTracker, FocusChange, InputEventKind, InputRoute, KeyPressRoute,
    PressStep, LEFT_BUTTON, MIDDLE_BUTTON,
};
use evilwm::input::{Action, BindingMap};
use evilwm::number::Double;
use evilwm::tty::{TtyConfig, TtyControlAction};
use evilwm::window::WindowId;

fn mods(ctrl: bool, alt: bool, shift: bool, logo: bool) -> ModifierSet {
    ModifierSet { ctrl, alt, shift, logo }
}

fn bindings() -> BindingMap {
    let configs = vec![BindingConfig {
        mods: vec!["Super".into()],
        key: "Q".into(),
        action: "close_window".into(),
        amount: None,
        command: None,
    }];
    BindingMap::from_config(&configs, Double(64.0f64.to_bits()), Double(1.2f64.to_bits()), Double((1.0f64 / 1.2).to_bits()))
}

#[test]
fn session_keys_come_first_then_the_lock_then_bindings() {
    let tty = TtyConfig::default();
    let map = bindings();
    let ctrl_alt = mods(true, true, false, false);
    assert!(matches!(
        route_key_press("F3", ctrl_alt, Some(&tty), true, &map),
        KeyPressRoute::TtyControl(TtyControlAction::SwitchVt(3))
    ));
    assert!(matches!(
        route_key_press("backspace", ctrl_alt, Some(&tty), false, &map),
        KeyPressRoute::TtyControl(TtyControlAction::Quit)
    ));
    // Without session control the same key is an ordinary press.
    assert!(matches!(route_key_press("F3", ctrl_alt, None, false, &map), KeyPressRoute::Resolve { .. }));
    assert!(matches!(route_key_press("q", mods(false, false, false, true), Some(&tty), true, &map), KeyPressRoute::Locked));
    match route_key_press(" q ", mods(false, false, false, true), Some(&tty), false, &map) {
        KeyPressRoute::Resolve { keyspec, bound } => {
            assert_eq!(keyspec, "Super+Q");
            assert_eq!(bound, Some(Action::CloseWindow));
        }
        other => panic!("expected the bindings, got {other:?}"),
    }
    match route_key_press("w", mods(false, false, true, true), None, false, &map) {
        KeyPressRoute::Resolve { keyspec, bound } => {
            assert_eq!(keyspec, "Super+Shift+W");
            assert_eq!(bound, None);
        }
        other => panic!("expected the bindings, got {other:?}"),
    }
}

#[test]
fn a_handled_key_hook_stops_the_binding_but_keeps_the_press() {
    let outcome = settle_key_press(Some(Action::CloseWindow), true);
    assert!(outcome.intercepted);
    assert!(outcome.run.is_none());
    let outcome = settle_key_press(Some(Action::CloseWindow), false);
    assert!(outcome.intercepted);
    assert_eq!(outcome.run, Some(Action::CloseWindow));
    let outcome = settle_key_press(None, false);
    assert!(!outcome.intercepted);
    assert!(outcome.run.is_none());
}

#[test]
fn middle_button_pans_and_hides_its_release() {
    let mut tracker = ButtonTracker::new();
    assert_eq!(tracker.press(MIDDLE_BUTTON, false, false), PressStep::StartPan);
    assert_eq!(tracker.last_pressed, Some(MIDDLE_BUTTON));
    assert!(!tracker.release(MIDDLE_BUTTON, false));
    assert_eq!(tracker, ButtonTracker::new());
}

#[test]
fn focus_follows_unhandled_presses() {
    let mut tracker = ButtonTracker::new();
    assert_eq!(tracker.press(LEFT_BUTTON, false, false), PressStep::AskFocusHook);
    let follow = tracker.follow_up(LEFT_BUTTON, Some(WindowId(4)), false, false, false, false);
    assert!(!follow.suppress);
    assert_eq!(follow.focus, FocusChange::Focus(WindowId(4)));
    assert!(tracker.release(LEFT_BUTTON, false));

    assert_eq!(tracker.press(LEFT_BUTTON, false, false), PressStep::AskFocusHook);
    let follow = tracker.follow_up(LEFT_BUTTON, None, false, false, false, false);
    assert_eq!(follow.focus, FocusChange::Clear);
    assert!(tracker.release(LEFT_BUTTON, false));
}

#[test]
fn handled_modifier_clicks_and_hook_drags_are_suppressed() {
    let right = 273;
    let mut tracker = ButtonTracker::new();
    tracker.press(right, false, false);
    let follow = tracker.follow_up(right, Some(WindowId(1)), true, true, false, false);
    assert!(follow.suppress);
    assert_eq!(follow.focus, FocusChange::Keep);
    assert!(!tracker.release(right, false));

    // The left button with the logo key is no resize click, but a drag started by the
    // hook still hides the press.
    tracker.press(LEFT_BUTTON, false, false);
    let follow = tracker.follow_up(LEFT_BUTTON, Some(WindowId(1)), true, true, false, false);
    assert!(!follow.suppress);
    let follow = tracker.follow_up(LEFT_BUTTON, Some(WindowId(1)), true, true, false, true);
    assert!(follow.suppress);
    assert!(!tracker.release(LEFT_BUTTON, false));
}

#[test]
fn grabbed_presses_go_straight_to_the_client() {
    let mut tracker = ButtonTracker::new();
    assert_eq!(tracker.press(MIDDLE_BUTTON, true, false), PressStep::Forward);
    assert!(tracker.release(MIDDLE_BUTTON, false));
}

#[test]
fn focus_requests_carry_the_event() {
    let request = press_focus_request(None, Some(WindowId(2)), Point::new(3, 4), LEFT_BUTTON, mods(false, false, false, true));
    assert_eq!(request.reason, "pointer_button");
    assert_eq!(request.button, Some(LEFT_BUTTON));
    assert_eq!(request.pressed, Some(true));
    let request = motion_focus_request(None, None, Point::new(3, 4), mods(false, false, false, false));
    assert_eq!(request.reason, "pointer_motion");
    assert_eq!(request.button, None);
}

#[test]
fn a_locked_session_drops_pointer_input() {
    let pointer_kinds = [
        InputEventKind::PointerMotion,
        InputEventKind::PointerMotionAbsolute,
        InputEventKind::PointerButton,
        InputEventKind::PointerAxis,
        InputEventKind::GestureSwipeBegin,
        InputEventKind::GestureSwipeUpdate,
        InputEventKind::GestureSwipeEnd,
        InputEventKind::GesturePinchBegin,
        InputEventKind::GesturePinchUpdate,
        InputEventKind::GesturePinchEnd,
    ];
    for kind in pointer_kinds {
        assert_eq!(route_input_event(kind, true), InputRoute::Dropped);
        assert_eq!(route_input_event(kind, false), InputRoute::PointerHandler);
    }
    assert_eq!(route_input_event(InputEventKind::Keyboard, true), InputRoute::KeyHandler);
    assert_eq!(route_input_event(InputEventKind::Other, false), InputRoute::Ignored);

    let mut tracker = ButtonTracker::new();
    assert_eq!(tracker.press(LEFT_BUTTON, false, false), PressStep::AskFocusHook);
    let before = tracker;
    assert_eq!(tracker.press(MIDDLE_BUTTON, false, true), PressStep::Locked);
    assert_eq!(tracker, before);
    assert!(!tracker.release(LEFT_BUTTON, true));
    assert_eq!(tracker, before);
    assert!(tracker.release(LEFT_BUTTON, false));
    assert_eq!(tracker.last_pressed, None);
}
