use evilwm::canvas::Rect;
use evilwm::config::ConfigError;
use evilwm::hooks::{
    apply_hook_action, button_name, decimal_string, find_window_snapshot, format_live_hook_error, parse_draw_space,
    window_action_result, ActionTarget, DrawSpace, HookAction, HookErrorLog, WindowSnapshot,
};
use evilwm::number::Double;
use evilwm::window::WindowId;

#[test]
fn live_hook_error_messages_include_hook_name_and_error() {
    let error = ConfigError::Validation("boom".into());
    assert_eq!(
        format_live_hook_error("key", &error),
        "[evilwm] lua hook error: evil.on.key — config validation error: boom"
    );
}

#[test]
fn decimal_strings() {
    assert_eq!(decimal_string(0), "0");
    assert_eq!(decimal_string(7), "7");
    assert_eq!(decimal_string(12345), "12345");
    assert_eq!(decimal_string(u64::MAX), "18446744073709551615");
}

#[test]
fn button_names_and_draw_spaces() {
    assert_eq!(button_name(272), Some("left"));
    assert_eq!(button_name(273), Some("right"));
    assert_eq!(button_name(274), Some("middle"));
    assert_eq!(button_name(275), None);
    assert_eq!(parse_draw_space(None), Ok(DrawSpace::World));
    assert_eq!(parse_draw_space(Some("screen")), Ok(DrawSpace::Screen));
    assert_eq!(parse_draw_space(Some("world")), Ok(DrawSpace::World));
    assert_eq!(parse_draw_space(Some("paper")), Err(ConfigError::Validation("unsupported draw space: paper".into())));
}

fn snapshot(id: u64, title: &str) -> WindowSnapshot {
    WindowSnapshot {
        id,
        app_id: None,
        title: Some(title.into()),
        bounds: Rect::new(0, 0, 10, 10),
        floating: true,
        exclude_from_focus: false,
        focused: false,
    }
}

#[test]
fn window_snapshots_are_found_by_id() {
    let windows = vec![snapshot(1, "one"), snapshot(2, "two"), snapshot(2, "again")];
    assert_eq!(find_window_snapshot(&windows, WindowId(2)).expect("found").title.as_deref(), Some("two"));
    assert!(find_window_snapshot(&windows, WindowId(3)).is_none());
}

#[test]
fn failed_window_actions_name_the_window() {
    assert_eq!(window_action_result(&HookAction::MoveWindow { id: 42, x: 0, y: 0 }, true), Ok(()));
    assert_eq!(
        window_action_result(&HookAction::CloseWindow { id: 42 }, false),
        Err(ConfigError::Validation("hook action close_window failed for window id 42".into()))
    );
    assert_eq!(
        window_action_result(&HookAction::SetBounds { id: 7, x: 0, y: 0, w: 1, h: 1 }, false),
        Err(ConfigError::Validation("hook action set_bounds failed for window id 7".into()))
    );
}

#[derive(Default)]
struct Recorder {
    known: Vec<u64>,
    calls: Vec<String>,
}

impl ActionTarget for Recorder {
    fn move_window(&mut self, id: WindowId, x: i64, y: i64) -> bool {
        self.calls.push(format!("move {} {} {}", id.0, x, y));
        self.known.contains(&id.0)
    }
    fn resize_window(&mut self, id: WindowId, w: i64, h: i64) -> bool {
        self.calls.push(format!("resize {} {} {}", id.0, w, h));
        self.known.contains(&id.0)
    }
    fn set_window_bounds(&mut self, id: WindowId, _bounds: Rect) -> bool {
        self.known.contains(&id.0)
    }
    fn focus_window(&mut self, id: WindowId) -> bool {
        self.known.contains(&id.0)
    }
    fn clear_focus(&mut self) -> bool {
        false
    }
    fn close_window(&mut self, id: WindowId) -> bool {
        self.known.contains(&id.0)
    }
    fn pan_canvas(&mut self, _dx: Double, _dy: Double) {
        self.calls.push("pan".into());
    }
    fn zoom_canvas(&mut self, _factor: Double) -> Result<(), ConfigError> {
        Err(ConfigError::Validation("hook action zoom_canvas requires factor > 0".into()))
    }
}

#[test]
fn hook_actions_reach_the_target() {
    let mut target = Recorder { known: vec![1], calls: Vec::new() };
    assert_eq!(apply_hook_action(&mut target, HookAction::MoveWindow { id: 1, x: 5, y: 6 }), Ok(()));
    assert_eq!(
        apply_hook_action(&mut target, HookAction::ResizeWindow { id: 9, w: 5, h: 6 }),
        Err(ConfigError::Validation("hook action resize_window failed for window id 9".into()))
    );
    assert_eq!(apply_hook_action(&mut target, HookAction::ClearFocus), Ok(()));
    assert_eq!(apply_hook_action(&mut target, HookAction::PanCanvas { dx: Double(0), dy: Double(0) }), Ok(()));
    assert!(apply_hook_action(&mut target, HookAction::ZoomCanvas { factor: Double(0) }).is_err());
    assert_eq!(target.calls, vec!["move 1 5 6".to_string(), "resize 9 5 6".to_string(), "pan".to_string()]);
}

#[test]
fn hook_errors_are_counted_and_printed_sparingly() {
    let mut log = HookErrorLog::new();
    let boom = ConfigError::Validation("boom".into());
    let first = log.record("key", &boom);
    assert_eq!(first.count, 1);
    assert!(first.print);
    assert_eq!(first.message, "[evilwm] lua hook error: evil.on.key — config validation error: boom");
    for expected in 2..10 {
        let again = log.record("key", &boom);
        assert_eq!(again.count, expected);
        assert!(!again.print);
    }
    let tenth = log.record("key", &boom);
    assert_eq!(tenth.count, 10);
    assert!(tenth.print);
    let changed = log.record("key", &ConfigError::Lua("other".into()));
    assert_eq!(changed.count, 11);
    assert!(changed.print);
    let other = log.record("focus_changed", &boom);
    assert_eq!(other.count, 1);
    assert_eq!(log.count_of("key"), 11);
    assert_eq!(log.count_of("focus_changed"), 1);
    assert_eq!(log.count_of("draw"), 0);

    log.record("draw", &boom);
    let snapshot = log.snapshot();
    let hooks: Vec<&str> = snapshot.iter().map(|s| s.hook.as_str()).collect();
    assert_eq!(hooks, vec!["draw", "focus_changed", "key"]);
    assert_eq!(snapshot[2].count, 11);
    assert_eq!(snapshot[2].last_error, "[evilwm] lua hook error: evil.on.key — lua error: other");
}

#[derive(Default)]
struct Journal {
    calls: Vec<String>,
}

impl ActionTarget for Journal {
    fn move_window(&mut self, id: WindowId, x: i64, y: i64) -> bool {
        self.calls.push(format!("move {} {} {}", id.0, x, y));
        true
    }
    fn resize_window(&mut self, id: WindowId, w: i64, h: i64) -> bool {
        self.calls.push(format!("resize {} {} {}", id.0, w, h));
        true
    }
    fn set_window_bounds(&mut self, id: WindowId, bounds: Rect) -> bool {
        self.calls.push(format!(
            "bounds {} {} {} {} {}",
            id.0, bounds.origin.x, bounds.origin.y, bounds.size.w, bounds.size.h
        ));
        false
    }
    fn focus_window(&mut self, id: WindowId) -> bool {
        self.calls.push(format!("focus {}", id.0));
        true
    }
    fn clear_focus(&mut self) -> bool {
        self.calls.push("clear".into());
        false
    }
    fn close_window(&mut self, id: WindowId) -> bool {
        self.calls.push(format!("close {}", id.0));
        false
    }
    fn pan_canvas(&mut self, dx: Double, dy: Double) {
        self.calls.push(format!("pan {} {}", dx.0, dy.0));
    }
    fn zoom_canvas(&mut self, factor: Double) -> Result<(), ConfigError> {
        self.calls.push(format!("zoom {}", factor.0));
        Ok(())
    }
}

#[test]
fn each_hook_action_asks_its_own_method_once_with_its_fields() {
    let mut target = Journal::default();
    assert_eq!(apply_hook_action(&mut target, HookAction::MoveWindow { id: 3, x: -4, y: 9 }), Ok(()));
    assert_eq!(apply_hook_action(&mut target, HookAction::ResizeWindow { id: 3, w: 640, h: 480 }), Ok(()));
    assert_eq!(
        apply_hook_action(&mut target, HookAction::SetBounds { id: 5, x: 1, y: 2, w: 30, h: 40 }),
        Err(ConfigError::Validation("hook action set_bounds failed for window id 5".into()))
    );
    assert_eq!(apply_hook_action(&mut target, HookAction::FocusWindow { id: 8 }), Ok(()));
    assert_eq!(apply_hook_action(&mut target, HookAction::ClearFocus), Ok(()));
    assert_eq!(
        apply_hook_action(&mut target, HookAction::CloseWindow { id: 11 }),
        Err(ConfigError::Validation("hook action close_window failed for window id 11".into()))
    );
    assert_eq!(apply_hook_action(&mut target, HookAction::PanCanvas { dx: Double(1), dy: Double(2) }), Ok(()));
    assert_eq!(apply_hook_action(&mut target, HookAction::ZoomCanvas { factor: Double(7) }), Ok(()));
    assert_eq!(
        target.calls,
        vec![
            "move 3 -4 9".to_string(),
            "resize 3 640 480".to_string(),
            "bounds 5 1 2 30 40".to_string(),
            "focus 8".to_string(),
            "clear".to_string(),
            "close 11".to_string(),
            "pan 1 2".to_string(),
            "zoom 7".to_string(),
        ]
    );
}
