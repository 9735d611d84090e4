use evilwm::canvas::{Rect, Size, Vec2};
use evilwm::config::WindowConfig;
use evilwm::window::focus::FocusStack;
use evilwm::window::move_resize::{resize_edges_from, ResizeEdge};
use evilwm::window::rules::{apply_rules_to_window, compile_window_rule, compile_window_rules};
use evilwm::config::{ConfigBuilder, RuleConfig};
use evilwm::number::Double;
use evilwm::window::sizing::{initial_window_size, remember_window_size, size_memory_key, SizeMemory};
use evilwm::window::{snap_to_rect, AppliedWindowRules, PlacementPolicy, ResizeEdges, ResizePolicy, Window, WindowId, WindowProperties, WindowRule};

fn props(app_id: Option<&str>, title: Option<&str>) -> WindowProperties {
    WindowProperties { app_id: app_id.map(|s| s.to_string()), title: title.map(|s| s.to_string()), pid: None }
}

#[test]
fn resize_edges_from_maps_corner_edges() {
    let edges = resize_edges_from(ResizeEdge::TopLeft);
    assert!(edges.left);
    assert!(edges.top);
    assert!(!edges.right);
    assert!(!edges.bottom);

    let edges = resize_edges_from(ResizeEdge::BottomRight);
    assert!(edges.right);
    assert!(edges.bottom);
    assert!(!edges.left);
    assert!(!edges.top);
}

#[test]
fn resize_from_no_edge_drags_all_edges() {
    assert_eq!(resize_edges_from(ResizeEdge::NoEdge), ResizeEdges::all());
    let top = resize_edges_from(ResizeEdge::Top);
    assert!(top.top && !top.bottom && !top.left && !top.right);
}

#[test]
fn focus_order_is_most_recent_first() {
    let mut stack = FocusStack::new();
    stack.focus(WindowId(1));
    stack.focus(WindowId(2));
    stack.focus(WindowId(3));
    assert_eq!(stack.order(), &[WindowId(3), WindowId(2), WindowId(1)]);
    stack.focus(WindowId(1));
    assert_eq!(stack.order(), &[WindowId(1), WindowId(3), WindowId(2)]);
    // Focusing twice changes nothing more.
    stack.focus(WindowId(1));
    assert_eq!(stack.order(), &[WindowId(1), WindowId(3), WindowId(2)]);
    assert_eq!(stack.focused(), Some(WindowId(1)));
}

#[test]
fn removing_the_focused_window_passes_focus_on() {
    let mut stack = FocusStack::new();
    stack.focus(WindowId(1));
    stack.focus(WindowId(2));
    stack.remove(WindowId(2));
    assert_eq!(stack.focused(), Some(WindowId(1)));
    assert_eq!(stack.order(), &[WindowId(1)]);

    let mut stack = FocusStack::new();
    stack.focus(WindowId(1));
    stack.focus(WindowId(2));
    stack.remove_without_fallback(WindowId(2));
    assert_eq!(stack.focused(), None);
    assert_eq!(stack.order(), &[WindowId(1)]);
}

#[test]
fn cycling_forward_then_backward_restores_the_order() {
    let mut stack = FocusStack::new();
    stack.focus(WindowId(1));
    stack.focus(WindowId(2));
    stack.focus(WindowId(3));
    assert_eq!(stack.cycle_forward(), Some(WindowId(2)));
    assert_eq!(stack.order(), &[WindowId(2), WindowId(1), WindowId(3)]);
    assert_eq!(stack.cycle_backward(), Some(WindowId(3)));
    assert_eq!(stack.order(), &[WindowId(3), WindowId(2), WindowId(1)]);
}

#[test]
fn retain_keeps_the_chosen_windows() {
    let mut stack = FocusStack::new();
    stack.focus(WindowId(1));
    stack.focus(WindowId(2));
    stack.focus(WindowId(3));
    stack.retain(|id| id.0 != 3);
    assert_eq!(stack.order(), &[WindowId(2), WindowId(1)]);
    assert_eq!(stack.focused(), None);
    stack.focus(WindowId(1));
    stack.retain(|id| id.0 != 2);
    assert_eq!(stack.order(), &[WindowId(1)]);
    assert_eq!(stack.focused(), Some(WindowId(1)));
}

#[test]
fn moving_translates_the_bounds() {
    let window = Window::new(WindowId(1), Rect::new(10, 20, 300, 200));
    let moved = window.moved_by(Vec2::new(-15, 5));
    assert_eq!(moved.bounds, Rect::new(-5, 25, 300, 200));
}

#[test]
fn resizing_keeps_the_opposite_edge_and_the_limits() {
    let window = Window::new(WindowId(1), Rect::new(100, 100, 300, 200));
    let left = ResizeEdges { left: true, right: false, top: false, bottom: false };
    let grown = window.resized_by(Vec2::new(-50, 0), left, ResizePolicy::default());
    assert_eq!(grown.bounds, Rect::new(50, 100, 350, 200));
    assert_eq!(grown.bounds.origin.x + grown.bounds.size.w, 400);

    let right = ResizeEdges { left: false, right: true, top: false, bottom: false };
    let shrunk = window.resized_by(Vec2::new(-250, 0), right, ResizePolicy::default());
    assert_eq!(shrunk.bounds, Rect::new(100, 100, 120, 200));

    let capped = ResizePolicy { min_size: Size::new(50, 50), max_size: Some(Size::new(320, 240)), snap_distance: 0 };
    let all = window.resized_by(Vec2::new(100, 100), ResizeEdges { left: false, right: true, top: false, bottom: true }, capped);
    assert_eq!(all.bounds, Rect::new(100, 100, 320, 240));

    // Dragging the top edge down past the minimum keeps the bottom edge in place.
    let top = window.resized_by(Vec2::new(0, 190), ResizeEdges { left: false, right: false, top: true, bottom: false }, ResizePolicy::default());
    assert_eq!(top.bounds, Rect::new(100, 220, 300, 80));
}

#[test]
fn snapping_moves_edges_onto_the_target() {
    let target = Rect::new(0, 0, 500, 500);
    assert_eq!(snap_to_rect(Rect::new(10, 10, 100, 100), target, 16), Rect::new(0, 0, 100, 100));
    assert_eq!(snap_to_rect(Rect::new(395, 5, 100, 100), target, 16), Rect::new(400, 0, 100, 100));
    assert_eq!(snap_to_rect(Rect::new(200, 200, 100, 100), target, 16), Rect::new(200, 200, 100, 100));
}

#[test]
fn placement_centres_cascades_and_keeps_inside() {
    let policy = PlacementPolicy::default();
    let visible = Rect::new(0, 0, 1280, 720);
    assert_eq!(policy.place_new_window(visible, 0, None).bounds, Rect::new(190, 60, 900, 600));
    assert_eq!(policy.place_new_window(visible, 1, None).bounds, Rect::new(222, 84, 900, 600));
    assert_eq!(policy.place_new_window(visible, 8, None).bounds, Rect::new(190, 60, 900, 600));
    // A requested size larger than the padded area is cut to it.
    let small = Rect::new(100, 100, 400, 300);
    assert_eq!(policy.place_new_window(small, 0, Some(Size::new(1000, 1000))).bounds, Rect::new(132, 132, 336, 236));
}

#[test]
fn the_last_matching_rule_wins() {
    let rules = vec![
        WindowRule { app_id: Some("foot".into()), floating: Some(false), default_size: Some(Size::new(640, 480)), ..WindowRule::default() },
        WindowRule { title_contains: Some("scratch".into()), floating: Some(true), ..WindowRule::default() },
        WindowRule { app_id: Some("kitty".into()), exclude_from_focus: Some(true), ..WindowRule::default() },
    ];
    let applied = AppliedWindowRules::from_rules(&props(Some("foot"), Some("my scratchpad")), &rules);
    assert_eq!(applied.floating, Some(true));
    assert_eq!(applied.exclude_from_focus, None);
    assert_eq!(applied.default_size, Some(Size::new(640, 480)));
    assert!(rules[1].matches(&props(None, Some("scratch"))));
    assert!(!rules[1].matches(&props(Some("foot"), None)));
}

#[test]
fn initial_sizes_prefer_rules_then_memory_then_client() {
    let rules = vec![WindowRule { app_id: Some("foot".into()), default_size: Some(Size::new(640, 480)), ..WindowRule::default() }];
    let sizing = WindowConfig { use_client_default_size: true, remember_sizes_by_app_id: true, hide_client_decorations: false };
    let mut memory = SizeMemory::new();
    let client = Some(Size::new(800, 600));

    assert_eq!(initial_window_size(&rules, &sizing, &props(Some("foot"), None), &memory, client), Some(Size::new(640, 480)));
    assert_eq!(initial_window_size(&rules, &sizing, &props(Some("kitty"), None), &memory, client), client);

    let mut kitty = Window::new(WindowId(2), Rect::new(0, 0, 1024, 768));
    kitty.properties = props(Some("  kitty "), None);
    remember_window_size(&mut memory, &sizing, &kitty);
    assert_eq!(memory.get("kitty"), Some(Size::new(1024, 768)));
    assert_eq!(initial_window_size(&rules, &sizing, &props(Some("kitty"), None), &memory, client), Some(Size::new(1024, 768)));

    let no_client = WindowConfig { use_client_default_size: false, ..sizing };
    assert_eq!(initial_window_size(&rules, &no_client, &props(Some("mpv"), None), &memory, client), None);

    let forgetful = WindowConfig { remember_sizes_by_app_id: false, ..sizing };
    assert_eq!(initial_window_size(&rules, &forgetful, &props(Some("kitty"), None), &memory, client), client);
}

#[test]
fn remembering_replaces_the_size_for_a_key() {
    let mut memory = SizeMemory::new();
    assert_eq!(memory.get("foot"), None);
    memory.remember("foot", Size::new(1, 2));
    memory.remember("kitty", Size::new(3, 4));
    memory.remember("foot", Size::new(5, 6));
    assert_eq!(memory.get("foot"), Some(Size::new(5, 6)));
    assert_eq!(memory.get("kitty"), Some(Size::new(3, 4)));
}

#[test]
fn size_keys_are_trimmed_app_ids() {
    assert_eq!(size_memory_key(&props(Some("  foot  "), None)).as_deref(), Some("foot"));
    assert_eq!(size_memory_key(&props(Some("   "), None)), None);
    assert_eq!(size_memory_key(&props(None, Some("title"))), None);
}

#[test]
fn rules_set_only_what_they_name() {
    let mut window = Window::new(WindowId(1), Rect::new(0, 0, 10, 10));
    let applied = AppliedWindowRules { floating: Some(false), exclude_from_focus: None, default_size: None };
    apply_rules_to_window(&mut window, &applied);
    assert!(!window.floating);
    assert!(!window.exclude_from_focus);
    let applied = AppliedWindowRules { floating: None, exclude_from_focus: Some(true), default_size: None };
    apply_rules_to_window(&mut window, &applied);
    assert!(!window.floating);
    assert!(window.exclude_from_focus);
}

#[test]
fn retain_filters_the_order_and_keeps_a_kept_focus() {
    let mut stack = FocusStack::new();
    for id in [1, 2, 3, 4, 5] {
        stack.focus(WindowId(id));
    }
    stack.retain(|id| id.0 % 2 == 1);
    assert_eq!(stack.order(), &[WindowId(5), WindowId(3), WindowId(1)]);
    assert_eq!(stack.focused(), Some(WindowId(5)));
}

#[test]
fn compile_window_rules_preserves_matchers_and_actions() {
    let mut builder = ConfigBuilder::new();
    builder.backend = Some("winit".into());
    builder.rules = vec![RuleConfig {
        app_id: Some("foot".into()),
        title_contains: Some("scratch".into()),
        floating: Some(false),
        exclude_from_focus: Some(true),
        width: Some(Double(640.0f64.to_bits())),
        height: Some(Double(480.0f64.to_bits())),
    }];
    let config = builder.build(".").expect("valid config");
    assert_eq!(
        compile_window_rules(Some(&config)),
        vec![WindowRule {
            app_id: Some("foot".into()),
            title_contains: Some("scratch".into()),
            floating: Some(false),
            exclude_from_focus: Some(true),
            default_size: Some(Size::new(640, 480)),
        }]
    );
    assert!(compile_window_rules(None).is_empty());
}

#[test]
fn rules_without_both_dimensions_give_no_default_size() {
    let rule = RuleConfig {
        app_id: None,
        title_contains: None,
        floating: None,
        exclude_from_focus: None,
        width: Some(Double(640.0f64.to_bits())),
        height: None,
    };
    assert_eq!(compile_window_rule(&rule).default_size, None);
}

#[test]
fn numbers_convert_as_a_cast_to_i64_does() {
    let values = [
        0.0, -0.0, 0.4, 0.999, 1.0, -1.0, 1.5, -1.5, 640.0, 480.25, -123456.75, 4503599627370495.5, 4503599627370496.0,
        9007199254740993.0, 1e18, -1e18, 9.2e18, 9.3e18, -9.3e18, 9223372036854775807.0, -9223372036854775808.0,
        f64::MAX, f64::MIN, f64::INFINITY, f64::NEG_INFINITY, f64::NAN, f64::MIN_POSITIVE, 5e-324, -5e-324,
    ];
    for v in values {
        assert_eq!(Double(v.to_bits()).to_i64(), v as i64, "{}", v);
    }
}
