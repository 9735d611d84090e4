use evilwm::config::{
    parse_color_components, parse_draw_layer_name, parse_draw_stack, parse_modifier_name_list, parse_tty_fields,
    BindingConfig, CanvasTable, ConfigBuilder, ConfigError, ConfigTable, DrawLayer, DrawTable, PlacementTable,
    RuleConfig, TtyTable, WindowTable,
};
use evilwm::number::{Double, Single};
use evilwm::tty::{TtyConfig, TtyOutputLayout};

fn d(v: f64) -> Double {
    Double(v.to_bits())
}

fn comp(v: f64) -> Option<(Double, Single)> {
    Some((Double(v.to_bits()), Single((v as f32).to_bits())))
}

fn empty_table() -> ConfigTable {
    ConfigTable {
        backend: None,
        canvas: CanvasTable {
            min_zoom: None,
            max_zoom: None,
            zoom_step: None,
            pan_step: None,
            allow_pointer_zoom: None,
            allow_middle_click_pan: None,
            allow_gesture_navigation: None,
        },
        draw: DrawTable { stack: None, clear_color: None },
        window: WindowTable { use_client_default_size: None, remember_sizes_by_app_id: None, hide_client_decorations: None },
        placement: PlacementTable { default_w: None, default_h: None, padding: None, cascade_x: None, cascade_y: None },
        tty: TtyTable { quit_keyspec: None, vt_switch_modifiers: None, output_layout: None },
        autostart: Vec::new(),
        bindings: Vec::new(),
        rules: Vec::new(),
    }
}

fn validation_message(result: Result<(), ConfigError>) -> String {
    match result {
        Err(ConfigError::Validation(m)) => m,
        other => panic!("expected a validation error, got {other:?}"),
    }
}

fn binding(mods: &[&str], key: &str, action: &str, amount: Option<f64>, command: Option<&str>) -> BindingConfig {
    BindingConfig {
        mods: mods.iter().map(|m| m.to_string()).collect(),
        key: key.to_string(),
        action: action.to_string(),
        amount: amount.map(d),
        command: command.map(|c| c.to_string()),
    }
}

#[test]
fn default_configuration_builds_and_validates() {
    let builder = ConfigBuilder::new();
    let config = builder.build("/etc/evilwm").expect("defaults are valid");
    assert_eq!(config.source_root, "/etc/evilwm");
    assert_eq!(config.draw.stack.len(), 6);
    assert_eq!(config.tty.quit_key, "Backspace");
    assert!(config.validate().is_ok());
}

#[test]
fn unsupported_backend_is_reported() {
    let mut builder = ConfigBuilder::new();
    builder.backend = Some("wayland".into());
    let config_error = builder.build(".").expect_err("backend is refused");
    assert_eq!(config_error, ConfigError::Validation("unsupported backend in config: wayland".into()));
}

#[test]
fn canvas_limits_are_checked_in_order() {
    let mut builder = ConfigBuilder::new();
    builder.canvas.min_zoom = d(0.0);
    assert_eq!(validation_message(builder.build(".").map(|_| ())), "canvas.min_zoom must be > 0");

    builder.canvas.min_zoom = d(f64::NAN);
    assert_eq!(validation_message(builder.build(".").map(|_| ())), "canvas.min_zoom must be a finite number");

    builder.canvas.min_zoom = d(2.0);
    builder.canvas.max_zoom = d(1.0);
    assert_eq!(validation_message(builder.build(".").map(|_| ())), "canvas.max_zoom must be >= canvas.min_zoom");

    builder.canvas.max_zoom = d(4.0);
    builder.canvas.pan_step = d(-1.0);
    assert_eq!(validation_message(builder.build(".").map(|_| ())), "canvas.pan_step must be >= 0");
}

#[test]
fn draw_stack_must_hold_each_layer_once() {
    let mut builder = ConfigBuilder::new();
    builder.draw.stack = vec![DrawLayer::Background, DrawLayer::Windows];
    assert_eq!(
        validation_message(builder.build(".").map(|_| ())),
        "draw.stack must list exactly 6 layers: background, windows, window_overlay, popups, overlay, cursor"
    );
    builder.draw.stack = vec![
        DrawLayer::Background,
        DrawLayer::Background,
        DrawLayer::WindowOverlay,
        DrawLayer::Popups,
        DrawLayer::Overlay,
        DrawLayer::Cursor,
    ];
    assert_eq!(
        validation_message(builder.build(".").map(|_| ())),
        "draw.stack must include each layer exactly once: background, windows, window_overlay, popups, overlay, cursor"
    );
}

#[test]
fn clear_color_must_be_finite() {
    let mut builder = ConfigBuilder::new();
    builder.draw.clear_color[2] = Single(f32::INFINITY.to_bits());
    assert_eq!(validation_message(builder.build(".").map(|_| ())), "draw.clear_color must contain finite components");
}

#[test]
fn placement_and_tty_settings_are_checked() {
    let mut builder = ConfigBuilder::new();
    builder.placement.padding = d(-4.0);
    assert_eq!(validation_message(builder.build(".").map(|_| ())), "placement.padding must be a finite number >= 0");

    let mut builder = ConfigBuilder::new();
    builder.placement.default_size.1 = d(0.0);
    assert_eq!(
        validation_message(builder.build(".").map(|_| ())),
        "placement.default_size.h must be a positive finite number"
    );

    let mut builder = ConfigBuilder::new();
    builder.tty.quit_key = "   ".into();
    assert_eq!(validation_message(builder.build(".").map(|_| ())), "tty.quit_keyspec must not be empty");

    let mut builder = ConfigBuilder::new();
    builder.tty.vt_switch_modifiers = Vec::new();
    assert_eq!(validation_message(builder.build(".").map(|_| ())), "tty.vt_switch_modifiers must not be empty");
}

#[test]
fn bindings_autostart_and_rules_are_checked() {
    let mut builder = ConfigBuilder::new();
    builder.bindings.push(binding(&["Hyper"], "H", "zoom_in", None, None));
    assert_eq!(validation_message(builder.build(".").map(|_| ())), "unsupported modifier in binding config: Hyper");

    let mut builder = ConfigBuilder::new();
    builder.bindings.push(binding(&["Super"], "H", "dance", None, None));
    assert_eq!(validation_message(builder.build(".").map(|_| ())), "unsupported binding action: dance");

    let mut builder = ConfigBuilder::new();
    builder.bindings.push(binding(&["Super"], "Return", "spawn", None, Some("  ")));
    assert_eq!(validation_message(builder.build(".").map(|_| ())), "spawn bindings must include a non-empty command");

    let mut builder = ConfigBuilder::new();
    builder.bindings.push(binding(&["Super"], "Left", "pan_left", Some(0.0), None));
    assert_eq!(validation_message(builder.build(".").map(|_| ())), "binding amount must be > 0 when provided");

    let mut builder = ConfigBuilder::new();
    builder.autostart.push(" ".into());
    assert_eq!(validation_message(builder.build(".").map(|_| ())), "autostart commands must not be empty");

    let mut builder = ConfigBuilder::new();
    builder.rules.push(RuleConfig {
        app_id: None,
        title_contains: None,
        floating: Some(true),
        exclude_from_focus: None,
        width: None,
        height: None,
    });
    assert_eq!(validation_message(builder.build(".").map(|_| ())), "window rule must match at least one field");
}

#[test]
fn config_errors_describe_themselves() {
    let io = ConfigError::Io { path: "/tmp/init.lua".into(), message: "missing".into() };
    assert_eq!(io.describe(), "failed to read /tmp/init.lua: missing");
    assert_eq!(ConfigError::Lua("bad".into()).describe(), "lua error: bad");
    assert_eq!(ConfigError::Validation("boom".into()).describe(), "config validation error: boom");
}

#[test]
fn draw_layer_names_parse() {
    assert_eq!(parse_draw_layer_name("window_overlay"), Ok(DrawLayer::WindowOverlay));
    assert_eq!(
        parse_draw_layer_name("sky"),
        Err(ConfigError::Validation("unsupported draw layer in draw.stack: sky".into()))
    );
    let names: Vec<String> = vec!["cursor".into(), "background".into()];
    assert_eq!(parse_draw_stack(&names), Ok(vec![DrawLayer::Cursor, DrawLayer::Background]));
    let bad: Vec<String> = vec!["cursor".into(), "sky".into(), "moon".into()];
    assert_eq!(
        parse_draw_stack(&bad),
        Err(ConfigError::Validation("unsupported draw layer in draw.stack: sky".into()))
    );
}

#[test]
fn color_components_parse_in_order() {
    let ok = parse_color_components(&[comp(0.5), comp(0.25), comp(1.0), comp(0.0)], "draw.clear_color").expect("valid");
    assert_eq!(ok, [Single(0.5f32.to_bits()), Single(0.25f32.to_bits()), Single(1.0f32.to_bits()), Single(0)]);

    assert_eq!(
        parse_color_components(&[comp(0.5), None, comp(f64::NAN), comp(0.0)], "draw.clear_color"),
        Err(ConfigError::Validation("draw.clear_color must contain exactly 4 numeric components".into()))
    );
    assert_eq!(
        parse_color_components(&[comp(0.5), comp(f64::INFINITY), None, comp(0.0)], "draw.clear_color"),
        Err(ConfigError::Validation("draw.clear_color components must be finite".into()))
    );
}

#[test]
fn modifier_lists_are_canonicalized() {
    let names: Vec<String> = vec!["Control".into(), "Logo".into()];
    assert_eq!(parse_modifier_name_list(&names, "tty.vt_switch_modifiers"), Ok(vec!["Ctrl".to_string(), "Super".to_string()]));
    let bad: Vec<String> = vec!["Alt".into(), "Hyper".into()];
    assert_eq!(
        parse_modifier_name_list(&bad, "tty.vt_switch_modifiers"),
        Err(ConfigError::Validation("unsupported modifier in tty.vt_switch_modifiers: Hyper".into()))
    );
}

#[test]
fn tty_fields_replace_base_values() {
    let vt: Vec<String> = vec!["Super".into()];
    let tty = parse_tty_fields(TtyConfig::default(), Some("Ctrl+Shift+q"), Some(&vt), Some("vertical")).expect("valid");
    assert_eq!(tty.quit_mods, vec!["Ctrl".to_string(), "Shift".to_string()]);
    assert_eq!(tty.quit_key, "Q");
    assert_eq!(tty.vt_switch_modifiers, vec!["Super".to_string()]);
    assert_eq!(tty.output_layout, TtyOutputLayout::Vertical);

    let kept = parse_tty_fields(TtyConfig::default(), None, None, None).expect("valid");
    assert_eq!(kept, TtyConfig::default());

    assert_eq!(
        parse_tty_fields(TtyConfig::default(), None, None, Some("diagonal")),
        Err(ConfigError::Validation("unsupported tty.output_layout: diagonal".into()))
    );
    assert_eq!(
        parse_tty_fields(TtyConfig::default(), Some("Hyper+q"), None, None),
        Err(ConfigError::Validation("unsupported modifier in keyspec: Hyper".into()))
    );
}

#[test]
fn config_table_replaces_settings_and_appends_lists() {
    let mut builder = ConfigBuilder::new();
    builder.add_autostart("foot").expect("autostart");
    let mut table = empty_table();
    table.backend = Some("headless".into());
    table.canvas.pan_step = Some(d(10.0));
    table.canvas.allow_pointer_zoom = Some(false);
    table.draw.stack = Some(vec![
        "cursor".into(),
        "overlay".into(),
        "popups".into(),
        "window_overlay".into(),
        "windows".into(),
        "background".into(),
    ]);
    table.placement.padding = Some(d(8.0));
    table.window.hide_client_decorations = Some(true);
    table.autostart = vec!["waybar".into()];
    table.bindings = vec![binding(&["Super"], "Q", "close_window", None, None)];
    builder.apply_config_table(table).expect("table applies");

    assert!(builder.uses_script_api());
    assert_eq!(builder.backend.as_deref(), Some("headless"));
    assert_eq!(builder.canvas.pan_step, d(10.0));
    assert!(!builder.canvas.allow_pointer_zoom);
    assert!(builder.canvas.allow_middle_click_pan);
    assert_eq!(builder.draw.stack[0], DrawLayer::Cursor);
    assert_eq!(builder.placement.padding, d(8.0));
    assert!(builder.window.hide_client_decorations);
    assert_eq!(builder.autostart, vec!["foot".to_string(), "waybar".to_string()]);
    assert_eq!(builder.bindings.len(), 1);
    let config = builder.build(".").expect("valid");
    assert_eq!(config.bindings[0].action, "close_window");
}

#[test]
fn config_table_stops_at_the_first_bad_field() {
    let mut builder = ConfigBuilder::new();
    let mut table = empty_table();
    table.backend = Some("udev".into());
    table.draw.stack = Some(vec!["sky".into()]);
    table.autostart = vec!["foot".into()];
    let error = builder.apply_config_table(table).expect_err("stack is refused");
    assert_eq!(error, ConfigError::Validation("unsupported draw layer in draw.stack: sky".into()));
    assert_eq!(builder.backend.as_deref(), Some("udev"));
    assert!(builder.autostart.is_empty());

    let mut table = empty_table();
    table.draw.clear_color = Some([comp(0.1), comp(0.2), None, comp(1.0)]);
    let error = builder.apply_config_table(table).expect_err("colour is refused");
    assert_eq!(error, ConfigError::Validation("draw.clear_color must contain exactly 4 numeric components".into()));
}

#[test]
fn builder_bindings_and_autostart() {
    let mut builder = ConfigBuilder::new();
    assert!(!builder.uses_script_api());
    builder.add_binding("Super+Shift+Return", "spawn", None, Some("foot".into())).expect("binding");
    assert!(builder.uses_script_api());
    assert_eq!(builder.bindings[0].mods, vec!["Super".to_string(), "Shift".to_string()]);
    assert_eq!(builder.bindings[0].key, "Return");
    assert_eq!(
        builder.add_binding("", "quit", None, None),
        Err(ConfigError::Validation("binding keyspec must not be empty".into()))
    );
    assert_eq!(
        builder.add_autostart("   "),
        Err(ConfigError::Validation("autostart command must not be empty".into()))
    );
    assert_eq!(builder.bindings.len(), 1);
    builder.clear();
    assert!(builder.bindings.is_empty());
    assert!(!builder.uses_script_api());
}

#[test]
fn autostart_keeps_the_other_settings() {
    let mut builder = ConfigBuilder::new();
    builder.window.hide_client_decorations = true;
    let canvas = builder.canvas;
    let window = builder.window;
    builder.add_autostart("foot").expect("accepted");
    assert_eq!(builder.autostart, vec!["foot".to_string()]);
    assert!(builder.window.hide_client_decorations);
    assert_eq!(builder.window, window);
    assert_eq!(builder.canvas, canvas);
}

#[test]
fn absent_sections_leave_the_defaults() {
    let mut builder = ConfigBuilder::new();
    builder.apply_config_table(empty_table()).expect("an empty table applies");
    let from_table = builder.build("/cfg").expect("valid");
    let defaults = ConfigBuilder::new().build("/cfg").expect("valid");
    assert_eq!(from_table, defaults);
}
