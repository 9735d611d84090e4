use evilwm::input::bindings::{format_keyspec, modifier_names, normalize_key, parse_keyspec, ModifierSet};
use evilwm::input::{Action, BindingMap};
use evilwm::config::BindingConfig;
use evilwm::number::Double;

#[test]
fn parses_super_h_keyspec() {
    let (mods, key) = parse_keyspec("Super+H").expect("parse keyspec");
    assert_eq!(mods, vec!["Super"]);
    assert_eq!(key, "H");
}

#[test]
fn parses_bare_keyspec() {
    let (mods, key) = parse_keyspec("Equal").expect("parse keyspec");
    assert!(mods.is_empty());
    assert_eq!(key, "Equal");
}

#[test]
fn rejects_unknown_modifier() {
    let error = parse_keyspec("Hyper+H").expect_err("unknown modifier should fail");
    assert!(error.contains("unsupported modifier"));
}

#[test]
fn normalizes_symbolic_keys_case_insensitively() {
    assert_eq!(normalize_key("minus"), "Minus");
    assert_eq!(normalize_key("Minus"), "Minus");
    assert_eq!(normalize_key("equal"), "Equal");
    assert_eq!(normalize_key("SPACE"), "Space");
    assert_eq!(normalize_key("Enter"), "Return");
}

#[test]
fn normalizes_unknown_multi_char_keys_consistently() {
    assert_eq!(normalize_key("XF86AudioRaiseVolume"), "xf86audioraisevolume");
    assert_eq!(normalize_key("xf86audioraisevolume"), "xf86audioraisevolume");
    assert_eq!(normalize_key("  Print  "), "print");
}

#[test]
fn keyspec_parts_are_trimmed_and_modifiers_canonical() {
    let (mods, key) = parse_keyspec(" Control + Logo + + q ").expect("parse keyspec");
    assert_eq!(mods, vec!["Ctrl", "Super"]);
    assert_eq!(key, "Q");
    assert_eq!(parse_keyspec("Meta+pageup").unwrap(), (vec!["Super".to_string()], "PageUp".to_string()));
}

#[test]
fn empty_keyspec_is_rejected() {
    assert_eq!(parse_keyspec(" + + ").unwrap_err(), "binding keyspec must not be empty");
    assert_eq!(parse_keyspec("").unwrap_err(), "binding keyspec must not be empty");
    assert_eq!(parse_keyspec("Hyper+Ctrl+H").unwrap_err(), "unsupported modifier in keyspec: Hyper");
}

#[test]
fn normalizing_twice_changes_nothing() {
    for key in ["minus", "-", " esc ", "a", "Z", "XF86Mail", "", "pagedown", "é"] {
        let once = normalize_key(key);
        assert_eq!(normalize_key(&once), once);
    }
    assert_eq!(normalize_key("a"), "A");
    assert_eq!(normalize_key("\u{a0}tab\u{3000}"), "Tab");
}

#[test]
fn format_keyspec_orders_super_ctrl_alt_shift() {
    let all = ModifierSet { ctrl: true, alt: true, shift: true, logo: true };
    assert_eq!(format_keyspec("K", all), "Super+Ctrl+Alt+Shift+K");
    let none = ModifierSet::none();
    assert_eq!(format_keyspec("Return", none), "Return");
    let (mods, key) = parse_keyspec(&format_keyspec("k", all)).unwrap();
    assert_eq!(ModifierSet::from_names(&mods), all);
    assert_eq!(key, "K");
}

#[test]
fn modifier_names_follow_ctrl_alt_shift_super() {
    let m = ModifierSet { ctrl: true, alt: false, shift: true, logo: true };
    assert_eq!(modifier_names(m), vec!["Ctrl", "Shift", "Super"]);
    assert!(modifier_names(ModifierSet::none()).is_empty());
}

#[test]
fn modifier_set_from_names_ignores_unknown_names() {
    let names = vec!["Control".to_string(), "Meta".to_string(), "Hyper".to_string()];
    assert_eq!(ModifierSet::from_names(&names), ModifierSet { ctrl: true, alt: false, shift: false, logo: true });
}

fn binding(mods: &[&str], key: &str, action: &str, amount: Option<f64>, command: Option<&str>) -> BindingConfig {
    BindingConfig {
        mods: mods.iter().map(|m| m.to_string()).collect(),
        key: key.to_string(),
        action: action.to_string(),
        amount: amount.map(|a| Double(a.to_bits())),
        command: command.map(|c| c.to_string()),
    }
}

#[test]
fn binding_map_resolves_first_matching_binding() {
    let configs = vec![
        binding(&["Super"], "h", "pan_left", None, None),
        binding(&["Super"], "H", "pan_right", Some(10.0), None),
        binding(&["Super"], "Return", "spawn", None, Some("foot")),
        binding(&["Super"], "x", "unknown_action", None, None),
        binding(&[], "minus", "zoom_out", None, None),
    ];
    let pan = Double(64.0f64.to_bits());
    let zoom = Double(1.2f64.to_bits());
    let zoom_out = Double((1.0f64 / 1.2).to_bits());
    let map = BindingMap::from_config(&configs, pan, zoom, zoom_out);
    assert_eq!(map.len(), 4);
    assert!(!map.is_empty());
    let sup = ModifierSet { ctrl: false, alt: false, shift: false, logo: true };
    assert_eq!(map.resolve("h", sup), Some(Action::PanLeft { amount: pan }));
    assert_eq!(map.resolve("enter", sup), Some(Action::Spawn { command: "foot".to_string() }));
    assert_eq!(map.resolve("-", ModifierSet::none()), Some(Action::ZoomOut { factor: zoom_out }));
    assert_eq!(map.resolve("x", sup), None);
    assert_eq!(map.resolve("h", ModifierSet::none()), None);
    assert_eq!(Action::CloseWindow.name(), "close_window");
}

#[test]
fn formatted_keyspecs_parse_back() {
    for (ctrl, alt, shift, logo) in [
        (false, false, false, false),
        (true, false, false, false),
        (true, true, true, true),
        (false, true, false, true),
    ] {
        let modifiers = ModifierSet { ctrl, alt, shift, logo };
        for key in ["H", "Return", "xf86audioraisevolume", "Minus"] {
            let spec = format_keyspec(key, modifiers);
            let (mods, parsed) = parse_keyspec(&spec).expect("formatted keyspecs parse");
            assert_eq!(parsed, key);
            assert_eq!(ModifierSet::from_names(&mods), modifiers);
        }
    }
}

#[test]
fn normalizing_ignores_case_and_padding() {
    for key in ["XF86AudioRaiseVolume", "a", "PageDown", " esc ", "F5", "\tprint"] {
        let n = normalize_key(key);
        assert_eq!(normalize_key(&key.to_ascii_lowercase()), n);
        assert_eq!(normalize_key(&key.to_ascii_uppercase()), n);
        assert_eq!(normalize_key(key.trim()), n);
    }
    assert_eq!(normalize_key("  a "), "A");
}

#[test]
fn raw_keys_round_trip_through_keyspecs() {
    let m = ModifierSet { ctrl: true, alt: false, shift: true, logo: true };
    let spec = format_keyspec("esc", m);
    assert_eq!(spec, "Super+Ctrl+Shift+esc");
    let (mods, key) = parse_keyspec(&spec).expect("parses");
    assert_eq!(mods, vec!["Super".to_string(), "Ctrl".to_string(), "Shift".to_string()]);
    assert_eq!(key, "Escape");
    assert_eq!(ModifierSet::from_names(&mods), m);
}
