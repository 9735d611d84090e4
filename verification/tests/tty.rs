use evilwm::input::bindings::ModifierSet;
use evilwm::tty::{tty_control_action_for, TtyConfig, TtyControlAction, TtyOutputLayout};

#[test]
fn tty_control_config_binds_quit_and_vt_switches() {
    let modifiers = ModifierSet { ctrl: true, alt: true, shift: false, logo: false };
    let tty = TtyConfig::default();

    assert_eq!(tty_control_action_for("BackSpace", modifiers, &tty), Some(TtyControlAction::Quit));
    assert_eq!(tty_control_action_for("Backspace", modifiers, &tty), Some(TtyControlAction::Quit));
    assert_eq!(tty_control_action_for("F2", modifiers, &tty), Some(TtyControlAction::SwitchVt(2)));
    assert_eq!(tty_control_action_for("f3", modifiers, &tty), Some(TtyControlAction::SwitchVt(3)));
    assert_eq!(tty_control_action_for("F13", modifiers, &tty), None);
    assert_eq!(
        tty_control_action_for(
            "F3",
            ModifierSet { ctrl: true, alt: false, shift: false, logo: false },
            &tty,
        ),
        None
    );
}

#[test]
fn tty_control_config_allows_custom_quit_and_vt_modifiers() {
    let tty = TtyConfig {
        quit_mods: vec!["Ctrl".into(), "Shift".into()],
        quit_key: "Q".into(),
        vt_switch_modifiers: vec!["Alt".into()],
        output_layout: TtyOutputLayout::Horizontal,
    };

    assert_eq!(
        tty_control_action_for("Q", ModifierSet { ctrl: true, alt: false, shift: true, logo: false }, &tty),
        Some(TtyControlAction::Quit)
    );
    assert_eq!(
        tty_control_action_for("F4", ModifierSet { ctrl: false, alt: true, shift: false, logo: false }, &tty),
        Some(TtyControlAction::SwitchVt(4))
    );
}

#[test]
fn vt_numbers_follow_integer_parsing() {
    let m = ModifierSet { ctrl: true, alt: true, shift: false, logo: false };
    let tty = TtyConfig::default();
    assert_eq!(tty_control_action_for("F+7", m, &tty), Some(TtyControlAction::SwitchVt(7)));
    assert_eq!(tty_control_action_for("F012", m, &tty), Some(TtyControlAction::SwitchVt(12)));
    assert_eq!(tty_control_action_for("F-1", m, &tty), None);
    assert_eq!(tty_control_action_for("F0", m, &tty), None);
    assert_eq!(tty_control_action_for("F", m, &tty), None);
    assert_eq!(tty_control_action_for("F99999999999999999999", m, &tty), None);
    assert_eq!(tty_control_action_for("G2", m, &tty), None);
}
