use evilwm::backend::{resolve_backend_choice, Backend};

#[test]
fn cli_backend_overrides_config_backend() {
    assert_eq!(resolve_backend_choice(Some(Backend::Headless), Some("udev")), Backend::Headless);
}

#[test]
fn config_backend_is_used_when_cli_backend_is_omitted() {
    assert_eq!(resolve_backend_choice(None, Some("udev")), Backend::Udev);
}

#[test]
fn backend_defaults_to_winit_when_nothing_is_specified() {
    assert_eq!(resolve_backend_choice(None, None), Backend::Winit);
}

#[test]
fn unknown_config_backend_falls_back_to_winit() {
    assert_eq!(resolve_backend_choice(None, Some("wayland")), Backend::Winit);
    assert_eq!(Backend::from_config_name("x11"), Some(Backend::X11));
    assert_eq!(Backend::from_config_name("Headless"), None);
}
