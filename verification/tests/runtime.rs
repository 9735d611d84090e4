use evilwm::config::{config_root_error, ConfigBuilder, ConfigError};
use evilwm::runtime::{config_check_line, shell_command_args, startup_commands, RuntimeOptions};

#[test]
fn startup_commands_include_config_autostart_and_cli_command() {
    let mut builder = ConfigBuilder::new();
    builder.backend = Some("winit".into());
    builder.autostart = vec!["foot".into(), "waybar".into()];
    let options = RuntimeOptions {
        command: Some("wezterm".into()),
        config_path: None,
        config: Some(builder.build(".").expect("valid")),
    };

    assert_eq!(
        startup_commands(&options),
        vec!["foot".to_string(), "waybar".to_string(), "wezterm".to_string()]
    );
}

#[test]
fn startup_commands_handle_missing_config_and_command() {
    let options = RuntimeOptions { command: None, config_path: None, config: None };

    assert!(startup_commands(&options).is_empty());
}

#[test]
fn clients_start_through_the_shell() {
    assert_eq!(
        shell_command_args("foot --title 'a b'"),
        Some(vec!["sh".to_string(), "-c".to_string(), "foot --title 'a b'".to_string()])
    );
    assert_eq!(shell_command_args("   "), None);
}

#[test]
fn config_check_line_counts_what_was_loaded() {
    let mut builder = ConfigBuilder::new();
    builder.autostart = vec!["foot".into()];
    let config = builder.build("/etc/evilwm").expect("valid");
    assert_eq!(
        config_check_line("/etc/evilwm/config.lua", &config),
        "config OK: /etc/evilwm/config.lua (bindings=0, rules=0, autostart=1)"
    );
    assert_eq!(config_root_error(), ConfigError::Validation("config root must return a table".into()));
}

#[test]
fn build_spawn_command_preserves_shell_quoted_arguments() {
    let args = shell_command_args("foot --title \"hello world\" --server").expect("spawn command");
    assert_eq!(args[0], "sh");
    assert_eq!(args[1..].to_vec(), vec!["-c".to_string(), "foot --title \"hello world\" --server".to_string()]);
}

#[test]
fn build_spawn_command_rejects_empty_command() {
    assert!(shell_command_args("   ").is_none());
}
