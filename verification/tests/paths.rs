use evilwm::config::ConfigError;
use evilwm::ipc::{decide_ipc_request, invalid_request_message, oversized_request_message, screenshot_queued_message, IpcRequest, IpcStep, MAX_IPC_REQUEST_BYTES};
use evilwm::paths::{check_include_request, check_include_target, check_screenshot_target, path_within_root};

#[test]
fn paths_lie_within_roots_by_whole_components() {
    assert!(path_within_root("/home/me/config", "/home/me"));
    assert!(path_within_root("/home/me", "/home/me"));
    assert!(path_within_root("/home/me/x", "/home/me/"));
    assert!(path_within_root("/anything", "/"));
    assert!(!path_within_root("/home/meow/x", "/home/me"));
    assert!(!path_within_root("/etc/passwd", "/home/me"));
}

#[test]
fn includes_must_stay_in_the_config_root() {
    assert_eq!(
        check_include_request("/etc/passwd"),
        Err(ConfigError::Validation("include() only accepts relative paths inside the config root".into()))
    );
    assert_eq!(check_include_request("theme.lua"), Ok(()));
    assert_eq!(check_include_target("theme.lua", "/home/me/.config/evilwm", "/home/me/.config/evilwm/theme.lua"), Ok(()));
    assert_eq!(
        check_include_target("../secret.lua", "/home/me/.config/evilwm", "/home/me/.config/secret.lua"),
        Err(ConfigError::Validation("include() path escapes the config root: ../secret.lua".into()))
    );
}

#[test]
fn screenshots_go_under_home_or_tmp() {
    let roots = vec!["/home/me".to_string(), "/tmp".to_string()];
    assert_eq!(check_screenshot_target("/tmp/evilwm-test-capture.ppm", &roots, "/tmp"), Ok(()));
    assert_eq!(
        check_screenshot_target("/etc/evilwm.ppm", &roots, "/tmp"),
        Err("screenshot path must be under $HOME or /tmp".to_string())
    );
}

#[test]
fn ipc_requests_map_to_steps() {
    assert_eq!(decide_ipc_request(IpcRequest::GetRuntimeSnapshot, false), IpcStep::SendSnapshot);
    assert_eq!(decide_ipc_request(IpcRequest::Quit, true), IpcStep::Quit { message: "quitting compositor".into() });
    assert_eq!(
        decide_ipc_request(IpcRequest::Lock, false),
        IpcStep::SetLocked { locked: true, message: "session locked".into() }
    );
    assert_eq!(
        decide_ipc_request(IpcRequest::Unlock, false),
        IpcStep::SetLocked { locked: false, message: "session unlocked".into() }
    );
    assert_eq!(
        decide_ipc_request(IpcRequest::Screenshot { path: "/tmp/a.ppm".into() }, false),
        IpcStep::CheckScreenshot { path: "/tmp/a.ppm".into() }
    );
    assert_eq!(
        decide_ipc_request(IpcRequest::Screenshot { path: "/tmp/a.ppm".into() }, true),
        IpcStep::Refuse { message: "screenshot capture is currently supported on the nested backend only".into() }
    );
    assert_eq!(screenshot_queued_message("/tmp/a.ppm"), "queued screenshot capture to /tmp/a.ppm");
}

#[test]
fn oversized_ipc_requests_are_refused() {
    assert_eq!(MAX_IPC_REQUEST_BYTES, 1024 * 1024);
    assert_eq!(oversized_request_message(0), None);
    assert_eq!(oversized_request_message(1024 * 1024), None);
    assert_eq!(oversized_request_message(1024 * 1024 + 1), Some("ipc request exceeds 1048576 bytes".to_string()));
    assert_eq!(invalid_request_message("expected value"), "invalid ipc request: expected value");
}
