use evilwm::probe::{
    client_mode, parse_probe_client_args, transfer_mode, ClientMode, ProbeClientArgs, TransferMode,
    parse_probe_args, ClipboardSinkResult, ClipboardSourceResult, DndSourceResult, DndTargetResult, ProbeArgs,
    check_mime_available, deadline_from_hold, parse_u64, deadline_reached, dnd_source_stage, dnd_target_stage, payload_len,
    payload_string, selection_sink_stage, selection_source_stage,
};

#[test]
fn stages_report_the_furthest_step() {
    let none: Option<String> = None;
    let failed = Some("broken pipe".to_string());
    assert_eq!(selection_source_stage(&none, None, false, 0), "waiting_for_focus");
    assert_eq!(selection_source_stage(&none, Some(3), false, 0), "focus_observed");
    assert_eq!(selection_source_stage(&none, Some(3), true, 0), "selection_set");
    assert_eq!(selection_source_stage(&none, Some(3), true, 2), "payload_sent");
    assert_eq!(selection_source_stage(&failed, Some(3), true, 2), "error");

    assert_eq!(selection_sink_stage(&none, false, false, false), "waiting_for_offer");
    assert_eq!(selection_sink_stage(&none, true, false, false), "offer_received");
    assert_eq!(selection_sink_stage(&none, true, true, false), "receive_requested");
    assert_eq!(selection_sink_stage(&none, true, true, true), "payload_read_finished");

    assert_eq!(dnd_source_stage(&none, false, false, 0), "waiting_for_pointer_button");
    assert_eq!(dnd_source_stage(&none, true, false, 0), "pointer_serial_obtained");
    assert_eq!(dnd_source_stage(&none, true, true, 0), "drag_started");
    assert_eq!(dnd_source_stage(&failed, true, true, 1), "error");

    assert_eq!(dnd_target_stage(&none, false, false, false, false), "waiting_for_enter");
    assert_eq!(dnd_target_stage(&none, true, false, false, false), "enter_received");
    assert_eq!(dnd_target_stage(&none, true, true, false, false), "offer_received");
    assert_eq!(dnd_target_stage(&none, true, true, true, true), "payload_read_finished");
}

#[test]
fn missing_mime_lists_what_is_offered() {
    let offered = vec!["text/html".to_string(), "image/png".to_string()];
    assert_eq!(check_mime_available("image/png", &offered), Ok(()));
    assert_eq!(
        check_mime_available("text/plain", &offered),
        Err("offer does not contain desired mime 'text/plain'; available: [\"text/html\", \"image/png\"]".to_string())
    );
    assert_eq!(
        check_mime_available("text/plain", &[]),
        Err("offer does not contain desired mime 'text/plain'; available: []".to_string())
    );
}

#[test]
fn payloads_decode_lossily() {
    let hello = b"hello".to_vec();
    assert_eq!(payload_string(Some(&hello)).as_deref(), Some("hello"));
    assert_eq!(payload_len(Some(&hello)), Some(5));
    let broken = vec![b'a', 0xff, b'b'];
    assert_eq!(payload_string(Some(&broken)).as_deref(), Some("a\u{fffd}b"));
    assert_eq!(payload_string(None), None);
    assert_eq!(payload_len(None), None);
}

#[test]
fn deadlines_exist_only_for_a_hold() {
    assert!(deadline_from_hold(0).is_none());
    assert!(!deadline_reached(None));
    let far = deadline_from_hold(60_000);
    assert!(far.is_some());
    assert!(!deadline_reached(far));
}

fn args(items: &[&str]) -> Vec<String> {
    items.iter().map(|s| s.to_string()).collect()
}

#[test]
fn probe_arguments_read_with_defaults() {
    assert_eq!(parse_probe_args(&args(&[])), Ok(None));
    assert_eq!(parse_probe_args(&args(&["--help"])), Ok(None));
    assert_eq!(parse_probe_args(&args(&["clipboard-sink", "-h"])), Ok(None));
    assert_eq!(
        parse_probe_args(&args(&["clipboard-source"])),
        Ok(Some(ProbeArgs {
            mode: "clipboard-source".into(),
            mime: "text/plain;charset=utf-8".into(),
            payload: "evilwm transfer probe".into(),
            timeout_ms: 3000,
        }))
    );
    assert_eq!(
        parse_probe_args(&args(&["dnd-source", "--mime", "text/uri-list", "--timeout-ms", "+250", "--payload", "x"])),
        Ok(Some(ProbeArgs { mode: "dnd-source".into(), mime: "text/uri-list".into(), payload: "x".into(), timeout_ms: 250 }))
    );
    assert_eq!(parse_probe_args(&args(&["dnd-source", "--mime"])), Err("--mime requires a value".to_string()));
    assert_eq!(parse_probe_args(&args(&["dnd-source", "--verbose"])), Err("unknown argument: --verbose".to_string()));
    assert_eq!(
        parse_probe_args(&args(&["dnd-source", "--timeout-ms", "soon"])),
        Err("invalid digit found in string".to_string())
    );
    assert!(parse_probe_args(&args(&["dnd-source", "--timeout-ms", "18446744073709551616"])).is_err());
}

#[test]
fn probe_results_report_success() {
    let source = ClipboardSourceResult {
        offered_mimes: vec!["text/plain".into()],
        serial_used: Some(1),
        selection_set: true,
        send_count: 1,
        bytes_written: 5,
        error: None,
    };
    assert!(source.success());
    assert!(!ClipboardSourceResult { send_count: 0, ..source.clone() }.success());
    let sink = ClipboardSinkResult {
        received_mimes: Vec::new(),
        offer_received: true,
        receive_requested: true,
        payload_read_finished: true,
        chosen_mime: None,
        payload: Some(vec![1]),
        error: Some("late".into()),
    };
    assert!(!sink.success());
    let drag = DndSourceResult {
        offered_mimes: Vec::new(),
        pointer_serial_obtained: true,
        start_drag_attempted: true,
        send_count: 2,
        bytes_written: 10,
        blocked_reason: None,
        error: None,
    };
    assert!(drag.success());
    let drop = DndTargetResult {
        enter_received: true,
        offered_mimes: Vec::new(),
        offer_received: true,
        receive_requested: true,
        payload_read_finished: true,
        chosen_mime: None,
        payload: Some(Vec::new()),
        drop_received: false,
        error: None,
    };
    assert!(!drop.success());
    assert!(DndTargetResult { drop_received: true, ..drop }.success());
}

#[test]
fn probe_client_arguments_and_modes() {
    assert_eq!(parse_probe_client_args(&args(&[])), Ok(None));
    assert_eq!(
        parse_probe_client_args(&args(&["xdg-window"])),
        Ok(Some(ProbeClientArgs { mode: "xdg-window".into(), title: "evilwm probe".into(), hold_ms: 0, namespace: "evilwm-test-panel".into() }))
    );
    assert_eq!(
        parse_probe_client_args(&args(&["layer-panel", "--namespace", "bar", "--hold-ms", "500", "--title", "t"])),
        Ok(Some(ProbeClientArgs { mode: "layer-panel".into(), title: "t".into(), hold_ms: 500, namespace: "bar".into() }))
    );
    assert_eq!(parse_probe_client_args(&args(&["xdg-window", "--hold-ms"])), Err("--hold-ms requires a value".to_string()));
    assert_eq!(parse_probe_client_args(&args(&["xdg-window", "--help"])), Ok(None));
    assert_eq!(client_mode("x11-window"), Ok(ClientMode::X11Window));
    assert_eq!(client_mode("wayland"), Err("unknown mode: wayland".to_string()));
    assert_eq!(transfer_mode("dnd-target"), Ok(TransferMode::DndTarget));
    assert_eq!(transfer_mode("clipboard"), Err("unknown mode: clipboard".to_string()));
}

#[test]
fn numbers_parse_as_std_parses_them() {
    let inputs = [
        "", "+", "-", "0", "+0", "-0", "42", "+42", "007", "12a", "a12", " 1", "1 ", "-5", "++1", "+-1",
        "18446744073709551615", "18446744073709551616", "99999999999999999999", "99999999999999999999x",
        "1844674407370955161x", "٣", "１",
    ];
    for input in inputs {
        let expected = input.parse::<u64>().map_err(|e| e.to_string());
        assert_eq!(parse_u64(input), expected, "{input:?}");
    }
}
