use openvpn_plugin::bridge::HandleBridge;
use openvpn_plugin::dispatch::{
    decode_args_env, decode_event_input, dispatch_close, dispatch_event, dispatch_open,
    CallbackOutcome, OPENVPN_PLUGIN_FUNC_DEFERRED, OPENVPN_PLUGIN_FUNC_ERROR,
    OPENVPN_PLUGIN_FUNC_SUCCESS,
};
use openvpn_plugin::logging::{format_error, format_panic, Error};
use openvpn_plugin::types::{EventResult, EventType};

#[test]
fn status_constants_match_protocol() {
    assert_eq!(0, OPENVPN_PLUGIN_FUNC_SUCCESS);
    assert_eq!(1, OPENVPN_PLUGIN_FUNC_ERROR);
    assert_eq!(2, OPENVPN_PLUGIN_FUNC_DEFERRED);
}

#[test]
fn format_error_renders_cause_chain() {
    let error = Error::new(
        "top level",
        vec!["middle cause".to_string(), "root cause".to_string()],
    );
    assert_eq!(
        "Error: top level\nCaused by: middle cause\nCaused by: root cause",
        format_error(&error)
    );
}

#[test]
fn format_error_without_causes() {
    let error = Error::new("alone", Vec::new());
    assert_eq!("Error: alone", format_error(&error));
}

#[test]
fn format_panic_with_message() {
    assert_eq!(
        "Panic in the plugin open callback: \"oops\"",
        format_panic("plugin open", Some("oops"))
    );
}

#[test]
fn format_panic_without_message() {
    assert_eq!(
        "Panic in the plugin close callback: \"No panic message\"",
        format_panic("plugin close", None)
    );
}

#[test]
fn dispatch_open_success_encodes_bitmask() {
    let outcome: CallbackOutcome<(Vec<EventType>, u64)> =
        CallbackOutcome::Returned((vec![EventType::Up, EventType::RouteUp], 17));
    let decision = dispatch_open(outcome);
    assert_eq!(OPENVPN_PLUGIN_FUNC_SUCCESS, decision.status);
    assert!(decision.report.is_none());
    let success = decision.success.unwrap();
    assert_eq!(0b101, success.type_mask);
    assert_eq!(17, success.handle);
}

#[test]
fn dispatch_open_error_reports_and_fails() {
    let outcome: CallbackOutcome<(Vec<EventType>, u64)> =
        CallbackOutcome::Failed(Error::new("open broke", vec!["disk gone".to_string()]));
    let decision = dispatch_open(outcome);
    assert_eq!(OPENVPN_PLUGIN_FUNC_ERROR, decision.status);
    assert_eq!(
        Some("Error: open broke\nCaused by: disk gone".to_string()),
        decision.report
    );
    assert!(decision.success.is_none());
}

#[test]
fn dispatch_open_panic_reports_and_fails() {
    let outcome: CallbackOutcome<(Vec<EventType>, u64)> =
        CallbackOutcome::Panicked(Some("went sideways".to_string()));
    let decision = dispatch_open(outcome);
    assert_eq!(OPENVPN_PLUGIN_FUNC_ERROR, decision.status);
    assert_eq!(
        Some("Panic in the plugin open callback: \"went sideways\"".to_string()),
        decision.report
    );
    assert!(decision.success.is_none());
}

#[test]
fn dispatch_event_maps_results_to_statuses() {
    let success = dispatch_event(CallbackOutcome::Returned(EventResult::Success));
    assert_eq!(OPENVPN_PLUGIN_FUNC_SUCCESS, success.status);
    assert!(success.report.is_none());

    let deferred = dispatch_event(CallbackOutcome::Returned(EventResult::Deferred));
    assert_eq!(OPENVPN_PLUGIN_FUNC_DEFERRED, deferred.status);
    assert!(deferred.report.is_none());
}

#[test]
fn dispatch_event_failure_declines_without_report() {
    let decision = dispatch_event(CallbackOutcome::Returned(EventResult::Failure));
    assert_eq!(OPENVPN_PLUGIN_FUNC_ERROR, decision.status);
    assert!(decision.report.is_none());
}

#[test]
fn dispatch_event_error_reports_once() {
    let decision = dispatch_event(CallbackOutcome::Failed(Error::new(
        "event broke",
        Vec::new(),
    )));
    assert_eq!(OPENVPN_PLUGIN_FUNC_ERROR, decision.status);
    assert_eq!(Some("Error: event broke".to_string()), decision.report);
}

#[test]
fn dispatch_event_panic_names_stage() {
    let decision = dispatch_event(CallbackOutcome::Panicked(None));
    assert_eq!(OPENVPN_PLUGIN_FUNC_ERROR, decision.status);
    assert_eq!(
        Some("Panic in the plugin func callback: \"No panic message\"".to_string()),
        decision.report
    );
}

#[test]
fn dispatch_close_is_silent_on_success() {
    assert_eq!(None, dispatch_close(CallbackOutcome::Returned(())));
}

#[test]
fn dispatch_close_reports_panic() {
    assert_eq!(
        Some("Panic in the plugin close callback: \"tidy up failed\"".to_string()),
        dispatch_close(CallbackOutcome::Panicked(Some("tidy up failed".to_string())))
    );
}

#[test]
fn decode_args_env_happy_path() {
    let argv = Some(vec![b"plugin.so".to_vec(), b"arg1".to_vec()]);
    let envp = Some(vec![b"config=server.conf".to_vec()]);
    let (args, env) = decode_args_env(argv, envp).unwrap();
    assert_eq!(vec![b"plugin.so".to_vec(), b"arg1".to_vec()], args);
    assert_eq!(
        Some(&b"server.conf".to_vec()),
        env.get(&b"config".to_vec())
    );
}

#[test]
fn decode_args_env_null_args() {
    let failure = decode_args_env(None, Some(Vec::new())).unwrap_err();
    assert_eq!(OPENVPN_PLUGIN_FUNC_ERROR, failure.status);
    assert_eq!(
        Some("Error: Malformed args from OpenVPN\nCaused by: Input is null pointer".to_string()),
        failure.report
    );
}

#[test]
fn decode_args_env_null_env() {
    let failure = decode_args_env(Some(Vec::new()), None).unwrap_err();
    assert_eq!(OPENVPN_PLUGIN_FUNC_ERROR, failure.status);
    assert_eq!(
        Some("Error: Malformed env from OpenVPN\nCaused by: Input is null pointer".to_string()),
        failure.report
    );
}

#[test]
fn decode_args_env_bad_entry() {
    let failure =
        decode_args_env(Some(Vec::new()), Some(vec![b"no-separator".to_vec()])).unwrap_err();
    assert_eq!(OPENVPN_PLUGIN_FUNC_ERROR, failure.status);
    assert_eq!(
        Some(
            "Error: Malformed env from OpenVPN\nCaused by: No equal sign in \"no-separator\""
                .to_string()
        ),
        failure.report
    );
}

#[test]
fn decode_args_env_names_first_bad_entry() {
    let failure = decode_args_env(
        Some(Vec::new()),
        Some(vec![
            b"good=1".to_vec(),
            b"first-bad".to_vec(),
            b"second-bad".to_vec(),
        ]),
    )
    .unwrap_err();
    assert_eq!(
        Some(
            "Error: Malformed env from OpenVPN\nCaused by: No equal sign in \"first-bad\""
                .to_string()
        ),
        failure.report
    );
}

#[test]
fn decode_args_env_escapes_bad_entry() {
    // A quote, a backslash and a non-printable byte in the entry appear
    // escaped in the report.
    let mut entry = b"he\"ll\\o".to_vec();
    entry.push(0xff);
    let failure = decode_args_env(Some(Vec::new()), Some(vec![entry])).unwrap_err();
    assert_eq!(
        Some(
            "Error: Malformed env from OpenVPN\nCaused by: No equal sign in \"he\\\"ll\\\\o\\xff\""
                .to_string()
        ),
        failure.report
    );
}

#[test]
fn decode_event_input_happy_path() {
    let (event, args, env) = decode_event_input(
        5,
        Some(Vec::new()),
        Some(vec![b"auth_control_file=/tmp/acf".to_vec()]),
    )
    .unwrap();
    assert_eq!(EventType::AuthUserPassVerify, event);
    assert!(args.is_empty());
    assert_eq!(
        Some(&b"/tmp/acf".to_vec()),
        env.get(&b"auth_control_file".to_vec())
    );
}

#[test]
fn decode_event_input_bad_code() {
    let failure = decode_event_input(99, Some(Vec::new()), Some(Vec::new())).unwrap_err();
    assert_eq!(OPENVPN_PLUGIN_FUNC_ERROR, failure.status);
    assert_eq!(
        Some("Error: Invalid event integer\nCaused by: Unrecognized event code 99".to_string()),
        failure.report
    );
}

#[test]
fn decode_event_input_names_negative_code() {
    let failure = decode_event_input(-7, Some(Vec::new()), Some(Vec::new())).unwrap_err();
    assert_eq!(
        Some("Error: Invalid event integer\nCaused by: Unrecognized event code -7".to_string()),
        failure.report
    );
}

#[test]
fn decode_event_input_names_extreme_codes() {
    let failure = decode_event_input(i32::MIN, Some(Vec::new()), Some(Vec::new())).unwrap_err();
    assert_eq!(
        Some(
            "Error: Invalid event integer\nCaused by: Unrecognized event code -2147483648"
                .to_string()
        ),
        failure.report
    );
    let failure = decode_event_input(i32::MAX, Some(Vec::new()), Some(Vec::new())).unwrap_err();
    assert_eq!(
        Some(
            "Error: Invalid event integer\nCaused by: Unrecognized event code 2147483647"
                .to_string()
        ),
        failure.report
    );
}

#[test]
fn bridge_carries_handle_through_session() {
    let mut bridge: HandleBridge<Vec<u32>> = HandleBridge::new();
    bridge.open(vec![1]);
    for value in 2..5 {
        let handle = bridge.borrow_mut();
        handle.push(value);
    }
    let handle = bridge.close();
    assert_eq!(vec![1, 2, 3, 4], handle);
}
