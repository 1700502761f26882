use visioflow_cli::commands::capture::{
    apply_capture_halts, build_routing_notification, first_payload_for_routing, confirm_capture_interactive,
    confirmation_prompt, decide_ipc_routing, explicit_ipc_trigger, format_capture_routing_message,
    is_catchall_copy_rule, map_routing_error, map_trigger_error, notification_title_for_event,
    notify_mode_from_flag, notify_then_action, payload_output, plan_builtin_routing,
    plan_routed_step, route_mode_from_trigger, routed_vars_output, routing_active,
    routing_notification_body, routing_notification_header, select_payload_if_needed,
    selection_prompt, should_notify_for_event, timeout_secs_or_default, wifi_error_notification,
    wifi_handoff_mode_value, CaptureAction, CaptureNotify, IpcRoutingDecision, OnMismatch,
    PayloadOutput, RouteMode, RoutedRule, RoutingEvent, RoutingStep, RuleError, VarsOutput,
    WifiHandoffMode,
};
use std::sync::atomic::{AtomicU8, Ordering};
use visioflow_cli::notifications::{toast_copy_action_label, NativeNotification};

fn matched(rule: &str, auto_route: bool) -> RoutingEvent {
    RoutingEvent::Matched {
        rule: rule.to_owned(),
        auto_route,
    }
}

fn names(v: &[String]) -> Vec<&str> {
    let mut out: Vec<&str> = v.iter().map(String::as_str).collect();
    out.sort();
    out
}

#[test]
fn route_mode_omitted_trigger_is_auto() {
    let mode = route_mode_from_trigger(None, &["wifi".to_owned()], &[]);
    let RouteMode::Auto(opts) = mode else {
        panic!("expected auto");
    };
    assert!(opts.except.iter().any(|n| n == "wifi"));
    assert_eq!(opts.only, None);
}

#[test]
fn route_mode_copy_is_builtin() {
    assert_eq!(
        route_mode_from_trigger(Some("copy"), &[], &[]),
        RouteMode::BuiltinCopy
    );
}

#[test]
fn route_mode_plain_auto_and_named_triggers() {
    assert_eq!(
        route_mode_from_trigger(Some("plain"), &[], &[]),
        RouteMode::BuiltinPlain
    );
    assert!(matches!(
        route_mode_from_trigger(Some("auto"), &[], &[]),
        RouteMode::Auto(_)
    ));
    assert_eq!(
        route_mode_from_trigger(Some("asset"), &[], &[]),
        RouteMode::Explicit("asset".to_owned())
    );
}

#[test]
fn canonical_route_mode_uses_core_auto_sets() {
    let mode = route_mode_from_trigger(
        None,
        &["wifi".to_owned(), "wifi".to_owned()],
        &["url".to_owned()],
    );

    let RouteMode::Auto(opts) = mode else {
        panic!("expected auto");
    };
    assert!(opts.except.iter().any(|n| n == "wifi"));
    assert_eq!(opts.except.len(), 1);
    assert_eq!(
        opts.only.as_ref().map(|only| only.iter().any(|n| n == "url")),
        Some(true)
    );
}

#[test]
fn route_mode_auto_sets_hold_each_name_once() {
    let mode = route_mode_from_trigger(
        Some("auto"),
        &["a".to_owned(), "b".to_owned(), "a".to_owned()],
        &["c".to_owned(), "c".to_owned()],
    );
    let RouteMode::Auto(opts) = mode else {
        panic!("expected auto");
    };
    assert_eq!(names(&opts.except), vec!["a", "b"]);
    assert_eq!(names(opts.only.as_ref().expect("only")), vec!["c"]);
}

#[test]
fn format_routing_message_auto_matched() {
    let msg = format_capture_routing_message(
        &matched("url", true),
        false,
        r#"visioflow: matched rule "url""#,
    );
    assert_eq!(msg, r#"visioflow: matched rule "url""#);
}

#[test]
fn format_routing_message_misses_have_own_wording() {
    let mismatch = RoutingEvent::Mismatch {
        rule: "asset".to_owned(),
    };
    assert_eq!(
        format_capture_routing_message(&mismatch, false, "core"),
        r#"visioflow: rule "asset" did not match"#
    );
    assert_eq!(
        format_capture_routing_message(&RoutingEvent::NoAutoMatch, false, "core"),
        "visioflow: no auto rule matched"
    );
    assert_eq!(format_capture_routing_message(&mismatch, true, "core"), "core");
}

#[test]
fn ipc_routing_decision_auto_route_chooses_matched_rule() {
    let mode = route_mode_from_trigger(None, &[], &[]);
    let decision = decide_ipc_routing(&mode, Some("url".to_owned()));

    assert_eq!(
        decision,
        IpcRoutingDecision::ExecuteMatchedRule {
            rule_name: "url".to_owned(),
        }
    );
}

#[test]
fn ipc_routing_decision_handles_other_modes_locally() {
    assert_eq!(
        decide_ipc_routing(&RouteMode::BuiltinCopy, Some("url".to_owned())),
        IpcRoutingDecision::HandleLocally
    );
    let mode = route_mode_from_trigger(None, &[], &[]);
    assert_eq!(decide_ipc_routing(&mode, None), IpcRoutingDecision::HandleLocally);
}

#[test]
fn map_routing_error_adds_actionable_wifi_hint() {
    let text = map_routing_error(
        &RuleError::WifiConnectFailed("missing ssid".to_owned()),
        "wifi connect failed: missing ssid",
    );
    assert!(text.contains("location permission"));
    assert!(text.contains("system policy"));
}

#[test]
fn map_routing_error_exec_hint_and_passthrough() {
    assert_eq!(
        map_routing_error(&RuleError::ExecFailed("boom".to_owned()), ""),
        "exec failed: boom. Hint: confirm the action path exists and is allowed by endpoint policy."
    );
    assert_eq!(
        map_routing_error(&RuleError::NoMatch, "rendered by engine"),
        "rendered by engine"
    );
}

#[test]
fn map_trigger_error_includes_decoded_payload_and_pattern() {
    let err = map_trigger_error(
        RuleError::NoMatch,
        &["https://example.com".to_owned()],
        "asset",
        Some(r"ASSET:(?P<asset>\d+)"),
    );
    let RuleError::StoreIo(message) = err else {
        panic!("expected store error");
    };
    assert!(message.contains("https://example.com"));
    assert!(message.contains(r"ASSET:(?P<asset>\d+)"));
    assert_eq!(
        message,
        r#"regex did not match decoded payload "https://example.com"; rule 'asset' expects pattern: ASSET:(?P<asset>\d+)"#
    );
}

#[test]
fn map_trigger_error_without_payload_or_pattern() {
    assert_eq!(
        map_trigger_error(RuleError::NoMatch, &[], "x", None),
        RuleError::StoreIo("regex did not match decoded payload <empty>".to_owned())
    );
    assert_eq!(
        map_trigger_error(RuleError::NotFound("x".to_owned()), &[], "x", None),
        RuleError::NotFound("x".to_owned())
    );
}

#[test]
fn notify_errors_only_skips_successful_match() {
    let should_notify = should_notify_for_event(CaptureNotify::ErrorsOnly, &matched("url", true));
    assert!(!should_notify);
}

#[test]
fn notify_errors_only_includes_no_auto_match() {
    let should_notify =
        should_notify_for_event(CaptureNotify::ErrorsOnly, &RoutingEvent::NoAutoMatch);
    assert!(should_notify);
}

#[test]
fn notify_modes_off_and_on() {
    assert!(!should_notify_for_event(CaptureNotify::Off, &RoutingEvent::NoAutoMatch));
    assert!(should_notify_for_event(CaptureNotify::On, &RoutingEvent::BuiltinPlain));
    assert_eq!(notify_mode_from_flag(true), CaptureNotify::On);
    assert_eq!(notify_mode_from_flag(false), CaptureNotify::Off);
}

#[test]
fn routing_notification_title_is_always_visioflow() {
    let note = build_routing_notification(&matched("url", true), "https://example.com", false);
    assert_eq!(note.title, "VisioFlow");
    assert_eq!(notification_title_for_event(&RoutingEvent::NoAutoMatch), "VisioFlow");
}

#[test]
fn routing_notification_body_auto_matched_rule() {
    let payload = "https://www.google.com";
    let note = build_routing_notification(&matched("url", true), payload, false);
    assert_eq!(
        note.body,
        "Matched rule \"url\"\n\nRaw text:\nhttps://www.google.com"
    );
}

#[test]
fn routing_notification_body_explicit_matched_rule() {
    let payload = "MATMSG:TO:user@example.com;SUB:Hello;";
    let note = build_routing_notification(&matched("plain", false), payload, false);
    assert_eq!(
        note.body,
        "Running rule \"plain\"\n\nRaw text:\nMATMSG:TO:user@example.com;SUB:Hello;"
    );
}

#[test]
fn routing_notification_body_wifi_auto_matched() {
    let payload = "WIFI:T:WPA;S:lab;P:secret;;";
    let note = build_routing_notification(&matched("wifi", true), payload, false);
    assert_eq!(
        note.body,
        "Matched rule \"wifi\"\n\nRaw text:\nWIFI:T:WPA;S:lab;P:secret;;"
    );
}

#[test]
fn build_routing_notification_includes_full_copy_payload() {
    let payload = "x".repeat(300);
    let note = build_routing_notification(&matched("url", true), &payload, false);
    assert_eq!(note.copy_payload.as_deref(), Some(payload.as_str()));
}

#[test]
fn routing_notification_body_truncates_only_raw_payload() {
    let payload = "x".repeat(300);
    let body = routing_notification_body(&matched("url", true), &payload);
    assert!(body.starts_with("Matched rule \"url\"\n\nRaw text:\n"));
    let raw_line = body.strip_prefix("Matched rule \"url\"\n\nRaw text:\n").unwrap();
    assert!(raw_line.ends_with('…'));
    assert_eq!(raw_line.chars().count(), 257);
}

#[test]
fn routing_notification_body_builtin_copy() {
    let note = build_routing_notification(&RoutingEvent::BuiltinCopy, "scan-me", true);
    assert_eq!(note.body, "Copied to clipboard\n\nRaw text:\nscan-me");
}

#[test]
fn routing_notification_headers_for_every_event() {
    assert_eq!(
        routing_notification_header(&RoutingEvent::BuiltinPlain),
        "Plain text mode"
    );
    assert_eq!(
        routing_notification_header(&RoutingEvent::Mismatch {
            rule: "r".to_owned()
        }),
        "Rule \"r\" did not match"
    );
}

#[test]
fn build_routing_notification_copy_again_when_already_copied() {
    let note = build_routing_notification(&RoutingEvent::BuiltinCopy, "scan-me", true);
    assert!(note.already_copied);
    assert_eq!(toast_copy_action_label(note.already_copied), "Copy again");
}

#[test]
fn build_routing_notification_copy_when_not_auto_copied() {
    let note = build_routing_notification(&matched("url", true), "https://example.com", false);
    assert!(!note.already_copied);
    assert_eq!(toast_copy_action_label(note.already_copied), "Copy");
}

#[test]
fn routing_notification_body_no_auto_match() {
    let note = build_routing_notification(&RoutingEvent::NoAutoMatch, "unknown-payload", false);
    assert_eq!(note.body, "No rule matched\n\nRaw text:\nunknown-payload");
}

#[test]
fn notify_then_action_runs_notify_before_action() {
    static ORDER: AtomicU8 = AtomicU8::new(0);
    ORDER.store(0, Ordering::SeqCst);

    let sender = |_: &NativeNotification| {
        assert_eq!(ORDER.fetch_add(1, Ordering::SeqCst), 0);
        Ok(())
    };
    let action = || {
        assert_eq!(ORDER.fetch_add(1, Ordering::SeqCst), 1);
        Ok(())
    };

    notify_then_action(
        CaptureNotify::On,
        &matched("wifi", true),
        "WIFI:T:WPA;S:lab;P:secret;;",
        sender,
        action,
    )
    .1
    .expect("sequenced");

    assert_eq!(ORDER.load(Ordering::SeqCst), 2);
}

#[test]
fn notify_then_action_skips_notify_when_disabled() {
    static ORDER: AtomicU8 = AtomicU8::new(0);
    ORDER.store(0, Ordering::SeqCst);

    let sender = |_: &NativeNotification| {
        ORDER.fetch_add(1, Ordering::SeqCst);
        Ok(())
    };

    notify_then_action(
        CaptureNotify::Off,
        &matched("wifi", true),
        "payload",
        sender,
        || Ok(()),
    )
    .1
    .expect("action only");

    assert_eq!(ORDER.load(Ordering::SeqCst), 0);
}

#[test]
fn notify_then_action_reports_toast_failure_and_action_error() {
    let (toast, outcome) = notify_then_action(
        CaptureNotify::On,
        &RoutingEvent::NoAutoMatch,
        "p",
        |_: &NativeNotification| Err("no toast".to_owned()),
        || Err(RuleError::ExecFailed("x".to_owned())),
    );
    assert_eq!(toast, Some("no toast".to_owned()));
    assert_eq!(outcome, Err(RuleError::ExecFailed("x".to_owned())));
}

#[test]
fn routing_notification_text_for_mismatch_uses_payload() {
    let payload = "https://example.com";
    let note = build_routing_notification(
        &RoutingEvent::Mismatch {
            rule: "asset".to_owned(),
        },
        payload,
        false,
    );
    assert_eq!(note.title, "VisioFlow");
    assert_eq!(
        note.body,
        "Rule \"asset\" did not match\n\nRaw text:\nhttps://example.com"
    );
}

#[test]
fn wifi_connect_failure_maps_to_notification() {
    let payload = "WIFI:T:WPA;S:lab;P:secret;;";
    let maybe = wifi_error_notification(
        &RuleError::WifiConnectFailed("access denied".to_owned()),
        "wifi",
        payload,
    );
    assert!(maybe.is_some());
    let note = maybe.expect("notification");
    assert!(note.title.contains("wifi"));
    assert!(note.body.contains("access denied"));
    assert!(note.body.contains(payload));
    assert_eq!(note.title, "VisioFlow WiFi (wifi)");
    assert_eq!(
        note.body,
        "Running rule \"wifi\"\n\nRaw text:\nWIFI:T:WPA;S:lab;P:secret;; — access denied"
    );
}

#[test]
fn other_errors_give_no_wifi_notification() {
    assert!(wifi_error_notification(&RuleError::NoMatch, "wifi", "p").is_none());
}

fn rule(has_regex: bool, wifi_connect: bool, has_exec: bool, has_wifi_ssid: bool) -> RoutedRule {
    RoutedRule {
        name: "r".to_owned(),
        has_regex,
        wifi_connect,
        has_exec,
        has_wifi_ssid,
    }
}

#[test]
fn apply_routing_explicit_mismatch_copies_by_default() {
    let event = RoutingEvent::Mismatch {
        rule: "asset".to_owned(),
    };
    let step = plan_routed_step(event.clone(), None, OnMismatch::Copy, CaptureNotify::Off, true);
    assert_eq!(
        step,
        RoutingStep::CopyPayload {
            event,
            notify: false,
            fallback: true,
        }
    );
}

#[test]
fn apply_routing_sets_wifi_handoff_mode_env_for_wifi_payload() {
    let step = plan_routed_step(
        matched("wifi", true),
        Some(rule(true, false, false, true)),
        OnMismatch::Copy,
        CaptureNotify::Off,
        true,
    );
    assert_eq!(
        step,
        RoutingStep::RunRule {
            event: matched("wifi", true),
            notify: false,
            announce_wifi_connect: false,
            wifi_handoff: true,
        }
    );
    assert_eq!(wifi_handoff_mode_value(WifiHandoffMode::Print), "print");
    assert_eq!(
        wifi_handoff_mode_value(WifiHandoffMode::OpenSettings),
        "open-settings"
    );
}

#[test]
fn routing_plan_for_builtins_catchall_and_refusal() {
    assert_eq!(
        plan_builtin_routing(&RouteMode::BuiltinCopy, CaptureNotify::On),
        Some(RoutingStep::CopyPayload {
            event: RoutingEvent::BuiltinCopy,
            notify: true,
            fallback: false,
        })
    );
    assert_eq!(
        plan_builtin_routing(&RouteMode::BuiltinPlain, CaptureNotify::On),
        Some(RoutingStep::PrintPayload)
    );
    assert_eq!(
        plan_builtin_routing(&RouteMode::Explicit("x".to_owned()), CaptureNotify::On),
        None
    );
    assert!(is_catchall_copy_rule(&rule(false, false, false, false)));
    assert!(!is_catchall_copy_rule(&rule(false, true, false, false)));
    assert!(matches!(
        plan_routed_step(
            matched("plain", true),
            Some(rule(false, false, false, false)),
            OnMismatch::NoAction,
            CaptureNotify::ErrorsOnly,
            false,
        ),
        RoutingStep::CopyPayload {
            notify: false,
            fallback: false,
            ..
        }
    ));
    assert_eq!(
        plan_routed_step(
            RoutingEvent::NoAutoMatch,
            None,
            OnMismatch::NoAction,
            CaptureNotify::ErrorsOnly,
            false,
        ),
        RoutingStep::Refuse {
            event: RoutingEvent::NoAutoMatch,
            notify: true,
        }
    );
}

#[test]
fn capture_output_choices() {
    assert!(routing_active(false, None));
    assert!(routing_active(true, Some(CaptureAction::Copy)));
    assert!(!routing_active(false, Some(CaptureAction::Stdout)));
    assert_eq!(explicit_ipc_trigger(Some("asset"), false), Some("asset".to_owned()));
    assert_eq!(explicit_ipc_trigger(Some("auto"), false), None);
    assert_eq!(explicit_ipc_trigger(Some("copy"), true), None);
    assert_eq!(
        routed_vars_output(false, false, None, true),
        VarsOutput::Plain
    );
    assert_eq!(routed_vars_output(true, true, None, true), VarsOutput::Export);
    assert_eq!(routed_vars_output(false, false, None, false), VarsOutput::Nothing);
    assert_eq!(
        payload_output(false, false, None),
        PayloadOutput::Write(CaptureAction::Stdout)
    );
    assert_eq!(payload_output(false, true, None), PayloadOutput::Json);
    assert_eq!(timeout_secs_or_default(0), 20);
    assert_eq!(timeout_secs_or_default(7), 7);
}

#[test]
fn select_payload_skips_prompt_for_single_payload() {
    let payloads = vec!["only-one".to_owned()];
    let out = select_payload_if_needed(&payloads, true, "").expect("select");
    assert_eq!(out, payloads);
}

#[test]
fn select_payload_skips_prompt_when_disabled() {
    let payloads = vec!["a".to_owned(), "b".to_owned()];
    let out = select_payload_if_needed(&payloads, false, "").expect("select");
    assert_eq!(out, payloads);
}

#[test]
fn select_payload_picks_numbered_choice() {
    let payloads = vec!["first".to_owned(), "second".to_owned(), "third".to_owned()];
    let out = select_payload_if_needed(&payloads, true, "2\n").expect("select");
    assert_eq!(out, vec!["second".to_owned()]);
    let menu = selection_prompt(&payloads);
    assert!(menu.contains("[1] first"));
    assert!(menu.contains("[2] second"));
    assert!(menu.contains("Enter number (1-3)"));
}

#[test]
fn select_payload_rejects_invalid_choice() {
    let payloads = vec!["a".to_owned(), "b".to_owned()];
    let err = select_payload_if_needed(&payloads, true, "9\n").expect_err("invalid");
    assert!(err.contains("invalid selection"));
    assert_eq!(err, "invalid selection '9'; expected 1-2");
    assert!(select_payload_if_needed(&payloads, true, "0").is_err());
    assert!(select_payload_if_needed(&payloads, true, "x").is_err());
    assert_eq!(
        select_payload_if_needed(&payloads, true, " +1 ").expect("plus sign"),
        vec!["a".to_owned()]
    );
}

#[test]
fn confirm_interactive_disabled_proceeds() {
    let payloads = vec!["x".to_owned()];
    assert!(confirm_capture_interactive(&payloads, false, ""));
}

#[test]
fn confirm_interactive_accepts_y() {
    let payloads = vec!["payload-a".to_owned()];
    assert!(confirm_capture_interactive(&payloads, true, "y\n"));
    let text = confirmation_prompt(&payloads);
    assert!(text.contains("payload-a"));
    assert!(text.contains("[y/N]"));
    assert_eq!(text, "Decoded payload:\n  payload-a\nProceed? [y/N]: ");
}

#[test]
fn confirm_interactive_defaults_no_on_empty_input() {
    let payloads = vec!["payload-b".to_owned()];
    assert!(!confirm_capture_interactive(&payloads, true, "\n"));
    assert!(!confirm_capture_interactive(&[], true, "yes"));
    assert!(confirm_capture_interactive(&payloads, true, " YES "));
}

#[test]
fn apply_capture_halts_select_then_confirm() {
    let payloads = vec!["one".to_owned(), "two".to_owned()];
    let out = apply_capture_halts(payloads, true, true, "2\n", "yes\n").expect("halts");
    assert_eq!(out, vec!["two".to_owned()]);
}

#[test]
fn apply_capture_halts_cancelled_on_interactive_no() {
    let payloads = vec!["only".to_owned()];
    let err = apply_capture_halts(payloads, false, true, "", "n\n").expect_err("cancelled");
    assert!(err.contains("cancelled"));
}

#[test]
fn first_payload_for_routing_takes_the_first_payload() {
    let payloads = vec!["first".to_owned(), "second".to_owned()];
    assert_eq!(first_payload_for_routing(&payloads), Ok("first".to_owned()));
    assert_eq!(
        first_payload_for_routing(&Vec::new()),
        Err("no payloads decoded for routing".to_owned())
    );
}
