use visioflow_cli::commands::daemon::{
    daemon_start_check, daemon_status_report, daemon_stop_step, parse_pid, pid_file_contents,
    stop_timeout_message, trigger_payload, DaemonState, StopStep,
};
use visioflow_cli::commands::encode::{
    encode_delivery_plan, encode_success_notification, file_source_path, text_source_payload,
    trim_stdin_payload, EncodeDeliver,
};
use visioflow_cli::commands::notify::{notify_test_note, notify_test_report};
use visioflow_cli::commands::rule::{
    configure_rule, merge_default_rules, parse_capture_map, rule_create_check, set_rule_action,
    Rule,
};

fn capture_of<'a>(rule: &'a Rule, group: &str) -> Option<&'a str> {
    rule.captures
        .iter()
        .find(|(g, _)| g == group)
        .map(|(_, v)| v.as_str())
}

fn lookup<'a>(rules: &'a [(String, u32)], name: &str) -> Option<u32> {
    rules.iter().find(|(n, _)| n == name).map(|(_, v)| *v)
}

#[test]
fn parse_capture_map_accepts_group_var() {
    assert_eq!(
        parse_capture_map("asset:ASSET").expect("valid"),
        ("asset".to_owned(), "ASSET".to_owned())
    );
}

#[test]
fn parse_capture_map_rejects_missing_colon() {
    assert!(parse_capture_map("assetASSET").is_err());
}

#[test]
fn parse_capture_map_rejects_empty_parts() {
    assert!(parse_capture_map(":VAR").is_err());
    assert!(parse_capture_map("group:").is_err());
}

#[test]
fn parse_capture_map_splits_at_first_colon() {
    assert_eq!(
        parse_capture_map("a:b:c").expect("valid"),
        ("a".to_owned(), "b:c".to_owned())
    );
    assert_eq!(
        parse_capture_map("x").expect_err("invalid"),
        "map must be GROUP:VAR"
    );
}

#[test]
fn rule_create_rejects_reserved_name() {
    let err = rule_create_check("copy", true, false).expect_err("reserved");
    assert!(err.contains("reserved"));
    assert_eq!(err, "reserved rule name: copy");
}

#[test]
fn rule_create_rejects_duplicate() {
    assert!(rule_create_check("demo", false, false).is_ok());
    let err = rule_create_check("demo", false, true).expect_err("duplicate");
    assert_eq!(err, "rule already exists: demo");
}

#[test]
fn rule_create_persists_empty_rule() {
    let rule = Rule::new("demo");
    assert_eq!(rule.name, "demo");
    assert!(rule.regex.is_none());
    assert!(rule.exec_path.is_none());
}

#[test]
fn rule_config_sets_regex_and_maps() {
    let rule = configure_rule(
        Rule::new("asset"),
        Some(r"ASSET:(?P<asset>\d+)"),
        &["asset:ASSET".to_owned()],
    )
    .expect("config");
    assert_eq!(rule.regex.as_deref(), Some(r"ASSET:(?P<asset>\d+)"));
    assert_eq!(capture_of(&rule, "asset"), Some("ASSET"));
}

#[test]
fn rule_config_later_maps_replace_earlier_ones() {
    let rule = configure_rule(
        Rule::new("asset"),
        None,
        &["g:A".to_owned(), "h:B".to_owned(), "g:C".to_owned()],
    )
    .expect("config");
    assert_eq!(capture_of(&rule, "g"), Some("C"));
    assert_eq!(capture_of(&rule, "h"), Some("B"));
    assert_eq!(rule.captures.len(), 2);
    assert!(rule.regex.is_none());
}

#[test]
fn rule_config_requires_input_and_valid_maps() {
    assert_eq!(
        configure_rule(Rule::new("x"), None, &[]).expect_err("nothing"),
        "config requires --regex and/or --map"
    );
    assert_eq!(
        configure_rule(Rule::new("x"), Some("re"), &["bad".to_owned()]).expect_err("bad map"),
        "map must be GROUP:VAR"
    );
}

#[test]
fn rule_set_action_persists_exec_path() {
    let rule = set_rule_action(Rule::new("run"), Some("/bin/echo"), false).expect("set-action");
    assert_eq!(rule.exec_path.as_deref(), Some("/bin/echo"));
    assert!(!rule.wifi_connect);
}

#[test]
fn rule_set_action_persists_wifi_connect_flag() {
    let rule = set_rule_action(Rule::new("wifi"), None, true).expect("set-action");
    assert!(rule.wifi_connect);
    assert!(rule.exec_path.is_none());
}

#[test]
fn rule_set_action_requires_exec_or_wifi() {
    let err = set_rule_action(Rule::new("empty"), None, false).expect_err("needs flag");
    assert_eq!(err, "set-action requires --exec and/or --wifi-connect");
}

#[test]
fn rule_init_defaults_merge_skips_existing_names() {
    let existing = vec![("url".to_owned(), 1u32)];
    let defaults = vec![("url".to_owned(), 10u32), ("wifi".to_owned(), 20u32)];
    let merged = merge_default_rules(existing, defaults, true, false);
    assert_eq!(lookup(&merged, "url"), Some(1));
    assert_eq!(lookup(&merged, "wifi"), Some(20));
}

#[test]
fn rule_init_defaults_force_replaces_entire_store() {
    let existing = vec![("custom-only".to_owned(), 1u32)];
    let defaults = vec![("url".to_owned(), 10u32)];
    let merged = merge_default_rules(existing, defaults, false, true);
    assert_eq!(lookup(&merged, "custom-only"), None);
    assert_eq!(lookup(&merged, "url"), Some(10));
}

#[test]
fn rule_init_defaults_without_merge_overrides_existing() {
    let existing = vec![("url".to_owned(), 1u32), ("mine".to_owned(), 2u32)];
    let defaults = vec![("url".to_owned(), 10u32)];
    let merged = merge_default_rules(existing, defaults, false, false);
    assert_eq!(lookup(&merged, "url"), Some(10));
    assert_eq!(lookup(&merged, "mine"), Some(2));
}

#[test]
fn read_write_pid_roundtrip() {
    let text = pid_file_contents(12345);
    assert_eq!(text, "12345\n");
    assert_eq!(parse_pid(&text).expect("read"), 12345);
}

#[test]
fn parse_pid_reports_parse_errors() {
    assert_eq!(
        parse_pid("  \n").expect_err("empty"),
        "invalid pid file: cannot parse integer from empty string"
    );
    assert_eq!(
        parse_pid("12a").expect_err("digit"),
        "invalid pid file: invalid digit found in string"
    );
    assert_eq!(
        parse_pid("4294967296").expect_err("overflow"),
        "invalid pid file: number too large to fit in target type"
    );
    assert_eq!(parse_pid("+7\r\n"), Ok(7));
    assert_eq!(parse_pid("4294967295"), Ok(u32::MAX));
    assert_eq!(
        parse_pid("+").expect_err("sign only"),
        "invalid pid file: invalid digit found in string"
    );
}

#[test]
fn daemon_status_and_stop_decisions() {
    let (line, outcome) = daemon_status_report(DaemonState::Running(42), "sock");
    assert_eq!(line, "daemon running (pid 42, socket sock)");
    assert!(outcome.is_ok());
    let (line, outcome) = daemon_status_report(DaemonState::Stale, "sock");
    assert_eq!(line, "daemon not running (stale pid file)");
    assert_eq!(outcome, Err("daemon not running".to_owned()));
    assert_eq!(
        daemon_stop_step(None, false, false, 0),
        StopStep::NotRunning {
            remove_pid_file: false
        }
    );
    assert_eq!(daemon_stop_step(Some(9), true, false, 0), StopStep::Kill(9));
    assert_eq!(daemon_stop_step(Some(9), true, true, 3), StopStep::Wait);
    assert_eq!(daemon_stop_step(Some(9), false, true, 3), StopStep::Done);
    assert_eq!(daemon_stop_step(Some(9), true, true, 20), StopStep::TimedOut(9));
    assert_eq!(stop_timeout_message(9), "daemon pid 9 did not exit in time");
    assert_eq!(
        daemon_start_check(Some(5)),
        Err("daemon already running (pid 5)".to_owned())
    );
    assert_eq!(daemon_start_check(None), Ok(()));
    assert_eq!(trigger_payload(&[]), Err("no payloads decoded for trigger".to_owned()));
    assert_eq!(
        trigger_payload(&["a".to_owned(), "b".to_owned()]),
        Ok("a".to_owned())
    );
}

#[test]
fn deliver_preview_only_shows_window() {
    assert!(EncodeDeliver::Preview.shows_preview());
    assert!(!EncodeDeliver::Preview.copies_image());
}

#[test]
fn deliver_preview_copy_shows_and_copies() {
    assert!(EncodeDeliver::PreviewCopy.shows_preview());
    assert!(EncodeDeliver::PreviewCopy.copies_image());
}

#[test]
fn deliver_copy_only_copies() {
    assert!(!EncodeDeliver::Copy.shows_preview());
    assert!(EncodeDeliver::Copy.copies_image());
}

#[test]
fn deliver_terminal_prints_only() {
    assert!(EncodeDeliver::Terminal.is_terminal());
    let plan = encode_delivery_plan(EncodeDeliver::Terminal, true, false);
    assert!(plan.print_terminal && !plan.copy_image && !plan.notify && !plan.show_preview);
    let plan = encode_delivery_plan(EncodeDeliver::PreviewCopy, true, true);
    assert!(plan.save_image && plan.copy_image && plan.notify && plan.show_preview);
    assert!(!plan.print_terminal);
}

#[test]
fn encode_text_flag_encodes_direct_payload() {
    assert_eq!(
        text_source_payload(Some("direct".to_owned()), Some("positional".to_owned())),
        Ok("direct".to_owned())
    );
    assert_eq!(
        text_source_payload(None, Some("positional".to_owned())),
        Ok("positional".to_owned())
    );
    assert_eq!(
        text_source_payload(None, None),
        Err("no text provided for encoding".to_owned())
    );
    assert_eq!(
        file_source_path(None),
        Err("no file provided for encoding".to_owned())
    );
}

#[test]
fn encode_stdin_payload_drops_trailing_line_breaks() {
    assert_eq!(trim_stdin_payload("hello\r\n\n"), "hello");
    assert_eq!(trim_stdin_payload(" a \n b\n"), " a \n b");
    assert_eq!(trim_stdin_payload("\n"), "");
}

#[test]
fn encode_success_notification_truncates_body() {
    let note = encode_success_notification("https://example.com");
    assert_eq!(note.title, "VisioFlow QR");
    assert_eq!(note.body, "QR copied — https://example.com");
    assert!(note.copy_payload.is_none());
    assert!(note.already_copied);
}

#[test]
fn notify_test_accepts_custom_title_and_body() {
    let note = notify_test_note(Some("Custom"), Some("Body text"));
    assert_eq!(note.title, "Custom");
    assert_eq!(note.body, "Body text");
    assert_eq!(note.copy_payload.as_deref(), Some("Body text"));
    let note = notify_test_note(None, None);
    assert_eq!(note.title, "VisioFlow");
    assert_eq!(note.body, "Toast delivery smoke test");
    assert_eq!(
        notify_test_report(Ok("noop"), "VisioFlow"),
        Ok("toast sent (noop): VisioFlow".to_owned())
    );
    assert_eq!(
        notify_test_report(Err("down".to_owned()), "VisioFlow"),
        Err("toast delivery failed: down".to_owned())
    );
}

const STOCK_RULE_NAMES: &[&str] = &[
    "wifi", "url", "mailto", "tel", "geo", "vcard", "clipboard", "asset", "plain",
];

fn stock_rules() -> Vec<(String, Rule)> {
    STOCK_RULE_NAMES
        .iter()
        .map(|name| (name.to_string(), Rule::new(name)))
        .collect()
}

#[test]
fn rule_init_defaults_merge_preserves_existing_rules() {
    let custom = configure_rule(Rule::new("url"), Some("^custom$"), &[]).expect("config");
    let merged = merge_default_rules(vec![("url".to_owned(), custom)], stock_rules(), true, false);
    let url = merged.iter().find(|(n, _)| n == "url").map(|(_, r)| r);
    assert_eq!(url.and_then(|r| r.regex.as_deref()), Some("^custom$"));
    assert!(merged.iter().any(|(n, _)| n == "wifi"));
    for name in STOCK_RULE_NAMES {
        assert!(merged.iter().any(|(n, _)| n == name), "missing stock rule {name}");
    }
}

#[test]
fn rule_init_defaults_force_replaces_custom_rules() {
    let existing = vec![("custom-only".to_owned(), Rule::new("custom-only"))];
    let merged = merge_default_rules(existing, stock_rules(), false, true);
    assert!(!merged.iter().any(|(n, _)| n == "custom-only"));
    assert!(merged.iter().any(|(n, _)| n == "url"));
}

#[test]
fn rule_create_rejects_reserved_builtin_name() {
    let err = rule_create_check("copy", true, false).expect_err("reserved");
    assert!(err.contains("reserved"));
}
