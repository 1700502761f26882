use visioflow_cli::notifications::{
    escape_xml, is_toast_copy_staging_path, noop_notification_backend,
    parse_toast_protocol_activation, run_notify_test, run_notify_test_backend, same_temp_directory, send_native_notification, send_with_backends,
    send_with_backends_labeled, shortcut_target_stale, toast_activation_argument,
    toast_activation_decodes_cleanly, toast_activator_exe_path, toast_copy_action_label,
    toast_copy_activation_args, toast_copy_protocol_uri, toast_copy_staging_file_name,
    toast_copy_staging_path, toast_protocol_registry_command, toast_shortcut_dir,
    toast_shortcut_path, toast_xml, truncate_for_toast, NativeNotification, NOOP_BACKEND_LABEL,
};

fn no_canonical(_: &str) -> Option<String> {
    None
}

fn trimmed_canonical(p: &str) -> Option<String> {
    Some(p.trim_end_matches(['/', '\\']).to_owned())
}

fn noop_backends() -> [(&'static str, Sender); 1] {
    [(NOOP_BACKEND_LABEL, noop_notification_backend)]
}

fn sample_note() -> NativeNotification {
    NativeNotification {
        title: "VisioFlow".to_owned(),
        body: "Hello & <world>".to_owned(),
        copy_payload: None,
        already_copied: false,
    }
}

type Sender = fn(&NativeNotification) -> Result<(), String>;

#[test]
fn escape_xml_escapes_special_chars() {
    assert_eq!(
        escape_xml(r#"Tom & Jerry say "hi""#),
        "Tom &amp; Jerry say &quot;hi&quot;"
    );
}

#[test]
fn escape_xml_escapes_apostrophes_and_angles() {
    assert_eq!(escape_xml("<a href='x'>"), "&lt;a href=&apos;x&apos;&gt;");
}

#[test]
fn toast_xml_includes_escaped_title_and_body() {
    let xml = toast_xml(&sample_note(), None);
    assert!(xml.contains("VisioFlow"));
    assert!(xml.contains("Hello &amp; &lt;world&gt;"));
    assert!(xml.contains("ToastGeneric"));
    assert!(!xml.contains("<actions>"));
}

#[test]
fn toast_xml_includes_copy_action_when_staging_path_set() {
    let path = "/tmp/visioflow-toast-copy-test.xml-path.txt";
    let xml = toast_xml(&sample_note(), Some(path));
    assert!(xml.contains(r#"<action content="Copy""#));
    assert!(xml.contains("activationType=\"protocol\""));
    assert!(xml.contains("visioflow:notify-copy?path="));
    assert!(xml.contains("visioflow-toast-copy-test.xml-path.txt"));
}

#[test]
fn toast_xml_uses_copy_again_when_already_copied() {
    let mut note = sample_note();
    note.copy_payload = Some("payload".to_owned());
    note.already_copied = true;
    let path = "/tmp/visioflow-toast-copy-already.txt";
    let xml = toast_xml(&note, Some(path));
    assert!(xml.contains(r#"<action content="Copy again""#));
    assert!(!xml.contains(r#"content="Copy" activationType"#));
}

#[test]
fn toast_xml_exact_document_without_copy_action() {
    let note = NativeNotification {
        title: "T".to_owned(),
        body: "B".to_owned(),
        copy_payload: None,
        already_copied: false,
    };
    assert_eq!(
        toast_xml(&note, None),
        "<toast><visual><binding template=\"ToastGeneric\"><text>T</text><text>B</text></binding></visual></toast>"
    );
}

#[test]
fn toast_copy_protocol_uri_roundtrips_temp_path() {
    let path = "/tmp/visioflow-toast-copy-roundtrip.txt";
    let uri = toast_copy_protocol_uri(path);
    assert!(uri.starts_with("visioflow:notify-copy?path="));
    let parsed = parse_toast_protocol_activation(&uri).expect("parsed");
    assert_eq!(parsed, path);
}

#[test]
fn toast_copy_protocol_uri_encodes_spaces_in_path() {
    let path = r"C:\Users\me\AppData\Local\Temp\visioflow toast copy\visioflow-toast-copy-1.txt";
    let uri = toast_copy_protocol_uri(path);
    assert!(uri.contains("%20"));
    let parsed = parse_toast_protocol_activation(&uri).expect("parsed");
    assert_eq!(parsed, path);
}

#[test]
fn toast_copy_protocol_uri_exact_encoding() {
    assert_eq!(
        toast_copy_protocol_uri("C:\\a b\\é.txt"),
        "visioflow:notify-copy?path=C:\\a%20b\\%C3%A9.txt"
    );
    assert_eq!(
        toast_copy_activation_args("/tmp/x y"),
        "visioflow:notify-copy?path=/tmp/x%20y"
    );
}

#[test]
fn parse_toast_protocol_activation_rejects_other_arguments() {
    assert_eq!(parse_toast_protocol_activation("capture"), None);
    assert_eq!(parse_toast_protocol_activation("visioflow:other?path=x"), None);
    assert_eq!(parse_toast_protocol_activation("visioflow:notify-copy?name=x"), None);
    assert_eq!(parse_toast_protocol_activation("visioflow:notify-copy?path=%zz"), None);
    assert_eq!(
        parse_toast_protocol_activation("visioflow:notify-copy?a=1&path=%41b"),
        Some("Ab".to_owned())
    );
}

#[test]
fn toast_activation_decodes_cleanly_flags_split_characters() {
    assert!(toast_activation_decodes_cleanly("visioflow:notify-copy?path=%41b"));
    assert!(!toast_activation_decodes_cleanly("visioflow:notify-copy?path=%4é"));
    assert!(toast_activation_decodes_cleanly("visioflow:notify-copy?path=%41é"));
    assert!(toast_activation_decodes_cleanly("capture"));
}

#[test]
fn try_dispatch_toast_protocol_activation_copies_payload() {
    let path = toast_copy_staging_path("/tmp", 42, 7);
    let uri = toast_copy_protocol_uri(&path);
    let args = vec!["visioflow".to_owned(), uri.clone()];
    let arg = toast_activation_argument(&args).expect("one argument");
    let parsed = parse_toast_protocol_activation(&arg).expect("parse");
    assert_eq!(parsed, path);
    assert!(is_toast_copy_staging_path(&parsed, "/tmp", no_canonical));
}

#[test]
fn toast_activation_argument_needs_exactly_one_argument() {
    assert_eq!(toast_activation_argument(&["visioflow".to_owned()]), None);
    assert_eq!(
        toast_activation_argument(&["a".to_owned(), "b".to_owned(), "c".to_owned()]),
        None
    );
}

#[test]
fn stage_toast_copy_payload_writes_temp_file() {
    let name = toast_copy_staging_file_name(1234, 5);
    assert_eq!(name, "visioflow-toast-copy-1234-5.txt");
    let path = toast_copy_staging_path("/tmp", 1234, 5);
    assert_eq!(path, "/tmp\\visioflow-toast-copy-1234-5.txt");
    assert!(is_toast_copy_staging_path(&path, "/tmp", no_canonical));
    assert!(is_toast_copy_staging_path(&path, "/tmp/", trimmed_canonical));
}

#[test]
fn copy_payload_from_toast_staging_rejects_outside_temp() {
    assert!(!is_toast_copy_staging_path(r"C:\Windows\System32\cmd.exe", r"C:\Temp", no_canonical));
    assert!(!is_toast_copy_staging_path("/tmp/sub/visioflow-toast-copy-1-2.txt", "/tmp", no_canonical));
    assert!(!is_toast_copy_staging_path("/tmp/visioflow-toast-copy-1-2.log", "/tmp", no_canonical));
}

#[test]
fn send_with_backends_uses_first_success() {
    let note = sample_note();
    static CALLS: std::sync::atomic::AtomicU8 = std::sync::atomic::AtomicU8::new(0);
    fn fail(_: &NativeNotification) -> std::result::Result<(), String> {
        CALLS.fetch_add(1, std::sync::atomic::Ordering::SeqCst);
        Err("fail".to_owned())
    }
    fn ok(_: &NativeNotification) -> std::result::Result<(), String> {
        CALLS.fetch_add(1, std::sync::atomic::Ordering::SeqCst);
        Ok(())
    }
    CALLS.store(0, std::sync::atomic::Ordering::SeqCst);
    let backends: [Sender; 2] = [fail, ok];
    send_with_backends(&note, &backends).expect("expected success");
    assert_eq!(CALLS.load(std::sync::atomic::Ordering::SeqCst), 2);
}

#[test]
fn send_with_backends_collects_errors_when_all_fail() {
    let note = sample_note();
    let backends: [Sender; 2] = [|_| Err("a".into()), |_| Err("b".into())];
    let err = send_with_backends(&note, &backends).expect_err("expected failure");
    assert!(err.contains("a"));
    assert!(err.contains("b"));
    assert_eq!(err, "a; b");
}

#[test]
fn send_with_backends_labeled_prefixes_errors() {
    let note = sample_note();
    let backends: [(&'static str, Sender); 2] =
        [("one", |_| Err("x".into())), ("two", |_| Err("y".into()))];
    let err = send_with_backends_labeled(&note, &backends).expect_err("all fail");
    assert_eq!(err, "one: x; two: y");
}

#[test]
fn run_notify_test_uses_labeled_backends() {
    let note = sample_note();
    let ok: Sender = |_: &NativeNotification| Ok(());
    let backends: &[(&'static str, Sender)] = &[("mock", ok)];
    let channel = send_with_backends_labeled(&note, backends).expect("channel");
    assert_eq!(channel, "mock");
}

#[test]
fn run_notify_test_reports_builtin_backend() {
    let note = sample_note();
    assert_eq!(run_notify_test(&note, &noop_backends()), Ok("noop"));
    assert_eq!(run_notify_test_backend(&note, "noop", &noop_backends()), Ok("noop"));
    let plain: [Sender; 1] = [noop_notification_backend];
    assert_eq!(send_native_notification(&note, &plain), Ok(()));
}

#[test]
fn run_notify_test_backend_rejects_unknown_channel() {
    let note = sample_note();
    let err = run_notify_test_backend(&note, "not-a-backend", &noop_backends()).expect_err("expected error");
    assert!(err.contains("unknown toast backend"));
    assert_eq!(
        err,
        "unknown toast backend \"not-a-backend\"; available: noop"
    );
}

#[test]
fn shortcut_target_stale_detects_different_exe() {
    assert!(shortcut_target_stale(
        r"D:\app\target\debug\visioflow.exe",
        r"D:\app\target\release\visioflow.exe",
        None,
        None,
    ));
}

#[test]
fn shortcut_target_stale_matches_same_path() {
    let path = r"D:\app\target\release\visioflow.exe";
    assert!(!shortcut_target_stale(
        r"D:\app\target\release\visioflow.exe",
        path,
        None,
        None,
    ));
}

#[test]
fn shortcut_target_stale_prefers_resolved_forms() {
    assert!(!shortcut_target_stale(
        r"D:\link\visioflow.exe",
        r"D:\app\visioflow.exe",
        Some(r"D:\app\visioflow.exe".to_owned()),
        Some(r"D:\app\visioflow.exe".to_owned()),
    ));
}

#[test]
fn toast_shortcut_path_ends_with_visioflow_lnk() {
    let path = toast_shortcut_path(Ok(r"C:\Users\me\AppData\Roaming".to_owned()))
        .expect("shortcut path");
    assert!(path.ends_with("VisioFlow.lnk"));
    assert_eq!(
        path,
        r"C:\Users\me\AppData\Roaming\Microsoft\Windows\Start Menu\Programs\VisioFlow\VisioFlow.lnk"
    );
}

#[test]
fn toast_shortcut_dir_passes_missing_appdata_error() {
    assert_eq!(
        toast_shortcut_dir(Err("APPDATA is not set".to_owned())),
        Err("APPDATA is not set".to_owned())
    );
}

#[test]
fn truncate_for_toast_keeps_short_text() {
    assert_eq!(truncate_for_toast("hello", 256), "hello");
}

#[test]
fn truncate_for_toast_adds_ellipsis_for_long_text() {
    let long = "a".repeat(300);
    let out = truncate_for_toast(&long, 256);
    assert!(out.ends_with('…'));
    assert_eq!(out.chars().count(), 257);
    assert!(out.starts_with(&"a".repeat(256)));
}

#[test]
fn truncate_for_toast_zero_limit_keeps_only_the_ellipsis() {
    assert_eq!(truncate_for_toast("hello", 0), "…");
    assert_eq!(truncate_for_toast("", 0), "");
}

#[test]
fn toast_copy_action_label_defaults_to_copy() {
    assert_eq!(toast_copy_action_label(false), "Copy");
}

#[test]
fn toast_copy_action_label_uses_copy_again_when_already_copied() {
    assert_eq!(toast_copy_action_label(true), "Copy again");
}

#[test]
fn toast_activator_exe_path_is_sibling_of_main_binary() {
    let main = r"C:\app\target\release\visioflow.exe";
    let activator = toast_activator_exe_path(main);
    assert_eq!(activator, r"C:\app\target\release\visioflow-toast.exe");
    assert_eq!(toast_activator_exe_path("visioflow"), "visioflow-toast.exe");
}

#[test]
fn toast_protocol_registry_command_uses_headless_activator_without_powershell() {
    let cmd = toast_protocol_registry_command(r"C:\app\target\release\visioflow.exe");
    assert!(cmd.contains("visioflow-toast.exe"));
    assert!(cmd.contains("%1"));
    assert!(!cmd.contains("powershell"));
    assert!(!cmd.contains("CreateNoWindow"));
}

#[test]
fn toast_activator_exe_path_keeps_drive_root() {
    assert_eq!(toast_activator_exe_path(r"C:\v.exe"), r"C:\visioflow-toast.exe");
    assert_eq!(toast_activator_exe_path(r"C:v.exe"), r"C:visioflow-toast.exe");
    assert_eq!(toast_activator_exe_path("C:/app/v.exe"), r"C:/app\visioflow-toast.exe");
    assert_eq!(toast_activator_exe_path(""), "visioflow-toast.exe");
    assert_eq!(toast_activator_exe_path("/"), "visioflow-toast.exe");
    assert_eq!(toast_activator_exe_path(r"C:\"), "visioflow-toast.exe");
}

#[test]
fn toast_activator_exe_path_handles_unc_and_verbatim_prefixes() {
    assert_eq!(
        toast_activator_exe_path(r"\\srv\share\v.exe"),
        r"\\srv\share\visioflow-toast.exe"
    );
    assert_eq!(
        toast_activator_exe_path(r"\\?\C:\app\v.exe"),
        r"\\?\C:\app\visioflow-toast.exe"
    );
    assert_eq!(
        toast_activator_exe_path(r"\\?\C:\a\\b\v.exe"),
        r"\\?\C:\a\b\visioflow-toast.exe"
    );
    assert_eq!(toast_activator_exe_path(r"\\srv\share"), "visioflow-toast.exe");
}

#[test]
fn shortcut_target_stale_compares_components() {
    assert!(!shortcut_target_stale(r"C:\App\v.exe", r"c:\App\v.exe", None, None));
    assert!(!shortcut_target_stale("C:/a/b", r"C:\a\b", None, None));
    assert!(!shortcut_target_stale(r"C:\a\.\b\", r"C:\a\b", None, None));
    assert!(!shortcut_target_stale("a/./b", "a/b", None, None));
    assert!(shortcut_target_stale("./a", "a", None, None));
    assert!(shortcut_target_stale(r"C:\App\v.exe", r"C:\app\v.exe", None, None));
    assert!(shortcut_target_stale(r"\\?\C:\a\.\b", r"\\?\C:\a\b", None, None));
    assert!(shortcut_target_stale(r"C:a", r"C:\a", None, None));
    assert!(!shortcut_target_stale(r"\\srv\share\x", r"//srv/share/x", None, None));
}

#[test]
fn escape_xml_is_character_by_character() {
    let a = "a<b";
    let b = "&'c\"";
    assert_eq!(escape_xml(&format!("{a}{b}")), format!("{}{}", escape_xml(a), escape_xml(b)));
}

#[test]
fn escape_xml_leaves_plain_text_unchanged() {
    assert_eq!(escape_xml("plain text 123 é"), "plain text 123 é");
    assert_eq!(escape_xml(""), "");
}

#[test]
fn escape_xml_output_has_no_markup() {
    let out = escape_xml(r#"<a href="x" title='y'>&</a>"#);
    assert!(!out.contains('<'));
    assert!(!out.contains('>'));
    assert!(!out.contains('"'));
    assert!(!out.contains('\''));
    assert_eq!(
        out,
        "&lt;a href=&quot;x&quot; title=&apos;y&apos;&gt;&amp;&lt;/a&gt;"
    );
}

#[test]
fn escape_xml_keeps_escaped_and_raw_text_apart() {
    assert_eq!(escape_xml("&amp;"), "&amp;amp;");
    assert_ne!(escape_xml("&amp;"), escape_xml("&"));
}

fn backend_ok(_: &NativeNotification) -> Result<(), String> {
    Ok(())
}

fn backend_down(_: &NativeNotification) -> Result<(), String> {
    Err("down".to_owned())
}

#[test]
fn run_notify_test_backend_runs_the_named_backend() {
    let note = sample_note();
    let backends: [(&'static str, Sender); 2] = [("first", backend_down), ("second", backend_ok)];
    assert_eq!(run_notify_test_backend(&note, "second", &backends), Ok("second"));
    assert_eq!(run_notify_test_backend(&note, "first", &backends), Err("down".to_owned()));
    assert_eq!(
        run_notify_test_backend(&note, "third", &backends),
        Err(r#"unknown toast backend "third"; available: first, second"#.to_owned())
    );
    let twins: [(&'static str, Sender); 2] = [("same", backend_down), ("same", backend_ok)];
    assert_eq!(run_notify_test_backend(&note, "same", &twins), Err("down".to_owned()));
    let none: [(&'static str, Sender); 0] = [];
    assert_eq!(
        run_notify_test_backend(&note, "x", &none),
        Err(r#"unknown toast backend "x"; available: "#.to_owned())
    );
}

#[test]
fn escape_xml_ampersands_start_entities() {
    let out = escape_xml("a&b<c>'\"&amp;");
    let entities = ["&amp;", "&lt;", "&gt;", "&quot;", "&apos;"];
    for (i, ch) in out.char_indices() {
        if ch == '&' {
            assert!(entities.iter().any(|e| out[i..].starts_with(e)));
        }
    }
    assert_eq!(out, "a&amp;b&lt;c&gt;&apos;&quot;&amp;amp;");
}

#[test]
fn run_notify_test_backend_names_windows_channels() {
    let note = sample_note();
    fn down(_: &NativeNotification) -> Result<(), String> {
        Err("no toast service".to_owned())
    }
    let windows: [(&'static str, Sender); 3] =
        [("winrt", backend_ok), ("powershell", down), ("burnttoast", backend_ok)];
    assert_eq!(run_notify_test_backend(&note, "winrt", &windows), Ok("winrt"));
    assert_eq!(
        run_notify_test_backend(&note, "powershell", &windows),
        Err("no toast service".to_owned())
    );
    assert_eq!(
        run_notify_test_backend(&note, "noop", &windows),
        Err(r#"unknown toast backend "noop"; available: winrt, powershell, burnttoast"#.to_owned())
    );
    assert_eq!(run_notify_test(&note, &windows), Ok("winrt"));
    let failing: [(&'static str, Sender); 2] = [("winrt", down), ("powershell", down)];
    assert_eq!(
        run_notify_test(&note, &failing),
        Err("winrt: no toast service; powershell: no toast service".to_owned())
    );
    let plain: [Sender; 2] = [down, down];
    assert_eq!(
        send_native_notification(&note, &plain),
        Err("no toast service; no toast service".to_owned())
    );
}

#[test]
fn is_toast_copy_staging_path_ignores_ascii_case_of_temp_dir() {
    let path = r"C:\Users\Me\AppData\Local\Temp\visioflow-toast-copy-1-2.txt";
    assert!(is_toast_copy_staging_path(path, r"c:\users\me\appdata\local\temp", no_canonical));
    assert!(!is_toast_copy_staging_path(path, r"C:\Users\Me\AppData\Local\Temp\", no_canonical));
    assert!(is_toast_copy_staging_path(path, r"C:\Users\Me\AppData\Local\Temp\", trimmed_canonical));
    let elsewhere = |_: &str| Some(r"D:\Other".to_owned());
    assert!(is_toast_copy_staging_path(path, r"D:\other", |p: &str| {
        if p.ends_with("Temp") { elsewhere(p) } else { Some(p.to_owned()) }
    }));
}

#[test]
fn same_temp_directory_compares_canonical_forms() {
    assert!(same_temp_directory(r"C:\Temp", r"c:\TEMP", None, None));
    assert!(!same_temp_directory(r"C:\Temp", r"C:\Temp\", None, None));
    assert!(same_temp_directory(
        r"C:\Temp",
        r"C:\Temp\",
        Some(r"\\?\C:\Temp".to_owned()),
        Some(r"\\?\c:\temp".to_owned())
    ));
    assert!(!same_temp_directory(r"C:\Temp", r"C:\Temp", Some("x".to_owned()), None));
    assert!(!same_temp_directory("é", "É", None, None));
}
