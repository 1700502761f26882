use visioflow_cli::toast_scripts::{
    app_id_registry_value, escape_powershell_single_quoted, powershell_burnt_toast_script,
    powershell_failure_message, powershell_winrt_script, protocol_handler_registry_values,
    reg_add_args, reg_failure_message,
};

#[test]
fn escape_powershell_single_quoted_doubles_quotes() {
    assert_eq!(escape_powershell_single_quoted("it's 'ok'"), "it''s ''ok''");
    assert_eq!(escape_powershell_single_quoted("plain"), "plain");
}

#[test]
fn winrt_script_embeds_escaped_xml_and_app_id() {
    let script = powershell_winrt_script("<toast a='1'/>");
    assert!(script.starts_with("\n$ErrorActionPreference = 'Stop'\n$appId = 'VisioFlow.VisioFlowQR'\n"));
    assert!(script.contains("$xml = '<toast a=''1''/>'\n"));
    assert!(script.contains("public static class ToastAppId {\n"));
    assert!(script.ends_with("CreateToastNotifier($appId).Show($toast)\n"));
}

#[test]
fn burnt_toast_script_with_and_without_copy_button() {
    assert_eq!(
        powershell_burnt_toast_script("T'", "B", None, false),
        "\n$ErrorActionPreference = 'Stop'\nImport-Module BurntToast -ErrorAction Stop\nNew-BurntToastNotification -AppId 'VisioFlow.VisioFlowQR' -Text 'T''', 'B' -Urgent\n"
    );
    let script = powershell_burnt_toast_script("T", "B", Some("visioflow:notify-copy?path=x"), true);
    assert!(script.contains(
        "\n$copyBtn = New-BTButton -Content 'Copy again' -Arguments 'visioflow:notify-copy?path=x'\n"
    ));
    assert!(script.ends_with(" -Urgent -Button $copyBtn\n"));
}

#[test]
fn reg_add_arguments_for_named_and_default_values() {
    assert_eq!(
        reg_add_args(r"Software\Classes\visioflow", Some("URL Protocol"), ""),
        vec![
            "add",
            r"HKEY_CURRENT_USER\Software\Classes\visioflow",
            "/f",
            "/v",
            "URL Protocol",
            "/t",
            "REG_SZ",
            "/d",
            "",
        ]
    );
    assert_eq!(
        reg_add_args("K", None, "D"),
        vec!["add", r"HKEY_CURRENT_USER\K", "/f", "/ve", "/t", "REG_SZ", "/d", "D"]
    );
}

#[test]
fn protocol_handler_registry_values_point_at_activator() {
    let values = protocol_handler_registry_values(r"C:\app\visioflow.exe");
    assert_eq!(values.len(), 3);
    assert_eq!(values[0].subkey, r"Software\Classes\visioflow");
    assert_eq!(values[0].data, "URL:visioflow Protocol");
    assert_eq!(values[1].name.as_deref(), Some("URL Protocol"));
    assert_eq!(values[2].subkey, r"Software\Classes\visioflow\shell\open\command");
    assert_eq!(values[2].data, r#""C:\app\visioflow-toast.exe" "%1""#);
    let aumid = app_id_registry_value();
    assert_eq!(aumid.subkey, r"Software\Classes\AppUserModelId\VisioFlow.VisioFlowQR");
    assert_eq!(aumid.name.as_deref(), Some("DisplayName"));
    assert_eq!(aumid.data, "VisioFlow");
}

#[test]
fn failure_messages_trim_tool_output() {
    assert_eq!(
        powershell_failure_message("exit code: 1", "  boom \n", "  "),
        "powershell exited exit code: 1: boom"
    );
    assert_eq!(
        powershell_failure_message("exit code: 1", "", " out\n"),
        "powershell exited exit code: 1:  (out)"
    );
    assert_eq!(
        reg_failure_message("K", "exit code: 5", "denied\r\n"),
        "reg add K failed (exit code: 5): denied"
    );
}
