//! Text handed to Windows tools by the script-based toast backends: the
//! PowerShell scripts, the `reg add` arguments registering the `visioflow:`
//! protocol, and the failure messages built from the tools' output.

use vstd::prelude::*;

use crate::notifications::{
    copy_action_label, protocol_registry_command, toast_copy_action_label,
    toast_protocol_registry_command, TOAST_APP_ID, TOAST_PROTOCOL_SCHEME,
};
use crate::numbers::{trim_text, trimmed};
use crate::text::push_char;

verus! {

/// Spec: `raw` inside a PowerShell single-quoted string: each `'` doubled.
pub open spec fn ps_single_quoted(raw: Seq<char>) -> Seq<char>
    decreases raw.len(),
{
    if raw.len() == 0 {
        Seq::empty()
    } else {
        ps_single_quoted(raw.drop_last()) + if raw.last() == '\'' {
            seq!['\'', '\'']
        } else {
            seq![raw.last()]
        }
    }
}

/// Escape `raw` for a PowerShell single-quoted string by doubling each `'`.
pub fn escape_powershell_single_quoted(raw: &str) -> (escaped: String)
    ensures
        escaped@ == ps_single_quoted(raw@),
{
    let cs = crate::text::chars_of(raw);
    let mut out = String::new();
    let mut i: usize = 0;
    while i < cs.len()
        invariant
            i <= cs@.len(),
            cs@ == raw@,
            out@ == ps_single_quoted(raw@.take(i as int)),
        decreases cs.len() - i,
    {
        proof {
            assert(raw@.take(i + 1).drop_last() =~= raw@.take(i as int));
        }
        if cs[i] == '\'' {
            push_char(&mut out, '\'');
            push_char(&mut out, '\'');
        } else {
            push_char(&mut out, cs[i]);
        }
        proof {
            assert(out@ =~= ps_single_quoted(raw@.take(i + 1)));
        }
        i += 1;
    }
    proof {
        assert(raw@.take(raw@.len() as int) =~= raw@);
    }
    out
}

/// Opening of the WinRT toast script, up to the application id.
pub const WINRT_SCRIPT_HEAD: &'static str = "\n$ErrorActionPreference = 'Stop'\n$appId = '";

/// Middle of the WinRT toast script: registers the application id and loads
/// the WinRT types, up to the toast XML.
pub const WINRT_SCRIPT_MIDDLE: &'static str = "'\nAdd-Type @'\nusing System;\nusing System.Runtime.InteropServices;\npublic static class ToastAppId {\n  [DllImport(\"shell32.dll\", CharSet = CharSet.Unicode, SetLastError = true)]\n  public static extern int SetCurrentProcessExplicitAppUserModelID(string AppId);\n}\n'@\n[void][ToastAppId]::SetCurrentProcessExplicitAppUserModelID($appId)\n[Windows.UI.Notifications.ToastNotificationManager, Windows.UI.Notifications, ContentType = WindowsRuntime] | Out-Null\n[Windows.Data.Xml.Dom.XmlDocument, Windows.Data.Xml.Dom.XmlDocument, ContentType = WindowsRuntime] | Out-Null\n$xml = '";

/// End of the WinRT toast script: loads the XML and shows the toast.
pub const WINRT_SCRIPT_TAIL: &'static str = "'\n$doc = New-Object Windows.Data.Xml.Dom.XmlDocument\n$doc.LoadXml($xml)\n$toast = [Windows.UI.Notifications.ToastNotification]::new($doc)\n[Windows.UI.Notifications.ToastNotificationManager]::CreateToastNotifier($appId).Show($toast)\n";

/// Spec: the PowerShell script showing toast `xml` through WinRT.
pub open spec fn winrt_script(xml: Seq<char>) -> Seq<char> {
    WINRT_SCRIPT_HEAD@ + TOAST_APP_ID@ + WINRT_SCRIPT_MIDDLE@ + ps_single_quoted(xml)
        + WINRT_SCRIPT_TAIL@
}

/// The PowerShell script that shows the toast document `xml` through WinRT.
pub fn powershell_winrt_script(xml: &str) -> (script: String)
    ensures
        script@ == winrt_script(xml@),
{
    let mut script = WINRT_SCRIPT_HEAD.to_owned();
    script.append(TOAST_APP_ID);
    script.append(WINRT_SCRIPT_MIDDLE);
    let escaped = escape_powershell_single_quoted(xml);
    script.append(escaped.as_str());
    script.append(WINRT_SCRIPT_TAIL);
    script
}

/// Opening of the BurntToast script.
pub const BURNT_TOAST_HEAD: &'static str = "\n$ErrorActionPreference = 'Stop'\nImport-Module BurntToast -ErrorAction Stop\n";

/// Spec: the BurntToast script for a toast with `title` and `body`, and a
/// Copy button activating `copy_uri` when there is one.
pub open spec fn burnt_toast_script(
    title: Seq<char>,
    body: Seq<char>,
    copy_uri: Option<Seq<char>>,
    already_copied: bool,
) -> Seq<char> {
    let action_block = match copy_uri {
        Some(uri) => "\n$copyBtn = New-BTButton -Content '"@ + copy_action_label(already_copied)
            + "' -Arguments '"@ + ps_single_quoted(uri) + "'\n"@,
        None => Seq::empty(),
    };
    let action_param = match copy_uri {
        Some(_) => " -Button $copyBtn"@,
        None => Seq::empty(),
    };
    BURNT_TOAST_HEAD@ + action_block + "New-BurntToastNotification -AppId '"@ + TOAST_APP_ID@
        + "' -Text '"@ + ps_single_quoted(title) + "', '"@ + ps_single_quoted(body)
        + "' -Urgent"@ + action_param + "\n"@
}

/// The BurntToast PowerShell script for a toast; `copy_uri` is the protocol
/// URI of the staged copy payload, when the toast has a Copy button.
pub fn powershell_burnt_toast_script(
    title: &str,
    body: &str,
    copy_uri: Option<&str>,
    already_copied: bool,
) -> (script: String)
    ensures
        script@ == burnt_toast_script(
            title@,
            body@,
            match copy_uri {
                Some(u) => Some(u@),
                None => None,
            },
            already_copied,
        ),
{
    let mut script = BURNT_TOAST_HEAD.to_owned();
    match copy_uri {
        Some(uri) => {
            script.append("\n$copyBtn = New-BTButton -Content '");
            script.append(toast_copy_action_label(already_copied));
            script.append("' -Arguments '");
            let args = escape_powershell_single_quoted(uri);
            script.append(args.as_str());
            script.append("'\n");
        },
        None => {},
    }
    script.append("New-BurntToastNotification -AppId '");
    script.append(TOAST_APP_ID);
    script.append("' -Text '");
    let t = escape_powershell_single_quoted(title);
    script.append(t.as_str());
    script.append("', '");
    let b = escape_powershell_single_quoted(body);
    script.append(b.as_str());
    script.append("' -Urgent");
    match copy_uri {
        Some(_) => {
            script.append(" -Button $copyBtn");
        },
        None => {},
    }
    script.append("\n");
    script
}

/// Spec: the error for a failed PowerShell run, from its exit status text
/// and output; standard output is added in brackets when not blank.
pub open spec fn powershell_failure_text(
    status: Seq<char>,
    stderr: Seq<char>,
    stdout: Seq<char>,
) -> Seq<char> {
    "powershell exited "@ + status + ": "@ + trimmed(stderr) + if trimmed(stdout).len() == 0 {
        Seq::empty()
    } else {
        " ("@ + trimmed(stdout) + ")"@
    }
}

/// The error for a failed PowerShell run.
pub fn powershell_failure_message(status: &str, stderr: &str, stdout: &str) -> (m: String)
    ensures
        m@ == powershell_failure_text(status@, stderr@, stdout@),
{
    let mut m = "powershell exited ".to_owned();
    m.append(status);
    m.append(": ");
    let err = trim_text(stderr);
    m.append(err.as_str());
    let out = trim_text(stdout);
    if out.unicode_len() > 0 {
        m.append(" (");
        m.append(out.as_str());
        m.append(")");
    }
    m
}

/// Registry hive the registrations are written to.
pub const REGISTRY_HIVE: &'static str = "HKEY_CURRENT_USER";

/// Spec: the arguments of `reg` writing string `data` to value `name` (the
/// default value when `None`) of `subkey` under the current user's hive.
pub open spec fn reg_add_arguments(
    subkey: Seq<char>,
    name: Option<Seq<char>>,
    data: Seq<char>,
) -> Seq<Seq<char>> {
    let key = REGISTRY_HIVE@ + seq!['\\'] + subkey;
    match name {
        Some(n) => seq!["add"@, key, "/f"@, "/v"@, n, "/t"@, "REG_SZ"@, "/d"@, data],
        None => seq!["add"@, key, "/f"@, "/ve"@, "/t"@, "REG_SZ"@, "/d"@, data],
    }
}

fn push_owned(v: &mut Vec<String>, s: &str)
    ensures
        final(v)@.len() == old(v)@.len() + 1,
        forall|i: int| 0 <= i < old(v)@.len() ==> final(v)@[i] == old(v)@[i],
        final(v)@[old(v)@.len() as int]@ == s@,
{
    v.push(s.to_owned());
}

/// Arguments of `reg` writing string `data` to value `name` (the default
/// value when `None`) of `subkey` under the current user's hive.
pub fn reg_add_args(subkey: &str, name: Option<&str>, data: &str) -> (args: Vec<String>)
    ensures
        args@.len() == reg_add_arguments(
            subkey@,
            match name {
                Some(n) => Some(n@),
                None => None,
            },
            data@,
        ).len(),
        forall|i: int|
            0 <= i < args@.len() ==> #[trigger] args@[i]@ == reg_add_arguments(
                subkey@,
                match name {
                    Some(n) => Some(n@),
                    None => None,
                },
                data@,
            )[i],
{
    let mut key = REGISTRY_HIVE.to_owned();
    push_char(&mut key, '\\');
    key.append(subkey);
    let mut args: Vec<String> = Vec::new();
    push_owned(&mut args, "add");
    push_owned(&mut args, key.as_str());
    push_owned(&mut args, "/f");
    match name {
        Some(n) => {
            push_owned(&mut args, "/v");
            push_owned(&mut args, n);
        },
        None => {
            push_owned(&mut args, "/ve");
        },
    }
    push_owned(&mut args, "/t");
    push_owned(&mut args, "REG_SZ");
    push_owned(&mut args, "/d");
    push_owned(&mut args, data);
    args
}

/// One string value written to the registry.
#[derive(Debug, Clone, PartialEq, Eq)]
pub struct RegistryValue {
    pub subkey: String,
    pub name: Option<String>,
    pub data: String,
}

/// Spec: the registry key of the `visioflow:` URL scheme.
pub open spec fn scheme_class_key() -> Seq<char> {
    "Software\\Classes\\"@ + TOAST_PROTOCOL_SCHEME@
}

/// The registry values that make `visioflow:` URLs launch the toast activator
/// next to `exe_path`: the URL class, its marker value and its open command.
pub fn protocol_handler_registry_values(exe_path: &str) -> (values: Vec<RegistryValue>)
    ensures
        values@.len() == 3,
        values@[0].subkey@ == scheme_class_key(),
        values@[0].name is None,
        values@[0].data@ == "URL:"@ + TOAST_PROTOCOL_SCHEME@ + " Protocol"@,
        values@[1].subkey@ == scheme_class_key(),
        values@[1].name matches Some(n) && n@ == "URL Protocol"@,
        values@[1].data@.len() == 0,
        values@[2].subkey@ == scheme_class_key() + "\\shell\\open\\command"@,
        values@[2].name is None,
        values@[2].data@ == protocol_registry_command(exe_path@),
{
    let mut classes = "Software\\Classes\\".to_owned();
    classes.append(TOAST_PROTOCOL_SCHEME);
    let mut command_key = classes.clone();
    command_key.append("\\shell\\open\\command");
    let mut label = "URL:".to_owned();
    label.append(TOAST_PROTOCOL_SCHEME);
    label.append(" Protocol");
    let mut values: Vec<RegistryValue> = Vec::new();
    values.push(RegistryValue { subkey: classes.clone(), name: None, data: label });
    values.push(
        RegistryValue {
            subkey: classes,
            name: Some("URL Protocol".to_owned()),
            data: String::new(),
        },
    );
    values.push(
        RegistryValue {
            subkey: command_key,
            name: None,
            data: toast_protocol_registry_command(exe_path),
        },
    );
    values
}

/// The registry value naming the toast application id's display name.
pub fn app_id_registry_value() -> (value: RegistryValue)
    ensures
        value.subkey@ == "Software\\Classes\\AppUserModelId\\"@ + TOAST_APP_ID@,
        value.name matches Some(n) && n@ == "DisplayName"@,
        value.data@ == "VisioFlow"@,
{
    let mut key = "Software\\Classes\\AppUserModelId\\".to_owned();
    key.append(TOAST_APP_ID);
    RegistryValue { subkey: key, name: Some("DisplayName".to_owned()), data: "VisioFlow".to_owned() }
}

/// Spec: the error for a failed `reg add` on `subkey`.
pub open spec fn reg_failure_text(subkey: Seq<char>, status: Seq<char>, stderr: Seq<char>) -> Seq<
    char,
> {
    "reg add "@ + subkey + " failed ("@ + status + "): "@ + trimmed(stderr)
}

/// The error for a failed `reg add` on `subkey`.
pub fn reg_failure_message(subkey: &str, status: &str, stderr: &str) -> (m: String)
    ensures
        m@ == reg_failure_text(subkey@, status@, stderr@),
{
    let mut m = "reg add ".to_owned();
    m.append(subkey);
    m.append(" failed (");
    m.append(status);
    m.append("): ");
    let err = trim_text(stderr);
    m.append(err.as_str());
    m
}

} // verus!
