//! Capture options, routing decisions and routing notifications.

use vstd::prelude::*;

use crate::notifications::{
    truncate_for_toast, truncated_for_toast, NativeNotification, TOAST_BODY_MAX_CHARS,
};
use crate::numbers::{parse_unsigned, parse_unsigned_decimal, trim_text, trimmed};
use crate::text::{debug_quoted, debug_str, push_decimal, decimal};
use crate::webcam_session::DEFAULT_WEBCAM_TIMEOUT_SECS;

verus! {

/// Where a capture reads its frame from.
#[derive(Debug, Clone, Copy, PartialEq, Eq, Structural)]
pub enum CaptureSource {
    Snip,
    Webcam,
}

/// Binarisation filter applied before decoding.
#[derive(Debug, Clone, Copy, PartialEq, Eq, Structural)]
pub enum CaptureFilter {
    Otsu,
    Median,
}

impl Default for CaptureFilter {
    fn default() -> (r: Self)
        ensures
            r == CaptureFilter::Otsu,
    {
        CaptureFilter::Otsu
    }
}

/// What to do with decoded payloads when no routing applies.
#[derive(Debug, Clone, Copy, PartialEq, Eq, Structural)]
pub enum CaptureAction {
    Stdout,
    Copy,
}

/// Where the live preview window is anchored on the work area.
#[derive(Debug, Clone, Copy, PartialEq, Eq, Structural)]
pub enum PreviewPosition {
    TopLeft,
    TopCenter,
    TopRight,
    CenterLeft,
    Center,
    CenterRight,
    BottomLeft,
    BottomCenter,
    BottomRight,
}

impl Default for PreviewPosition {
    fn default() -> (r: Self)
        ensures
            r == PreviewPosition::BottomCenter,
    {
        PreviewPosition::BottomCenter
    }
}

/// Webcam exposure bracketing policy.
#[derive(Debug, Clone, Copy, PartialEq, Eq, Structural)]
pub enum ExposureBracketMode {
    /// Probe at startup and disable bracketing if override plunges the preview dark.
    Auto,
    /// Always run sparse exposure bracket cycling.
    On,
    /// Keep auto exposure only; never override.
    Off,
}

impl Default for ExposureBracketMode {
    fn default() -> (r: Self)
        ensures
            r == ExposureBracketMode::Auto,
    {
        ExposureBracketMode::Auto
    }
}

/// What routing does when the chosen rule does not match.
#[derive(Debug, Clone, Copy, PartialEq, Eq, Structural)]
pub enum OnMismatch {
    Copy,
    NoAction,
}

impl Default for OnMismatch {
    fn default() -> (r: Self)
        ensures
            r == OnMismatch::Copy,
    {
        OnMismatch::Copy
    }
}

/// How a WiFi payload is handed to the system.
#[derive(Debug, Clone, Copy, PartialEq, Eq, Structural)]
pub enum WifiHandoffMode {
    OpenSettings,
    Print,
}

impl Default for WifiHandoffMode {
    fn default() -> (r: Self)
        ensures
            r == WifiHandoffMode::OpenSettings,
    {
        WifiHandoffMode::OpenSettings
    }
}

/// When routing shows a toast.
#[derive(Debug, Clone, Copy, PartialEq, Eq, Structural)]
pub enum CaptureNotify {
    Off,
    On,
    ErrorsOnly,
}

impl Default for CaptureNotify {
    fn default() -> (r: Self)
        ensures
            r == CaptureNotify::ErrorsOnly,
    {
        CaptureNotify::ErrorsOnly
    }
}


/// What routing did with a payload, as reported to the user.
#[derive(Debug, Clone, PartialEq, Eq)]
pub enum RoutingEvent {
    Matched { rule: String, auto_route: bool },
    Mismatch { rule: String },
    NoAutoMatch,
    BuiltinCopy,
    BuiltinPlain,
}

/// Spec: the event reports that no rule handled the payload.
pub open spec fn is_miss_event(event: RoutingEvent) -> bool {
    event is Mismatch || event is NoAutoMatch
}

/// Spec: a toast is shown for `event` under `mode`.
pub open spec fn notifies(mode: CaptureNotify, event: RoutingEvent) -> bool {
    match mode {
        CaptureNotify::Off => false,
        CaptureNotify::On => true,
        CaptureNotify::ErrorsOnly => is_miss_event(event),
    }
}

/// Whether routing shows a toast for `event`: never when off, always when
/// on, and only for misses in errors-only mode.
pub fn should_notify_for_event(mode: CaptureNotify, event: &RoutingEvent) -> (r: bool)
    ensures
        r == notifies(mode, *event),
{
    match mode {
        CaptureNotify::Off => false,
        CaptureNotify::On => true,
        CaptureNotify::ErrorsOnly => match event {
            RoutingEvent::Mismatch { .. } | RoutingEvent::NoAutoMatch => true,
            _ => false,
        },
    }
}

/// Title of every routing toast.
pub const ROUTING_TOAST_TITLE: &'static str = "VisioFlow";

/// Title of the toast for `event` (the same for every event).
pub fn notification_title_for_event(event: &RoutingEvent) -> (title: String)
    ensures
        title@ == ROUTING_TOAST_TITLE@,
{
    ROUTING_TOAST_TITLE.to_owned()
}

/// Spec: headline for a matched rule (auto-routed or run by name).
pub open spec fn matched_header(rule: Seq<char>, auto_route: bool) -> Seq<char> {
    if auto_route {
        "Matched rule \""@ + rule + "\""@
    } else {
        "Running rule \""@ + rule + "\""@
    }
}

/// Spec: the first line of a routing toast.
pub open spec fn routing_header(event: RoutingEvent) -> Seq<char> {
    match event {
        RoutingEvent::Matched { rule, auto_route } => matched_header(rule@, auto_route),
        RoutingEvent::Mismatch { rule } => "Rule \""@ + rule@ + "\" did not match"@,
        RoutingEvent::NoAutoMatch => "No rule matched"@,
        RoutingEvent::BuiltinCopy => "Copied to clipboard"@,
        RoutingEvent::BuiltinPlain => "Plain text mode"@,
    }
}

/// Headline of the toast for `event`.
pub fn routing_notification_header(event: &RoutingEvent) -> (header: String)
    ensures
        header@ == routing_header(*event),
{
    match event {
        RoutingEvent::Matched { rule, auto_route } => {
            let mut s = if *auto_route {
                "Matched rule \"".to_owned()
            } else {
                "Running rule \"".to_owned()
            };
            s.append(rule.as_str());
            s.append("\"");
            s
        },
        RoutingEvent::Mismatch { rule } => {
            let mut s = "Rule \"".to_owned();
            s.append(rule.as_str());
            s.append("\" did not match");
            s
        },
        RoutingEvent::NoAutoMatch => "No rule matched".to_owned(),
        RoutingEvent::BuiltinCopy => "Copied to clipboard".to_owned(),
        RoutingEvent::BuiltinPlain => "Plain text mode".to_owned(),
    }
}

/// Spec: the body of a routing toast: the headline, then the payload cut to
/// the toast limit.
pub open spec fn routing_body(event: RoutingEvent, payload: Seq<char>) -> Seq<char> {
    body_under_header(routing_header(event), payload)
}

/// Spec: a toast body: `header`, a blank line, then the payload cut to the
/// toast limit.
pub open spec fn body_under_header(header: Seq<char>, payload: Seq<char>) -> Seq<char> {
    header + "\n\nRaw text:\n"@ + truncated_for_toast(payload, TOAST_BODY_MAX_CHARS as nat)
}

/// Body of the toast for `event` about `payload`.
pub fn routing_notification_body(event: &RoutingEvent, payload: &str) -> (body: String)
    ensures
        body@ == routing_body(*event, payload@),
{
    let mut body = routing_notification_header(event);
    let raw = truncate_for_toast(payload, TOAST_BODY_MAX_CHARS);
    body.append("\n\nRaw text:\n");
    body.append(raw.as_str());
    body
}

/// Spec: `note` is the toast announcing `event` for `payload`.
pub open spec fn is_routing_note(
    note: NativeNotification,
    event: RoutingEvent,
    payload: Seq<char>,
    already_copied: bool,
) -> bool {
    &&& note.title@ == ROUTING_TOAST_TITLE@
    &&& note.body@ == routing_body(event, payload)
    &&& note.copy_payload matches Some(p) && p@ == payload
    &&& note.already_copied == already_copied
}

/// Spec: the delivery error a sender's outcome reports.
pub open spec fn delivery_error(out: Result<(), String>) -> Option<String> {
    match out {
        Ok(_) => None,
        Err(e) => Some(e),
    }
}

/// The toast announcing `event`; its Copy button copies the whole payload.
pub fn build_routing_notification(
    event: &RoutingEvent,
    payload: &str,
    already_copied: bool,
) -> (note: NativeNotification)
    ensures
        note.title@ == ROUTING_TOAST_TITLE@,
        note.body@ == routing_body(*event, payload@),
        note.copy_payload matches Some(p) && p@ == payload@,
        note.already_copied == already_copied,
{
    NativeNotification {
        title: notification_title_for_event(event),
        body: routing_notification_body(event, payload),
        copy_payload: Some(payload.to_owned()),
        already_copied,
    }
}

/// Errors from the rule engine, as routing reports them.
#[derive(Debug, Clone, PartialEq, Eq)]
pub enum RuleError {
    NotFound(String),
    NoMatch,
    StoreIo(String),
    StoreParse(String),
    WifiConnectFailed(String),
    ExecFailed(String),
}

/// Spec: title of the toast reporting a failed WiFi connection.
pub open spec fn wifi_error_title(rule_name: Seq<char>) -> Seq<char> {
    "VisioFlow WiFi ("@ + rule_name + ")"@
}

/// A toast for a failed WiFi connection by rule `rule_name`; other errors get none.
pub fn wifi_error_notification(err: &RuleError, rule_name: &str, payload: &str) -> (r: Option<
    NativeNotification,
>)
    ensures
        match *err {
            RuleError::WifiConnectFailed(detail) => r matches Some(note) && {
                &&& note.title@ == wifi_error_title(rule_name@)
                &&& note.body@ == body_under_header(matched_header(rule_name@, false), payload@)
                    + " — "@ + detail@
                &&& note.copy_payload matches Some(p) && p@ == payload@
                &&& !note.already_copied
            },
            _ => r is None,
        },
{
    match err {
        RuleError::WifiConnectFailed(detail) => {
            let mut title = "VisioFlow WiFi (".to_owned();
            title.append(rule_name);
            title.append(")");
            let event = RoutingEvent::Matched { rule: rule_name.to_owned(), auto_route: false };
            let mut body = routing_notification_body(&event, payload);
            body.append(" — ");
            body.append(detail.as_str());
            Some(
                NativeNotification {
                    title,
                    body,
                    copy_payload: Some(payload.to_owned()),
                    already_copied: false,
                },
            )
        },
        _ => None,
    }
}

/// Toasts follow the notify mode: off never notifies, on always does, and
/// errors-only notifies exactly for misses.
pub proof fn law_notify_modes(event: RoutingEvent)
    ensures
        !notifies(CaptureNotify::Off, event),
        notifies(CaptureNotify::On, event),
        notifies(CaptureNotify::ErrorsOnly, event) == (event is Mismatch || event is NoAutoMatch),
{
}


/// Scan time for a webcam capture: `0` asks for the default.
pub fn timeout_secs_or_default(timeout_secs: u64) -> (r: u64)
    ensures
        r == if timeout_secs == 0 {
            DEFAULT_WEBCAM_TIMEOUT_SECS
        } else {
            timeout_secs
        },
{
    if timeout_secs == 0 {
        DEFAULT_WEBCAM_TIMEOUT_SECS
    } else {
        timeout_secs
    }
}

/// Rule names an automatic route skips, and the only ones it may use.
/// Each list holds every name at most once.
#[derive(Debug, Clone, PartialEq, Eq)]
pub struct AutoRouteOptions {
    pub except: Vec<String>,
    pub only: Option<Vec<String>>,
}

/// How a captured payload is routed.
#[derive(Debug, Clone, PartialEq, Eq)]
pub enum RouteMode {
    Auto(AutoRouteOptions),
    BuiltinCopy,
    BuiltinPlain,
    Explicit(String),
}

/// Spec: the names held by `v`.
pub open spec fn name_set(v: Seq<String>) -> Set<Seq<char>> {
    Set::new(|n: Seq<char>| exists|i: int| 0 <= i < v.len() && #[trigger] v[i]@ == n)
}

/// Spec: no name occurs twice in `v`.
pub open spec fn distinct_names(v: Seq<String>) -> bool {
    forall|i: int, j: int| 0 <= i < j < v.len() ==> #[trigger] v[i]@ != #[trigger] v[j]@
}

fn contains_name(v: &Vec<String>, name: &String) -> (r: bool)
    ensures
        r == exists|i: int| 0 <= i < v@.len() && #[trigger] v@[i]@ == name@,
{
    let mut i: usize = 0;
    while i < v.len()
        invariant
            i <= v@.len(),
            forall|j: int| 0 <= j < i ==> #[trigger] v@[j]@ != name@,
        decreases v.len() - i,
    {
        if v[i] == *name {
            return true;
        }
        i += 1;
    }
    false
}

/// The distinct names of `names`, each once, in order of first occurrence.
pub fn distinct_name_list(names: &[String]) -> (r: Vec<String>)
    ensures
        name_set(r@) == name_set(names@),
        distinct_names(r@),
{
    let mut out: Vec<String> = Vec::new();
    let mut i: usize = 0;
    while i < names.len()
        invariant
            i <= names@.len(),
            name_set(out@) == name_set(names@.take(i as int)),
            distinct_names(out@),
        decreases names.len() - i,
    {
        let name = &names[i];
        let ghost old_out = out@;
        let seen = contains_name(&out, name);
        if !seen {
            let copy = name.clone();
            out.push(copy);
        }
        proof {
            let prev = names@.take(i as int);
            let next = names@.take(i + 1);
            assert(next =~= prev.push(names@[i as int]));
            assert forall|n: Seq<char>| #[trigger] name_set(out@).contains(n) == name_set(next).contains(n) by {
                if name_set(next).contains(n) {
                    let j = choose|j: int| 0 <= j < next.len() && #[trigger] next[j]@ == n;
                    if j < prev.len() {
                        assert(prev[j]@ == n);
                        assert(name_set(prev).contains(n));
                        assert(name_set(old_out).contains(n));
                        let k = choose|k: int| 0 <= k < old_out.len() && #[trigger] old_out[k]@ == n;
                        assert(out@[k]@ == n);
                    } else {
                        assert(n == names@[i as int]@);
                        if seen {
                            let k = choose|k: int| 0 <= k < old_out.len() && #[trigger] old_out[k]@ == name@;
                            assert(out@[k]@ == n);
                        } else {
                            assert(out@[old_out.len() as int]@ == n);
                        }
                    }
                }
                if name_set(out@).contains(n) {
                    let k = choose|k: int| 0 <= k < out@.len() && #[trigger] out@[k]@ == n;
                    if k < old_out.len() {
                        assert(old_out[k]@ == n);
                        assert(name_set(old_out).contains(n));
                        assert(name_set(prev).contains(n));
                        let j = choose|j: int| 0 <= j < prev.len() && #[trigger] prev[j]@ == n;
                        assert(next[j]@ == n);
                    } else {
                        assert(next[i as int]@ == n);
                    }
                }
            }
            assert(name_set(out@) =~= name_set(next));
            if !seen {
                assert forall|a: int, b: int| 0 <= a < b < out@.len() implies #[trigger] out@[a]@
                    != #[trigger] out@[b]@ by {
                    if b == old_out.len() {
                        assert(old_out[a]@ != name@);
                    } else {
                        assert(old_out[a]@ != old_out[b]@);
                    }
                }
            }
        }
        i += 1;
    }
    proof {
        assert(names@.take(names@.len() as int) =~= names@);
    }
    out
}

/// Spec: the route for a `--trigger` value and the `--except` / `--only` lists.
pub open spec fn route_mode_spec(
    trigger: Option<Seq<char>>,
    except: Seq<String>,
    only: Seq<String>,
    mode: RouteMode,
) -> bool {
    let auto = match mode {
        RouteMode::Auto(opts) => {
            &&& name_set(opts.except@) == name_set(except)
            &&& distinct_names(opts.except@)
            &&& if only.len() == 0 {
                opts.only is None
            } else {
                opts.only matches Some(o) && name_set(o@) == name_set(only) && distinct_names(o@)
            }
        },
        _ => false,
    };
    match trigger {
        None => auto,
        Some(t) => if t == "copy"@ {
            mode is BuiltinCopy
        } else if t == "plain"@ {
            mode is BuiltinPlain
        } else if t == "auto"@ {
            auto
        } else {
            mode matches RouteMode::Explicit(name) && name@ == t
        },
    }
}

/// Build the routing mode from CLI `--trigger`, `--except`, and `--only`:
/// no trigger or `auto` routes automatically, `copy` and `plain` are the
/// built-in modes, and any other name runs that rule.
pub fn route_mode_from_trigger(trigger: Option<&str>, except: &[String], only: &[String]) -> (r:
    RouteMode)
    ensures
        route_mode_spec(
            match trigger {
                Some(t) => Some(t@),
                None => None,
            },
            except@,
            only@,
            r,
        ),
{
    proof {
        reveal_strlit("copy");
        reveal_strlit("plain");
        reveal_strlit("auto");
    }
    let auto = |except: &[String], only: &[String]| -> (m: RouteMode)
        ensures
            m matches RouteMode::Auto(opts) && {
                &&& name_set(opts.except@) == name_set(except@)
                &&& distinct_names(opts.except@)
                &&& if only@.len() == 0 {
                    opts.only is None
                } else {
                    opts.only matches Some(o) && name_set(o@) == name_set(only@) && distinct_names(
                        o@,
                    )
                }
            },
        {
            let except_set = distinct_name_list(except);
            let only_set = if only.len() == 0 {
                None
            } else {
                Some(distinct_name_list(only))
            };
            RouteMode::Auto(AutoRouteOptions { except: except_set, only: only_set })
        };
    match trigger {
        None => auto(except, only),
        Some(t) => {
            if crate::text::str_eq(t, "copy") {
                RouteMode::BuiltinCopy
            } else if crate::text::str_eq(t, "plain") {
                RouteMode::BuiltinPlain
            } else if crate::text::str_eq(t, "auto") {
                auto(except, only)
            } else {
                RouteMode::Explicit(t.to_owned())
            }
        },
    }
}

/// Whether an IPC request runs a rule in the daemon or is handled locally.
#[derive(Debug, Clone, PartialEq, Eq)]
pub enum IpcRoutingDecision {
    ExecuteMatchedRule { rule_name: String },
    HandleLocally,
}

/// Decide where an IPC-routed payload is handled. Only automatic routing
/// hands work to the daemon; `routed_rule` is the rule the automatic route
/// picked for the payload, if any (it is consulted in automatic mode only).
pub fn decide_ipc_routing(mode: &RouteMode, routed_rule: Option<String>) -> (r: IpcRoutingDecision)
    ensures
        match (*mode, routed_rule) {
            (RouteMode::Auto(_), Some(name)) => r matches IpcRoutingDecision::ExecuteMatchedRule {
                rule_name,
            } && rule_name == name,
            _ => r is HandleLocally,
        },
{
    match mode {
        RouteMode::Auto(_) => match routed_rule {
            Some(name) => IpcRoutingDecision::ExecuteMatchedRule { rule_name: name },
            None => IpcRoutingDecision::HandleLocally,
        },
        _ => IpcRoutingDecision::HandleLocally,
    }
}

/// Spec: the error text routing reports for `err`; `rendered` is the rule
/// engine's own rendering of the error.
pub open spec fn routing_error_text(err: RuleError, rendered: Seq<char>) -> Seq<char> {
    match err {
        RuleError::WifiConnectFailed(detail) => "wifi connect failed: "@ + detail@
            + ". Hint: verify location permission is enabled and WiFi control is allowed by your system policy."@,
        RuleError::ExecFailed(detail) => "exec failed: "@ + detail@
            + ". Hint: confirm the action path exists and is allowed by endpoint policy."@,
        _ => rendered,
    }
}

/// The routing error message for `err`, adding an actionable hint to WiFi
/// and exec failures; other errors keep the engine's rendering `rendered`.
pub fn map_routing_error(err: &RuleError, rendered: &str) -> (msg: String)
    ensures
        msg@ == routing_error_text(*err, rendered@),
{
    match err {
        RuleError::WifiConnectFailed(detail) => {
            let mut m = "wifi connect failed: ".to_owned();
            m.append(detail.as_str());
            m.append(
                ". Hint: verify location permission is enabled and WiFi control is allowed by your system policy.",
            );
            m
        },
        RuleError::ExecFailed(detail) => {
            let mut m = "exec failed: ".to_owned();
            m.append(detail.as_str());
            m.append(". Hint: confirm the action path exists and is allowed by endpoint policy.");
            m
        },
        _ => rendered.to_owned(),
    }
}

/// Spec: the `StoreIo` text of a regex mismatch for a named trigger.
pub open spec fn trigger_mismatch_text(
    payloads: Seq<String>,
    rule_name: Seq<char>,
    pattern: Option<Seq<char>>,
) -> Seq<char> {
    let decoded = if payloads.len() > 0 {
        debug_str(payloads[0]@)
    } else {
        "<empty>"@
    };
    let expects = match pattern {
        Some(p) => "; rule '"@ + rule_name + "' expects pattern: "@ + p,
        None => Seq::empty(),
    };
    "regex did not match decoded payload "@ + decoded + expects
}

/// Enrich a regex mismatch from a named trigger with the decoded payload and
/// the rule's pattern (`rule_pattern`, when the rule has one); other errors
/// pass through unchanged.
pub fn map_trigger_error(
    err: RuleError,
    payloads: &[String],
    rule_name: &str,
    rule_pattern: Option<&str>,
) -> (r: RuleError)
    ensures
        match err {
            RuleError::NoMatch => r matches RuleError::StoreIo(m) && m@ == trigger_mismatch_text(
                payloads@,
                rule_name@,
                match rule_pattern {
                    Some(p) => Some(p@),
                    None => None,
                },
            ),
            _ => r == err,
        },
{
    match err {
        RuleError::NoMatch => {
            let mut m = "regex did not match decoded payload ".to_owned();
            if payloads.len() > 0 {
                let quoted = debug_quoted(payloads[0].as_str());
                m.append(quoted.as_str());
            } else {
                m.append("<empty>");
            }
            match rule_pattern {
                Some(p) => {
                    m.append("; rule '");
                    m.append(rule_name);
                    m.append("' expects pattern: ");
                    m.append(p);
                },
                None => {},
            }
            RuleError::StoreIo(m)
        },
        other => other,
    }
}

/// Spec: the stderr line for a routing event; `core_message` is the rule
/// engine's standard line for the event.
pub open spec fn capture_routing_text(
    event: RoutingEvent,
    fallback_copied: bool,
    core_message: Seq<char>,
) -> Seq<char> {
    if fallback_copied {
        core_message
    } else {
        match event {
            RoutingEvent::Mismatch { rule } => "visioflow: rule \""@ + rule@ + "\" did not match"@,
            RoutingEvent::NoAutoMatch => "visioflow: no auto rule matched"@,
            _ => core_message,
        }
    }
}

/// The stderr line reporting `event`. A miss that was not covered by a
/// fallback copy gets its own wording; everything else uses `core_message`.
pub fn format_capture_routing_message(
    event: &RoutingEvent,
    fallback_copied: bool,
    core_message: &str,
) -> (msg: String)
    ensures
        msg@ == capture_routing_text(*event, fallback_copied, core_message@),
{
    if fallback_copied {
        return core_message.to_owned();
    }
    match event {
        RoutingEvent::Mismatch { rule } => {
            let mut m = "visioflow: rule \"".to_owned();
            m.append(rule.as_str());
            m.append("\" did not match");
            m
        },
        RoutingEvent::NoAutoMatch => "visioflow: no auto rule matched".to_owned(),
        _ => core_message.to_owned(),
    }
}


/// The parts of a matched rule that routing decides on.
#[derive(Debug, Clone, PartialEq, Eq)]
pub struct RoutedRule {
    pub name: String,
    pub has_regex: bool,
    pub wifi_connect: bool,
    pub has_exec: bool,
    /// The resolved variables hold a WiFi SSID.
    pub has_wifi_ssid: bool,
}

/// Spec: a rule that only copies the payload: no pattern, no WiFi, no exec.
pub open spec fn catchall_copy(rule: RoutedRule) -> bool {
    !rule.has_regex && !rule.wifi_connect && !rule.has_exec
}

/// True for a rule that only copies the payload.
pub fn is_catchall_copy_rule(rule: &RoutedRule) -> (r: bool)
    ensures
        r == catchall_copy(*rule),
        rule.has_exec ==> !r,
        rule.has_regex ==> !r,
        rule.wifi_connect ==> !r,
{
    !rule.has_regex && !rule.wifi_connect && !rule.has_exec
}

/// Value of `VISIOFLOW_WIFI_HANDOFF_MODE` for a handoff mode.
pub fn wifi_handoff_mode_value(mode: WifiHandoffMode) -> (v: &'static str)
    ensures
        v@ == match mode {
            WifiHandoffMode::OpenSettings => "open-settings"@,
            WifiHandoffMode::Print => "print"@,
        },
{
    proof {
        reveal_strlit("open-settings");
        reveal_strlit("print");
    }
    match mode {
        WifiHandoffMode::OpenSettings => "open-settings",
        WifiHandoffMode::Print => "print",
    }
}

/// The next step of routing a captured payload.
#[derive(Debug, Clone, PartialEq, Eq)]
pub enum RoutingStep {
    /// Copy the payload to the clipboard and report `event`; `fallback` marks
    /// a mismatch that was covered by copying.
    CopyPayload { event: RoutingEvent, notify: bool, fallback: bool },
    /// Print the payload on stdout.
    PrintPayload,
    /// Announce `event`, then run the rule's actions.
    RunRule { event: RoutingEvent, notify: bool, announce_wifi_connect: bool, wifi_handoff: bool },
    /// Report `event` and fail (`--on-mismatch none`).
    Refuse { event: RoutingEvent, notify: bool },
}

/// Error when routing has nothing to route.
pub const NO_PAYLOAD_FOR_ROUTING: &'static str = "no payloads decoded for routing";

/// The payload that routing acts on: the first one decoded, or the
/// no-payload error when nothing was decoded.
pub fn first_payload_for_routing(payloads: &Vec<String>) -> (r: Result<String, String>)
    ensures
        payloads.len() > 0 ==> (r matches Ok(p) && p@ == payloads[0]@),
        payloads.len() == 0 ==> (r matches Err(e) && e@ == NO_PAYLOAD_FOR_ROUTING@),
{
    if payloads.len() == 0 {
        Err(NO_PAYLOAD_FOR_ROUTING.to_owned())
    } else {
        Ok(payloads[0].clone())
    }
}

/// Error when a mismatch is not covered by copying.
pub const ROUTING_REFUSED: &'static str = "routing failed with --on-mismatch none";

/// Spec: the step taken before consulting the rules, for the built-in modes.
pub open spec fn builtin_step(mode: RouteMode, notify: CaptureNotify) -> Option<RoutingStep> {
    match mode {
        RouteMode::BuiltinCopy => Some(
            RoutingStep::CopyPayload {
                event: RoutingEvent::BuiltinCopy,
                notify: notifies(notify, RoutingEvent::BuiltinCopy),
                fallback: false,
            },
        ),
        RouteMode::BuiltinPlain => Some(RoutingStep::PrintPayload),
        _ => None,
    }
}

/// The step for the built-in modes, which need no rules; `None` when the
/// rules must be consulted.
pub fn plan_builtin_routing(mode: &RouteMode, notify: CaptureNotify) -> (r: Option<RoutingStep>)
    ensures
        r == builtin_step(*mode, notify),
{
    match mode {
        RouteMode::BuiltinCopy => Some(
            RoutingStep::CopyPayload {
                event: RoutingEvent::BuiltinCopy,
                notify: should_notify_for_event(notify, &RoutingEvent::BuiltinCopy),
                fallback: false,
            },
        ),
        RouteMode::BuiltinPlain => Some(RoutingStep::PrintPayload),
        _ => None,
    }
}

/// Spec: the step after the rules were consulted: `event` is what the rule
/// engine reported and `routed` the rule it matched, if any.
pub open spec fn routed_step(
    event: RoutingEvent,
    routed: Option<RoutedRule>,
    on_mismatch: OnMismatch,
    notify: CaptureNotify,
    silent: bool,
) -> RoutingStep {
    match routed {
        Some(rule) => if catchall_copy(rule) {
            RoutingStep::CopyPayload { event, notify: notifies(notify, event), fallback: false }
        } else {
            RoutingStep::RunRule {
                event,
                notify: notifies(notify, event),
                announce_wifi_connect: rule.wifi_connect && !silent,
                wifi_handoff: rule.has_wifi_ssid,
            }
        },
        None => match on_mismatch {
            OnMismatch::Copy => RoutingStep::CopyPayload {
                event,
                notify: notifies(notify, event),
                fallback: true,
            },
            OnMismatch::NoAction => RoutingStep::Refuse { event, notify: notifies(notify, event) },
        },
    }
}

/// Decide what routing does once the rule engine has answered.
pub fn plan_routed_step(
    event: RoutingEvent,
    routed: Option<RoutedRule>,
    on_mismatch: OnMismatch,
    notify: CaptureNotify,
    silent: bool,
) -> (r: RoutingStep)
    ensures
        r == routed_step(event, routed, on_mismatch, notify, silent),
        routed matches Some(rule) && (rule.has_exec || rule.has_regex || rule.wifi_connect) ==> (
        r is RunRule),
{
    let notify_now = should_notify_for_event(notify, &event);
    match routed {
        Some(rule) => {
            if is_catchall_copy_rule(&rule) {
                RoutingStep::CopyPayload { event, notify: notify_now, fallback: false }
            } else {
                RoutingStep::RunRule {
                    event,
                    notify: notify_now,
                    announce_wifi_connect: rule.wifi_connect && !silent,
                    wifi_handoff: rule.has_wifi_ssid,
                }
            }
        },
        None => match on_mismatch {
            OnMismatch::Copy => RoutingStep::CopyPayload { event, notify: notify_now, fallback: true },
            OnMismatch::NoAction => RoutingStep::Refuse { event, notify: notify_now },
        },
    }
}

/// A matched rule with an exec action, a pattern or a WiFi connection is run
/// (its actions are spawned), never just copied; only a rule with none of
/// these copies the payload, and a matched rule never falls back.
pub proof fn law_matched_rule_runs_its_actions(
    event: RoutingEvent,
    rule: RoutedRule,
    on_mismatch: OnMismatch,
    notify: CaptureNotify,
    silent: bool,
)
    ensures
        rule.has_exec || rule.has_regex || rule.wifi_connect ==> routed_step(
            event,
            Some(rule),
            on_mismatch,
            notify,
            silent,
        ) == (RoutingStep::RunRule {
            event,
            notify: notifies(notify, event),
            announce_wifi_connect: rule.wifi_connect && !silent,
            wifi_handoff: rule.has_wifi_ssid,
        }),
        !rule.has_exec && !rule.has_regex && !rule.wifi_connect ==> routed_step(
            event,
            Some(rule),
            on_mismatch,
            notify,
            silent,
        ) == (RoutingStep::CopyPayload { event, notify: notifies(notify, event), fallback: false }),
{
}

/// A payload that no rule handled is copied exactly when the mismatch policy
/// says so, and never runs a rule.
pub proof fn law_mismatch_follows_policy(
    event: RoutingEvent,
    on_mismatch: OnMismatch,
    notify: CaptureNotify,
    silent: bool,
)
    ensures
        routed_step(event, None, on_mismatch, notify, silent) is CopyPayload <==> on_mismatch
            == OnMismatch::Copy,
        routed_step(event, None, on_mismatch, notify, silent) is Refuse <==> on_mismatch
            == OnMismatch::NoAction,
{
}

fn copy_strings(v: &[String]) -> (r: Vec<String>)
    ensures
        r@ == v@,
{
    let mut r: Vec<String> = Vec::new();
    let mut i: usize = 0;
    while i < v.len()
        invariant
            i <= v@.len(),
            r@ == v@.take(i as int),
        decreases v.len() - i,
    {
        r.push(v[i].clone());
        proof {
            assert(v@.take(i + 1) =~= v@.take(i as int).push(v@[i as int]));
        }
        i += 1;
    }
    proof {
        assert(v@.take(v@.len() as int) =~= v@);
    }
    r
}

/// Spec: a selection is asked for: `--select` with several payloads.
pub open spec fn selection_needed(count: int, select: bool) -> bool {
    select && count > 1
}

/// Whether a selection must be asked for: `--select` with several payloads.
pub fn payload_selection_needed(count: usize, select: bool) -> (r: bool)
    ensures
        r == selection_needed(count as int, select),
{
    select && count > 1
}

/// Spec: the selection menu shown for `payloads`.
pub open spec fn selection_menu(payloads: Seq<String>) -> Seq<char>
    decreases payloads.len(),
{
    if payloads.len() == 0 {
        "Multiple payloads detected. Select one:\n"@
    } else {
        selection_menu(payloads.drop_last()) + "  ["@ + decimal(payloads.len()) + "] "@
            + payloads.last()@ + "\n"@
    }
}

/// Spec: the prompt closing the selection menu.
pub open spec fn selection_question(count: nat) -> Seq<char> {
    "Enter number (1-"@ + decimal(count) + "): "@
}

/// The numbered menu and question shown when one of several payloads must
/// be chosen.
pub fn selection_prompt(payloads: &[String]) -> (prompt: String)
    requires
        payloads@.len() < u64::MAX,
    ensures
        prompt@ == selection_menu(payloads@) + selection_question(payloads@.len()),
{
    let mut prompt = "Multiple payloads detected. Select one:\n".to_owned();
    let mut i: usize = 0;
    while i < payloads.len()
        invariant
            i <= payloads@.len() < u64::MAX,
            prompt@ == selection_menu(payloads@.take(i as int)),
        decreases payloads.len() - i,
    {
        proof {
            assert(payloads@.take(i + 1).drop_last() =~= payloads@.take(i as int));
        }
        prompt.append("  [");
        push_decimal(&mut prompt, (i + 1) as u64);
        prompt.append("] ");
        prompt.append(payloads[i].as_str());
        prompt.append("\n");
        i += 1;
    }
    proof {
        assert(payloads@.take(payloads@.len() as int) =~= payloads@);
    }
    prompt.append("Enter number (1-");
    push_decimal(&mut prompt, payloads.len() as u64);
    prompt.append("): ");
    prompt
}

/// Spec: the index picked by the answer `line` for `count` payloads: a
/// number from 1 to `count`, surrounding white space ignored.
pub open spec fn chosen_index(line: Seq<char>, count: int) -> Option<int> {
    match parse_unsigned(trimmed(line), usize::MAX as int) {
        Ok(n) => if 1 <= n <= count {
            Some(n - 1)
        } else {
            None
        },
        Err(_) => None,
    }
}

/// Spec: the error for an unusable selection.
pub open spec fn invalid_selection_text(line: Seq<char>, count: nat) -> Seq<char> {
    "invalid selection '"@ + trimmed(line) + "'; expected 1-"@ + decimal(count)
}

/// Keep every payload, or, with `--select` and several payloads, the one
/// that `answer` (the line typed at the menu) picks.
pub fn select_payload_if_needed(payloads: &[String], select: bool, answer: &str) -> (r: Result<
    Vec<String>,
    String,
>)
    requires
        payloads@.len() < u64::MAX,
    ensures
        !selection_needed(payloads@.len() as int, select) ==> (r matches Ok(v) && v@ == payloads@),
        selection_needed(payloads@.len() as int, select) ==> match chosen_index(
            answer@,
            payloads@.len() as int,
        ) {
            Some(k) => r matches Ok(v) && v@ == seq![payloads@[k]],
            None => r matches Err(m) && m@ == invalid_selection_text(answer@, payloads@.len()),
        },
{
    if !select || payloads.len() <= 1 {
        return Ok(copy_strings(payloads));
    }
    let choice = trim_text(answer);
    assert(usize::MAX as u64 == usize::MAX);
    let parsed = parse_unsigned_decimal(choice.as_str(), usize::MAX as u64);
    match parsed {
        Ok(n) => {
            if n >= 1 && n <= payloads.len() as u64 {
                let picked = payloads[(n - 1) as usize].clone();
                let mut one: Vec<String> = Vec::new();
                one.push(picked);
                proof {
                    assert(one@ =~= seq![payloads@[n - 1]]);
                }
                return Ok(one);
            }
        },
        Err(_) => {},
    }
    let mut m = "invalid selection '".to_owned();
    m.append(choice.as_str());
    m.append("'; expected 1-");
    push_decimal(&mut m, payloads.len() as u64);
    Err(m)
}

/// Spec: the confirmation text shown for `payloads`.
pub open spec fn confirmation_listing(payloads: Seq<String>) -> Seq<char>
    decreases payloads.len(),
{
    if payloads.len() == 0 {
        "Decoded payload:\n"@
    } else {
        confirmation_listing(payloads.drop_last()) + "  "@ + payloads.last()@ + "\n"@
    }
}

/// The payload listing and `[y/N]` question of `--interactive`.
pub fn confirmation_prompt(payloads: &[String]) -> (prompt: String)
    ensures
        prompt@ == confirmation_listing(payloads@) + "Proceed? [y/N]: "@,
{
    let mut prompt = "Decoded payload:\n".to_owned();
    let mut i: usize = 0;
    while i < payloads.len()
        invariant
            i <= payloads@.len(),
            prompt@ == confirmation_listing(payloads@.take(i as int)),
        decreases payloads.len() - i,
    {
        proof {
            assert(payloads@.take(i + 1).drop_last() =~= payloads@.take(i as int));
        }
        prompt.append("  ");
        prompt.append(payloads[i].as_str());
        prompt.append("\n");
        i += 1;
    }
    proof {
        assert(payloads@.take(payloads@.len() as int) =~= payloads@);
    }
    prompt.append("Proceed? [y/N]: ");
    prompt
}

/// Spec: the answer confirms (`y` or `yes` in the accepted spellings).
pub open spec fn confirms(line: Seq<char>) -> bool {
    let t = trimmed(line);
    t == "y"@ || t == "Y"@ || t == "yes"@ || t == "Yes"@ || t == "YES"@
}

/// Whether `--interactive` lets the capture proceed: always when not
/// interactive, never with nothing decoded, else when `answer` says yes.
pub fn confirm_capture_interactive(payloads: &[String], interactive: bool, answer: &str) -> (r:
    bool)
    ensures
        r == (!interactive || (payloads@.len() > 0 && confirms(answer@))),
{
    if !interactive {
        return true;
    }
    if payloads.len() == 0 {
        return false;
    }
    let t = trim_text(answer);
    let s = t.as_str();
    crate::text::str_eq(s, "y") || crate::text::str_eq(s, "Y") || crate::text::str_eq(s, "yes")
        || crate::text::str_eq(s, "Yes") || crate::text::str_eq(s, "YES")
}

/// Error when the user declines at the `--interactive` prompt.
pub const CAPTURE_CANCELLED: &'static str = "capture cancelled by user";

/// Apply `--select` then `--interactive`: `select_answer` and
/// `confirm_answer` are the lines typed at the two prompts.
pub fn apply_capture_halts(
    payloads: Vec<String>,
    select: bool,
    interactive: bool,
    select_answer: &str,
    confirm_answer: &str,
) -> (r: Result<Vec<String>, String>)
    requires
        payloads@.len() < u64::MAX,
    ensures
        ({
            let picked: Option<Seq<String>> = if !selection_needed(payloads@.len() as int, select) {
                Some(payloads@)
            } else {
                match chosen_index(select_answer@, payloads@.len() as int) {
                    Some(k) => Some(seq![payloads@[k]]),
                    None => None,
                }
            };
            match picked {
                None => r matches Err(m) && m@ == invalid_selection_text(
                    select_answer@,
                    payloads@.len(),
                ),
                Some(sel) => if !interactive || (sel.len() > 0 && confirms(confirm_answer@)) {
                    r matches Ok(v) && v@ == sel
                } else {
                    r matches Err(m) && m@ == CAPTURE_CANCELLED@
                },
            }
        }),
{
    let selected = match select_payload_if_needed(&payloads, select, select_answer) {
        Ok(v) => v,
        Err(e) => return Err(e),
    };
    if !confirm_capture_interactive(&selected, interactive, confirm_answer) {
        return Err(CAPTURE_CANCELLED.to_owned());
    }
    Ok(selected)
}


/// Routing runs when a trigger is named or no plain output action was asked for.
pub fn routing_active(trigger_given: bool, action: Option<CaptureAction>) -> (r: bool)
    ensures
        r == (trigger_given || action is None),
{
    trigger_given || action.is_none()
}

/// The toast mode of a capture's `--notify` flag.
pub fn notify_mode_from_flag(notify: bool) -> (r: CaptureNotify)
    ensures
        r == if notify {
            CaptureNotify::On
        } else {
            CaptureNotify::Off
        },
{
    if notify {
        CaptureNotify::On
    } else {
        CaptureNotify::Off
    }
}

/// The trigger sent to the daemon as is: a named rule, neither a built-in
/// trigger (`is_builtin`) nor `auto`.
pub fn explicit_ipc_trigger(trigger: Option<&str>, is_builtin: bool) -> (r: Option<String>)
    ensures
        match trigger {
            Some(t) => if !is_builtin && t@ != "auto"@ {
                r matches Some(n) && n@ == t@
            } else {
                r is None
            },
            None => r is None,
        },
{
    match trigger {
        Some(t) => {
            if !is_builtin && !crate::text::str_eq(t, "auto") {
                Some(t.to_owned())
            } else {
                None
            }
        },
        None => None,
    }
}

/// How the variables of a routed payload are written.
#[derive(Debug, Clone, Copy, PartialEq, Eq, Structural)]
pub enum VarsOutput {
    Export,
    Json,
    Plain,
    Nothing,
}

/// Choose the output of a routed payload's variables: `--export` first,
/// then JSON output, then plain lines for `--action stdout` or a named trigger.
pub fn routed_vars_output(
    export: bool,
    json: bool,
    action: Option<CaptureAction>,
    trigger_given: bool,
) -> (r: VarsOutput)
    ensures
        r == if export {
            VarsOutput::Export
        } else if json {
            VarsOutput::Json
        } else if action == Some(CaptureAction::Stdout) || trigger_given {
            VarsOutput::Plain
        } else {
            VarsOutput::Nothing
        },
{
    if export {
        VarsOutput::Export
    } else if json {
        VarsOutput::Json
    } else if (match action {
        Some(CaptureAction::Stdout) => true,
        _ => false,
    }) || trigger_given {
        VarsOutput::Plain
    } else {
        VarsOutput::Nothing
    }
}

/// How decoded payloads are written when routing does not run.
#[derive(Debug, Clone, Copy, PartialEq, Eq, Structural)]
pub enum PayloadOutput {
    Export,
    Json,
    Write(CaptureAction),
}

/// Choose the output of decoded payloads without routing: `--export`, then
/// JSON, then the action (stdout by default).
pub fn payload_output(export: bool, json: bool, action: Option<CaptureAction>) -> (r:
    PayloadOutput)
    ensures
        r == if export {
            PayloadOutput::Export
        } else if json {
            PayloadOutput::Json
        } else {
            PayloadOutput::Write(
                match action {
                    Some(a) => a,
                    None => CaptureAction::Stdout,
                },
            )
        },
{
    if export {
        PayloadOutput::Export
    } else if json {
        PayloadOutput::Json
    } else {
        PayloadOutput::Write(
            match action {
                Some(a) => a,
                None => CaptureAction::Stdout,
            },
        )
    }
}


/// Show the routing toast for `event` when `mode` asks for one, then run
/// `action` (rule exec, WiFi, copy, ...). Returns the toast's delivery error,
/// if one was sent and failed, and the action's outcome.
pub fn notify_then_action<S, F>(
    mode: CaptureNotify,
    event: &RoutingEvent,
    payload: &str,
    sender: S,
    action: F,
) -> (r: (Option<String>, Result<(), RuleError>))
    where
        S: Fn(&NativeNotification) -> Result<(), String>,
        F: FnOnce() -> Result<(), RuleError>,
    requires
        forall|n: &NativeNotification| call_requires(sender, (n,)),
        call_requires(action, ()),
    ensures
        call_ensures(action, (), r.1),
        !notifies(mode, *event) ==> r.0 is None,
        notifies(mode, *event) ==> exists|note: NativeNotification, out: Result<(), String>|
            is_routing_note(note, *event, payload@, false) && call_ensures(sender, (&note,), out)
                && r.0 == delivery_error(out),
{
    let mut toast_error: Option<String> = None;
    if should_notify_for_event(mode, event) {
        let note = build_routing_notification(event, payload, false);
        let out = sender(&note);
        proof {
            assert(is_routing_note(note, *event, payload@, false));
        }
        match out {
            Ok(()) => {},
            Err(e) => {
                toast_error = Some(e);
            },
        }
        proof {
            assert(toast_error == delivery_error(out));
        }
    }
    let outcome = action();
    (toast_error, outcome)
}

} // verus!
