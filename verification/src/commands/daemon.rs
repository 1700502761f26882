//! PID-file format and the decisions of `daemon start`, `stop` and `status`.

use vstd::prelude::*;

use crate::numbers::{
    parse_failure_message, parse_failure_text, parse_unsigned, parse_unsigned_decimal, trim_text,
    trimmed,
};
use crate::text::{decimal, push_decimal};

verus! {

/// Spec: the text of a PID file for `pid`.
pub open spec fn pid_file_text(pid: nat) -> Seq<char> {
    decimal(pid) + "\n"@
}

/// The text written to the PID file: the decimal PID and a line break.
pub fn pid_file_contents(pid: u32) -> (text: String)
    ensures
        text@ == pid_file_text(pid as nat),
{
    let mut text = String::new();
    push_decimal(&mut text, pid as u64);
    text.append("\n");
    text
}

/// Spec: the PID read from a PID file's text, or the error reported.
pub open spec fn pid_from_text(text: Seq<char>) -> Result<int, Seq<char>> {
    match parse_unsigned(trimmed(text), u32::MAX as int) {
        Ok(v) => Ok(v),
        Err(f) => Err("invalid pid file: "@ + parse_failure_text(f)),
    }
}

/// Read a PID from a PID file's text: a decimal number, surrounding white
/// space ignored.
pub fn parse_pid(text: &str) -> (r: Result<u32, String>)
    ensures
        match pid_from_text(text@) {
            Ok(v) => r matches Ok(p) && p == v,
            Err(e) => r matches Err(m) && m@ == e,
        },
{
    let t = trim_text(text);
    match parse_unsigned_decimal(t.as_str(), u32::MAX as u64) {
        Ok(v) => Ok(v as u32),
        Err(f) => {
            let mut m = "invalid pid file: ".to_owned();
            let reason = parse_failure_message(f);
            m.append(reason.as_str());
            Err(m)
        },
    }
}

proof fn lemma_decimal_digits(n: nat)
    ensures
        decimal(n).len() > 0,
        forall|i: int| 0 <= i < decimal(n).len() ==> '0' <= #[trigger] decimal(n)[i] <= '9',
    decreases n,
{
    if n >= 10 {
        lemma_decimal_digits(n / 10);
    }
}

/// Spec: value of the decimal digits `d`.
spec fn digits_value(d: Seq<char>) -> int
    decreases d.len(),
{
    if d.len() == 0 {
        0
    } else {
        digits_value(d.drop_last()) * 10 + crate::numbers::digit_value(d.last())
    }
}

proof fn lemma_decimal_value(n: nat)
    ensures
        digits_value(decimal(n)) == n,
    decreases n,
{
    let d = (n % 10) as nat;
    assert(crate::numbers::digit_value(crate::text::digit_char(d)) == d);
    if n >= 10 {
        lemma_decimal_value(n / 10);
        assert(decimal(n).drop_last() =~= decimal(n / 10));
        assert(decimal(n).last() == crate::text::digit_char(d));
        assert(digits_value(decimal(n)) == digits_value(decimal(n / 10)) * 10 + d);
        assert(n == (n / 10) * 10 + d);
    } else {
        assert(decimal(n).drop_last() =~= Seq::<char>::empty());
        assert(decimal(n).last() == crate::text::digit_char(d));
        assert(digits_value(Seq::<char>::empty()) == 0);
        assert(d == n);
    }
}

proof fn lemma_scan_step(d: Seq<char>, i: int, acc: int, max: int)
    requires
        0 <= i < d.len(),
        forall|j: int| 0 <= j < d.len() ==> '0' <= #[trigger] d[j] <= '9',
        0 <= acc,
        digits_value(d) <= max,
        acc == digits_value(d.take(i)),
    ensures
        crate::numbers::scan_digits(d, i, acc, max) == crate::numbers::scan_digits(
            d,
            i + 1,
            digits_value(d.take(i + 1)),
            max,
        ),
        digits_value(d.take(i + 1)) == acc * 10 + crate::numbers::digit_value(d[i]),
{
    assert(d.take(i + 1).drop_last() =~= d.take(i));
    lemma_prefix_value_bound(d, i + 1);
}

proof fn lemma_prefix_value_bound(d: Seq<char>, k: int)
    requires
        0 <= k <= d.len(),
        forall|j: int| 0 <= j < d.len() ==> '0' <= #[trigger] d[j] <= '9',
    ensures
        0 <= digits_value(d.take(k)) <= digits_value(d),
    decreases d.len() - k,
{
    lemma_value_nonneg(d.take(k));
    if k < d.len() {
        lemma_prefix_value_bound(d, k + 1);
        assert(d.take(k + 1).drop_last() =~= d.take(k));
        lemma_value_nonneg(d.take(k));
    } else {
        assert(d.take(k) =~= d);
    }
}

proof fn lemma_value_nonneg(d: Seq<char>)
    requires
        forall|j: int| 0 <= j < d.len() ==> '0' <= #[trigger] d[j] <= '9',
    ensures
        0 <= digits_value(d),
    decreases d.len(),
{
    if d.len() > 0 {
        lemma_value_nonneg(d.drop_last());
    }
}

proof fn lemma_scan_prefix(d: Seq<char>, max: int)
    requires
        forall|j: int| 0 <= j < d.len() ==> '0' <= #[trigger] d[j] <= '9',
        digits_value(d) <= max,
    ensures
        crate::numbers::scan_digits(d, 0, 0, max) == Ok::<int, crate::numbers::ParseFailure>(
            digits_value(d),
        ),
{
    assert(d.take(0) =~= Seq::<char>::empty());
    lemma_scan_from(d, 0, max);
}

proof fn lemma_scan_from(d: Seq<char>, i: int, max: int)
    requires
        0 <= i <= d.len(),
        forall|j: int| 0 <= j < d.len() ==> '0' <= #[trigger] d[j] <= '9',
        digits_value(d) <= max,
    ensures
        crate::numbers::scan_digits(d, i, digits_value(d.take(i)), max) == Ok::<
            int,
            crate::numbers::ParseFailure,
        >(digits_value(d)),
    decreases d.len() - i,
{
    lemma_prefix_value_bound(d, i);
    if i < d.len() {
        lemma_scan_step(d, i, digits_value(d.take(i)), max);
        lemma_scan_from(d, i + 1, max);
    } else {
        assert(d.take(i) =~= d);
    }
}

/// A PID written to the PID file reads back as the same PID.
pub proof fn law_pid_file_roundtrip(pid: u32)
    ensures
        pid_from_text(pid_file_text(pid as nat)) == Ok::<int, Seq<char>>(pid as int),
{
    reveal_strlit("\n");
    let text = pid_file_text(pid as nat);
    let d = decimal(pid as nat);
    lemma_decimal_digits(pid as nat);
    lemma_decimal_value(pid as nat);
    assert(!crate::numbers::is_white_space(d[0]));
    assert(!crate::numbers::is_white_space(d[d.len() - 1]));
    assert(crate::numbers::is_white_space('\n'));
    assert(crate::numbers::leading_ws(text) == 0);
    assert(text.skip(0) =~= text);
    assert(text.drop_last() =~= d);
    assert(crate::numbers::trailing_ws(d) == 0);
    assert(crate::numbers::trailing_ws(text) == 1);
    assert(trimmed(text) =~= d);
    lemma_scan_prefix(d, u32::MAX as int);
    assert(d != seq!['+']);
}

/// What `daemon status` found.
#[derive(Debug, Clone, Copy, PartialEq, Eq, Structural)]
pub enum DaemonState {
    /// No PID file.
    NotRunning,
    /// A PID file names a process that is gone.
    Stale,
    /// The process named by the PID file is alive.
    Running(u32),
}

/// Error for a daemon that is not running.
pub const DAEMON_NOT_RUNNING: &'static str = "daemon not running";

/// Spec: the status line printed for a daemon state.
pub open spec fn status_line(state: DaemonState, socket: Seq<char>) -> Seq<char> {
    match state {
        DaemonState::Running(pid) => "daemon running (pid "@ + decimal(pid as nat) + ", socket "@
            + socket + ")"@,
        DaemonState::Stale => "daemon not running (stale pid file)"@,
        DaemonState::NotRunning => "daemon not running"@,
    }
}

/// The line `daemon status` prints and its outcome: success only when the
/// daemon runs.
pub fn daemon_status_report(state: DaemonState, socket: &str) -> (r: (String, Result<(), String>))
    ensures
        r.0@ == status_line(state, socket@),
        state is Running ==> r.1 is Ok,
        !(state is Running) ==> (r.1 matches Err(m) && m@ == DAEMON_NOT_RUNNING@),
{
    match state {
        DaemonState::Running(pid) => {
            let mut line = "daemon running (pid ".to_owned();
            push_decimal(&mut line, pid as u64);
            line.append(", socket ");
            line.append(socket);
            line.append(")");
            (line, Ok(()))
        },
        DaemonState::Stale => (
            "daemon not running (stale pid file)".to_owned(),
            Err(DAEMON_NOT_RUNNING.to_owned()),
        ),
        DaemonState::NotRunning => (
            "daemon not running".to_owned(),
            Err(DAEMON_NOT_RUNNING.to_owned()),
        ),
    }
}

/// How many times `daemon stop` checks for the process to exit, 100 ms apart.
pub const STOP_POLL_ATTEMPTS: u32 = 20;

/// Error for `daemon stop` without a running daemon.
pub const DAEMON_NOT_RUNNING_STOP: &'static str = "daemon is not running";

/// What `daemon stop` does next.
#[derive(Debug, Clone, Copy, PartialEq, Eq, Structural)]
pub enum StopStep {
    /// Fail: nothing to stop (`remove_pid_file` when the PID file was stale).
    NotRunning { remove_pid_file: bool },
    /// Ask the process to terminate, then poll.
    Kill(u32),
    /// Wait and check again.
    Wait,
    /// The process exited: remove the PID file and succeed.
    Done,
    /// Give up: the process did not exit in time.
    TimedOut(u32),
}

/// Decide the next step of `daemon stop`. `pid` is the PID file's PID (None
/// without a PID file); `alive` whether that process runs; `killed` whether
/// the kill was sent; `polls` how many checks were made since.
pub fn daemon_stop_step(pid: Option<u32>, alive: bool, killed: bool, polls: u32) -> (r: StopStep)
    ensures
        r == match pid {
            None => StopStep::NotRunning { remove_pid_file: false },
            Some(p) => if !killed {
                if alive {
                    StopStep::Kill(p)
                } else {
                    StopStep::NotRunning { remove_pid_file: true }
                }
            } else if !alive {
                StopStep::Done
            } else if polls < STOP_POLL_ATTEMPTS {
                StopStep::Wait
            } else {
                StopStep::TimedOut(p)
            },
        },
{
    match pid {
        None => StopStep::NotRunning { remove_pid_file: false },
        Some(p) => {
            if !killed {
                if alive {
                    StopStep::Kill(p)
                } else {
                    StopStep::NotRunning { remove_pid_file: true }
                }
            } else if !alive {
                StopStep::Done
            } else if polls < STOP_POLL_ATTEMPTS {
                StopStep::Wait
            } else {
                StopStep::TimedOut(p)
            }
        },
    }
}

/// Spec: the error when the daemon outlives the stop polling.
pub open spec fn stop_timeout_text(pid: nat) -> Seq<char> {
    "daemon pid "@ + decimal(pid) + " did not exit in time"@
}

/// The error when the daemon outlives the stop polling.
pub fn stop_timeout_message(pid: u32) -> (m: String)
    ensures
        m@ == stop_timeout_text(pid as nat),
{
    let mut m = "daemon pid ".to_owned();
    push_decimal(&mut m, pid as u64);
    m.append(" did not exit in time");
    m
}

/// Spec: the error of `daemon start` when a daemon already runs.
pub open spec fn already_running_text(pid: nat) -> Seq<char> {
    "daemon already running (pid "@ + decimal(pid) + ")"@
}

/// `daemon start` refuses when the PID file names a live process
/// (`running_pid`); otherwise it may start.
pub fn daemon_start_check(running_pid: Option<u32>) -> (r: Result<(), String>)
    ensures
        match running_pid {
            Some(p) => r matches Err(m) && m@ == already_running_text(p as nat),
            None => r is Ok,
        },
{
    match running_pid {
        Some(p) => {
            let mut m = "daemon already running (pid ".to_owned();
            push_decimal(&mut m, p as u64);
            m.append(")");
            Err(m)
        },
        None => Ok(()),
    }
}

/// Error when no payload reached a daemon-routed trigger.
pub const NO_PAYLOAD_FOR_TRIGGER: &'static str = "no payloads decoded for trigger";

/// The payload a daemon-routed trigger sends: the first decoded one.
pub fn trigger_payload(payloads: &[String]) -> (r: Result<String, String>)
    ensures
        payloads@.len() > 0 ==> r == Ok::<String, String>(payloads@[0]),
        payloads@.len() == 0 ==> (r matches Err(m) && m@ == NO_PAYLOAD_FOR_TRIGGER@),
{
    if payloads.len() == 0 {
        return Err(NO_PAYLOAD_FOR_TRIGGER.to_owned());
    }
    Ok(payloads[0].clone())
}

} // verus!
