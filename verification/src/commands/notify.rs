//! The `notify test` smoke command: the toast it sends and what it prints.

use vstd::prelude::*;

use crate::notifications::NativeNotification;

verus! {

/// Body of the smoke-test toast when none is given.
pub const DEFAULT_TEST_BODY: &'static str = "Toast delivery smoke test";

/// Title of the smoke-test toast when none is given.
pub const DEFAULT_TEST_TITLE: &'static str = "VisioFlow";

/// The smoke-test toast: the given title and body, or the defaults; its
/// Copy button copies the body.
pub fn notify_test_note(title: Option<&str>, body: Option<&str>) -> (note: NativeNotification)
    ensures
        note.title@ == match title {
            Some(t) => t@,
            None => DEFAULT_TEST_TITLE@,
        },
        note.body@ == match body {
            Some(b) => b@,
            None => DEFAULT_TEST_BODY@,
        },
        note.copy_payload matches Some(p) && p@ == note.body@,
        !note.already_copied,
{
    let body_text = match body {
        Some(b) => b.to_owned(),
        None => DEFAULT_TEST_BODY.to_owned(),
    };
    let title_text = match title {
        Some(t) => t.to_owned(),
        None => DEFAULT_TEST_TITLE.to_owned(),
    };
    let copy = body_text.clone();
    NativeNotification {
        title: title_text,
        body: body_text,
        copy_payload: Some(copy),
        already_copied: false,
    }
}

/// What `notify test` reports for the delivery outcome: the line printed on
/// success, or the error.
pub fn notify_test_report(outcome: Result<&str, String>, title: &str) -> (r: Result<String, String>)
    ensures
        match outcome {
            Ok(channel) => r matches Ok(line) && line@ == "toast sent ("@ + channel@ + "): "@
                + title@,
            Err(e) => r matches Err(m) && m@ == "toast delivery failed: "@ + e@,
        },
{
    match outcome {
        Ok(channel) => {
            let mut line = "toast sent (".to_owned();
            line.append(channel);
            line.append("): ");
            line.append(title);
            Ok(line)
        },
        Err(e) => {
            let mut m = "toast delivery failed: ".to_owned();
            m.append(e.as_str());
            Err(m)
        },
    }
}

} // verus!
