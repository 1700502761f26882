//! Integer state of the arrow-key exposure controller: which camera control
//! it drives and how the manual (shutter or gain) fallback latches and steps.

use vstd::prelude::*;

verus! {

/// Frames to discard after changing sensor exposure so the ISP can settle.
pub const EXPOSURE_SETTLE_FRAMES: u32 = 5;

/// The camera control the exposure controller drives.
#[derive(Debug, Clone, Copy, PartialEq, Eq, Structural)]
pub enum ExposureControlKind {
    EvComp,
    ManualRelative,
    NoControl,
}

/// True when some exposure control is available.
pub fn is_supported(kind: ExposureControlKind) -> (r: bool)
    ensures
        r == !(kind is NoControl),
{
    match kind {
        ExposureControlKind::NoControl => false,
        _ => true,
    }
}

/// Short label of the control kind, for logs.
pub fn control_kind_label(kind: ExposureControlKind) -> (label: &'static str)
    ensures
        label@ == match kind {
            ExposureControlKind::EvComp => "ev_comp"@,
            ExposureControlKind::ManualRelative => "manual_relative"@,
            ExposureControlKind::NoControl => "none"@,
        },
{
    proof {
        reveal_strlit("ev_comp");
        reveal_strlit("manual_relative");
        reveal_strlit("none");
    }
    match kind {
        ExposureControlKind::EvComp => "ev_comp",
        ExposureControlKind::ManualRelative => "manual_relative",
        ExposureControlKind::NoControl => "none",
    }
}

/// Range of a camera control that reports only its value and step: twelve
/// steps either side of the current value, the step at least 1. Returns
/// `(min, max, step, value)`.
pub fn integer_control_range(value: i32, step: i32) -> (r: (i32, i32, i32, i32))
    requires
        (if step < 1 {
            1
        } else {
            step as int
        }) * 12 + (if value < 0 {
            -value
        } else {
            value as int
        }) <= i32::MAX,
    ensures
        r.2 == if step < 1 {
            1
        } else {
            step as int
        },
        r.0 == value - 12 * r.2,
        r.1 == value + 12 * r.2,
        r.3 == value,
{
    let step = if step < 1 {
        1
    } else {
        step
    };
    let span = step * 12;
    (value - span, value + span, step, value)
}

/// State of the manual (shutter or gain) exposure fallback.
#[derive(Debug, Clone, Copy, PartialEq, Eq, Structural)]
pub struct ManualRelativeState {
    pub use_gain: bool,
    pub min: i32,
    pub max: i32,
    pub step: i32,
    pub last_applied: Option<i32>,
    pub in_manual: bool,
}

/// Back at 0 EV: leave manual mode. Returns the new state and whether auto
/// exposure must be restored on the camera.
pub fn manual_back_to_auto(state: ManualRelativeState) -> (r: (ManualRelativeState, bool))
    ensures
        r.1 == state.in_manual,
        state.in_manual ==> r.0 == (ManualRelativeState { in_manual: false, last_applied: None, ..state }),
        !state.in_manual ==> r.0 == state,
{
    if state.in_manual {
        (ManualRelativeState { in_manual: false, last_applied: None, ..state }, true)
    } else {
        (state, false)
    }
}

/// Before the first manual step, latch the camera's live value (`live`) as
/// the starting point. Returns the new state and whether the camera must be
/// switched to manual at that value.
pub fn latch_manual(state: ManualRelativeState, live: i32) -> (r: (ManualRelativeState, bool))
    ensures
        r.1 == !state.in_manual,
        !state.in_manual ==> r.0 == (ManualRelativeState { in_manual: true, last_applied: Some(live), ..state }),
        state.in_manual ==> r.0 == state,
{
    if state.in_manual {
        (state, false)
    } else {
        (ManualRelativeState { in_manual: true, last_applied: Some(live), ..state }, true)
    }
}

/// Record the next manual value `value`; the camera is set only when it
/// differs from the last one applied.
pub fn settle_manual_value(state: ManualRelativeState, value: i32) -> (r: (
    ManualRelativeState,
    bool,
))
    ensures
        r.1 == (state.last_applied != Some(value)),
        r.0 == (ManualRelativeState { last_applied: Some(value), ..state }),
{
    let changed = match state.last_applied {
        Some(v) => v != value,
        None => true,
    };
    (ManualRelativeState { last_applied: Some(value), ..state }, changed)
}

} // verus!
