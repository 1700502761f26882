//! Timing and exposure-bracketing decisions of the webcam scan loop.

use vstd::prelude::*;

use crate::commands::capture::ExposureBracketMode;
use crate::text::{decimal, push_decimal};
use crate::webcam_preview::{clamped_interval, decode_interval_from_ms, DEFAULT_DECODE_INTERVAL_MS};

verus! {

/// Default seconds to scan the webcam before timing out.
pub const DEFAULT_WEBCAM_TIMEOUT_SECS: u64 = 20;

/// Milliseconds to wait at each exposure before advancing the bracket.
pub const DEFAULT_EXPOSURE_STEP_MS: u64 = 100;

/// Frames to discard after each exposure change so the sensor can settle.
pub const DEFAULT_EXPOSURE_FLUSH_GRABS: u32 = 2;

/// Shortest accepted exposure step, in milliseconds.
pub const MIN_EXPOSURE_STEP_MS: u64 = 50;

/// Longest accepted exposure step, in milliseconds.
pub const MAX_EXPOSURE_STEP_MS: u64 = 2000;

/// Fewest frames flushed after an exposure change.
pub const MIN_FLUSH_GRABS: u32 = 1;

/// Most frames flushed after an exposure change.
pub const MAX_FLUSH_GRABS: u32 = 30;

/// Spec: `v` clamped to `[lo, hi]`.
pub open spec fn clamp_int(v: int, lo: int, hi: int) -> int {
    if v < lo {
        lo
    } else if v > hi {
        hi
    } else {
        v
    }
}

/// Tunable timing for webcam decode and exposure bracket cycling (durations in
/// milliseconds).
#[derive(Debug, Clone, Copy, PartialEq, Eq, Structural)]
pub struct WebcamTiming {
    pub exposure_step_ms: u64,
    pub flush_grabs: u32,
    pub decode_interval_ms: u64,
}

/// Timing handed to the exposure bracket: how long each exposure is held and
/// how many frames are flushed after a change.
#[derive(Debug, Clone, Copy, PartialEq, Eq, Structural)]
pub struct BracketConfig {
    pub primary_timeout_ms: u64,
    pub flush_grabs: u32,
}

impl WebcamTiming {
    /// Timing from command-line values, each clamped to its accepted range.
    pub fn from_ms(exposure_step_ms: u64, flush_grabs: u32, decode_interval_ms: u64) -> (r: Self)
        ensures
            r.exposure_step_ms == clamp_int(
                exposure_step_ms as int,
                MIN_EXPOSURE_STEP_MS as int,
                MAX_EXPOSURE_STEP_MS as int,
            ),
            r.flush_grabs == clamp_int(
                flush_grabs as int,
                MIN_FLUSH_GRABS as int,
                MAX_FLUSH_GRABS as int,
            ),
            r.decode_interval_ms == clamped_interval(decode_interval_ms as int),
    {
        let step = if exposure_step_ms < MIN_EXPOSURE_STEP_MS {
            MIN_EXPOSURE_STEP_MS
        } else if exposure_step_ms > MAX_EXPOSURE_STEP_MS {
            MAX_EXPOSURE_STEP_MS
        } else {
            exposure_step_ms
        };
        let grabs = if flush_grabs < MIN_FLUSH_GRABS {
            MIN_FLUSH_GRABS
        } else if flush_grabs > MAX_FLUSH_GRABS {
            MAX_FLUSH_GRABS
        } else {
            flush_grabs
        };
        WebcamTiming {
            exposure_step_ms: step,
            flush_grabs: grabs,
            decode_interval_ms: decode_interval_from_ms(decode_interval_ms),
        }
    }

    /// The fast default profile.
    pub fn defaults() -> (r: Self)
        ensures
            r.exposure_step_ms == DEFAULT_EXPOSURE_STEP_MS,
            r.flush_grabs == DEFAULT_EXPOSURE_FLUSH_GRABS,
            r.decode_interval_ms == DEFAULT_DECODE_INTERVAL_MS,
    {
        Self::from_ms(
            DEFAULT_EXPOSURE_STEP_MS,
            DEFAULT_EXPOSURE_FLUSH_GRABS,
            DEFAULT_DECODE_INTERVAL_MS,
        )
    }

    /// The bracket configuration this timing describes.
    pub fn bracket_config(&self) -> (r: BracketConfig)
        ensures
            r.primary_timeout_ms == self.exposure_step_ms,
            r.flush_grabs == self.flush_grabs,
    {
        BracketConfig { primary_timeout_ms: self.exposure_step_ms, flush_grabs: self.flush_grabs }
    }
}

/// Spec: BGR8 bytes reordered to RGB8, whole pixels only.
pub open spec fn bgr_swapped(bgr: Seq<u8>) -> Seq<u8> {
    Seq::new(
        ((bgr.len() / 3) * 3) as nat,
        |i: int| bgr[3 * (i / 3) + (2 - i % 3)],
    )
}

/// Reorder BGR8 pixel bytes to RGB8; a trailing partial pixel is dropped.
pub fn bgr_to_rgb(bgr: &[u8]) -> (rgb: Vec<u8>)
    ensures
        rgb@ == bgr_swapped(bgr@),
{
    let pixels = bgr.len() / 3;
    let mut rgb: Vec<u8> = Vec::new();
    let mut p: usize = 0;
    while p < pixels
        invariant
            p <= pixels,
            pixels == bgr@.len() / 3,
            pixels * 3 <= bgr.len(),
            rgb@.len() == 3 * p,
            forall|i: int| 0 <= i < rgb@.len() ==> #[trigger] rgb@[i] == bgr@[3 * (i / 3) + (2 - i % 3)],
        decreases pixels - p,
    {
        assert(3 * p + 2 < bgr@.len());
        let base = 3 * p;
        rgb.push(bgr[base + 2]);
        rgb.push(bgr[base + 1]);
        rgb.push(bgr[base]);
        proof {
            assert forall|i: int| 3 * p <= i < 3 * p + 3 implies #[trigger] rgb@[i] == bgr@[3 * (i / 3)
                + (2 - i % 3)] by {
                assert(i / 3 == p as int);
            }
        }
        p += 1;
    }
    proof {
        assert(rgb@ =~= bgr_swapped(bgr@));
    }
    rgb
}

/// Whether exposure bracketing runs for `mode`; `probe_safe` is the outcome
/// of the startup probe, consulted only in `Auto` mode.
pub fn resolve_bracketing_enabled(mode: ExposureBracketMode, probe_safe: bool) -> (r: bool)
    ensures
        r == match mode {
            ExposureBracketMode::On => true,
            ExposureBracketMode::Off => false,
            ExposureBracketMode::Auto => probe_safe,
        },
{
    match mode {
        ExposureBracketMode::On => true,
        ExposureBracketMode::Off => false,
        ExposureBracketMode::Auto => probe_safe,
    }
}

/// What the exposure bracket asks for after a decode attempt found nothing.
#[derive(Debug, Clone, Copy, PartialEq, Eq, Structural)]
pub enum BracketAction {
    KeepPrimary,
    AdvanceExposureStep { step_index: u32, flush_grabs: u32 },
    Exhausted,
}

/// Spec: the sparse exposure step used for bracket step `step_index` when the
/// camera offers `step_count` steps: every other step, capped at the last one.
pub open spec fn sparse_step(step_index: int, step_count: int) -> int {
    let max_step = if step_count > 0 {
        step_count - 1
    } else {
        0
    };
    let doubled = if 2 * step_index > u32::MAX {
        u32::MAX as int
    } else {
        2 * step_index
    };
    if doubled < max_step {
        doubled
    } else {
        max_step
    }
}

/// The sparse exposure step for bracket step `step_index`.
pub fn sparse_exposure_step(step_index: u32, step_count: u32) -> (r: u32)
    ensures
        r == sparse_step(step_index as int, step_count as int),
{
    let max_step = step_count.saturating_sub(1);
    let doubled = if step_index > u32::MAX / 2 {
        u32::MAX
    } else {
        step_index * 2
    };
    if doubled < max_step {
        doubled
    } else {
        max_step
    }
}

/// Exposure state carried through the scan loop.
#[derive(Debug, Clone, Copy, PartialEq, Eq, Structural)]
pub struct ExposureState {
    pub in_override_mode: bool,
    pub bracketing_enabled: bool,
}

/// What the scan loop does after a decode miss was handled.
#[derive(Debug, Clone, Copy, PartialEq, Eq, Structural)]
pub struct MissResponse {
    /// Switch the camera back to auto exposure.
    pub restore_auto_exposure: bool,
    /// Flush frames once more after restoring auto exposure.
    pub flush_again: bool,
    /// Start the bracket over.
    pub reset_bracket: bool,
    /// Bracketing was turned off because the preview plunged dark.
    pub bracketing_disabled: bool,
}

/// Spec: the state and response after a decode miss. For an advanced step,
/// `plunged` tells whether the frame went dark after the exposure change
/// (mean luma of at least 8 before, under 60% of it after).
pub open spec fn miss_outcome(
    state: ExposureState,
    action: BracketAction,
    step_count: int,
    plunged: bool,
) -> (ExposureState, MissResponse) {
    let none = MissResponse {
        restore_auto_exposure: false,
        flush_again: false,
        reset_bracket: false,
        bracketing_disabled: false,
    };
    match action {
        BracketAction::KeepPrimary => (state, none),
        BracketAction::AdvanceExposureStep { step_index, flush_grabs } => {
            if plunged {
                (
                    ExposureState { in_override_mode: false, bracketing_enabled: false },
                    MissResponse {
                        restore_auto_exposure: true,
                        flush_again: true,
                        reset_bracket: true,
                        bracketing_disabled: true,
                    },
                )
            } else if sparse_step(step_index as int, step_count) >= (if step_count > 0 {
                step_count - 1
            } else {
                0
            }) {
                (
                    ExposureState { in_override_mode: false, ..state },
                    MissResponse { restore_auto_exposure: true, reset_bracket: true, ..none },
                )
            } else {
                (ExposureState { in_override_mode: true, ..state }, none)
            }
        },
        BracketAction::Exhausted => (
            ExposureState { in_override_mode: false, ..state },
            MissResponse { restore_auto_exposure: true, reset_bracket: true, ..none },
        ),
    }
}

/// Decide the exposure state and follow-up work after a decode miss.
pub fn handle_decode_miss(
    state: ExposureState,
    action: BracketAction,
    step_count: u32,
    plunged: bool,
) -> (r: (ExposureState, MissResponse))
    ensures
        r == miss_outcome(state, action, step_count as int, plunged),
{
    let none = MissResponse {
        restore_auto_exposure: false,
        flush_again: false,
        reset_bracket: false,
        bracketing_disabled: false,
    };
    match action {
        BracketAction::KeepPrimary => (state, none),
        BracketAction::AdvanceExposureStep { step_index, flush_grabs } => {
            if plunged {
                (
                    ExposureState { in_override_mode: false, bracketing_enabled: false },
                    MissResponse {
                        restore_auto_exposure: true,
                        flush_again: true,
                        reset_bracket: true,
                        bracketing_disabled: true,
                    },
                )
            } else {
                let step = sparse_exposure_step(step_index, step_count);
                if step >= step_count.saturating_sub(1) {
                    (
                        ExposureState {
                            in_override_mode: false,
                            bracketing_enabled: state.bracketing_enabled,
                        },
                        MissResponse {
                            restore_auto_exposure: true,
                            flush_again: false,
                            reset_bracket: true,
                            bracketing_disabled: false,
                        },
                    )
                } else {
                    (
                        ExposureState {
                            in_override_mode: true,
                            bracketing_enabled: state.bracketing_enabled,
                        },
                        none,
                    )
                }
            }
        },
        BracketAction::Exhausted => (
            ExposureState { in_override_mode: false, bracketing_enabled: state.bracketing_enabled },
            MissResponse {
                restore_auto_exposure: true,
                flush_again: false,
                reset_bracket: true,
                bracketing_disabled: false,
            },
        ),
    }
}

/// Once turned off, bracketing stays off whatever a later miss brings.
pub proof fn law_bracketing_never_reenabled(
    state: ExposureState,
    action: BracketAction,
    step_count: int,
    plunged: bool,
)
    requires
        !state.bracketing_enabled,
    ensures
        !miss_outcome(state, action, step_count, plunged).0.bracketing_enabled,
{
}

/// Whenever auto exposure is restored, the camera leaves override mode and
/// the bracket starts over.
pub proof fn law_restore_leaves_override(
    state: ExposureState,
    action: BracketAction,
    step_count: int,
    plunged: bool,
)
    ensures
        miss_outcome(state, action, step_count, plunged).1.restore_auto_exposure ==> {
            &&& !miss_outcome(state, action, step_count, plunged).0.in_override_mode
            &&& miss_outcome(state, action, step_count, plunged).1.reset_bracket
        },
{
}

/// True when the scan loop should submit a frame: no decode is in flight and
/// the decode interval has elapsed.
pub fn decode_due(decode_in_flight: bool, elapsed_ms: u64, interval_ms: u64) -> (r: bool)
    ensures
        r == (!decode_in_flight && elapsed_ms >= interval_ms),
{
    !decode_in_flight && crate::webcam_preview::should_attempt_decode(elapsed_ms, interval_ms)
}

/// Spec: the error that ends a scan without a decoded code: the timeout
/// when the deadline passed, the closed preview window otherwise.
pub open spec fn scan_end_message(timed_out: bool, timeout_secs: u64) -> Seq<char> {
    if timed_out {
        "webcam capture timed out after "@ + decimal(timeout_secs as nat) + " seconds"@
    } else {
        "webcam preview closed before a QR code was detected"@
    }
}

/// The error that ends a scan without a decoded code: the timeout when the
/// deadline passed, the closed preview window otherwise.
pub fn scan_end_error(timed_out: bool, timeout_secs: u64) -> (r: String)
    ensures
        r@ == scan_end_message(timed_out, timeout_secs),
{
    if timed_out {
        let mut r = "webcam capture timed out after ".to_owned();
        push_decimal(&mut r, timeout_secs);
        r.append(" seconds");
        r
    } else {
        "webcam preview closed before a QR code was detected".to_owned()
    }
}

} // verus!
