use visioflow_cli::capture::FileFrameSource;
use visioflow_cli::clipboard_files::read_clipboard_file_paths;
use visioflow_cli::clipboard_image::{check_clipboard_image_size, rgba_to_clipboard_bytes};
use visioflow_cli::commands::capture::ExposureBracketMode;
use visioflow_cli::exposure_control::{
    control_kind_label, integer_control_range, is_supported, latch_manual, manual_back_to_auto,
    settle_manual_value, ExposureControlKind, ManualRelativeState,
};
use visioflow_cli::webcam_session::{
    bgr_to_rgb, decode_due, handle_decode_miss, resolve_bracketing_enabled, scan_end_error,
    sparse_exposure_step,
    BracketAction, ExposureState, WebcamTiming, DEFAULT_WEBCAM_TIMEOUT_SECS,
};

#[test]
fn default_webcam_timeout_is_twenty_seconds() {
    assert_eq!(DEFAULT_WEBCAM_TIMEOUT_SECS, 20);
}

#[test]
fn webcam_timing_defaults_match_fast_profile() {
    let timing = WebcamTiming::defaults();
    assert_eq!(timing.exposure_step_ms, 100);
    assert_eq!(timing.flush_grabs, 2);
    assert_eq!(timing.decode_interval_ms, 100);
    let bracket = timing.bracket_config();
    assert_eq!(bracket.primary_timeout_ms, 100);
    assert_eq!(bracket.flush_grabs, 2);
}

#[test]
fn webcam_timing_clamps_out_of_range_values() {
    let timing = WebcamTiming::from_ms(10, 0, 5_000);
    assert_eq!(timing.exposure_step_ms, 50);
    assert_eq!(timing.flush_grabs, 1);
    assert_eq!(timing.decode_interval_ms, 2_000);
    let timing = WebcamTiming::from_ms(9_000, 99, 10);
    assert_eq!(timing.exposure_step_ms, 2_000);
    assert_eq!(timing.flush_grabs, 30);
    assert_eq!(timing.decode_interval_ms, 50);
}

#[test]
fn bgr_to_rgb_swaps_channels() {
    assert_eq!(bgr_to_rgb(&[1, 2, 3]), vec![3, 2, 1]);
    assert_eq!(bgr_to_rgb(&[1, 2, 3, 4, 5, 6, 7]), vec![3, 2, 1, 6, 5, 4]);
}

#[test]
fn bracketing_and_decode_miss_decisions() {
    assert!(resolve_bracketing_enabled(ExposureBracketMode::On, false));
    assert!(!resolve_bracketing_enabled(ExposureBracketMode::Off, true));
    assert!(resolve_bracketing_enabled(ExposureBracketMode::Auto, true));
    assert_eq!(sparse_exposure_step(3, 10), 6);
    assert_eq!(sparse_exposure_step(7, 10), 9);
    assert_eq!(sparse_exposure_step(0, 0), 0);
    let state = ExposureState {
        in_override_mode: false,
        bracketing_enabled: true,
    };
    let (next, response) = handle_decode_miss(
        state,
        BracketAction::AdvanceExposureStep {
            step_index: 1,
            flush_grabs: 2,
        },
        10,
        false,
    );
    assert!(next.in_override_mode && next.bracketing_enabled);
    assert!(!response.restore_auto_exposure);
    let (next, response) = handle_decode_miss(
        state,
        BracketAction::AdvanceExposureStep {
            step_index: 1,
            flush_grabs: 2,
        },
        10,
        true,
    );
    assert!(!next.bracketing_enabled && response.bracketing_disabled);
    let (next, response) = handle_decode_miss(state, BracketAction::Exhausted, 10, false);
    assert!(!next.in_override_mode && response.reset_bracket);
    let (next, response) = handle_decode_miss(state, BracketAction::KeepPrimary, 10, false);
    assert_eq!(next, state);
    assert!(!response.reset_bracket);
    assert!(decode_due(false, 100, 100));
    assert!(!decode_due(true, 100, 100));
}

#[test]
fn unsupported_controller_has_no_kind() {
    assert!(!is_supported(ExposureControlKind::NoControl));
    assert_eq!(control_kind_label(ExposureControlKind::NoControl), "none");
    assert_eq!(control_kind_label(ExposureControlKind::EvComp), "ev_comp");
    assert!(is_supported(ExposureControlKind::ManualRelative));
}

#[test]
fn manual_exposure_latches_and_steps() {
    assert_eq!(integer_control_range(100, 0), (88, 112, 1, 100));
    assert_eq!(integer_control_range(-5, 2), (-29, 19, 2, -5));
    let state = ManualRelativeState {
        use_gain: false,
        min: 0,
        max: 100,
        step: 1,
        last_applied: None,
        in_manual: false,
    };
    let (latched, switch) = latch_manual(state, 40);
    assert!(switch && latched.in_manual);
    assert_eq!(latched.last_applied, Some(40));
    let (same, changed) = settle_manual_value(latched, 40);
    assert!(!changed);
    assert_eq!(same, latched);
    let (moved, changed) = settle_manual_value(latched, 45);
    assert!(changed);
    assert_eq!(moved.last_applied, Some(45));
    let (back, restore) = manual_back_to_auto(moved);
    assert!(restore && !back.in_manual && back.last_applied.is_none());
}

#[test]
fn rgba_to_clipboard_bytes_uses_platform_order() {
    let bytes = rgba_to_clipboard_bytes(&[10, 20, 30, 255], false);
    assert_eq!(bytes, vec![10, 20, 30, 255]);
    let bytes = rgba_to_clipboard_bytes(&[10, 20, 30, 255], true);
    assert_eq!(bytes, vec![30, 20, 10, 255]);
}

#[test]
fn clipboard_image_needs_pixels() {
    assert_eq!(
        check_clipboard_image_size(0, 4),
        Err("cannot copy empty image to clipboard".to_owned())
    );
    assert!(check_clipboard_image_size(1, 1).is_ok());
}

#[test]
fn read_clipboard_file_paths_returns_vec_on_all_platforms() {
    let _paths = read_clipboard_file_paths();
}

#[test]
fn file_frame_source_keeps_its_path() {
    let source = FileFrameSource::new("fixtures/qr.png".to_owned());
    assert_eq!(source.path(), "fixtures/qr.png");
}

#[test]
fn scan_end_error_names_timeout_or_closed_window() {
    assert_eq!(scan_end_error(true, 30), "webcam capture timed out after 30 seconds");
    assert_eq!(scan_end_error(true, 0), "webcam capture timed out after 0 seconds");
    assert_eq!(
        scan_end_error(false, 30),
        "webcam preview closed before a QR code was detected"
    );
}
