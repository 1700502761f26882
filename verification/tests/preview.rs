use visioflow_cli::commands::capture::PreviewPosition;
use visioflow_cli::preview_overlay::{
    blend_pixel_percent, draw_preview_status_overlay, overlay_scale_for_height,
};
use visioflow_cli::screen_bounds::{anchored_window_position, ScreenBounds};
use visioflow_cli::webcam_preview::{
    decode_interval_from_ms, downscale_rgb_to_minifb_buffer, preview_dimensions,
    rgb_to_preview_buffer, rgb_to_preview_buffer_into, should_attempt_decode,
    DEFAULT_DECODE_INTERVAL_MS,
};

#[test]
fn screen_bounds_stores_work_area_offset() {
    let bounds = ScreenBounds {
        x: 0,
        y: 48,
        width: 1536,
        height: 816,
    };
    assert_eq!(bounds.width, 1536);
    assert_eq!(bounds.height, 816);
}

#[test]
fn bottom_center_anchor_maps_to_expected_position() {
    let bounds = ScreenBounds {
        x: 0,
        y: 0,
        width: 1920,
        height: 1080,
    };
    let (x, y) = anchored_window_position(&bounds, 640, 360, PreviewPosition::BottomCenter);
    assert_eq!(x, 640);
    assert_eq!(y, 720);
}

#[test]
fn anchored_position_clamps_when_window_exceeds_work_area() {
    let bounds = ScreenBounds {
        x: 0,
        y: 48,
        width: 800,
        height: 600,
    };
    let (x, y) = anchored_window_position(&bounds, 900, 700, PreviewPosition::BottomRight);
    assert_eq!(x, 0);
    assert_eq!(y, 48);
}

#[test]
fn anchored_position_honors_work_area_offset() {
    let bounds = ScreenBounds {
        x: 0,
        y: 48,
        width: 1536,
        height: 816,
    };
    let (x, y) = anchored_window_position(&bounds, 640, 400, PreviewPosition::TopLeft);
    assert_eq!(x, 0);
    assert_eq!(y, 48);
}

#[test]
fn anchored_position_keeps_fitting_windows_inside() {
    let bounds = ScreenBounds {
        x: -100,
        y: 20,
        width: 1001,
        height: 501,
    };
    for anchor in [
        PreviewPosition::TopLeft,
        PreviewPosition::TopCenter,
        PreviewPosition::TopRight,
        PreviewPosition::CenterLeft,
        PreviewPosition::Center,
        PreviewPosition::CenterRight,
        PreviewPosition::BottomLeft,
        PreviewPosition::BottomCenter,
        PreviewPosition::BottomRight,
    ] {
        let (x, y) = anchored_window_position(&bounds, 300, 200, anchor);
        assert!(x >= -100 && x + 300 <= 901);
        assert!(y >= 20 && y + 200 <= 521);
    }
    assert_eq!(
        anchored_window_position(&bounds, 300, 200, PreviewPosition::Center),
        (250, 170)
    );
    assert_eq!(
        anchored_window_position(&bounds, 300, 200, PreviewPosition::TopRight),
        (601, 20)
    );
}

#[test]
fn preview_dimensions_scales_1080p_to_640_wide() {
    assert_eq!(preview_dimensions(1920, 1080, 640), (640, 360));
}

#[test]
fn preview_dimensions_keeps_small_frames() {
    assert_eq!(preview_dimensions(320, 240, 640), (320, 240));
}

#[test]
fn preview_dimensions_rounds_and_handles_empty_frames() {
    assert_eq!(preview_dimensions(0, 10, 640), (1, 1));
    assert_eq!(preview_dimensions(10, 0, 640), (1, 1));
    assert_eq!(preview_dimensions(1000, 3, 100), (100, 1));
    assert_eq!(preview_dimensions(1000, 1, 100), (100, 1));
    assert_eq!(preview_dimensions(1000, 15, 100), (100, 2));
}

#[test]
fn rgb_to_preview_buffer_packs_pixels() {
    let buffer = rgb_to_preview_buffer(&[255, 128, 0], 1, 1);
    assert_eq!(buffer, vec![0x00_FF_80_00]);
}

#[test]
fn rgb_to_preview_buffer_pads_missing_pixels_with_black() {
    let mut out = vec![7u32; 5];
    rgb_to_preview_buffer_into(&[1, 2, 3, 4, 5], 2, 2, &mut out);
    assert_eq!(out, vec![0x00_01_02_03, 0, 0, 0]);
}

#[test]
fn downscale_rgb_to_minifb_buffer_samples_top_left_pixel() {
    let src = vec![255u8, 0, 0, 0, 255, 0, 0, 0, 255, 255, 255, 0];
    let mut out = Vec::new();
    downscale_rgb_to_minifb_buffer(&src, 2, 2, 1, 1, &mut out);
    assert_eq!(out, vec![0x00_FF_00_00]);
}

#[test]
fn downscale_same_size_copies_and_empty_is_black() {
    let src = vec![1u8, 2, 3, 4, 5, 6];
    let mut out = Vec::new();
    downscale_rgb_to_minifb_buffer(&src, 2, 1, 2, 1, &mut out);
    assert_eq!(out, rgb_to_preview_buffer(&src, 2, 1));
    downscale_rgb_to_minifb_buffer(&src, 0, 1, 2, 2, &mut out);
    assert_eq!(out, vec![0, 0, 0, 0]);
    let src4: Vec<u8> = (0..12).collect();
    downscale_rgb_to_minifb_buffer(&src4, 4, 1, 2, 1, &mut out);
    assert_eq!(out, vec![0x00_00_01_02, 0x00_06_07_08]);
}

#[test]
fn should_attempt_decode_after_interval_elapses() {
    let interval = decode_interval_from_ms(DEFAULT_DECODE_INTERVAL_MS);
    assert!(should_attempt_decode(interval, interval));
    assert!(!should_attempt_decode(50, interval));
}

#[test]
fn decode_interval_is_clamped() {
    assert_eq!(decode_interval_from_ms(0), 50);
    assert_eq!(decode_interval_from_ms(100), 100);
    assert_eq!(decode_interval_from_ms(5000), 2000);
}

#[test]
fn overlay_leaves_top_row_untouched() {
    let width = 80;
    let height = 40;
    let mut buffer = vec![0x00_FF_00_00; (width * height) as usize];
    draw_preview_status_overlay(&mut buffer, width, height, true);
    assert_eq!(buffer[0], 0x00_FF_00_00);
}

#[test]
fn overlay_darkens_bottom_band() {
    let width = 80;
    let height = 40;
    let mut buffer = vec![0x00_FF_FF_FF; (width * height) as usize];
    draw_preview_status_overlay(&mut buffer, width, height, true);
    let bottom_left = buffer[((height - 1) * width) as usize];
    assert_ne!(bottom_left, 0x00_FF_FF_FF);
    assert_eq!(bottom_left, blend_pixel_percent(0x00_FF_FF_FF, 0, 0, 0, 55));
}

#[test]
fn overlay_leaves_short_buffers_alone() {
    let mut buffer = vec![0x00_12_34_56; 10];
    draw_preview_status_overlay(&mut buffer, 80, 40, false);
    assert_eq!(buffer, vec![0x00_12_34_56; 10]);
}

#[test]
fn overlay_draws_text_pixels_brighter_than_panel() {
    let width = 200;
    let height = 40;
    let mut buffer = vec![0u32; (width * height) as usize];
    draw_preview_status_overlay(&mut buffer, width, height, true);
    let lit = buffer.iter().filter(|&&p| p != 0).count();
    assert!(lit > 0);
}

#[test]
fn overlay_scale_uses_two_on_tall_previews() {
    assert_eq!(overlay_scale_for_height(239), 1);
    assert_eq!(overlay_scale_for_height(240), 2);
}

#[test]
fn blend_pixel_halves_white_to_gray() {
    assert_eq!(blend_pixel_percent(0x00_FF_FF_FF, 0, 0, 0, 50), 0x00_80_80_80);
    assert_eq!(blend_pixel_percent(0x00_10_20_30, 255, 255, 255, 0), 0x00_10_20_30);
    assert_eq!(blend_pixel_percent(0x00_10_20_30, 1, 2, 3, 100), 0x00_01_02_03);
}

#[test]
fn downscale_by_whole_factors_samples_block_corners() {
    // 4 x 2 source, pixel (x, y) = (10 * x + y, 0, 0); halve both sides.
    let mut src = Vec::new();
    for y in 0..2u8 {
        for x in 0..4u8 {
            src.extend_from_slice(&[10 * x + y, 0, 0]);
        }
    }
    let mut out = Vec::new();
    downscale_rgb_to_minifb_buffer(&src, 4, 2, 2, 1, &mut out);
    assert_eq!(out, vec![0x00_0000, 20 << 16]);
    let mut same = Vec::new();
    downscale_rgb_to_minifb_buffer(&src, 4, 2, 4, 2, &mut same);
    assert_eq!(same[5], 11 << 16);
}
