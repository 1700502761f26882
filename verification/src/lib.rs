//! Payload routing helpers for the VisioFlow command line: toast notifications,
//! rule configuration, capture routing decisions and preview-window geometry.

pub mod capture;
pub mod clipboard_files;
pub mod clipboard_image;
pub mod commands;
pub mod exposure_control;
pub mod keyed;
pub mod notifications;
pub mod numbers;
pub mod paths;
pub mod preview_overlay;
pub mod screen_bounds;
pub mod text;
pub mod toast_scripts;
pub mod webcam_preview;
pub mod webcam_session;
