//! Capture-format negotiation and pixel transcoding for camera frames.
pub mod error;
pub mod format_request;
pub mod frame_format;
pub mod pixel_format;
pub mod properties;
pub mod types;
pub mod utils;
