//! Colour-marker detection core: frame geometry, a latest-frame holder,
//! threshold configuration, HSV band masking, per-contour region
//! measurement, the detection cadence and the published result list.

pub mod config;
pub mod engine;
pub mod frame;
pub mod mask;
pub mod region;

pub use config::{DetectionConfig, HUE_MAX};
pub use engine::{
    frame_rows, DetectionResults, DetectionSchedule, EngineAction, DETECTION_INTERVAL_MS,
};
pub use frame::{frame_height, frame_used_len, FrameBuffer};
pub use mask::{threshold_mask, MASK_OFF, MASK_ON};
pub use region::{
    detect_regions, region_of_contour, DetectedRegion, Point, RegionView, MAX_CONTOUR_POINTS,
};
