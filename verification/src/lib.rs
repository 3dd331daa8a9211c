//! Verified core of the Vision Lab component runtime.

pub mod comm;
pub mod counter;
pub mod frame;
pub mod pgm;
pub mod pixel_convert;
pub mod recorder;
pub mod sim_frame;
pub mod text;
pub mod mirror;
pub mod ordering;
pub mod camera;
pub mod vision;
pub mod native_camera;
pub mod payload;
