//! Core of a fragmented-MP4 / DASH player: box walking over ISO-BMFF bytes,
//! segment sample tables, demuxing into timestamped samples, a sample queue
//! with keyframe seeking, and DASH manifest reading.

pub mod bytes;
pub mod text;
pub mod fmp4;
pub mod segment;
pub mod sample_buffer;
pub mod demuxer;
pub mod manifest;
pub mod loader;
