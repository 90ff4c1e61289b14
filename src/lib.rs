//! Streaming disk-image flashing: format detection, image size inference,
//! sparse fan-out planning, durability cadence and shared progress figures.
pub mod header;
pub mod format;
pub mod progress;
pub mod stream;
pub mod text;
pub mod device;
