//! Verified core of a status-bar telemetry library.
//!
//! The crate parses kernel-exposed text formats (CPU accounting lines,
//! memory accounting blobs, sysfs sensor files), normalizes raw readings
//! into comparable values, and carries out sensor discovery and selection
//! over scan data handed in by a thin unverified I/O shell.

pub mod battery;
pub mod catalog;
pub mod config;
pub mod cpu;
pub mod error;
pub mod hwmon;
pub mod items;
pub mod lm_sensors;
pub mod mem;
pub mod temp;
pub mod thermal;
pub mod text;
