//! Logging: reading the configured level, and the rotation of log files.

pub mod rotation;
pub mod setup;

pub use setup::{match_level, parse_level, LogLevel};
