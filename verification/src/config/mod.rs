//! Configuration: the settings, their defaults and the layering rules.

pub mod loader;
pub mod settings;

pub use settings::{CaptureConfig, LoggingConfig, Settings, StorageConfig};
