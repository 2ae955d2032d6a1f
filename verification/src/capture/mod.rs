//! Capture layer: interface selection and the capture engine's decisions.

pub mod interface;
pub mod sniffer;

pub use interface::{select_interface, InterfaceError, InterfaceInfo};
pub use sniffer::{CaptureConfig, CaptureStats, Sniffer};
