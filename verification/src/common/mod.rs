//! Shared types, errors and text helpers.

pub mod address;
pub mod error;
pub mod text;
pub mod types;
pub mod utils;

pub use error::SnifferError;
pub use types::{Direction, FiveTuple, IpAddr, PacketInfo, Protocol};
