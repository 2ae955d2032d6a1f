//! RustSniffer core library: packet parsing, TLS fingerprinting, flow
//! reassembly, classification, capture decisions, configuration rules and
//! storage encodings, each with a verified contract.

pub mod capture;
pub mod cli;
pub mod common;
pub mod config;
pub mod dpi;
pub mod logging;
pub mod protocol;
pub mod storage;
