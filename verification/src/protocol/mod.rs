//! Protocol layer: frame parsing, ICMP description, TCP stream reassembly.

pub mod icmp;
pub mod parser;
pub mod reassembly;
pub mod tcp;
