//! Deep packet inspection: protocol classification and TLS fingerprints.

pub mod classifier;
pub mod ja3;
pub mod ndpi;
