//! The nDPI engine handle.
//!
//! The engine has no nDPI library behind it yet: every packet it inspects is
//! reported as an unknown protocol.

use vstd::prelude::*;
use vstd::string::*;
use crate::common::types::FiveTuple;

verus! {

/// An nDPI detection engine.
#[derive(Debug)]
pub struct NdpiDpiEngine {
    _placeholder: (),
}

impl NdpiDpiEngine {
    /// Creates the engine; creation always succeeds.
    pub fn new() -> (res: Result<Self, String>)
        ensures
            res is Ok,
    {
        Ok(NdpiDpiEngine { _placeholder: () })
    }

    /// The application protocol detected in a packet of `flow`: without an
    /// nDPI library behind the engine, always "Unknown".
    pub fn detect_app_protocol(&mut self, packet: &[u8], flow: &FiveTuple) -> (p: String)
        ensures
            p@ == "Unknown"@,
    {
        String::from_str("Unknown")
    }

    /// Forgets the state kept for the current flow (there is none).
    pub fn reset(&mut self)
        ensures
            *final(self) == *old(self),
    {
    }
}

} // verus!
