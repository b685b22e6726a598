//! The capability a transport offers, and the framings of the two kinds of
//! transport.

pub mod hid;
pub mod tcp;

use crate::apdu::{ApduAnswer, ApduCommand};
use crate::error::TransportError;
use vstd::prelude::*;
use vstd::string::*;

verus! {

/// Delivers one command and returns one response. A transport can be
/// shared between threads: it keeps its handle to itself for the length of
/// one exchange.
///
/// Nothing is promised of an implementation: what is verified above a
/// transport holds for whatever it answers.
pub trait Transport: Send + Sync {
    fn exchange(&self, command: &ApduCommand) -> Result<ApduAnswer, TransportError>;

    /// Drops the current connection and opens a fresh one. Unless a
    /// transport says otherwise, it cannot: then this reports a
    /// communication error that says so.
    fn reconnect(&self) -> (r: Result<(), TransportError>)
        default_ensures
            r matches Err(TransportError::Comm(msg)) && msg@ == "reconnect not supported"@,
    {
        Err(TransportError::Comm("reconnect not supported".to_string()))
    }
}

/// Which transport to open.
#[derive(Debug, Clone)]
#[non_exhaustive]
pub enum TransportType {
    NativeHID,
    /// `(host, port)` of the simulator.
    TCP(String, u16),
}

} // verus!
