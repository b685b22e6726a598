//! Framing for the simulator's byte stream.
//!
//! A command is sent as `[u32 big-endian length][command]`. A response
//! comes as `[u32 big-endian length][payload]`, followed by two bare bytes:
//! the status word, outside the length-prefixed frame.

use crate::apdu::ApduAnswer;
use crate::error::TransportError;
use crate::text::{decimal, push_decimal};
use vstd::prelude::*;
use vstd::string::*;

verus! {

/// The simulator's default host.
pub const DEFAULT_HOST: &'static str = "127.0.0.1";

/// The simulator's default port.
pub const DEFAULT_PORT: u16 = 9999;

/// Seconds to wait for each read.
pub const READ_TIMEOUT_SECS: u64 = 30;

/// Longest payload accepted in a response.
pub const MAX_RESPONSE_LEN: u32 = 65536;

/// The four low bytes of `v`, most significant first.
pub open spec fn be_bytes_4(v: nat) -> Seq<u8> {
    seq![
        ((v / 16777216) % 256) as u8,
        ((v / 65536) % 256) as u8,
        ((v / 256) % 256) as u8,
        (v % 256) as u8,
    ]
}

/// The number that four bytes stand for, most significant first.
pub open spec fn be_value_4(b: Seq<u8>) -> nat {
    (b[0] as nat) * 16777216 + (b[1] as nat) * 65536 + (b[2] as nat) * 256 + (b[3] as nat)
}

/// What is sent for a command: its length in four big-endian bytes, then
/// the command.
pub fn frame_request(apdu: &[u8]) -> (frame: Vec<u8>)
    ensures
        frame@ == be_bytes_4(apdu@.len()) + apdu@,
{
    let len = apdu.len();
    let mut frame: Vec<u8> = Vec::new();
    frame.push(((len / 16777216) % 256) as u8);
    frame.push(((len / 65536) % 256) as u8);
    frame.push(((len / 256) % 256) as u8);
    frame.push((len % 256) as u8);
    frame.extend_from_slice(apdu);
    assert(frame@ =~= be_bytes_4(apdu@.len()) + apdu@);
    frame
}

/// The message for a response that claims too long a payload.
pub open spec fn too_large_text(len: nat) -> Seq<char> {
    "response too large: "@ + decimal(len) + " bytes (max 65536)"@
}

/// Reads the length prefix of a response. A payload of more than 65 536
/// bytes is refused.
pub fn response_length(prefix: &[u8; 4]) -> (r: Result<usize, TransportError>)
    ensures
        match r {
            Ok(len) => len == be_value_4(prefix@) && len <= 65536,
            Err(e) => be_value_4(prefix@) > 65536 && (e matches TransportError::Comm(msg) && msg@
                == too_large_text(be_value_4(prefix@))),
        },
{
    let len: u32 = (prefix[0] as u32) * 16777216 + (prefix[1] as u32) * 65536 + (prefix[2] as u32)
        * 256 + (prefix[3] as u32);
    if len > MAX_RESPONSE_LEN {
        let mut msg = "response too large: ".to_string();
        push_decimal(&mut msg, len as u64);
        msg.append(" bytes (max 65536)");
        return Err(TransportError::Comm(msg));
    }
    Ok(len as usize)
}

/// Puts the framed payload and the bare status word together as one
/// response.
pub fn join_response(payload: Vec<u8>, status: &[u8; 2]) -> (answer: ApduAnswer)
    ensures
        answer@ == payload@ + status@,
{
    let mut raw = payload;
    raw.extend_from_slice(status.as_slice());
    ApduAnswer::from_raw(raw)
}

} // verus!
