//! A verified DNS message codec for single-question IPv4 address queries.
//!
//! The crate builds a DNS query packet from a hostname and a transaction
//! identifier, and extracts the answered IPv4 address from a raw response
//! buffer after validating the transaction identifier and the record type.

use vstd::prelude::*;

pub mod addr;
pub mod decode;
pub mod encode;

verus! {

/// The big-endian 16-bit value held by the first two bytes of a DNS message:
/// its transaction identifier.
pub open spec fn tid_of(msg: Seq<u8>) -> int
    recommends
        msg.len() >= 2,
{
    (msg[0] as int) * 256 + (msg[1] as int)
}

/// Reads the transaction identifier from the first two bytes of a message.
pub fn read_tid(msg: &[u8]) -> (r: u16)
    requires
        msg@.len() >= 2,
    ensures
        r == tid_of(msg@),
{
    let hi: u16 = msg[0] as u16;
    let lo: u16 = msg[1] as u16;
    hi * 256 + lo
}

} // verus!
