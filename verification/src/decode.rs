//! Extracting the answered IPv4 address from a raw DNS response buffer.
//!
//! The decoder assumes the fixed response shape the matching query provokes:
//! the 12-byte header, the echoed question (name of `hostname length + 2`
//! bytes, then type and class), and one answer record whose preamble is a
//! 2-byte compressed-name pointer, 2-byte type, 2-byte class, 4-byte
//! time-to-live and 2-byte data length, after which the 4 address octets
//! begin.

use crate::addr::ResolvedAddress;
use vstd::prelude::*;
use vstd::slice::slice_index_get;

verus! {

/// Why a response buffer could not be decoded.
#[derive(Clone, Copy, Debug, PartialEq, Eq, Structural)]
pub enum DecodeError {
    /// The buffer ends before the bytes the fixed offsets reach.
    TooShort,
}

/// Byte position of the answer record inside a response to a query for a
/// hostname of `hostname_len` bytes: the 12-byte header, the echoed
/// question name of `hostname_len + 2` bytes, and 4 bytes of question type
/// and class.
pub open spec fn answer_offset(hostname_len: int) -> int {
    12 + (hostname_len + 2) + 4
}

/// The buffer covers every byte the decoder reads: through the 4 address
/// octets that follow the 12-byte answer-record preamble.
pub open spec fn covers_answer(buf: Seq<u8>, hostname_len: int) -> bool {
    buf.len() >= answer_offset(hostname_len) + 16
}

/// The answer record's type field holds 0x0001, the address-record type.
pub open spec fn answer_is_address(buf: Seq<u8>, hostname_len: int) -> bool
    recommends
        covers_answer(buf, hostname_len),
{
    &&& buf[answer_offset(hostname_len) + 2] == 0x00u8
    &&& buf[answer_offset(hostname_len) + 3] == 0x01u8
}

/// The four address octets of the answer record, in order.
pub open spec fn answer_address(buf: Seq<u8>, hostname_len: int) -> ResolvedAddress
    recommends
        covers_answer(buf, hostname_len),
{
    ResolvedAddress {
        octet0: buf[answer_offset(hostname_len) + 12],
        octet1: buf[answer_offset(hostname_len) + 13],
        octet2: buf[answer_offset(hostname_len) + 14],
        octet3: buf[answer_offset(hostname_len) + 15],
    }
}

/// What decoding yields for each response buffer: a buffer too short even
/// for the leading identifier is a decode error; a mismatched identifier is
/// discarded as "no result" before any offset is computed; a trusted
/// response that ends before the bytes the fixed offsets reach is a decode
/// error; a record of a type other than the address record yields no
/// result; otherwise the four address octets are extracted.
pub open spec fn decode_spec(buf: Seq<u8>, tid: u16, hostname_len: int) -> Result<
    Option<ResolvedAddress>,
    DecodeError,
> {
    if buf.len() < 2 {
        Err(DecodeError::TooShort)
    } else if crate::tid_of(buf) != tid {
        Ok(None)
    } else if !covers_answer(buf, hostname_len) {
        Err(DecodeError::TooShort)
    } else if !answer_is_address(buf, hostname_len) {
        Ok(None)
    } else {
        Ok(Some(answer_address(buf, hostname_len)))
    }
}

/// Decodes a response to a query sent with transaction identifier `tid` for
/// a hostname of `hostname_len` bytes.
///
/// A response whose leading identifier differs from `tid` is untrusted and
/// yields no result before any offset is computed; so does one whose answer
/// record is not of the address type. A trusted response that ends before
/// the bytes the fixed offsets reach is a decode error; no byte outside the
/// buffer is ever read.
pub fn decode_response(buf: &[u8], tid: u16, hostname_len: usize) -> (r: Result<
    Option<ResolvedAddress>,
    DecodeError,
>)
    ensures
        r == decode_spec(buf@, tid, hostname_len as int),
{
    if buf.len() < 2 {
        return Err(DecodeError::TooShort);
    }
    let rtid = crate::read_tid(buf);
    if rtid != tid {
        return Ok(None);
    }
    if buf.len() < 34 || hostname_len > buf.len() - 34 {
        return Err(DecodeError::TooShort);
    }
    let off = 12 + (hostname_len + 2) + 4;
    if !(*slice_index_get(buf, off + 2) == 0x00 && *slice_index_get(buf, off + 3) == 0x01) {
        return Ok(None);
    }
    Ok(
        Some(
            ResolvedAddress {
                octet0: *slice_index_get(buf, off + 12),
                octet1: *slice_index_get(buf, off + 13),
                octet2: *slice_index_get(buf, off + 14),
                octet3: *slice_index_get(buf, off + 15),
            },
        ),
    )
}

/// Law: a query echoed back unchanged round-trips the transaction
/// identifier check. Under the identifier it was built with, the echo is
/// never discarded as untrusted: it passes the check and fails only later,
/// as the too-short decode error, because a bare query holds no answer
/// record. Under every other identifier it is discarded as "no result",
/// with no offset math on the untrusted bytes.
pub proof fn lemma_query_echo_round_trip(host: Seq<u8>, tid: u16, other: u16)
    ensures
        crate::tid_of(crate::encode::query_bytes(host, tid)) == tid,
        decode_spec(crate::encode::query_bytes(host, tid), tid, host.len() as int) == Err::<
            Option<ResolvedAddress>,
            DecodeError,
        >(DecodeError::TooShort),
        other != tid ==> decode_spec(crate::encode::query_bytes(host, tid), other, host.len() as int)
            == Ok::<Option<ResolvedAddress>, DecodeError>(None),
{
    crate::encode::lemma_query_tid_round_trip(host, tid, other);
    crate::encode::lemma_encoded_name_len(host);
    assert(crate::encode::query_bytes(host, tid).len() == host.len() + 18);
}

} // verus!
