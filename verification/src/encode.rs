//! Building a DNS query message from a hostname.
//!
//! The wire layout is: a 12-byte header (transaction identifier, flags for a
//! standard recursive query, one question, no records), the question name as
//! length-prefixed labels ended by a zero-length label, then query type 1
//! (address record) and query class 1 (Internet), all big-endian.

use rand::Rng;
use vstd::prelude::*;
use vstd::slice::slice_index_get;

verus! {

/// The byte that separates labels in a dotted hostname: `.`
pub const DOT: u8 = 46;

/// Number of bytes before the first dot of `host`; the whole length if no
/// dot occurs.
pub open spec fn first_label_len(host: Seq<u8>) -> int
    decreases host.len(),
{
    if host.len() == 0 {
        0
    } else if host[0] == DOT {
        0
    } else {
        1 + first_label_len(host.skip(1))
    }
}

/// The first label runs from the start of the hostname to its first dot,
/// or to the end when no dot occurs.
pub proof fn lemma_first_label_len(host: Seq<u8>)
    ensures
        0 <= first_label_len(host) <= host.len(),
        first_label_len(host) < host.len() ==> host[first_label_len(host)] == DOT,
        forall|i: int| 0 <= i < first_label_len(host) ==> host[i] != DOT,
    decreases host.len(),
{
    if host.len() > 0 && host[0] != DOT {
        lemma_first_label_len(host.skip(1));
        assert forall|i: int| 0 <= i < first_label_len(host) implies host[i] != DOT by {
            if i > 0 {
                assert(host.skip(1)[i - 1] == host[i]);
            }
        }
        if first_label_len(host) < host.len() {
            assert(host.skip(1)[first_label_len(host) - 1] == host[first_label_len(host)]);
        }
    }
}

/// The hostname split at the dots, in order; a hostname without dots is one
/// label, and empty segments count as empty labels.
pub open spec fn labels_of(host: Seq<u8>) -> Seq<Seq<u8>>
    decreases host.len(),
{
    let n = first_label_len(host);
    if 0 <= n < host.len() && host[n] == DOT {
        seq![host.take(n)] + labels_of(host.skip(n + 1))
    } else {
        seq![host]
    }
}

/// Every label of the hostname fits the one-byte length prefix: at most 63
/// bytes.
pub open spec fn labels_ok(host: Seq<u8>) -> bool
    decreases host.len(),
{
    let n = first_label_len(host);
    if 0 <= n < host.len() && host[n] == DOT {
        n <= 63 && labels_ok(host.skip(n + 1))
    } else {
        host.len() <= 63
    }
}

/// The encoded question name: each label preceded by its length byte, the
/// whole ended by a zero-length label.
pub open spec fn encoded_name(host: Seq<u8>) -> Seq<u8>
    decreases host.len(),
{
    let n = first_label_len(host);
    if 0 <= n < host.len() && host[n] == DOT {
        seq![n as u8] + host.take(n) + encoded_name(host.skip(n + 1))
    } else {
        seq![host.len() as u8] + host + seq![0u8]
    }
}

/// The fixed 12-byte query header for transaction identifier `tid`: the
/// identifier big-endian, flags 0x0100 (standard query, recursion desired),
/// question count 1, and zero answer, authority and additional counts.
pub open spec fn header_bytes(tid: u16) -> Seq<u8> {
    seq![
        (tid / 256) as u8,
        (tid % 256) as u8,
        0x01u8,
        0x00u8,
        0x00u8,
        0x01u8,
        0x00u8,
        0x00u8,
        0x00u8,
        0x00u8,
        0x00u8,
        0x00u8,
    ]
}

/// The complete query message: header, encoded question name, query type 1
/// and query class 1.
pub open spec fn query_bytes(host: Seq<u8>, tid: u16) -> Seq<u8> {
    header_bytes(tid) + encoded_name(host) + seq![0x00u8, 0x01u8, 0x00u8, 0x01u8]
}

/// A scan that saw no dot before position `k`, and a dot (or the end) at
/// `k`, has found the first label's length.
pub proof fn lemma_first_label_len_is(host: Seq<u8>, k: int)
    requires
        0 <= k <= host.len(),
        forall|i: int| 0 <= i < k ==> host[i] != DOT,
        k < host.len() ==> host[k] == DOT,
    ensures
        first_label_len(host) == k,
    decreases host.len(),
{
    if k > 0 {
        assert forall|i: int| 0 <= i < k - 1 implies host.skip(1)[i] != DOT by {
            assert(host.skip(1)[i] == host[i + 1]);
        }
        assert(k - 1 < host.skip(1).len() ==> host.skip(1)[k - 1] == DOT);
        lemma_first_label_len_is(host.skip(1), k - 1);
    }
}

/// The total byte length of a name built from these labels: one length
/// prefix per label plus the label bytes, without the terminator.
pub open spec fn name_len_sum(labels: Seq<Seq<u8>>) -> int
    decreases labels.len(),
{
    if labels.len() == 0 {
        0
    } else {
        labels[0].len() + 1 + name_len_sum(labels.skip(1))
    }
}

/// The encoded question name is one length byte per label, the label bytes,
/// and the final zero-length terminator; summed, that is always exactly the
/// hostname's length plus two, however many labels the hostname has, since
/// each dot is replaced by a length byte and only the leading length byte
/// and the terminator are added.
pub proof fn lemma_encoded_name_len(host: Seq<u8>)
    ensures
        encoded_name(host).len() == name_len_sum(labels_of(host)) + 1,
        encoded_name(host).len() == host.len() + 2,
    decreases host.len(),
{
    let n = first_label_len(host);
    if 0 <= n < host.len() && host[n] == DOT {
        lemma_encoded_name_len(host.skip(n + 1));
        assert(labels_of(host)[0] == host.take(n));
        assert(labels_of(host).skip(1) =~= labels_of(host.skip(n + 1)));
        assert(name_len_sum(labels_of(host)) == n + 1 + name_len_sum(labels_of(host.skip(n + 1))));
    } else {
        lemma_first_label_len(host);
        assert(labels_of(host).skip(1) =~= Seq::<Seq<u8>>::empty());
        assert(name_len_sum(Seq::<Seq<u8>>::empty()) == 0);
        assert(name_len_sum(labels_of(host)) == host.len() + 1);
    }
}

/// Why a hostname was rejected at encode time.
#[derive(Clone, Copy, Debug, PartialEq, Eq, Structural)]
pub enum EncodeError {
    /// A label is longer than the 63 bytes a one-byte length prefix allows.
    LabelTooLong,
}

/// Appends the encoding of the labels of `host[start..]` to `query`,
/// terminator included, scanning label by label.
fn push_name(query: &mut Vec<u8>, host: &[u8], start: usize) -> (r: Result<(), EncodeError>)
    requires
        start <= host@.len(),
    ensures
        r is Ok <==> labels_ok(host@.skip(start as int)),
        r is Ok ==> final(query)@ == old(query)@ + encoded_name(host@.skip(start as int)),
    decreases host@.len() - start,
{
    let ghost rest = host@.skip(start as int);
    let mut end: usize = start;
    while end < host.len() && *slice_index_get(host, end) != DOT
        invariant
            start <= end <= host@.len(),
            forall|i: int| start <= i < end ==> host@[i] != DOT,
        decreases host@.len() - end,
    {
        end = end + 1;
    }
    proof {
        assert forall|i: int| 0 <= i < end - start implies rest[i] != DOT by {
            assert(rest[i] == host@[start + i]);
        }
        assert(end < host@.len() ==> rest[end - start] == host@[end as int]);
        lemma_first_label_len_is(rest, end - start);
    }
    let n = end - start;
    if n > 63 {
        return Err(EncodeError::LabelTooLong);
    }
    query.push(n as u8);
    let mut i: usize = start;
    while i < end
        invariant
            start <= i <= end <= host@.len(),
            end - start <= 63,
            query@ == old(query)@ + seq![(end - start) as u8] + host@.subrange(
                start as int,
                i as int,
            ),
        decreases end - i,
    {
        let b = *slice_index_get(host, i);
        query.push(b);
        assert(host@.subrange(start as int, i + 1) =~= host@.subrange(start as int, i as int)
            + seq![host@[i as int]]);
        i = i + 1;
    }
    if end == host.len() {
        query.push(0u8);
        proof {
            assert(host@.subrange(start as int, end as int) =~= rest);
            assert(query@ =~= old(query)@ + encoded_name(rest));
        }
        Ok(())
    } else {
        let r = push_name(query, host, end + 1);
        proof {
            assert(rest.skip(end - start + 1) =~= host@.skip(end + 1));
            if labels_ok(host@.skip(end + 1)) {
                assert(rest.take(end - start) =~= host@.subrange(start as int, end as int));
                assert(query@ =~= old(query)@ + encoded_name(rest));
            }
        }
        r
    }
}

/// Builds the complete query message for `host` under a caller-chosen
/// transaction identifier, or rejects a hostname with an oversized label.
pub fn build_query_with_tid(host: &[u8], tid: u16) -> (r: Result<Vec<u8>, EncodeError>)
    ensures
        r is Ok <==> labels_ok(host@),
        r is Ok ==> r.unwrap()@ == query_bytes(host@, tid),
{
    let mut query: Vec<u8> = Vec::new();
    query.push((tid / 256) as u8);
    query.push((tid % 256) as u8);
    query.push(0x01);
    query.push(0x00);
    query.push(0x00);
    query.push(0x01);
    query.push(0x00);
    query.push(0x00);
    query.push(0x00);
    query.push(0x00);
    query.push(0x00);
    query.push(0x00);
    assert(query@ =~= header_bytes(tid));
    match push_name(&mut query, host, 0) {
        Ok(()) => {
            query.push(0x00);
            query.push(0x01);
            query.push(0x00);
            query.push(0x01);
            proof {
                assert(host@.skip(0) =~= host@);
                assert(query@ =~= query_bytes(host@, tid));
            }
            Ok(query)
        },
        Err(e) => {
            proof {
                assert(host@.skip(0) =~= host@);
            }
            Err(e)
        },
    }
}

/// Draws a fresh transaction identifier.
///
/// Relies on rand::thread_rng and rand::Rng::gen: a 16-bit value sampled
/// uniformly from the thread-local generator. Nothing is promised of the
/// value itself.
#[verifier::external_body]
fn random_u16() -> u16 {
    rand::thread_rng().gen()
}

/// Builds a DNS query for `host` under a freshly drawn random transaction
/// identifier, returning the message together with the identifier, or an
/// error for a hostname with an oversized label.
pub fn build_query(host: &[u8]) -> (r: Result<(Vec<u8>, u16), EncodeError>)
    ensures
        r is Ok <==> labels_ok(host@),
        r is Ok ==> r.unwrap().0@ == query_bytes(host@, r.unwrap().1),
{
    let tid = random_u16();
    match build_query_with_tid(host, tid) {
        Ok(query) => Ok((query, tid)),
        Err(e) => Err(e),
    }
}

/// The first two bytes of an encoded query carry exactly the transaction
/// identifier it was built with: echoed back, the identifier check succeeds
/// for that identifier and fails for every other.
pub proof fn lemma_query_tid_round_trip(host: Seq<u8>, tid: u16, other: u16)
    ensures
        crate::tid_of(query_bytes(host, tid)) == tid,
        other != tid ==> crate::tid_of(query_bytes(host, tid)) != other,
{
    assert(query_bytes(host, tid)[0] == (tid / 256) as u8);
    assert(query_bytes(host, tid)[1] == (tid % 256) as u8);
}

} // verus!
