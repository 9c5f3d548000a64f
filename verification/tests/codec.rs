use dns_codec::addr::ResolvedAddress;
use dns_codec::decode::{decode_response, DecodeError};
use dns_codec::encode::{build_query, build_query_with_tid, EncodeError};

/// The encoded query for "github.com": header, [6]"github" [3]"com" [0],
/// type 0x0001, class 0x0001.
#[test]
fn encode_github_com() {
    let query = build_query_with_tid(b"github.com", 0x1234).unwrap();
    let mut expected: Vec<u8> = vec![0x12, 0x34, 0x01, 0x00, 0x00, 0x01, 0x00, 0x00, 0x00, 0x00, 0x00, 0x00];
    expected.push(6);
    expected.extend_from_slice(b"github");
    expected.push(3);
    expected.extend_from_slice(b"com");
    expected.push(0);
    expected.extend_from_slice(&[0x00, 0x01, 0x00, 0x01]);
    assert_eq!(query, expected);
}

#[test]
fn encode_single_label() {
    let query = build_query_with_tid(b"localhost", 0).unwrap();
    let mut expected: Vec<u8> = vec![0x00, 0x00, 0x01, 0x00, 0x00, 0x01, 0x00, 0x00, 0x00, 0x00, 0x00, 0x00];
    expected.push(9);
    expected.extend_from_slice(b"localhost");
    expected.push(0);
    expected.extend_from_slice(&[0x00, 0x01, 0x00, 0x01]);
    assert_eq!(query, expected);
}

/// The question name takes one length byte per label, the label bytes and a
/// terminator: always the hostname length plus two, whatever the label count.
#[test]
fn encoded_name_length_is_hostname_len_plus_two() {
    for host in [
        b"a".as_slice(),
        b"a.b".as_slice(),
        b"a.b.c".as_slice(),
        b"github.com".as_slice(),
        b"www.example.org".as_slice(),
        b"trailing.".as_slice(),
    ] {
        let query = build_query_with_tid(host, 7).unwrap();
        // 12 header bytes, the name, then 4 bytes of type and class.
        assert_eq!(query.len() - 12 - 4, host.len() + 2);
    }
}

#[test]
fn encode_rejects_oversized_label() {
    let long = [b'x'; 64];
    let mut host: Vec<u8> = Vec::new();
    host.extend_from_slice(&long);
    host.extend_from_slice(b".com");
    assert_eq!(build_query_with_tid(&host, 1), Err(EncodeError::LabelTooLong));
    assert_eq!(build_query(&host), Err(EncodeError::LabelTooLong));
}

#[test]
fn encode_accepts_63_byte_label() {
    let label = [b'x'; 63];
    let query = build_query_with_tid(&label, 1).unwrap();
    assert_eq!(query[12], 63);
    assert_eq!(query.len(), 12 + 63 + 2 + 4);
}

#[test]
fn random_tid_query_carries_its_tid() {
    let (query, tid) = build_query(b"github.com").unwrap();
    assert_eq!(query[0], (tid >> 8) as u8);
    assert_eq!(query[1], (tid & 0xff) as u8);
    let by_tid = build_query_with_tid(b"github.com", tid).unwrap();
    assert_eq!(query, by_tid);
}

/// A query echoed straight back passes the identifier check for its own
/// identifier (and, holding no answer, then fails as too short), and is
/// discarded as "no result" under any other identifier.
#[test]
fn echoed_query_round_trip() {
    let (query, tid) = build_query(b"github.com").unwrap();
    assert_eq!(
        decode_response(&query, tid, b"github.com".len()),
        Err(DecodeError::TooShort)
    );
    let other = tid.wrapping_add(1);
    assert_eq!(decode_response(&query, other, b"github.com".len()), Ok(None));
}

/// A response for "github.com" with transaction identifier 0xABCD: answer
/// offset 12 + (10 + 2) + 4 = 28, record type at bytes 30-31, address
/// octets at bytes 40-43.
fn crafted_response() -> Vec<u8> {
    let mut buf = vec![0u8; 44];
    buf[0] = 0xAB;
    buf[1] = 0xCD;
    buf[30] = 0x00;
    buf[31] = 0x01;
    buf[40] = 93;
    buf[41] = 184;
    buf[42] = 216;
    buf[43] = 34;
    buf
}

#[test]
fn decode_matching_address_record() {
    let buf = crafted_response();
    let r = decode_response(&buf, 0xABCD, 10);
    let addr = r.unwrap().unwrap();
    assert_eq!(
        addr,
        ResolvedAddress { octet0: 93, octet1: 184, octet2: 216, octet3: 34 }
    );
    assert_eq!(addr.to_dotted_string(), "93.184.216.34");
}

#[test]
fn decode_mismatched_tid_yields_no_result() {
    let buf = crafted_response();
    assert_eq!(decode_response(&buf, 0xABCE, 10), Ok(None));
}

#[test]
fn decode_short_buffer_yields_error() {
    let buf = crafted_response();
    // One byte short of covering the 4 address octets at offset 28 + 12.
    assert_eq!(decode_response(&buf[..43], 0xABCD, 10), Err(DecodeError::TooShort));
    assert_eq!(decode_response(&buf[..12], 0xABCD, 10), Err(DecodeError::TooShort));
    assert_eq!(decode_response(&[], 0xABCD, 10), Err(DecodeError::TooShort));
    assert_eq!(decode_response(&[0xAB], 0xABCD, 10), Err(DecodeError::TooShort));
}

#[test]
fn decode_alias_record_yields_no_result() {
    let mut buf = crafted_response();
    // A name-alias record type, 0x0005, in place of the address type.
    buf[31] = 0x05;
    assert_eq!(decode_response(&buf, 0xABCD, 10), Ok(None));
}

#[test]
fn dotted_string_edges() {
    let zero = ResolvedAddress { octet0: 0, octet1: 0, octet2: 0, octet3: 0 };
    assert_eq!(zero.to_dotted_string(), "0.0.0.0");
    let max = ResolvedAddress { octet0: 255, octet1: 255, octet2: 255, octet3: 255 };
    assert_eq!(max.to_dotted_string(), "255.255.255.255");
    let dns = ResolvedAddress { octet0: 8, octet1: 8, octet2: 8, octet3: 8 };
    assert_eq!(dns.to_dotted_string(), "8.8.8.8");
    let mixed = ResolvedAddress { octet0: 10, octet1: 0, octet2: 200, octet3: 1 };
    assert_eq!(mixed.to_dotted_string(), "10.0.200.1");
}
