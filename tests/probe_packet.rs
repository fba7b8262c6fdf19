use quicping::cid::{generate_cid, ConnectionId};
use quicping::decode::{decode_long_header, DecodeError};
use quicping::keys::{InitialKeys, QuicVersion, Role};
use quicping::packet::{build_packet, encode_header, seal_probe, MIN_DATAGRAM_SIZE, PROBE_VERSION};
use quicping::probe::{
    classify, classify_connect, examine_response, finish_probe, prepare_probe, Diagnostic,
    RecvOutcome, PROBE_CID_LEN,
};
use quicping::result::PingResult;
use quicping::varint::read_varint;
use std::time::Duration;

fn rfc_dcid() -> Vec<u8> {
    vec![0x83, 0x94, 0xc8, 0xf0, 0x3e, 0x51, 0x57, 0x08]
}

fn rfc_sample() -> Vec<u8> {
    vec![
        0xd1, 0xb1, 0xc9, 0x8d, 0xd7, 0x68, 0x9f, 0xb8, 0xec, 0x11, 0xd2, 0x42, 0xb1, 0x23, 0xdc,
        0x9b,
    ]
}

#[test]
fn is_success_only_for_success() {
    assert!(PingResult::Success(Duration::from_micros(150)).is_success());
    assert!(!PingResult::Timeout.is_success());
    assert!(!PingResult::Error.is_success());
}

#[test]
fn encoded_probe_is_exactly_1200_bytes() {
    for len in [0usize, 1, 8, 12, 18, 20] {
        let dcid = generate_cid(len);
        let (buf, _) = build_packet(&dcid);
        assert_eq!(buf.len(), MIN_DATAGRAM_SIZE);
        assert_eq!(buf.len(), 1200);
    }
}

#[test]
fn probe_header_fields_in_clear() {
    let dcid = ConnectionId::new(&[1, 2, 3, 4, 5, 6, 7, 8, 9, 10, 11, 12]);
    let (buf, _) = build_packet(&dcid);
    assert_eq!(buf[0] & 0xf0, 0xe0);
    assert_eq!(&buf[1..5], &[0xba, 0xba, 0xba, 0xba]);
    assert_eq!(buf[5], 12);
    assert_eq!(&buf[6..18], &[1, 2, 3, 4, 5, 6, 7, 8, 9, 10, 11, 12]);
    assert_eq!(buf[18], 0);
    // length field: 1200 - 22 + 1 = 1179 = 0x049b, as a two-byte varint
    assert_eq!(&buf[19..21], &[0x44, 0x9b]);
}

#[test]
fn clear_header_layout() {
    let dcid = ConnectionId::new(&[0xaa, 0xbb]);
    let h = encode_header(PROBE_VERSION, &dcid);
    // length 1200 - 12 + 1 = 1189 = 0x04a5
    assert_eq!(h, vec![0xe0, 0xba, 0xba, 0xba, 0xba, 2, 0xaa, 0xbb, 0, 0x44, 0xa5, 2]);
}

#[test]
fn key_derivation_is_deterministic() {
    let dcid = ConnectionId::new(&rfc_dcid());
    let a = InitialKeys::derive(QuicVersion::V1, &rfc_dcid(), Role::Client);
    let b = InitialKeys::derive(QuicVersion::V1, &rfc_dcid(), Role::Client);
    let pa = seal_probe(&dcid, &a, vec![0u8; 1166]);
    let pb = seal_probe(&dcid, &b, vec![0u8; 1166]);
    assert_eq!(pa.len(), 1200);
    assert_eq!(pa, pb);
    // the payload after the packet number is sealed, not left in clear
    assert_ne!(&pa[22..], &vec![0u8; 1178][..]);
}

#[test]
fn keys_differ_by_identifier() {
    let c1 = ConnectionId::new(&rfc_dcid());
    let c2 = ConnectionId::new(&[1, 2, 3, 4, 5, 6, 7, 8]);
    let k1 = InitialKeys::derive(QuicVersion::V1, c1.as_bytes(), Role::Client);
    let k2 = InitialKeys::derive(QuicVersion::V1, c2.as_bytes(), Role::Client);
    let p1 = seal_probe(&c1, &k1, vec![0u8; 1166]);
    let p2 = seal_probe(&c2, &k2, vec![0u8; 1166]);
    assert_ne!(&p1[22..], &p2[22..]);
}

#[test]
fn header_protection_removed_per_rfc_vector() {
    // client initial of RFC 9001 appendix A.2, protected header and sample
    let mut b = vec![0xc0, 0x00, 0x00, 0x00, 0x01, 0x08];
    b.extend_from_slice(&rfc_dcid());
    b.extend_from_slice(&[0x00, 0x00, 0x44, 0x9e, 0x7b, 0x9a, 0xec, 0x34]);
    b.extend_from_slice(&rfc_sample());
    b.resize(1200, 0);
    let server = InitialKeys::derive(QuicVersion::V1, &rfc_dcid(), Role::Server);
    let h = decode_long_header(&b, &vec![1], &server).unwrap();
    assert_eq!(h.first, 0xc3);
    assert_eq!(h.packet_number, 2);
    assert_eq!(h.ty, 0);
    assert_eq!(h.version, 1);
    assert_eq!(h.dst_cid, rfc_dcid());
}

#[test]
fn peer_removes_probe_header_protection() {
    let dcid = generate_cid(12);
    let (buf, _) = build_packet(&dcid);
    let server = InitialKeys::derive(QuicVersion::V1, dcid.as_bytes(), Role::Server);
    let h = decode_long_header(&buf, &vec![PROBE_VERSION], &server).unwrap();
    assert_eq!(h.first, 0xe0);
    assert_eq!(h.packet_number, 2);
}

#[test]
fn echoed_probe_recovers_identifier() {
    let attempt = prepare_probe();
    assert_eq!(attempt.dcid.len(), PROBE_CID_LEN);
    assert_eq!(attempt.datagram.len(), 1200);
    let h = decode_long_header(&attempt.datagram, &vec![PROBE_VERSION], &attempt.keys).unwrap();
    assert_eq!(&h.dst_cid, attempt.dcid.as_bytes());
    assert!(h.src_cid.is_empty());
    assert_eq!(h.version, 0xbabababa);
    assert_eq!(h.ty, 2);
    assert_eq!(
        examine_response(&attempt.datagram, &attempt.dcid, &attempt.keys),
        Diagnostic::Correlated
    );
}

#[test]
fn response_of_another_attempt_is_foreign() {
    let a = prepare_probe();
    let b = prepare_probe();
    assert_ne!(a.dcid.as_bytes(), b.dcid.as_bytes());
    assert_eq!(examine_response(&b.datagram, &a.dcid, &a.keys), Diagnostic::ForeignIdentifier);
}

#[test]
fn decode_errors() {
    let keys = InitialKeys::derive(QuicVersion::V1, &rfc_dcid(), Role::Client);
    let versions = vec![PROBE_VERSION];
    assert_eq!(
        decode_long_header(&vec![], &versions, &keys).err(),
        Some(DecodeError::NotLongHeader)
    );
    assert_eq!(
        decode_long_header(&vec![0x40; 40], &versions, &keys).err(),
        Some(DecodeError::NotLongHeader)
    );
    let mut v1 = vec![0xc0, 0, 0, 0, 1, 0, 0, 0x40, 30];
    v1.resize(60, 0);
    assert_eq!(
        decode_long_header(&v1, &versions, &keys).err(),
        Some(DecodeError::UnsupportedVersion)
    );
    assert_eq!(
        decode_long_header(&vec![0xe0, 0xba, 0xba], &versions, &keys).err(),
        Some(DecodeError::InvalidHeader)
    );
    // identifier longer than twenty bytes
    let mut long_cid = vec![0xe0, 0xba, 0xba, 0xba, 0xba, 21];
    long_cid.resize(100, 0);
    assert_eq!(
        decode_long_header(&long_cid, &versions, &keys).err(),
        Some(DecodeError::InvalidHeader)
    );
    // retry packets carry no packet number
    let mut retry = vec![0xf0, 0xba, 0xba, 0xba, 0xba, 0, 0];
    retry.resize(60, 0);
    assert_eq!(
        decode_long_header(&retry, &versions, &keys).err(),
        Some(DecodeError::InvalidHeader)
    );
    // fixed bit unset
    let mut unfixed = vec![0xa0, 0xba, 0xba, 0xba, 0xba, 0, 0, 0x40, 30];
    unfixed.resize(60, 0);
    assert_eq!(
        decode_long_header(&unfixed, &versions, &keys).err(),
        Some(DecodeError::InvalidHeader)
    );
    // length field beyond the datagram
    let mut overlong = vec![0xe0, 0xba, 0xba, 0xba, 0xba, 0, 0, 0x40, 200];
    overlong.resize(60, 0);
    assert_eq!(
        decode_long_header(&overlong, &versions, &keys).err(),
        Some(DecodeError::InvalidHeader)
    );
}

#[test]
fn decode_initial_with_token() {
    let keys = InitialKeys::derive(QuicVersion::V1, &rfc_dcid(), Role::Client);
    // initial, version babababa, dcid [9], scid [7, 7], token of 3 bytes, length 40
    let mut b = vec![0xc0, 0xba, 0xba, 0xba, 0xba, 1, 9, 2, 7, 7, 3, 1, 2, 3, 40];
    b.resize(b.len() + 40, 0);
    let h = decode_long_header(&b, &vec![PROBE_VERSION], &keys).unwrap();
    assert_eq!(h.ty, 0);
    assert_eq!(h.dst_cid, vec![9]);
    assert_eq!(h.src_cid, vec![7, 7]);
    assert!(h.packet_number < 1 << 32);
}

#[test]
fn varint_rfc_examples() {
    assert_eq!(read_varint(&vec![0x25], 0), Some((37, 1)));
    assert_eq!(read_varint(&vec![0x40, 0x25], 0), Some((37, 2)));
    assert_eq!(read_varint(&vec![0x7b, 0xbd], 0), Some((15293, 2)));
    assert_eq!(read_varint(&vec![0x9d, 0x7f, 0x3e, 0x7d], 0), Some((494878333, 4)));
    assert_eq!(
        read_varint(&vec![0xc2, 0x19, 0x7c, 0x5e, 0xff, 0x14, 0xe8, 0x8c], 0),
        Some((151288809941952652, 8))
    );
    assert_eq!(read_varint(&vec![0x7b], 0), None);
    assert_eq!(read_varint(&vec![0x25], 1), None);
}

#[test]
fn receive_classification() {
    let t = Duration::from_micros(124);
    assert!(matches!(classify(RecvOutcome::Received(1200), t), PingResult::Success(d) if d == t));
    assert!(matches!(classify(RecvOutcome::WouldBlock, t), PingResult::Timeout));
    assert!(matches!(classify(RecvOutcome::TimedOut, t), PingResult::Timeout));
    assert!(matches!(classify(RecvOutcome::Failed, t), PingResult::Error));
}

#[test]
fn connect_classification() {
    let t = Duration::from_millis(3);
    assert!(matches!(classify_connect(true, t), PingResult::Success(d) if d == t));
    assert!(matches!(classify_connect(false, t), PingResult::Timeout));
}

#[test]
fn finish_keeps_timing_and_reports_content() {
    let attempt = prepare_probe();
    let t = Duration::from_micros(300);
    let r = finish_probe(RecvOutcome::Received(1200), t, &attempt.datagram, &attempt.dcid, &attempt.keys);
    assert!(matches!(r.result, PingResult::Success(d) if d == t));
    assert_eq!(r.diagnostic, Some(Diagnostic::Correlated));
    let garbage = vec![0x01, 0x02, 0x03];
    let r = finish_probe(RecvOutcome::Received(3), t, &garbage, &attempt.dcid, &attempt.keys);
    assert!(r.result.is_success());
    assert_eq!(r.diagnostic, Some(Diagnostic::Undecodable(DecodeError::NotLongHeader)));
    let r = finish_probe(RecvOutcome::WouldBlock, t, &vec![], &attempt.dcid, &attempt.keys);
    assert!(matches!(r.result, PingResult::Timeout));
    assert_eq!(r.diagnostic, None);
    let r = finish_probe(RecvOutcome::Failed, t, &vec![], &attempt.dcid, &attempt.keys);
    assert!(matches!(r.result, PingResult::Error));
}

#[test]
fn generated_identifiers_are_distinct() {
    let a = generate_cid(12);
    let b = generate_cid(12);
    assert_eq!(a.len(), 12);
    assert_ne!(a.as_bytes(), b.as_bytes());
    assert_eq!(generate_cid(0).len(), 0);
}
