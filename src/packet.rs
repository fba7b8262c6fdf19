use vstd::prelude::*;
use crate::cid::{ConnectionId, random_bytes};
use crate::keys::{InitialKeys, QuicVersion, Role, sealed, local_mask, xor_pn};

verus! {

/// A version number outside the assigned space: a compliant endpoint either
/// ignores the probe or answers it with version negotiation.
pub const PROBE_VERSION: u32 = 0xbabababa;

/// Size every probe datagram is padded to, the floor for a client's first
/// datagram.
pub const MIN_DATAGRAM_SIZE: usize = 1200;

/// The probe's packet number, sent in one byte.
pub const PROBE_PACKET_NUMBER: u8 = 2;

/// First byte of a handshake long header with a one-byte packet number.
pub const HANDSHAKE_FIRST_BYTE: u8 = 0xe0;

/// Length of the AEAD tag of the initial cipher suite.
pub const TAG_LEN: usize = 16;

/// Length of the header-protection sample.
pub const SAMPLE_LEN: usize = 16;

/// Big-endian bytes of a 32-bit value.
pub open spec fn be32(v: u32) -> Seq<u8> {
    seq![(v >> 24) as u8, (v >> 16) as u8, (v >> 8) as u8, v as u8]
}

/// Length of the probe's long header for an identifier of `d` bytes.
pub open spec fn header_len(d: nat) -> nat {
    10 + d
}

/// The value of the length field: packet-number and payload bytes after it.
pub open spec fn length_field(d: nat) -> nat {
    (MIN_DATAGRAM_SIZE - header_len(d) + 1) as nat
}

/// The probe's long header in clear: first byte, version, destination
/// identifier with its length, an empty source identifier, the length field
/// as a two-byte variable-length integer, and the packet number.
pub open spec fn long_header(version: u32, dcid: Seq<u8>) -> Seq<u8> {
    let len = length_field(dcid.len());
    seq![HANDSHAKE_FIRST_BYTE] + be32(version) + seq![dcid.len() as u8] + dcid + seq![
        0u8,
        (0x40 + len / 256) as u8,
        (len % 256) as u8,
        PROBE_PACKET_NUMBER,
    ]
}

/// Number of random payload bytes that bring a probe to `MIN_DATAGRAM_SIZE`
/// once the tag is appended.
pub open spec fn filler_len(d: nat) -> nat {
    (MIN_DATAGRAM_SIZE - header_len(d) - TAG_LEN) as nat
}

/// The datagram that the keys `k` make of the probe header and the payload
/// `filler`: the payload sealed with the header as associated data, then the
/// first byte and the packet number masked with the sample that starts four
/// bytes after the packet number.
pub open spec fn probe_datagram(k: (QuicVersion, Seq<u8>, Role), version: u32, filler: Seq<u8>) -> Seq<u8> {
    let h = long_header(version, k.1);
    let hl = h.len() as int;
    let body = sealed(k.0, k.1, k.2, PROBE_PACKET_NUMBER as u64, h, filler);
    let plain = h + body;
    let m = local_mask(k.0, k.1, k.2, plain.subrange(hl + 3, hl + 3 + SAMPLE_LEN));
    seq![h[0] ^ (m[0] & 0x0f)] + h.subrange(1, hl - 1) + seq![h[hl - 1] ^ m[1]] + body
}

/// `p` is the datagram of keys `k` for some payload of the right length.
pub open spec fn is_probe_datagram(p: Seq<u8>, k: (QuicVersion, Seq<u8>, Role), version: u32) -> bool {
    exists|filler: Seq<u8>|
        filler.len() == filler_len(k.1.len()) && p == #[trigger] probe_datagram(k, version, filler)
}

/// `dst` followed by `src`.
pub fn push_all(dst: &mut Vec<u8>, src: &Vec<u8>)
    ensures
        final(dst)@ == old(dst)@ + src@,
{
    let mut i: usize = 0;
    while i < src.len()
        invariant
            i <= src@.len(),
            dst@ == old(dst)@ + src@.subrange(0, i as int),
        decreases src@.len() - i,
    {
        dst.push(src[i]);
        i = i + 1;
    }
    assert(src@.subrange(0, src@.len() as int) =~= src@);
}

/// A copy of `v[start..end]`.
pub fn copy_range(v: &Vec<u8>, start: usize, end: usize) -> (r: Vec<u8>)
    requires
        start <= end <= v@.len(),
    ensures
        r@ == v@.subrange(start as int, end as int),
{
    let mut r: Vec<u8> = Vec::new();
    let mut i: usize = start;
    while i < end
        invariant
            start <= i <= end,
            end <= v@.len(),
            r@ == v@.subrange(start as int, i as int),
        decreases end - i,
    {
        r.push(v[i]);
        i = i + 1;
    }
    r
}

/// Writes the probe's long header in clear.
pub fn encode_header(version: u32, dcid: &ConnectionId) -> (r: Vec<u8>)
    ensures
        r@ == long_header(version, dcid@),
        r@.len() == header_len(dcid@.len()),
{
    let d = dcid.len();
    let len: usize = MIN_DATAGRAM_SIZE - (10 + d) + 1;
    let mut buf: Vec<u8> = Vec::new();
    buf.push(HANDSHAKE_FIRST_BYTE);
    buf.push((version >> 24) as u8);
    buf.push((version >> 16) as u8);
    buf.push((version >> 8) as u8);
    buf.push(version as u8);
    buf.push(d as u8);
    push_all(&mut buf, dcid.as_bytes());
    buf.push(0u8);
    buf.push((0x40 + len / 256) as u8);
    buf.push((len % 256) as u8);
    buf.push(PROBE_PACKET_NUMBER);
    assert(buf@ =~= long_header(version, dcid@));
    buf
}

/// Seals and protects the probe for `dcid` with `keys` and the payload
/// `filler`: the datagram is exactly `MIN_DATAGRAM_SIZE` bytes.
pub fn seal_probe(dcid: &ConnectionId, keys: &InitialKeys, filler: Vec<u8>) -> (r: Vec<u8>)
    requires
        keys@.1 == dcid@,
        filler@.len() == filler_len(dcid@.len()),
    ensures
        r@ == probe_datagram(keys@, PROBE_VERSION, filler@),
        r@.len() == MIN_DATAGRAM_SIZE,
{
    let d = dcid.len();
    let header = encode_header(PROBE_VERSION, dcid);
    let hl = header.len();
    assert(hl == 10 + d);
    let mut payload = filler;
    let ghost plain_payload = payload@;
    let tag = match keys.seal(PROBE_PACKET_NUMBER as u64, &header, &mut payload) {
        Some(t) => t,
        None => {
            proof {
                assert(false);
            }
            Vec::new()
        },
    };
    let ghost body = payload@ + tag@;
    let mut buf = Vec::new();
    push_all(&mut buf, &header);
    push_all(&mut buf, &payload);
    push_all(&mut buf, &tag);
    assert(buf@ =~= header@ + body);
    let sample = copy_range(&buf, hl + 3, hl + 3 + SAMPLE_LEN);
    let mut first: u8 = buf[0];
    let mut pn: Vec<u8> = Vec::new();
    pn.push(buf[hl - 1]);
    let ghost pn0 = pn@;
    let ok = keys.protect_header(&sample, &mut first, &mut pn);
    proof {
        let m = local_mask(keys@.0, keys@.1, keys@.2, sample@);
        assert(ok);
        assert(HANDSHAKE_FIRST_BYTE & 0x80 == 0x80 && (HANDSHAKE_FIRST_BYTE & 3) + 1 == 1) by (bit_vector);
        assert(pn@ == xor_pn(pn0, m, 1));
        assert(pn@[0] == pn0[0] ^ m[1]);
    }
    buf.set(0, first);
    buf.set(hl - 1, pn[0]);
    assert(buf@ =~= probe_datagram(keys@, PROBE_VERSION, plain_payload));
    buf
}

/// Builds the probe datagram for `dcid`: derives the client's initial keys
/// for the identifier, pads the header with random bytes to exactly
/// `MIN_DATAGRAM_SIZE`, seals the payload and protects the header. Returns
/// the datagram and the keys.
pub fn build_packet(dcid: &ConnectionId) -> (r: (Vec<u8>, InitialKeys))
    ensures
        r.0@.len() == MIN_DATAGRAM_SIZE,
        r.1@ == (QuicVersion::V1, dcid@, Role::Client),
        is_probe_datagram(r.0@, r.1@, PROBE_VERSION),
{
    let keys = InitialKeys::derive(QuicVersion::V1, dcid.as_bytes(), Role::Client);
    let d = dcid.len();
    let filler = random_bytes(MIN_DATAGRAM_SIZE - (10 + d) - TAG_LEN);
    let ghost f = filler@;
    let buf = seal_probe(dcid, &keys, filler);
    assert(f.len() == filler_len(dcid@.len()) && buf@ == probe_datagram(keys@, PROBE_VERSION, f));
    (buf, keys)
}

} // verus!
