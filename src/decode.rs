use vstd::prelude::*;
use crate::cid::MAX_CID_SIZE;
use crate::keys::{InitialKeys, QuicVersion, Role, local_mask, remote_mask, sealed, xor_pn, pn_len_of};
use crate::packet::{
    copy_range, SAMPLE_LEN, MIN_DATAGRAM_SIZE, PROBE_VERSION, HANDSHAKE_FIRST_BYTE, PROBE_PACKET_NUMBER,
    is_probe_datagram, probe_datagram, long_header, length_field, header_len, filler_len,
};
use crate::varint::{be_value, read_varint, varint_at};

verus! {

/// Why a datagram could not be read as a long-header packet.
#[derive(Clone, Copy, Debug, PartialEq, Eq, Structural)]
pub enum DecodeError {
    /// Empty, or a short header.
    NotLongHeader,
    /// A long header whose version is not among the expected ones.
    UnsupportedVersion,
    /// Truncated, or a field out of range: identifier length, fixed bit,
    /// token or length field, a retry packet (which has no packet number),
    /// or too short for the header-protection sample.
    InvalidHeader,
}

/// The header fields recovered from a response.
pub struct DecodedHeader {
    /// Long-header packet type (0 initial, 1 0-RTT, 2 handshake).
    pub ty: u8,
    pub version: u32,
    pub dst_cid: Vec<u8>,
    pub src_cid: Vec<u8>,
    /// First byte with header protection removed.
    pub first: u8,
    /// Packet number with header protection removed.
    pub packet_number: u64,
}

/// Big-endian 32-bit value of the four bytes at `i`.
pub open spec fn be32_at(b: Seq<u8>, i: int) -> u32 {
    (b[i] as int * 0x1000000 + b[i + 1] as int * 0x10000 + b[i + 2] as int * 0x100 + b[i + 3] as int) as u32
}

/// Long-header packet type bits of a first byte.
pub open spec fn long_type(first: u8) -> u8 {
    (first >> 4) & 3
}

/// Where the length field starts: after the token for an initial packet,
/// right at `pos` for the other types.
pub open spec fn length_field_at(b: Seq<u8>, ty: u8, pos: int) -> Option<int> {
    if ty == 0 {
        match varint_at(b, pos as nat) {
            Some((t, n)) => if pos + n + t <= b.len() {
                Some(pos + n + t)
            } else {
                None
            },
            None => None,
        }
    } else {
        Some(pos)
    }
}

/// The clear fields of a long-header packet: type, version, destination and
/// source identifiers, and where the packet number starts.
pub open spec fn parse_long(b: Seq<u8>, versions: Seq<u32>) -> Result<(u8, u32, Seq<u8>, Seq<u8>, int), DecodeError> {
    if b.len() == 0 || b[0] & 0x80 == 0 {
        Err(DecodeError::NotLongHeader)
    } else if b.len() < 5 {
        Err(DecodeError::InvalidHeader)
    } else if !versions.contains(be32_at(b, 1)) {
        Err(DecodeError::UnsupportedVersion)
    } else if b[0] & 0x40 == 0 || b.len() < 7 || b[5] > MAX_CID_SIZE || b.len() < 7 + b[5] {
        Err(DecodeError::InvalidHeader)
    } else {
        let d = b[5] as int;
        let s = b[6 + d] as int;
        let pos = 7 + d + s;
        let ty = long_type(b[0]);
        if s > MAX_CID_SIZE || b.len() < pos || ty == 3 {
            Err(DecodeError::InvalidHeader)
        } else {
            match length_field_at(b, ty, pos) {
                None => Err(DecodeError::InvalidHeader),
                Some(p) => match varint_at(b, p as nat) {
                    None => Err(DecodeError::InvalidHeader),
                    Some((len, n)) => {
                        let pn_offset = p + n;
                        if pn_offset + len > b.len() || pn_offset + 4 + SAMPLE_LEN > b.len() {
                            Err(DecodeError::InvalidHeader)
                        } else {
                            Ok((ty, be32_at(b, 1), b.subrange(6, 6 + d), b.subrange(7 + d, pos), pn_offset))
                        }
                    },
                },
            }
        }
    }
}

/// The remote header key's mask for the sample of a packet whose packet
/// number starts at `pn_offset`.
pub open spec fn response_mask(k: (QuicVersion, Seq<u8>, Role), b: Seq<u8>, pn_offset: int) -> Seq<u8> {
    remote_mask(k.0, k.1, k.2, b.subrange(pn_offset + 4, pn_offset + 4 + SAMPLE_LEN))
}

/// First byte of a long header with protection removed.
pub open spec fn unmasked_first(k: (QuicVersion, Seq<u8>, Role), b: Seq<u8>, pn_offset: int) -> u8 {
    b[0] ^ (response_mask(k, b, pn_offset)[0] & 0x0f)
}

/// Packet number of a long header with protection removed.
pub open spec fn unmasked_pn(k: (QuicVersion, Seq<u8>, Role), b: Seq<u8>, pn_offset: int) -> nat {
    let n = pn_len_of(unmasked_first(k, b, pn_offset));
    be_value(xor_pn(b.subrange(pn_offset, pn_offset + 4), response_mask(k, b, pn_offset), n).subrange(0, n as int))
}

/// Whether `versions` holds `v`.
pub fn contains_version(versions: &Vec<u32>, v: u32) -> (r: bool)
    ensures
        r == versions@.contains(v),
{
    let mut i: usize = 0;
    while i < versions.len()
        invariant
            i <= versions@.len(),
            forall|j: int| 0 <= j < i ==> versions@[j] != v,
        decreases versions@.len() - i,
    {
        if versions[i] == v {
            assert(versions@[i as int] == v);
            return true;
        }
        i = i + 1;
    }
    false
}

/// Big-endian value of the first `n` bytes of `pn`.
fn pn_value(pn: &Vec<u8>, n: usize) -> (r: u64)
    requires
        n <= pn@.len(),
        n <= 4,
    ensures
        r == be_value(pn@.subrange(0, n as int)),
{
    let mut v: u64 = 0;
    let mut i: usize = 0;
    while i < n
        invariant
            i <= n <= pn@.len(),
            n <= 4,
            v == be_value(pn@.subrange(0, i as int)),
            v < crate::varint::pow256(i as nat),
        decreases n - i,
    {
        assert(pn@.subrange(0, i + 1).drop_last() =~= pn@.subrange(0, i as int));
        proof {
            reveal_with_fuel(crate::varint::pow256, 5);
            assert(crate::varint::pow256(i as nat) <= 0x100_0000);
            let bb = pn@[i as int] as int;
            assert(v * 256 + bb < crate::varint::pow256(i as nat) * 256) by (nonlinear_arith)
                requires v < crate::varint::pow256(i as nat), bb < 256;
        }
        v = v * 256 + pn[i] as u64;
        i = i + 1;
    }
    v
}

/// Reads a response as a long-header packet of one of `versions`, then
/// removes its header protection with the remote header key of `keys`.
/// Fails exactly where the clear fields do not parse.
pub fn decode_long_header(b: &Vec<u8>, versions: &Vec<u32>, keys: &InitialKeys) -> (r: Result<DecodedHeader, DecodeError>)
    ensures
        match parse_long(b@, versions@) {
            Err(e) => r == Err::<DecodedHeader, DecodeError>(e),
            Ok((ty, v, d, s, off)) => match r {
                Ok(h) => {
                    &&& h.ty == ty
                    &&& h.version == v
                    &&& h.dst_cid@ == d
                    &&& h.src_cid@ == s
                    &&& h.first == unmasked_first(keys@, b@, off)
                    &&& h.packet_number == unmasked_pn(keys@, b@, off)
                },
                Err(_) => false,
            },
        },
{
    let blen: usize = b.len();
    if blen == 0 || b[0] & 0x80 == 0 {
        return Err(DecodeError::NotLongHeader);
    }
    if blen < 5 {
        return Err(DecodeError::InvalidHeader);
    }
    let version: u32 = (b[1] as u32) * 0x1000000 + (b[2] as u32) * 0x10000 + (b[3] as u32) * 0x100 + b[4] as u32;
    if !contains_version(versions, version) {
        return Err(DecodeError::UnsupportedVersion);
    }
    if b[0] & 0x40 == 0 || blen < 7 || b[5] as usize > MAX_CID_SIZE || blen < 7 + b[5] as usize {
        return Err(DecodeError::InvalidHeader);
    }
    let d = b[5] as usize;
    let s = b[6 + d] as usize;
    let ty: u8 = (b[0] >> 4) & 3;
    if s > MAX_CID_SIZE || blen < 7 + d + s || ty == 3 {
        return Err(DecodeError::InvalidHeader);
    }
    let pos: usize = 7 + d + s;
    let p: usize = if ty == 0 {
        match read_varint(b, pos) {
            Some((t, n)) => {
                if t > (blen - pos - n) as u64 {
                    return Err(DecodeError::InvalidHeader);
                }
                pos + n + t as usize
            },
            None => {
                return Err(DecodeError::InvalidHeader);
            },
        }
    } else {
        pos
    };
    assert(length_field_at(b@, ty, pos as int) == Some(p as int));
    let (len, n) = match read_varint(b, p) {
        Some(x) => x,
        None => {
            return Err(DecodeError::InvalidHeader);
        },
    };
    let off: usize = p + n;
    if len > (blen - off) as u64 || blen - off < 4 + SAMPLE_LEN {
        return Err(DecodeError::InvalidHeader);
    }
    let dst_cid = copy_range(b, 6, 6 + d);
    let src_cid = copy_range(b, 7 + d, pos);
    let sample = copy_range(b, off + 4, off + 4 + SAMPLE_LEN);
    let mut pn = copy_range(b, off, off + 4);
    let ghost pn0 = pn@;
    let mut first: u8 = b[0];
    let ok = keys.unprotect_header(&sample, &mut first, &mut pn);
    proof {
        assert(ok);
        let b0 = b@[0];
        assert(b0 & 0x80 == 0x80) by (bit_vector)
            requires !(b0 & 0x80 == 0);
        let f = first;
        assert((f & 3) + 1 <= 4) by (bit_vector);
    }
    let pn_len: usize = ((first & 3) + 1) as usize;
    let packet_number = pn_value(&pn, pn_len);
    Ok(DecodedHeader { ty, version, dst_cid, src_cid, first, packet_number })
}

/// A probe datagram, read back as a response expecting the probe version,
/// parses as a handshake packet of that version whose destination identifier
/// is the one the keys were derived from and whose source identifier is
/// empty, with the packet number at the last byte of the header written for
/// that identifier.
pub proof fn lemma_round_trip(p: Seq<u8>, k: (QuicVersion, Seq<u8>, Role))
    requires
        k.1.len() <= MAX_CID_SIZE,
        p.len() == MIN_DATAGRAM_SIZE,
        is_probe_datagram(p, k, PROBE_VERSION),
    ensures
        parse_long(p, seq![PROBE_VERSION]) == Ok::<(u8, u32, Seq<u8>, Seq<u8>, int), DecodeError>(
            (2u8, PROBE_VERSION, k.1, Seq::<u8>::empty(), header_len(k.1.len()) - 1),
        ),
{
    let filler = choose|filler: Seq<u8>|
        filler.len() == filler_len(k.1.len()) && p == #[trigger] probe_datagram(k, PROBE_VERSION, filler);
    let h = long_header(PROBE_VERSION, k.1);
    let hl = h.len() as int;
    let d = k.1.len() as int;
    assert(hl == 10 + d);
    let m = local_mask(k.0, k.1, k.2, (h + sealed_body(k, filler)).subrange(hl + 3, hl + 3 + SAMPLE_LEN));
    assert(p[0] == h[0] ^ (m[0] & 0x0f));
    assert(h[0] == HANDSHAKE_FIRST_BYTE);
    let mask0 = m[0];
    assert((0xe0u8 ^ (mask0 & 0x0f)) & 0x80 == 0x80 && (0xe0u8 ^ (mask0 & 0x0f)) & 0x40 == 0x40
        && ((0xe0u8 ^ (mask0 & 0x0f)) >> 4) & 3 == 2) by (bit_vector);
    assert forall|i: int| 1 <= i < hl - 1 implies p[i] == h[i] by {
        assert(p[i] == h.subrange(1, hl - 1)[i - 1]);
    }
    assert((0xbabababau32 >> 24) as u8 == 0xba && (0xbabababau32 >> 16) as u8 == 0xba
        && (0xbabababau32 >> 8) as u8 == 0xba && 0xbabababau32 as u8 == 0xba) by (bit_vector);
    assert(p[1] == 0xba && p[2] == 0xba && p[3] == 0xba && p[4] == 0xba);
    assert(be32_at(p, 1) == PROBE_VERSION);
    assert(seq![PROBE_VERSION][0] == PROBE_VERSION);
    assert(p[5] == d);
    assert(p.subrange(6, 6 + d) =~= k.1) by {
        assert forall|i: int| 0 <= i < d implies p.subrange(6, 6 + d)[i] == k.1[i] by {
            assert(p[6 + i] == h[6 + i]);
        }
    }
    assert(p[6 + d] == 0);
    let len = length_field(k.1.len());
    assert(len / 256 == 4);
    assert(p[7 + d] == 0x44);
    assert(p[8 + d] == (len % 256) as u8);
    let digits = seq![(p[7 + d] % 64) as u8] + p.subrange(8 + d, 9 + d);
    assert(digits.drop_last() =~= seq![4u8]);
    assert(seq![4u8].drop_last() =~= Seq::<u8>::empty());
    assert(be_value(Seq::<u8>::empty()) == 0);
    assert(be_value(seq![4u8]) == 4);
    assert(be_value(digits) == len);
    assert(p.subrange(7 + d, 7 + d) =~= Seq::<u8>::empty());
}

/// The sealed payload of a probe datagram.
pub open spec fn sealed_body(k: (QuicVersion, Seq<u8>, Role), filler: Seq<u8>) -> Seq<u8> {
    sealed(k.0, k.1, k.2, PROBE_PACKET_NUMBER as u64, long_header(PROBE_VERSION, k.1), filler)
}

} // verus!
