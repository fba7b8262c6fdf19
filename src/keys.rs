use vstd::prelude::*;

verus! {

#[verifier::external_type_specification]
#[verifier::external_body]
pub struct ExKeys(rustls::quic::Keys);

/// Protocol version whose initial salt and labels the keys are derived with.
#[derive(Clone, Copy, Debug, PartialEq, Eq, Structural)]
pub enum QuicVersion {
    V1Draft,
    V1,
    V2,
}

/// The endpoint's role, which decides which of the two secrets is local.
#[derive(Clone, Copy, Debug, PartialEq, Eq, Structural)]
pub enum Role {
    Client,
    Server,
}

/// Initial-packet keys, together with what they were derived from.
pub struct InitialKeys {
    keys: rustls::quic::Keys,
    version: QuicVersion,
    cid: Vec<u8>,
    role: Role,
}

/// The ciphertext followed by the authentication tag that sealing `payload`
/// with the local packet key of the initial keys for (`version`, `cid`,
/// `role`) gives, with packet number `pn` and associated data `header`.
pub uninterp spec fn sealed(
    version: QuicVersion,
    cid: Seq<u8>,
    role: Role,
    pn: u64,
    header: Seq<u8>,
    payload: Seq<u8>,
) -> Seq<u8>;

/// The header-protection mask that the local header key of the initial keys
/// for (`version`, `cid`, `role`) computes from `sample`.
pub uninterp spec fn local_mask(version: QuicVersion, cid: Seq<u8>, role: Role, sample: Seq<u8>) -> Seq<u8>;

/// The header-protection mask that the remote header key of the initial keys
/// for (`version`, `cid`, `role`) computes from `sample`.
pub uninterp spec fn remote_mask(version: QuicVersion, cid: Seq<u8>, role: Role, sample: Seq<u8>) -> Seq<u8>;

/// Bits of the first byte that header protection covers: four in a long
/// header, five in a short one.
pub open spec fn protected_bits(first: u8) -> u8 {
    if first & 0x80 == 0x80 {
        0x0f
    } else {
        0x1f
    }
}

/// Packet-number length that an unprotected first byte announces.
pub open spec fn pn_len_of(first: u8) -> nat {
    ((first & 3) + 1) as nat
}

/// `pn` with its first `n` bytes xored with the mask bytes after the first.
pub open spec fn xor_pn(pn: Seq<u8>, mask: Seq<u8>, n: nat) -> Seq<u8> {
    Seq::new(pn.len(), |i: int| if i < n { pn[i] ^ mask[i + 1] } else { pn[i] })
}

/// Relies on rustls' `quic::Keys::initial`, which derives the initial keys
/// from the version and the client's destination connection identifier.
#[verifier::external_body]
fn rustls_initial_keys(version: QuicVersion, cid: &Vec<u8>, role: Role) -> rustls::quic::Keys {
    let v = match version {
        QuicVersion::V1Draft => rustls::quic::Version::V1Draft,
        QuicVersion::V1 => rustls::quic::Version::V1,
        QuicVersion::V2 => rustls::quic::Version::V2,
    };
    let side = match role {
        Role::Client => rustls::Side::Client,
        Role::Server => rustls::Side::Server,
    };
    rustls::quic::Keys::initial(v, cid.as_slice(), side)
}

impl View for InitialKeys {
    type V = (QuicVersion, Seq<u8>, Role);

    closed spec fn view(&self) -> (QuicVersion, Seq<u8>, Role) {
        (self.version, self.cid@, self.role)
    }
}

impl InitialKeys {
    /// Derives the initial keys for `version`, the identifier `cid` and
    /// `role`; the keys are a function of these three alone.
    pub fn derive(version: QuicVersion, cid: &Vec<u8>, role: Role) -> (r: InitialKeys)
        ensures
            r@ == (version, cid@, role),
    {
        let keys = rustls_initial_keys(version, cid, role);
        InitialKeys { keys, version, cid: cid.clone(), role }
    }

    /// Relies on rustls' `quic::PacketKey::encrypt_in_place` on the local
    /// packet key: it encrypts `payload` in place and returns the tag, which
    /// is sixteen bytes for the initial suite (AES-128-GCM); it fails only on
    /// a payload longer than that cipher allows, and leaves it as it was.
    #[verifier::external_body]
    pub(crate) fn seal(&self, pn: u64, header: &Vec<u8>, payload: &mut Vec<u8>) -> (r: Option<Vec<u8>>)
        ensures
            old(payload)@.len() <= 0x1_0000_0000 ==> r is Some,
            match r {
                Some(tag) => {
                    &&& final(payload)@.len() == old(payload)@.len()
                    &&& tag@.len() == 16
                    &&& final(payload)@ + tag@ == sealed(self@.0, self@.1, self@.2, pn, header@, old(payload)@)
                },
                None => final(payload)@ == old(payload)@,
            },
    {
        match self.keys.local.packet.encrypt_in_place(pn, header.as_slice(), payload.as_mut_slice()) {
            Ok(tag) => Some(tag.as_ref().to_vec()),
            Err(_) => None,
        }
    }

    /// Relies on rustls' `quic::HeaderProtectionKey::encrypt_in_place` on the
    /// local header key: with a sixteen-byte sample and at most four
    /// packet-number bytes it masks the first byte's protected bits and the
    /// packet-number bytes that the first byte announces; else it changes
    /// nothing and fails.
    #[verifier::external_body]
    pub(crate) fn protect_header(&self, sample: &Vec<u8>, first: &mut u8, pn: &mut Vec<u8>) -> (r: bool)
        ensures
            r == (sample@.len() == 16 && old(pn)@.len() <= 4),
            r ==> *final(first) == *old(first) ^ (local_mask(self@.0, self@.1, self@.2, sample@)[0]
                & protected_bits(*old(first))),
            r ==> final(pn)@ == xor_pn(
                old(pn)@,
                local_mask(self@.0, self@.1, self@.2, sample@),
                pn_len_of(*old(first)),
            ),
            !r ==> *final(first) == *old(first) && final(pn)@ == old(pn)@,
    {
        self.keys.local.header.encrypt_in_place(sample.as_slice(), first, pn.as_mut_slice()).is_ok()
    }

    /// Relies on rustls' `quic::HeaderProtectionKey::decrypt_in_place` on the
    /// remote header key: as `protect_header`, but the packet-number length
    /// is read from the first byte once unmasked.
    #[verifier::external_body]
    pub(crate) fn unprotect_header(&self, sample: &Vec<u8>, first: &mut u8, pn: &mut Vec<u8>) -> (r: bool)
        ensures
            r == (sample@.len() == 16 && old(pn)@.len() <= 4),
            r ==> *final(first) == *old(first) ^ (remote_mask(self@.0, self@.1, self@.2, sample@)[0]
                & protected_bits(*old(first))),
            r ==> final(pn)@ == xor_pn(
                old(pn)@,
                remote_mask(self@.0, self@.1, self@.2, sample@),
                pn_len_of(*final(first)),
            ),
            !r ==> *final(first) == *old(first) && final(pn)@ == old(pn)@,
    {
        self.keys.remote.header.decrypt_in_place(sample.as_slice(), first, pn.as_mut_slice()).is_ok()
    }
}

/// Keys derived twice from the same version, identifier and role protect
/// alike: the same payload seals to the same bytes and the same sample gives
/// the same masks.
pub proof fn lemma_key_determinism(a: InitialKeys, b: InitialKeys)
    requires
        a@ == b@,
    ensures
        forall|pn: u64, header: Seq<u8>, payload: Seq<u8>|
            #[trigger] sealed(a@.0, a@.1, a@.2, pn, header, payload) == sealed(b@.0, b@.1, b@.2, pn, header, payload),
        forall|sample: Seq<u8>|
            #[trigger] local_mask(a@.0, a@.1, a@.2, sample) == local_mask(b@.0, b@.1, b@.2, sample),
        forall|sample: Seq<u8>|
            #[trigger] remote_mask(a@.0, a@.1, a@.2, sample) == remote_mask(b@.0, b@.1, b@.2, sample),
{
}

} // verus!
