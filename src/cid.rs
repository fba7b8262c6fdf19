use vstd::prelude::*;

verus! {

/// Largest connection identifier the wire format can carry.
pub const MAX_CID_SIZE: usize = 20;

/// An opaque correlation token of at most `MAX_CID_SIZE` bytes.
pub struct ConnectionId {
    bytes: Vec<u8>,
}

impl View for ConnectionId {
    type V = Seq<u8>;

    closed spec fn view(&self) -> Seq<u8> {
        self.bytes@
    }
}

impl ConnectionId {
    #[verifier::type_invariant]
    spec fn fits(&self) -> bool {
        self.bytes@.len() <= MAX_CID_SIZE
    }

    /// An identifier holding a copy of `bytes`.
    pub fn new(bytes: &[u8]) -> (r: ConnectionId)
        requires
            bytes@.len() <= MAX_CID_SIZE,
        ensures
            r@ == bytes@,
    {
        let mut v: Vec<u8> = Vec::new();
        let mut i: usize = 0;
        while i < bytes.len()
            invariant
                i <= bytes@.len(),
                v@ == bytes@.subrange(0, i as int),
            decreases bytes@.len() - i,
        {
            v.push(bytes[i]);
            i = i + 1;
        }
        assert(v@ =~= bytes@);
        ConnectionId { bytes: v }
    }

    /// Length in bytes.
    pub fn len(&self) -> (r: usize)
        ensures
            r == self@.len(),
            r <= MAX_CID_SIZE,
    {
        proof {
            use_type_invariant(self);
        }
        self.bytes.len()
    }

    /// The identifier's bytes.
    pub fn as_bytes(&self) -> (r: &Vec<u8>)
        ensures
            r@ == self@,
            r@.len() <= MAX_CID_SIZE,
    {
        proof {
            use_type_invariant(self);
        }
        &self.bytes
    }
}

/// Relies on rand's `thread_rng().fill_bytes` (RngCore): it overwrites the
/// slice in place, so the length stays; the bytes are unpredictable.
#[verifier::external_body]
fn fill_random(buf: &mut Vec<u8>)
    ensures
        final(buf)@.len() == old(buf)@.len(),
{
    rand::RngCore::fill_bytes(&mut rand::thread_rng(), buf.as_mut_slice())
}

/// `n` unpredictable bytes.
pub fn random_bytes(n: usize) -> (r: Vec<u8>)
    ensures
        r@.len() == n,
{
    let mut v: Vec<u8> = Vec::new();
    let mut i: usize = 0;
    while i < n
        invariant
            i <= n,
            v@.len() == i,
        decreases n - i,
    {
        v.push(0);
        i = i + 1;
    }
    fill_random(&mut v);
    v
}

/// A fresh random identifier of `len` bytes.
pub fn generate_cid(len: usize) -> (r: ConnectionId)
    requires
        len <= MAX_CID_SIZE,
    ensures
        r@.len() == len,
{
    ConnectionId { bytes: random_bytes(len) }
}

} // verus!
