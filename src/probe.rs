use vstd::prelude::*;
use crate::cid::{ConnectionId, MAX_CID_SIZE, generate_cid};
use crate::decode::{decode_long_header, parse_long, DecodeError, lemma_round_trip};
use crate::keys::{InitialKeys, QuicVersion, Role};
use crate::packet::{PROBE_VERSION, MIN_DATAGRAM_SIZE, is_probe_datagram, build_packet};
use crate::result::PingResult;

verus! {

/// Length of the identifier each attempt generates.
pub const PROBE_CID_LEN: usize = 12;

/// Size of the buffer a response is received into: the largest datagram
/// that crosses any path of the minimum IPv6 MTU.
pub const RECV_BUFFER_SIZE: usize = 1232;

/// Everything one attempt sends and needs to read its response, all of it
/// fresh for the attempt.
pub struct ProbeAttempt {
    pub dcid: ConnectionId,
    pub datagram: Vec<u8>,
    pub keys: InitialKeys,
}

/// Prepares one attempt: a fresh random identifier, the client's initial
/// keys for it, and the protected probe datagram.
pub fn prepare_probe() -> (r: ProbeAttempt)
    ensures
        r.dcid@.len() == PROBE_CID_LEN,
        r.datagram@.len() == MIN_DATAGRAM_SIZE,
        r.keys@ == (QuicVersion::V1, r.dcid@, Role::Client),
        is_probe_datagram(r.datagram@, r.keys@, PROBE_VERSION),
{
    let dcid = generate_cid(PROBE_CID_LEN);
    let (datagram, keys) = build_packet(&dcid);
    ProbeAttempt { dcid, datagram, keys }
}

/// What the one timed receive of an attempt gave.
#[derive(Clone, Copy, Debug, PartialEq, Eq, Structural)]
pub enum RecvOutcome {
    /// A datagram of this many bytes arrived.
    Received(usize),
    /// The read timed out, reported as "would block".
    WouldBlock,
    /// The read timed out, reported as "timed out".
    TimedOut,
    /// Any other receive failure.
    Failed,
}

/// What the content of a response showed; it never changes the outcome.
#[derive(Clone, Copy, Debug, PartialEq, Eq, Structural)]
pub enum Diagnostic {
    /// A long header of the probe version carrying the probe's identifier.
    Correlated,
    /// A long header of the probe version carrying another identifier.
    ForeignIdentifier,
    /// Not readable as a long header of the probe version.
    Undecodable(DecodeError),
}

/// Outcome of an attempt together with what its response showed.
pub struct ProbeReport {
    pub result: PingResult,
    /// Present exactly when a datagram arrived.
    pub diagnostic: Option<Diagnostic>,
}

/// The outcome that a receive gives: any datagram is a success timed by
/// `elapsed`; a timed-out read is a timeout; anything else is an error.
pub open spec fn outcome_of(recv: RecvOutcome, elapsed: std::time::Duration) -> PingResult {
    match recv {
        RecvOutcome::Received(_) => PingResult::Success(elapsed),
        RecvOutcome::WouldBlock | RecvOutcome::TimedOut => PingResult::Timeout,
        RecvOutcome::Failed => PingResult::Error,
    }
}

/// What a response shows about the attempt with identifier `dcid`.
pub open spec fn diagnose(response: Seq<u8>, dcid: Seq<u8>) -> Diagnostic {
    match parse_long(response, seq![PROBE_VERSION]) {
        Err(e) => Diagnostic::Undecodable(e),
        Ok((_, _, d, _, _)) => if d == dcid {
            Diagnostic::Correlated
        } else {
            Diagnostic::ForeignIdentifier
        },
    }
}

/// Classifies one receive of a datagram probe.
pub fn classify(recv: RecvOutcome, elapsed: std::time::Duration) -> (r: PingResult)
    ensures
        r == outcome_of(recv, elapsed),
{
    match recv {
        RecvOutcome::Received(_) => PingResult::Success(elapsed),
        RecvOutcome::WouldBlock => PingResult::Timeout,
        RecvOutcome::TimedOut => PingResult::Timeout,
        RecvOutcome::Failed => PingResult::Error,
    }
}

/// Classifies a connection-level probe: an established connection is a
/// success timed by `elapsed`; every failure counts as a timeout.
pub fn classify_connect(connected: bool, elapsed: std::time::Duration) -> (r: PingResult)
    ensures
        r == (if connected {
            PingResult::Success(elapsed)
        } else {
            PingResult::Timeout
        }),
{
    if connected {
        PingResult::Success(elapsed)
    } else {
        PingResult::Timeout
    }
}

/// Whether two identifiers are byte-wise equal.
pub fn same_cid(a: &Vec<u8>, b: &Vec<u8>) -> (r: bool)
    ensures
        r == (a@ == b@),
{
    if a.len() != b.len() {
        return false;
    }
    let mut i: usize = 0;
    while i < a.len()
        invariant
            a@.len() == b@.len(),
            i <= a@.len(),
            a@.subrange(0, i as int) == b@.subrange(0, i as int),
        decreases a@.len() - i,
    {
        if a[i] != b[i] {
            assert(a@[i as int] != b@[i as int]);
            return false;
        }
        assert(a@.subrange(0, i + 1) =~= a@.subrange(0, i as int).push(a@[i as int]));
        assert(b@.subrange(0, i + 1) =~= b@.subrange(0, i as int).push(b@[i as int]));
        i = i + 1;
    }
    assert(a@ =~= a@.subrange(0, i as int));
    assert(b@ =~= b@.subrange(0, i as int));
    true
}

/// Reads a response against the attempt's identifier and keys: decodes it
/// as a long header of the probe version and compares its destination
/// identifier with `dcid`.
pub fn examine_response(response: &Vec<u8>, dcid: &ConnectionId, keys: &InitialKeys) -> (r: Diagnostic)
    ensures
        r == diagnose(response@, dcid@),
{
    let mut versions: Vec<u32> = Vec::new();
    versions.push(PROBE_VERSION);
    assert(versions@ =~= seq![PROBE_VERSION]);
    match decode_long_header(response, &versions, keys) {
        Err(e) => Diagnostic::Undecodable(e),
        Ok(h) => if same_cid(&h.dst_cid, dcid.as_bytes()) {
            Diagnostic::Correlated
        } else {
            Diagnostic::ForeignIdentifier
        },
    }
}

/// Ends an attempt once its receive is done: the outcome comes from the
/// receive and `elapsed` alone, taken before the response is read; a
/// received `response` is then examined.
pub fn finish_probe(
    recv: RecvOutcome,
    elapsed: std::time::Duration,
    response: &Vec<u8>,
    dcid: &ConnectionId,
    keys: &InitialKeys,
) -> (r: ProbeReport)
    ensures
        r.result == outcome_of(recv, elapsed),
        r.diagnostic == (match recv {
            RecvOutcome::Received(_) => Some(diagnose(response@, dcid@)),
            _ => None::<Diagnostic>,
        }),
{
    let result = classify(recv, elapsed);
    let diagnostic = match recv {
        RecvOutcome::Received(_) => Some(examine_response(response, dcid, keys)),
        _ => None,
    };
    ProbeReport { result, diagnostic }
}

/// A responder that echoes the probe datagram unchanged is recognised as
/// answering this very attempt: the echo decodes under the probe version
/// with the attempt's own identifier.
pub proof fn lemma_echo_correlates(p: Seq<u8>, k: (QuicVersion, Seq<u8>, Role))
    requires
        k.1.len() <= MAX_CID_SIZE,
        p.len() == MIN_DATAGRAM_SIZE,
        is_probe_datagram(p, k, PROBE_VERSION),
    ensures
        diagnose(p, k.1) == Diagnostic::Correlated,
{
    lemma_round_trip(p, k);
}

} // verus!
