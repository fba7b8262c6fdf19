use vstd::prelude::*;

verus! {

/// Outcome of one probe attempt.
#[derive(Clone, Copy, Debug)]
pub enum PingResult {
    /// A reply arrived; the round-trip time.
    Success(std::time::Duration),
    /// No reply within the read timeout.
    Timeout,
    /// The socket failed for another reason.
    Error,
}

impl PingResult {
    pub fn is_success(&self) -> (r: bool)
        ensures
            r == (self is Success),
    {
        match self {
            PingResult::Success(_) => true,
            _ => false,
        }
    }
}

} // verus!
