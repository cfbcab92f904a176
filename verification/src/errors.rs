//! The ways in which a transfer can fail.
use vstd::prelude::*;

verus! {

/// Why a step of the protocol was refused or a session was aborted.
#[derive(Clone, Copy, Debug, PartialEq, Eq, Structural)]
pub enum Error {
    /// The batch holds no transfer at all.
    EmptyBatch,
    /// A vector supplied by the caller does not have the length of the batch.
    LengthMismatch,
    /// A message from the peer does not have the length the protocol fixes.
    MalformedPayload,
    /// The generator of randomness kept producing degenerate samples.
    Randomness,
    /// A MAC sent by the peer does not authenticate the value received.
    CheatingDetected,
}

/// Accepts every batch size but zero.
pub fn check_batch_size(m: usize) -> (r: Result<(), Error>)
    ensures
        r.is_ok() <==> m >= 1,
        r.is_err() ==> r == Err::<(), Error>(Error::EmptyBatch),
{
    if m == 0 {
        Err(Error::EmptyBatch)
    } else {
        Ok(())
    }
}

} // verus!
