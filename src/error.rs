use vstd::prelude::*;

verus! {

/// Why a message could not be decoded.
#[derive(Debug, Clone, Copy, PartialEq, Eq, Structural)]
pub enum MessageError {
    /// The envelope is not the shape the handler expects (missing item, wrong kind of item).
    MalformedEnvelope,
    /// A batch of odd length, a marker other than 1, or an unsupported version.
    ProtocolInvariantViolation,
    /// A header record shorter than its layout demands.
    TruncatedRecord,
}

} // verus!
