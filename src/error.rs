//! Typed failures of the extraction algorithms.
use vstd::prelude::*;

verus! {

/// Why an extraction could not be carried out.
#[derive(Clone, Copy, Debug, PartialEq, Eq, Structural)]
pub enum ExtractionError {
    /// The two challenges give a zero divisor: the transcripts do not determine
    /// the witness.
    DegenerateChallengePair,
    /// An opening point lies on the evaluation domain, or the two challenges
    /// sum to zero.
    PreconditionViolation,
    /// A recovered witness does not open the commitment it was recovered for.
    VerificationFailed,
}

} // verus!
