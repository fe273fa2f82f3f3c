//! The error taxonomy of one proof-generation call. Any error aborts the
//! whole call; no partial result is exposed.

use vstd::prelude::*;

verus! {

/// Why a proof-generation call failed.
#[derive(Clone, Copy, Debug, PartialEq, Eq, Structural)]
pub enum ProverError {
    /// Some circuit supplied a number of instance columns different from the
    /// proving key's instance-column count.
    InvalidInstanceCount,
    /// Some instance column holds more values than the usable rows of the
    /// domain (`n - blinding_factors - 1`).
    InstanceTooLarge,
    /// A cell was read or written at a row at or beyond the usable-row bound.
    /// Carries the key's size exponent `k` for diagnostics.
    RowOutOfRange(u32),
    /// A cell was addressed in a column the key does not recognize.
    UnknownColumn,
    /// The external circuit's synthesis step failed for a reason opaque to
    /// this layer.
    SynthesisFailure,
}

/// Whether an error may legitimately be surfaced by a circuit's synthesis
/// step: its own opaque failure, or an assignment-sink error it propagated.
/// The instance-shape errors are never in this class, which keeps their
/// occurrence at the top level an exact signature of bad instance data.
pub open spec fn is_synthesis_class(e: ProverError) -> bool {
    e is SynthesisFailure || e is RowOutOfRange || e is UnknownColumn
}

} // verus!
