//! Curve points as the orchestrator sees them: opaque coordinate bundles
//! produced by the backend's commitment engine and forwarded to the
//! transcript. No curve arithmetic happens in this crate.

use crate::scalar::Scalar;
use vstd::prelude::*;

verus! {

/// An affine curve point, the normalized form of a commitment that is
/// appended to the transcript and sent to the verifier.
#[derive(Clone, Copy, Debug, PartialEq, Eq, Structural)]
pub struct Commitment {
    pub x: Scalar,
    pub y: Scalar,
}

/// A projective curve point, the raw form a single commitment computation
/// yields before a whole batch is normalized at once.
#[derive(Clone, Copy, Debug, PartialEq, Eq, Structural)]
pub struct ProjectivePoint {
    pub x: Scalar,
    pub y: Scalar,
    pub z: Scalar,
}

} // verus!
