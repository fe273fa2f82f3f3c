//! The Fiat-Shamir transcript binder: an append-only, strictly ordered log
//! of everything woven into challenge derivation. The log itself is verified
//! state of this crate; only the hash/sponge primitive that turns the log
//! into challenge scalars is an injected collaborator.

use crate::points::Commitment;
use crate::scalar::Scalar;
use vstd::prelude::*;

verus! {

/// One transcript operation, in the order it was performed. The ordering of
/// these entries is the Fiat-Shamir security contract: the verifier must be
/// able to replay exactly this sequence to derive the same challenges.
#[derive(Clone, Copy, Debug, PartialEq, Eq, Structural)]
pub enum TranscriptEntry {
    /// A scalar absorbed as common data (known to both parties).
    CommonScalar(Scalar),
    /// A point absorbed as common data.
    CommonPoint(Commitment),
    /// A commitment absorbed and also written out for the verifier.
    WrittenPoint(Commitment),
    /// A challenge scalar squeezed from the state accumulated so far.
    Squeeze(Scalar),
}

/// The hash/sponge primitive behind the transcript: the one collaborator
/// the binder delegates to. Implementations absorb the same data the log
/// records and derive challenge scalars from their internal state.
pub trait Sponge: Sized {
    /// Mixes a scalar into the sponge state.
    fn absorb_scalar(&mut self, s: &Scalar);

    /// Mixes an affine point into the sponge state.
    fn absorb_point(&mut self, p: &Commitment);

    /// Derives one challenge scalar from, and irreversibly mixes it into,
    /// the current state.
    fn squeeze(&mut self) -> Scalar;

    /// Serializes the current state, so the backend can resume the
    /// transcript internally after the orchestrator hands over.
    fn state(&self) -> Vec<u8>;
}

/// The transcript binder: the verified append-only log plus the sponge it
/// feeds. Exclusively owned by one proof-generation call.
pub struct Transcript<H> {
    /// Every operation performed, oldest first.
    pub entries: Vec<TranscriptEntry>,
    /// The underlying hash state.
    pub sponge: H,
}

impl<H: Sponge> Transcript<H> {
    /// The recorded operation log.
    pub open spec fn trace(self) -> Seq<TranscriptEntry> {
        self.entries@
    }

    /// Starts an empty transcript over a fresh sponge.
    pub fn new(sponge: H) -> (r: Transcript<H>)
        ensures
            r.trace() == Seq::<TranscriptEntry>::empty(),
    {
        let entries: Vec<TranscriptEntry> = Vec::new();
        proof {
            assert(entries@ =~= Seq::<TranscriptEntry>::empty());
        }
        Transcript { entries, sponge }
    }

    /// Appends a common scalar.
    pub fn common_scalar(&mut self, s: &Scalar)
        ensures
            final(self).trace() == old(self).trace().push(TranscriptEntry::CommonScalar(*s)),
    {
        self.sponge.absorb_scalar(s);
        self.entries.push(TranscriptEntry::CommonScalar(*s));
    }

    /// Appends a common point.
    pub fn common_point(&mut self, p: &Commitment)
        ensures
            final(self).trace() == old(self).trace().push(TranscriptEntry::CommonPoint(*p)),
    {
        self.sponge.absorb_point(p);
        self.entries.push(TranscriptEntry::CommonPoint(*p));
    }

    /// Appends a commitment that the verifier must also receive.
    pub fn write_point(&mut self, p: &Commitment)
        ensures
            final(self).trace() == old(self).trace().push(TranscriptEntry::WrittenPoint(*p)),
    {
        self.sponge.absorb_point(p);
        self.entries.push(TranscriptEntry::WrittenPoint(*p));
    }

    /// Squeezes one challenge scalar and records the squeeze in the log.
    pub fn squeeze_challenge(&mut self) -> (c: Scalar)
        ensures
            final(self).trace() == old(self).trace().push(TranscriptEntry::Squeeze(c)),
    {
        let c = self.sponge.squeeze();
        self.entries.push(TranscriptEntry::Squeeze(c));
        c
    }

    /// Exports the sponge state for the backend to resume.
    pub fn state(&self) -> Vec<u8> {
        self.sponge.state()
    }
}

} // verus!
