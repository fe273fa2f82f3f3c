//! The injected collaborators: the arithmetic backend that performs all
//! polynomial, field and commitment work, and the circuit synthesis hook.
//! The orchestrator is verified against their interfaces alone, so it can
//! run over any engine, including a recording mock in tests.

use crate::errors::{ProverError, is_synthesis_class};
use crate::key::ProvingKey;
use crate::points::{Commitment, ProjectivePoint};
use crate::scalar::{Assigned, Scalar};
use crate::witness::WitnessBuffer;
use vstd::prelude::*;

verus! {

/// Public-input data for one circuit after preparation: evaluation-form
/// columns (zero-padded to the full domain) and their coefficient-form
/// counterparts. Immutable once built.
pub struct InstanceSingle {
    /// One evaluation-form polynomial per instance column.
    pub instance_values: Vec<Vec<Scalar>>,
    /// The same columns converted to coefficient form.
    pub instance_polys: Vec<Vec<Scalar>>,
}

/// `padded_col` is `vals` zero-extended to exactly `n` rows.
pub open spec fn is_zero_padded(vals: Seq<Scalar>, padded_col: Seq<Scalar>, n: int) -> bool {
    &&& padded_col.len() == n
    &&& forall|i: int| 0 <= i < vals.len() ==> padded_col[i] == vals[i]
    &&& forall|i: int| vals.len() <= i < n ==> padded_col[i] == crate::scalar::scalar_zero()
}

impl InstanceSingle {
    /// The prepared data faithfully derives from the supplied columns: one
    /// zero-padded evaluation column and one full-domain coefficient column
    /// per supplied column.
    pub open spec fn derived_from(self, cols: Seq<Seq<Scalar>>, n: int) -> bool {
        &&& self.instance_values@.len() == cols.len()
        &&& forall|col: int|
            0 <= col < cols.len() ==> is_zero_padded(
                cols[col],
                #[trigger] self.instance_values@[col]@,
                n,
            )
        &&& self.instance_polys@.len() == cols.len()
        &&& forall|col: int| 0 <= col < cols.len() ==> #[trigger] self.instance_polys@[col]@.len()
            == n
    }
}

/// Advice data for one circuit, filled in phase by phase: one committed
/// evaluation-form polynomial and one blinding value per advice column.
pub struct AdviceSingle {
    /// One evaluation-form polynomial per advice column.
    pub advice_polys: Vec<Vec<Scalar>>,
    /// The blinding value drawn for each column's commitment.
    pub advice_blinds: Vec<Scalar>,
}

impl AdviceSingle {
    /// Shape invariant: one polynomial and one blinding value per declared
    /// advice column, every polynomial over the full domain.
    pub open spec fn wf(self, num_advice: int, n: int) -> bool {
        &&& self.advice_polys@.len() == num_advice
        &&& forall|i: int| 0 <= i < num_advice ==> #[trigger] self.advice_polys@[i]@.len() == n
        &&& self.advice_blinds@.len() == num_advice
    }
}

/// The arithmetic backend: field, polynomial and commitment operations the
/// orchestrator sequences but never performs. Only shape facts are assumed
/// of it; the values it computes are opaque to this crate.
pub trait Backend: Sized {
    /// Prepares the evaluation domain for the given key. Called once,
    /// before anything is bound into the transcript.
    fn set_extended_domain(&mut self, pk: &ProvingKey);

    /// The key's transcript representation: the scalar that is hashed into
    /// the transcript first so challenges bind to the circuit being proved.
    fn transcript_repr(&self, pk: &ProvingKey) -> Scalar;

    /// Commits to an evaluation-form (Lagrange-basis) polynomial.
    fn commit_lagrange(&self, evals: &Vec<Scalar>) -> ProjectivePoint;

    /// Normalizes a batch of projective commitments to affine form, in
    /// order.
    fn batch_normalize(&self, points: &Vec<ProjectivePoint>) -> (r: Vec<Commitment>)
        ensures
            r@.len() == points@.len(),
    ;

    /// Converts an evaluation-form polynomial to coefficient form (inverse
    /// transform over the domain).
    fn ifft(&self, evals: &Vec<Scalar>) -> (r: Vec<Scalar>)
        ensures
            r@.len() == evals@.len(),
    ;

    /// Resolves a batch of tagged witness columns to dense field
    /// evaluations in one step (performing the deferred divisions).
    fn batch_evaluate(&self, columns: &Vec<Vec<Assigned>>) -> (r: Vec<Vec<Scalar>>)
        ensures
            r@.len() == columns@.len(),
            forall|i: int| 0 <= i < r@.len() ==> #[trigger] r@[i]@.len() == columns@[i]@.len(),
    ;

    /// Hands the backend the randomness-source state exported after
    /// blinding, so it can resume further random draws internally.
    fn set_rng_state(&mut self, state: &Vec<u8>);

    /// Hands the backend the transcript state, so it can append further
    /// proof data internally.
    fn set_transcript_state(&mut self, state: &Vec<u8>);

    /// Constructs the proof from the assembled instance, advice and
    /// challenge data. The proof bytes accumulate in the transcript state
    /// the backend now owns.
    fn build_proof(
        &mut self,
        pk: &ProvingKey,
        instances: &Vec<InstanceSingle>,
        advice: &Vec<AdviceSingle>,
        challenges: &Vec<Scalar>,
    );
}

/// The circuit synthesis hook: fills witness values into the assignment
/// sink through its capability methods. Synthesis is re-run in full for
/// every phase, so an implementation must tolerate challenges of later
/// phases being unknown.
pub trait Synthesizer: Sized {
    /// Runs this circuit's synthesis against one phase's witness buffer.
    /// Synthesis may only write advice cells: the buffer's shape and
    /// context are preserved, and any failure is either the circuit's own
    /// opaque failure or an assignment-sink error passed through.
    fn synthesize(&self, rows: usize, witness: &mut WitnessBuffer) -> (r: Result<(), ProverError>)
        requires
            old(witness).wf(rows as int),
        ensures
            final(witness).wf(rows as int),
            final(witness).same_context(*old(witness)),
            final(witness).advice@.len() == old(witness).advice@.len(),
            r matches Err(e) ==> is_synthesis_class(e),
    ;
}

} // verus!
