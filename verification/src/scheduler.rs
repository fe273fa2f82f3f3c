//! The phase scheduler: the central state machine of proof generation. It
//! visits the declared phases in ascending order; in each phase it re-runs
//! every circuit's synthesis, extracts the phase-owned advice columns,
//! blinds and commits them, publishes the commitments, and only then
//! squeezes the challenges scheduled for that phase. The commit-before-
//! challenge order of the resulting transcript is stated in the contracts
//! and proved, not merely intended.

use crate::backend::{AdviceSingle, Backend, Synthesizer};
use crate::challenges::ChallengeMap;
use crate::errors::{ProverError, is_synthesis_class};
use crate::key::{
    ProvingKey, count_eq, lemma_count_eq_take_all, lemma_count_eq_take_step,
};
use crate::points::ProjectivePoint;
use crate::protocol::{
    blocks_len_upto, lemma_block_len_nonneg, lemma_phase_block_ok_extend, lemma_prefix_index,
    lemma_prefix_transitive, lemma_take_contains_step, phase_block_ok, phase_trace_ok,
};
use crate::scalar::{Assigned, Scalar, copy_assigneds, copy_bytes, copy_columns, copy_scalars,
    zero_evals};
use crate::transcript::{Sponge, Transcript};
use crate::witness::WitnessBuffer;
use vstd::prelude::*;
use vstd::seq_lib::*;

verus! {

/// Whether `col` stands among the collected owned-column indices.
pub open spec fn contains_index(owned: Seq<usize>, col: int) -> bool {
    exists|t: int| 0 <= t < owned.len() && (#[trigger] owned[t]) as int == col
}

/// Membership in a one-longer prefix of the owned-column list.
proof fn lemma_contains_index_step(owned: Seq<usize>, t: int, col: int)
    requires
        0 <= t < owned.len(),
    ensures
        contains_index(owned.take(t + 1), col) <==> (contains_index(owned.take(t), col)
            || owned[t] as int == col),
{
    if contains_index(owned.take(t + 1), col) {
        let w = choose|w: int|
            0 <= w < owned.take(t + 1).len() && (#[trigger] owned.take(t + 1)[w]) as int == col;
        if w < t {
            assert((owned.take(t)[w]) as int == col);
        }
    }
    if contains_index(owned.take(t), col) {
        let w = choose|w: int|
            0 <= w < owned.take(t).len() && (#[trigger] owned.take(t)[w]) as int == col;
        assert((owned.take(t + 1)[w]) as int == col);
    }
    if owned[t] as int == col {
        assert((owned.take(t + 1)[t]) as int == col);
    }
}

/// A column index stands among a phase's collected owned columns exactly
/// when the key declares that phase as the column's owner.
proof fn lemma_owned_membership(pk: ProvingKey, phase: u8, owned: Seq<usize>, col: int)
    requires
        owned.map_values(|u: usize| u as int) == crate::key::indices_eq(
            pk.advice_column_phases@,
            phase,
        ),
        0 <= col < pk.advice_column_phases@.len(),
    ensures
        contains_index(owned, col) <==> pk.advice_column_phases@[col] == phase,
{
    crate::key::lemma_indices_eq_membership(pk.advice_column_phases@, phase, col);
    let m = owned.map_values(|u: usize| u as int);
    let ix = crate::key::indices_eq(pk.advice_column_phases@, phase);
    if contains_index(owned, col) {
        let t = choose|t: int| 0 <= t < owned.len() && (#[trigger] owned[t]) as int == col;
        assert(m[t] == owned[t] as int);
        assert(ix[t] == col);
    }
    if pk.advice_column_phases@[col] == phase {
        let t = choose|t: int| 0 <= t < ix.len() && #[trigger] ix[t] == col;
        assert(m[t] == owned[t] as int);
        assert(owned[t] as int == col);
    }
}

/// Builds the empty advice bundle for one circuit: all-zero polynomials and
/// zero blinding values, to be overwritten phase by phase.
fn new_advice_single(num_advice: usize, n: usize) -> (r: AdviceSingle)
    ensures
        r.wf(num_advice as int, n as int),
{
    let mut polys: Vec<Vec<Scalar>> = Vec::new();
    let mut blinds: Vec<Scalar> = Vec::new();
    let mut i: usize = 0;
    while i < num_advice
        invariant
            i <= num_advice,
            polys@.len() == i,
            blinds@.len() == i,
            forall|j: int| 0 <= j < i ==> #[trigger] polys@[j]@.len() == n,
        decreases num_advice - i,
    {
        polys.push(zero_evals(n));
        blinds.push(Scalar::zero());
        i = i + 1;
    }
    AdviceSingle { advice_polys: polys, advice_blinds: blinds }
}

/// Runs one circuit's synthesis for one phase and commits the phase-owned
/// columns: synthesize into a fresh buffer, extract the owned columns,
/// resolve them to dense evaluations in one batched step, fix each
/// column's last row to the reserved constant, commit with the supplied
/// blinding values, and publish the commitments in column order. Appends
/// exactly one written point per owned column; on a synthesis error the
/// transcript and the advice bundle are untouched.
fn run_circuit_phase<B: Backend, H: Sponge, C: Synthesizer>(
    backend: &B,
    pk: &ProvingKey,
    phase: u8,
    owned: &Vec<usize>,
    circuit: &C,
    circuit_instances: &Vec<Vec<Scalar>>,
    challenges: &ChallengeMap,
    circuit_blinds: &Vec<Scalar>,
    advice: &mut AdviceSingle,
    transcript: &mut Transcript<H>,
) -> (r: Result<(), ProverError>)
    requires
        pk.wf(),
        owned@.len() == pk.owned_count(phase),
        forall|i: int| 0 <= i < owned@.len() ==> #[trigger] owned@[i] < pk.num_advice_columns(),
        forall|t1: int, t2: int|
            0 <= t1 < t2 < owned@.len() ==> owned@[t1] < owned@[t2],
        circuit_blinds@.len() == pk.num_advice_columns(),
        old(advice).wf(pk.num_advice_columns(), pk.n as int),
    ensures
        old(transcript).trace().is_prefix_of(final(transcript).trace()),
        final(advice).wf(pk.num_advice_columns(), pk.n as int),
        r matches Err(e) ==> is_synthesis_class(e) && final(transcript).trace() == old(
            transcript,
        ).trace() && *final(advice) == *old(advice),
        r is Ok ==> {
            &&& final(transcript).trace().len() == old(transcript).trace().len() + owned@.len()
            &&& forall|j: int|
                old(transcript).trace().len() <= j < final(transcript).trace().len() ==> (
                #[trigger] final(transcript).trace()[j]) is WrittenPoint
            &&& forall|t2: int|
                0 <= t2 < owned@.len() ==> final(advice).advice_polys@[
                    #[trigger] owned@[t2] as int
                ]@[pk.n - 1] == crate::scalar::scalar_one() && final(advice).advice_blinds@[
                    owned@[t2] as int
                ] == circuit_blinds@[owned@[t2] as int]
            &&& forall|col: int|
                0 <= col < pk.num_advice_columns() && !contains_index(owned@, col) ==> (
                #[trigger] final(advice).advice_polys@[col]) == old(advice).advice_polys@[col]
                    && final(advice).advice_blinds@[col] == old(advice).advice_blinds@[col]
        },
{
    let n = pk.n;
    let mut witness = WitnessBuffer::new(
        pk.k,
        phase,
        n,
        copy_bytes(&pk.advice_column_phases),
        challenges.snapshot(),
        copy_columns(circuit_instances),
        pk.usable_rows(),
    );
    match circuit.synthesize(n, &mut witness) {
        Ok(()) => (),
        Err(e) => {
            return Err(e);
        },
    }
    // Extract the phase-owned columns, in ascending column order.
    let mut owned_rationals: Vec<Vec<Assigned>> = Vec::new();
    let mut t: usize = 0;
    while t < owned.len()
        invariant
            t <= owned@.len(),
            owned_rationals@.len() == t,
            witness.wf(n as int),
            witness.advice@.len() == pk.num_advice_columns(),
            forall|i: int| 0 <= i < owned@.len() ==> #[trigger] owned@[i]
                < pk.num_advice_columns(),
            forall|j: int| 0 <= j < t ==> #[trigger] owned_rationals@[j]@.len() == n,
        decreases owned@.len() - t,
    {
        let idx = owned[t];
        owned_rationals.push(copy_assigneds(&witness.advice[idx]));
        t = t + 1;
    }
    // Resolve the tagged values to dense evaluations in one batched step.
    let mut advice_values = backend.batch_evaluate(&owned_rationals);
    // Fix the last row of each column to the reserved constant for the
    // permutation argument rather than leaving it circuit-assigned.
    let mut t: usize = 0;
    while t < advice_values.len()
        invariant
            t <= advice_values@.len(),
            advice_values@.len() == owned@.len(),
            n == pk.n && pk.wf(),
            forall|j: int| 0 <= j < advice_values@.len() ==> #[trigger] advice_values@[j]@.len()
                == n,
            forall|j: int|
                0 <= j < t ==> #[trigger] advice_values@[j]@[n - 1] == crate::scalar::scalar_one(),
        decreases advice_values@.len() - t,
    {
        let ghost pre = advice_values@;
        let mut colv = advice_values.remove(t);
        colv.set(n - 1, Scalar::one());
        advice_values.insert(t, colv);
        proof {
            assert forall|j: int|
                0 <= j < advice_values@.len() implies #[trigger] advice_values@[j]@.len()
                == n by {
                if j < t {
                    assert(advice_values@[j] == pre.remove(t as int)[j]);
                } else if j > t {
                    assert(advice_values@[j] == pre.remove(t as int)[j - 1]);
                }
            }
            assert forall|j: int|
                0 <= j < t + 1 implies #[trigger] advice_values@[j]@[n - 1]
                == crate::scalar::scalar_one() by {
                if j < t {
                    assert(advice_values@[j] == pre.remove(t as int)[j]);
                } else {
                    assert(advice_values@[t as int] == colv);
                }
            }
        }
        t = t + 1;
    }
    // Commit to each owned column and normalize the batch.
    let mut projective: Vec<ProjectivePoint> = Vec::new();
    let mut t: usize = 0;
    while t < advice_values.len()
        invariant
            t <= advice_values@.len(),
            projective@.len() == t,
        decreases advice_values@.len() - t,
    {
        projective.push(backend.commit_lagrange(&advice_values[t]));
        t = t + 1;
    }
    let commitments = backend.batch_normalize(&projective);
    // Publish the commitments, in column order.
    let ghost base = transcript.trace();
    let mut t: usize = 0;
    while t < commitments.len()
        invariant
            t <= commitments@.len(),
            transcript.trace().len() == base.len() + t,
            base.is_prefix_of(transcript.trace()),
            forall|j: int|
                base.len() <= j < transcript.trace().len() ==> (#[trigger] transcript.trace()[j])
                    is WrittenPoint,
        decreases commitments@.len() - t,
    {
        transcript.write_point(&commitments[t]);
        t = t + 1;
    }
    // Store the committed polynomials and their blinds at their columns.
    let ghost init_polys = advice.advice_polys@;
    let ghost init_blinds = advice.advice_blinds@;
    let mut t: usize = 0;
    while t < owned.len()
        invariant
            t <= owned@.len(),
            pk.wf(),
            n == pk.n,
            advice_values@.len() == owned@.len(),
            circuit_blinds@.len() == pk.num_advice_columns(),
            forall|i: int| 0 <= i < owned@.len() ==> #[trigger] owned@[i]
                < pk.num_advice_columns(),
            forall|t1: int, t2: int|
                0 <= t1 < t2 < owned@.len() ==> owned@[t1] < owned@[t2],
            forall|j: int| 0 <= j < advice_values@.len() ==> #[trigger] advice_values@[j]@.len()
                == pk.n,
            forall|j: int|
                0 <= j < advice_values@.len() ==> #[trigger] advice_values@[j]@[n - 1]
                    == crate::scalar::scalar_one(),
            advice.wf(pk.num_advice_columns(), pk.n as int),
            init_polys == old(advice).advice_polys@,
            init_blinds == old(advice).advice_blinds@,
            forall|t2: int|
                0 <= t2 < t ==> advice.advice_polys@[#[trigger] owned@[t2] as int]@[pk.n - 1]
                    == crate::scalar::scalar_one() && advice.advice_blinds@[owned@[t2] as int]
                    == circuit_blinds@[owned@[t2] as int],
            init_polys.len() == pk.num_advice_columns(),
            init_blinds.len() == pk.num_advice_columns(),
            forall|col: int|
                0 <= col < pk.num_advice_columns() && !contains_index(
                    owned@.take(t as int),
                    col,
                ) ==> (#[trigger] advice.advice_polys@[col]) == init_polys[col]
                    && advice.advice_blinds@[col] == init_blinds[col],
        decreases owned@.len() - t,
    {
        let idx = owned[t];
        let ghost head_polys = advice.advice_polys@;
        let ghost head_blinds = advice.advice_blinds@;
        advice.advice_polys.set(idx, copy_scalars(&advice_values[t]));
        advice.advice_blinds.set(idx, circuit_blinds[idx]);
        proof {
            assert forall|t2: int|
                0 <= t2 < t + 1 implies advice.advice_polys@[
                #[trigger] owned@[t2] as int
            ]@[pk.n - 1] == crate::scalar::scalar_one() && advice.advice_blinds@[
                owned@[t2] as int
            ] == circuit_blinds@[owned@[t2] as int] by {
                if t2 < t {
                    assert(owned@[t2] < owned@[t as int]);
                }
            }
            assert forall|col: int|
                0 <= col < pk.num_advice_columns() && !contains_index(
                owned@.take(t + 1),
                col,
            ) implies (#[trigger] advice.advice_polys@[col]) == init_polys[col]
                && advice.advice_blinds@[col] == init_blinds[col] by {
                lemma_contains_index_step(owned@, t as int, col);
                assert(owned@[t as int] as int != col);
                assert(!contains_index(owned@.take(t as int), col));
                assert(head_polys[col] == init_polys[col] && head_blinds[col]
                    == init_blinds[col]);
                assert(advice.advice_polys@[col] == head_polys[col]);
                assert(advice.advice_blinds@[col] == head_blinds[col]);
            }
        }
        t = t + 1;
    }
    proof {
        assert(owned@.take(owned@.len() as int) =~= owned@);
    }
    Ok(())
}

/// Runs one phase across every circuit, in declared circuit order: each
/// circuit is synthesized afresh and its phase-owned columns are committed
/// and published. On success the transcript gained exactly one written
/// commitment per (circuit, owned column); every owned column of every
/// circuit now ends in the reserved constant and carries its supplied
/// blinding value, and every other column is untouched.
fn run_phase_circuits<B: Backend, H: Sponge, C: Synthesizer>(
    backend: &B,
    pk: &ProvingKey,
    phase: u8,
    owned: &Vec<usize>,
    circuits: &Vec<C>,
    instances: &Vec<Vec<Vec<Scalar>>>,
    blinds: &Vec<Vec<Scalar>>,
    challenges: &ChallengeMap,
    advice: &mut Vec<AdviceSingle>,
    transcript: &mut Transcript<H>,
) -> (r: Result<(), ProverError>)
    requires
        pk.wf(),
        circuits@.len() == instances@.len(),
        blinds@.len() == circuits@.len(),
        forall|i: int| 0 <= i < blinds@.len() ==> #[trigger] blinds@[i]@.len()
            == pk.num_advice_columns(),
        owned@.len() == pk.owned_count(phase),
        forall|i: int| 0 <= i < owned@.len() ==> #[trigger] owned@[i] < pk.num_advice_columns(),
        forall|t1: int, t2: int|
            0 <= t1 < t2 < owned@.len() ==> owned@[t1] < owned@[t2],
        owned@.map_values(|u: usize| u as int) == crate::key::indices_eq(
            pk.advice_column_phases@,
            phase,
        ),
        old(advice)@.len() == circuits@.len(),
        forall|c: int|
            0 <= c < old(advice)@.len() ==> (#[trigger] old(advice)@[c]).wf(
                pk.num_advice_columns(),
                pk.n as int,
            ),
    ensures
        old(transcript).trace().is_prefix_of(final(transcript).trace()),
        final(advice)@.len() == old(advice)@.len(),
        forall|c: int|
            0 <= c < final(advice)@.len() ==> (#[trigger] final(advice)@[c]).wf(
                pk.num_advice_columns(),
                pk.n as int,
            ),
        r matches Err(e) ==> is_synthesis_class(e) && circuits@.len() > 0,
        r is Ok ==> {
            &&& final(transcript).trace().len() == old(transcript).trace().len() + circuits@.len()
                * pk.owned_count(phase)
            &&& forall|j: int|
                old(transcript).trace().len() <= j < final(transcript).trace().len() ==> (
                #[trigger] final(transcript).trace()[j]) is WrittenPoint
            &&& forall|c2: int, col: int|
                0 <= c2 < final(advice)@.len() && 0 <= col < pk.num_advice_columns()
                    && pk.advice_column_phases@[col] == phase ==> (
                #[trigger] final(advice)@[c2].advice_polys@[col])@[pk.n - 1]
                    == crate::scalar::scalar_one() && final(advice)@[c2].advice_blinds@[col]
                    == blinds@[c2]@[col]
            &&& forall|c2: int, col: int|
                0 <= c2 < final(advice)@.len() && 0 <= col < pk.num_advice_columns()
                    && pk.advice_column_phases@[col] != phase ==> (
                #[trigger] final(advice)@[c2].advice_polys@[col]) == old(
                advice,
            )@[c2].advice_polys@[col] && final(advice)@[c2].advice_blinds@[col] == old(
                advice,
            )@[c2].advice_blinds@[col]
        },
{
    let ghost base = transcript.trace();
    let ghost init_advice = advice@;
    let mut c: usize = 0;
    while c < circuits.len()
        invariant
            pk.wf(),
            circuits@.len() == instances@.len(),
            blinds@.len() == circuits@.len(),
            forall|i2: int| 0 <= i2 < blinds@.len() ==> #[trigger] blinds@[i2]@.len()
                == pk.num_advice_columns(),
            c <= circuits@.len(),
            base == old(transcript).trace(),
            init_advice == old(advice)@,
            owned@.len() == pk.owned_count(phase),
            forall|i2: int| 0 <= i2 < owned@.len() ==> #[trigger] owned@[i2]
                < pk.num_advice_columns(),
            forall|t1: int, t2: int|
                0 <= t1 < t2 < owned@.len() ==> owned@[t1] < owned@[t2],
            owned@.map_values(|u: usize| u as int) == crate::key::indices_eq(
                pk.advice_column_phases@,
                phase,
            ),
            advice@.len() == circuits@.len(),
            init_advice.len() == circuits@.len(),
            forall|c2: int|
                0 <= c2 < advice@.len() ==> (#[trigger] advice@[c2]).wf(
                    pk.num_advice_columns(),
                    pk.n as int,
                ),
            forall|c2: int, col: int|
                0 <= c2 < c && 0 <= col < pk.num_advice_columns()
                    && pk.advice_column_phases@[col] == phase ==> (
                #[trigger] advice@[c2].advice_polys@[col])@[pk.n - 1]
                    == crate::scalar::scalar_one(),
            forall|c2: int, col: int|
                0 <= c2 < c && 0 <= col < pk.num_advice_columns()
                    && pk.advice_column_phases@[col] == phase ==> (
                #[trigger] advice@[c2].advice_blinds@[col]) == blinds@[c2]@[col],
            forall|c2: int, col: int|
                0 <= c2 < advice@.len() && 0 <= col < pk.num_advice_columns() && (c2 >= c
                    || pk.advice_column_phases@[col] != phase) ==> (
                #[trigger] advice@[c2].advice_polys@[col]) == init_advice[c2].advice_polys@[col],
            forall|c2: int, col: int|
                0 <= c2 < advice@.len() && 0 <= col < pk.num_advice_columns() && (c2 >= c
                    || pk.advice_column_phases@[col] != phase) ==> (
                #[trigger] advice@[c2].advice_blinds@[col]) == init_advice[c2].advice_blinds@[col],
            transcript.trace().len() == base.len() + c * owned@.len(),
            base.is_prefix_of(transcript.trace()),
            forall|j: int|
                base.len() <= j < transcript.trace().len() ==> (#[trigger] transcript.trace()[j])
                    is WrittenPoint,
        decreases circuits@.len() - c,
    {
        let ghost before_call = transcript.trace();
        let ghost pre_advice = advice@;
        let mut circuit_advice = advice.remove(c);
        let result = run_circuit_phase(
            backend,
            pk,
            phase,
            owned,
            &circuits[c],
            &instances[c],
            challenges,
            &blinds[c],
            &mut circuit_advice,
            transcript,
        );
        advice.insert(c, circuit_advice);
        proof {
            assert forall|c2: int|
                0 <= c2 < advice@.len() && c2 != c implies #[trigger] advice@[c2]
                == pre_advice[c2] by {
                if c2 < c {
                    assert(advice@[c2] == pre_advice.remove(c as int)[c2]);
                } else {
                    assert(advice@[c2] == pre_advice.remove(c as int)[c2 - 1]);
                }
            }
        }
        match result {
            Ok(()) => (),
            Err(e) => {
                return Err(e);
            },
        }
        proof {
            assert((c + 1) * owned@.len() == c * owned@.len() + owned@.len())
                by (nonlinear_arith);
            assert forall|j: int|
                base.len() <= j < transcript.trace().len() implies (
            #[trigger] transcript.trace()[j]) is WrittenPoint by {
                if j < before_call.len() {
                    lemma_prefix_index(before_call, transcript.trace(), j);
                }
            }
            assert forall|c2: int, col: int|
                0 <= c2 < c + 1 && 0 <= col < pk.num_advice_columns()
                    && pk.advice_column_phases@[col] == phase implies (
            #[trigger] advice@[c2].advice_polys@[col])@[pk.n - 1]
                    == crate::scalar::scalar_one() by {
                if c2 == c {
                    lemma_owned_membership(*pk, phase, owned@, col);
                    let tw = choose|tw: int|
                        0 <= tw < owned@.len() && (#[trigger] owned@[tw]) as int == col;
                    assert(advice@[c as int].advice_polys@[owned@[tw] as int]@[pk.n - 1]
                        == crate::scalar::scalar_one());
                } else {
                    assert(advice@[c2] == pre_advice[c2]);
                    assert(pre_advice[c2].advice_polys@[col] == advice@[c2].advice_polys@[col]);
                }
            }
            assert forall|c2: int, col: int|
                0 <= c2 < c + 1 && 0 <= col < pk.num_advice_columns()
                    && pk.advice_column_phases@[col] == phase implies (
            #[trigger] advice@[c2].advice_blinds@[col]) == blinds@[c2]@[col] by {
                if c2 == c {
                    lemma_owned_membership(*pk, phase, owned@, col);
                    let tw = choose|tw: int|
                        0 <= tw < owned@.len() && (#[trigger] owned@[tw]) as int == col;
                    assert(advice@[c as int].advice_blinds@[owned@[tw] as int]
                        == blinds@[c as int]@[owned@[tw] as int]);
                } else {
                    assert(advice@[c2] == pre_advice[c2]);
                    assert(pre_advice[c2].advice_blinds@[col] == advice@[c2].advice_blinds@[col]);
                }
            }
            assert forall|c2: int, col: int|
                0 <= c2 < advice@.len() && 0 <= col < pk.num_advice_columns() && (c2 >= c + 1
                    || pk.advice_column_phases@[col] != phase) implies (
            #[trigger] advice@[c2].advice_polys@[col]) == init_advice[c2].advice_polys@[col]
                by {
                if c2 == c {
                    lemma_owned_membership(*pk, phase, owned@, col);
                    assert(!contains_index(owned@, col));
                    assert(advice@[c2].advice_polys@[col] == pre_advice[c as int].advice_polys@[
                        col
                    ]);
                    assert(pre_advice[c2].advice_polys@[col] == init_advice[c2].advice_polys@[
                        col
                    ]);
                } else {
                    assert(advice@[c2] == pre_advice[c2]);
                    assert(pre_advice[c2].advice_polys@[col] == advice@[c2].advice_polys@[col]);
                }
            }
            assert forall|c2: int, col: int|
                0 <= c2 < advice@.len() && 0 <= col < pk.num_advice_columns() && (c2 >= c + 1
                    || pk.advice_column_phases@[col] != phase) implies (
            #[trigger] advice@[c2].advice_blinds@[col]) == init_advice[c2].advice_blinds@[col]
                by {
                if c2 == c {
                    lemma_owned_membership(*pk, phase, owned@, col);
                    assert(!contains_index(owned@, col));
                    assert(advice@[c2].advice_polys@[col] == pre_advice[c as int].advice_polys@[
                        col
                    ]);
                    assert(advice@[c2].advice_blinds@[col] == pre_advice[c as int].advice_blinds@[
                        col
                    ]);
                    assert(pre_advice[c2].advice_blinds@[col] == init_advice[c2].advice_blinds@[
                        col
                    ]);
                } else {
                    assert(advice@[c2] == pre_advice[c2]);
                    assert(pre_advice[c2].advice_blinds@[col] == advice@[c2].advice_blinds@[col]);
                }
            }
        }
        c = c + 1;
    }
    Ok(())
}

/// Squeezes every challenge whose declared owning phase is `phase`, in
/// ascending challenge-index order, and records each in the map. Appends
/// exactly the phase's squeeze entries to the transcript; every other slot
/// of the map is left as it was.
fn squeeze_phase_challenges<H: Sponge>(
    pk: &ProvingKey,
    phase: u8,
    challenges: &mut ChallengeMap,
    transcript: &mut Transcript<H>,
)
    requires
        pk.wf(),
        old(challenges).slots@.len() == pk.num_challenges(),
        forall|c: int|
            0 <= c < pk.num_challenges() && pk.challenge_phases@[c] == phase ==> old(
                challenges,
            ).slots@[c] is None,
    ensures
        old(transcript).trace().is_prefix_of(final(transcript).trace()),
        final(challenges).slots@.len() == pk.num_challenges(),
        forall|c: int|
            0 <= c < pk.num_challenges() && pk.challenge_phases@[c] == phase ==> final(challenges).slots@[c] is Some,
        forall|c: int|
            0 <= c < pk.num_challenges() && pk.challenge_phases@[c] != phase ==> final(challenges).slots@[c] == old(challenges).slots@[c],
        final(transcript).trace().len() == old(transcript).trace().len() + pk.challenge_count(
            phase,
        ),
        forall|j: int|
            old(transcript).trace().len() <= j < final(transcript).trace().len() ==> (
            #[trigger] final(transcript).trace()[j]) is Squeeze,
{
    let ghost base = transcript.trace();
    let ghost cp = pk.challenge_phases@;
    let ghost init_slots = challenges.slots@;
    let mut index: usize = 0;
    while index < pk.challenge_phases.len()
        invariant
            pk.wf(),
            cp == pk.challenge_phases@,
            index <= cp.len(),
            base == old(transcript).trace(),
            init_slots == old(challenges).slots@,
            challenges.slots@.len() == pk.num_challenges(),
            forall|c: int|
                0 <= c < pk.num_challenges() && cp[c] == phase && c < index
                    ==> challenges.slots@[c] is Some,
            forall|c: int|
                0 <= c < pk.num_challenges() && (cp[c] != phase || c >= index)
                    ==> challenges.slots@[c] == init_slots[c],
            forall|c: int|
                0 <= c < pk.num_challenges() && cp[c] == phase ==> init_slots[c] is None,
            transcript.trace().len() == base.len() + count_eq(cp.take(index as int), phase),
            base.is_prefix_of(transcript.trace()),
            forall|j: int|
                base.len() <= j < transcript.trace().len() ==> (#[trigger] transcript.trace()[j])
                    is Squeeze,
        decreases cp.len() - index,
    {
        proof {
            lemma_count_eq_take_step(cp, phase, index as int);
        }
        if pk.challenge_phases[index] == phase {
            let value = transcript.squeeze_challenge();
            challenges.insert(index, value);
        }
        index = index + 1;
    }
    proof {
        lemma_count_eq_take_all(cp, phase);
    }
}

/// Runs the whole phase schedule: for every declared phase, synthesizes
/// every circuit, commits the phase-owned columns circuit by circuit, and
/// then squeezes the phase's challenges. On success every challenge index
/// has been derived exactly once, every circuit's advice bundle covers
/// every column over the full domain, and the transcript's scheduling
/// suffix is phase-structured: all of a phase's commitments stand strictly
/// before all of its squeezes. Only a circuit's synthesis can fail here,
/// so a run over no circuits or no phases always succeeds.
pub fn run_phases<B: Backend, H: Sponge, C: Synthesizer>(
    backend: &B,
    pk: &ProvingKey,
    circuits: &Vec<C>,
    instances: &Vec<Vec<Vec<Scalar>>>,
    blinds: &Vec<Vec<Scalar>>,
    transcript: &mut Transcript<H>,
) -> (r: Result<(Vec<AdviceSingle>, ChallengeMap), ProverError>)
    requires
        pk.wf(),
        circuits@.len() == instances@.len(),
        blinds@.len() == circuits@.len(),
        forall|i: int| 0 <= i < blinds@.len() ==> #[trigger] blinds@[i]@.len()
            == pk.num_advice_columns(),
    ensures
        old(transcript).trace().is_prefix_of(final(transcript).trace()),
        r matches Err(e) ==> is_synthesis_class(e) && circuits@.len() > 0 && pk.phases@.len()
            > 0,
        circuits@.len() == 0 || pk.phases@.len() == 0 ==> r is Ok,
        r matches Ok(out) ==> {
            &&& out.0@.len() == circuits@.len()
            &&& forall|c: int|
                0 <= c < out.0@.len() ==> (#[trigger] out.0@[c]).wf(
                    pk.num_advice_columns(),
                    pk.n as int,
                )
            &&& forall|c2: int, col: int|
                0 <= c2 < out.0@.len() && 0 <= col < pk.num_advice_columns() ==> (
                #[trigger] out.0@[c2].advice_polys@[col])@[pk.n - 1]
                    == crate::scalar::scalar_one() && out.0@[c2].advice_blinds@[col]
                    == blinds@[c2]@[col]
            &&& out.1.slots@.len() == pk.num_challenges()
            &&& out.1.complete()
            &&& final(transcript).trace().len() == old(transcript).trace().len()
                + blocks_len_upto(*pk, circuits@.len() as int, pk.phases@.len() as int)
            &&& phase_trace_ok(
                final(transcript).trace(),
                old(transcript).trace().len() as int,
                *pk,
                circuits@.len() as int,
            )
        },
{
    let ghost base = transcript.trace();
    let ghost ncirc = circuits@.len() as int;
    let num_advice = pk.advice_column_phases.len();
    let num_challenges = pk.challenge_phases.len();
    let mut advice: Vec<AdviceSingle> = Vec::new();
    let mut i: usize = 0;
    while i < circuits.len()
        invariant
            i <= circuits@.len(),
            num_advice == pk.num_advice_columns(),
            advice@.len() == i,
            forall|c: int|
                0 <= c < i ==> (#[trigger] advice@[c]).wf(pk.num_advice_columns(), pk.n as int),
        decreases circuits@.len() - i,
    {
        advice.push(new_advice_single(num_advice, pk.n));
        i = i + 1;
    }
    let mut challenges = ChallengeMap::new(num_challenges);
    let mut p: usize = 0;
    while p < pk.phases.len()
        invariant
            pk.wf(),
            ncirc == circuits@.len(),
            circuits@.len() == instances@.len(),
            blinds@.len() == circuits@.len(),
            forall|i2: int| 0 <= i2 < blinds@.len() ==> #[trigger] blinds@[i2]@.len()
                == pk.num_advice_columns(),
            num_advice == pk.num_advice_columns(),
            base == old(transcript).trace(),
            p <= pk.phases@.len(),
            advice@.len() == circuits@.len(),
            forall|c: int|
                0 <= c < advice@.len() ==> (#[trigger] advice@[c]).wf(
                    pk.num_advice_columns(),
                    pk.n as int,
                ),
            challenges.slots@.len() == pk.num_challenges(),
            forall|c2: int, col: int|
                0 <= c2 < advice@.len() && 0 <= col < pk.num_advice_columns()
                    && pk.phases@.take(p as int).contains(pk.advice_column_phases@[col]) ==> (
                #[trigger] advice@[c2].advice_polys@[col])@[pk.n - 1]
                    == crate::scalar::scalar_one() && advice@[c2].advice_blinds@[col]
                    == blinds@[c2]@[col],
            forall|c: int|
                0 <= c < pk.num_challenges() ==> ((#[trigger] challenges.slots@[c]) is Some
                    <==> pk.phases@.take(p as int).contains(pk.challenge_phases@[c])),
            transcript.trace().len() == base.len() + blocks_len_upto(*pk, ncirc, p as int),
            base.is_prefix_of(transcript.trace()),
            forall|i2: int|
                0 <= i2 < p ==> phase_block_ok(
                    transcript.trace(),
                    base.len() + blocks_len_upto(*pk, ncirc, i2),
                    *pk,
                    ncirc,
                    #[trigger] pk.phases@[i2],
                ),
        decreases pk.phases@.len() - p,
    {
        let phase = pk.phases[p];
        let owned = pk.owned_columns(phase);
        let ghost phase_base = transcript.trace();
        proof {
            lemma_block_len_nonneg(*pk, ncirc, phase);
            crate::key::lemma_indices_eq_sorted(pk.advice_column_phases@, phase);
            assert forall|t1: int, t2: int|
                0 <= t1 < t2 < owned@.len() implies owned@[t1] < owned@[t2] by {
                let m = owned@.map_values(|u: usize| u as int);
                assert(m[t1] == owned@[t1] as int);
                assert(m[t2] == owned@[t2] as int);
            }
        }
        let ghost head_advice = advice@;
        let result = run_phase_circuits(
            backend,
            pk,
            phase,
            &owned,
            circuits,
            instances,
            blinds,
            &challenges,
            &mut advice,
            transcript,
        );
        match result {
            Ok(()) => (),
            Err(e) => {
                proof {
                    assert(base.is_prefix_of(phase_base));
                    lemma_prefix_transitive(base, phase_base, transcript.trace());
                }
                return Err(e);
            },
        }
        proof {
            assert(ncirc * pk.owned_count(phase) == circuits@.len() * pk.owned_count(phase));
            assert forall|c2: int, col: int|
                0 <= c2 < advice@.len() && 0 <= col < pk.num_advice_columns()
                    && pk.phases@.take(p + 1).contains(pk.advice_column_phases@[col]) implies ((
            #[trigger] advice@[c2].advice_polys@[col])@[pk.n - 1]
                    == crate::scalar::scalar_one() && advice@[c2].advice_blinds@[col]
                    == blinds@[c2]@[col]) by {
                lemma_take_contains_step(pk.phases@, p as int, pk.advice_column_phases@[col]);
                if pk.advice_column_phases@[col] != phase {
                    assert(pk.phases@.take(p as int).contains(pk.advice_column_phases@[col]));
                    assert(advice@[c2].advice_polys@[col] == head_advice[c2].advice_polys@[col]);
                    assert(advice@[c2].advice_blinds@[col] == head_advice[c2].advice_blinds@[col]);
                    assert((head_advice[c2].advice_polys@[col])@[pk.n - 1]
                        == crate::scalar::scalar_one());
                    assert(head_advice[c2].advice_blinds@[col] == blinds@[c2]@[col]);
                }
            }
        }
        // Everything this phase commits is now in the transcript; only now
        // are the phase's challenges derived.
        proof {
            assert forall|c2: int|
                0 <= c2 < pk.num_challenges() && pk.challenge_phases@[c2] == phase implies
                challenges.slots@[c2] is None by {
                if pk.phases@.take(p as int).contains(phase) {
                    let i2 = choose|i2: int|
                        0 <= i2 < p && pk.phases@.take(p as int)[i2] == phase;
                    assert(pk.phases@[i2] == phase);
                    assert(pk.phases@[i2] < pk.phases@[p as int]);
                }
            }
        }
        let ghost mid = transcript.trace();
        squeeze_phase_challenges(pk, phase, &mut challenges, transcript);
        proof {
            // The finished block has the required commit-then-squeeze shape.
            let start = base.len() + blocks_len_upto(*pk, ncirc, p as int);
            assert(mid.len() == start + ncirc * pk.owned_count(phase));
            assert forall|j: int|
                start <= j < start + ncirc * pk.owned_count(phase) implies (
                #[trigger] transcript.trace()[j]) is WrittenPoint by {
                lemma_prefix_index(mid, transcript.trace(), j);
            }
            assert(phase_block_ok(transcript.trace(), start, *pk, ncirc, phase));
            // Earlier phases' blocks are untouched by the appends.
            assert forall|i2: int|
                0 <= i2 < p + 1 implies phase_block_ok(
                transcript.trace(),
                base.len() + blocks_len_upto(*pk, ncirc, i2),
                *pk,
                ncirc,
                #[trigger] pk.phases@[i2],
            ) by {
                if i2 < p {
                    crate::protocol::lemma_blocks_len_upto_monotone(*pk, ncirc, i2 + 1, p as int);
                    crate::protocol::lemma_blocks_len_upto_monotone(*pk, ncirc, 0, i2);
                    assert(mid.is_prefix_of(transcript.trace()));
                    assert(phase_base.is_prefix_of(transcript.trace()));
                    lemma_phase_block_ok_extend(
                        phase_base,
                        transcript.trace(),
                        base.len() + blocks_len_upto(*pk, ncirc, i2),
                        *pk,
                        ncirc,
                        pk.phases@[i2],
                    );
                }
            }
            // The challenge bookkeeping advances by one phase.
            assert forall|c2: int|
                0 <= c2 < pk.num_challenges() implies ((#[trigger] challenges.slots@[c2]) is Some
                <==> pk.phases@.take(p + 1).contains(pk.challenge_phases@[c2])) by {
                lemma_take_contains_step(pk.phases@, p as int, pk.challenge_phases@[c2]);
            }
        }
        p = p + 1;
    }
    proof {
        assert forall|c2: int|
            0 <= c2 < challenges.slots@.len() implies (#[trigger] challenges.slots@[c2])
            is Some by {
            assert(pk.phases@.contains(pk.challenge_phases@[c2]));
            assert(pk.phases@.take(pk.phases@.len() as int) =~= pk.phases@);
        }
        assert forall|c2: int, col: int|
            0 <= c2 < advice@.len() && 0 <= col < pk.num_advice_columns() implies ((
        #[trigger] advice@[c2].advice_polys@[col])@[pk.n - 1] == crate::scalar::scalar_one()
            && advice@[c2].advice_blinds@[col] == blinds@[c2]@[col]) by {
            assert(pk.phases@.contains(pk.advice_column_phases@[col]));
            assert(pk.phases@.take(pk.phases@.len() as int) =~= pk.phases@);
        }
    }
    Ok((advice, challenges))
}

} // verus!
