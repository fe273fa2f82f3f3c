//! The proof-generation entry point: binds the key and the public inputs
//! into the transcript, runs the phase schedule, and hands the assembled
//! instance, advice and challenge data to the backend for the final proof
//! construction. The proof bytes accumulate in the transcript state the
//! backend takes over; the caller retrieves them from its transcript.

use crate::backend::{Backend, Synthesizer};
use crate::errors::{ProverError, is_synthesis_class};
use crate::key::ProvingKey;
use crate::protocol::{
    blocks_len_upto, circuits_view, instance_entry_count, instance_scalar_segment,
    lemma_instance_scalar_segment_len, lemma_prefix_index, lemma_prefix_transitive,
    phase_trace_ok,
};
use crate::scalar::Scalar;
use crate::scheduler::run_phases;
use crate::transcript::{Sponge, Transcript, TranscriptEntry};
use vstd::prelude::*;
use vstd::seq_lib::*;

verus! {

/// Creates a proof for the supplied circuits, given the proving key, the
/// per-circuit public inputs, and one blinding scalar per advice column of
/// each circuit. The instances are zero-extended internally.
///
/// On success the transcript holds, after whatever it held before: the
/// key's representation scalar; the full instance binding (cleartext
/// scalars, or commitment points when the scheme queries instances); and
/// one phase-structured block per declared phase, each block all of the
/// phase's advice commitments followed by all of its challenge squeezes.
/// Generation succeeds exactly when every circuit supplies the key's
/// instance-column count, every column fits the usable rows, and no
/// circuit's synthesis fails. A synthesis-class failure can only arise
/// where synthesis actually runs: with no circuits, or with a key that
/// declares no phases, well-shaped input is guaranteed to succeed.
pub fn create_proof<B: Backend, H: Sponge, C: Synthesizer>(
    backend: &mut B,
    pk: &ProvingKey,
    circuits: &Vec<C>,
    instances: &Vec<Vec<Vec<Scalar>>>,
    blinds: &Vec<Vec<Scalar>>,
    query_instance: bool,
    rng_state: &Vec<u8>,
    transcript: &mut Transcript<H>,
) -> (r: Result<(), ProverError>)
    requires
        pk.wf(),
        circuits@.len() == instances@.len(),
        blinds@.len() == circuits@.len(),
        forall|i: int| 0 <= i < blinds@.len() ==> #[trigger] blinds@[i]@.len()
            == pk.num_advice_columns(),
    ensures
        old(transcript).trace().is_prefix_of(final(transcript).trace()),
        (r == Err::<(), ProverError>(ProverError::InvalidInstanceCount)) <==> (exists|c: int|
            0 <= c < instances@.len() && #[trigger] instances@[c]@.len()
                != pk.num_instance_columns),
        r == Err::<(), ProverError>(ProverError::InvalidInstanceCount)
            ==> final(transcript).trace() == old(transcript).trace(),
        (forall|c: int|
            0 <= c < instances@.len() ==> #[trigger] instances@[c]@.len()
                == pk.num_instance_columns) ==> ((r == Err::<(), ProverError>(
            ProverError::InstanceTooLarge,
        )) <==> (exists|c: int, col: int|
            0 <= c < instances@.len() && 0 <= col < instances@[c]@.len()
                && #[trigger] instances@[c]@[col]@.len() > pk.usable_rows_spec())),
        r matches Err(e) ==> e is InvalidInstanceCount || e is InstanceTooLarge
            || is_synthesis_class(e),
        r matches Err(e) && is_synthesis_class(e) ==> circuits@.len() > 0 && pk.phases@.len()
            > 0,
        circuits@.len() == 0 ==> r is Ok,
        pk.phases@.len() == 0 && (forall|c: int|
            0 <= c < instances@.len() ==> #[trigger] instances@[c]@.len()
                == pk.num_instance_columns) && (forall|c: int, col: int|
            0 <= c < instances@.len() && 0 <= col < instances@[c]@.len()
                ==> #[trigger] instances@[c]@[col]@.len() <= pk.usable_rows_spec()) ==> r is Ok,
        r is Ok ==> {
            &&& forall|c: int|
                0 <= c < instances@.len() ==> #[trigger] instances@[c]@.len()
                    == pk.num_instance_columns
            &&& forall|c: int, col: int|
                0 <= c < instances@.len() && 0 <= col < instances@[c]@.len()
                    ==> #[trigger] instances@[c]@[col]@.len() <= pk.usable_rows_spec()
            &&& final(transcript).trace().len() == old(transcript).trace().len() + 1
                + instance_entry_count(circuits_view(instances@), query_instance)
                + blocks_len_upto(*pk, circuits@.len() as int, pk.phases@.len() as int)
            &&& final(transcript).trace()[old(transcript).trace().len() as int] is CommonScalar
            &&& !query_instance ==> final(transcript).trace().subrange(
                old(transcript).trace().len() as int + 1,
                old(transcript).trace().len() as int + 1 + instance_entry_count(
                    circuits_view(instances@),
                    false,
                ),
            ) == instance_scalar_segment(circuits_view(instances@))
            &&& query_instance ==> (forall|j: int|
                old(transcript).trace().len() + 1 <= j < old(transcript).trace().len() + 1
                    + instance_entry_count(circuits_view(instances@), true) ==> (
                #[trigger] final(transcript).trace()[j]) is CommonPoint)
            &&& phase_trace_ok(
                final(transcript).trace(),
                old(transcript).trace().len() + 1 + instance_entry_count(
                    circuits_view(instances@),
                    query_instance,
                ),
                *pk,
                circuits@.len() as int,
            )
        },
{
    let ghost t0 = transcript.trace();
    // Reject a wrong instance-column count for any circuit before anything
    // is bound into the transcript.
    let mut c: usize = 0;
    while c < instances.len()
        invariant
            c <= instances@.len(),
            instances@.len() == circuits@.len(),
            t0 == old(transcript).trace(),
            transcript.trace() == t0,
            forall|i: int|
                0 <= i < c ==> #[trigger] instances@[i]@.len() == pk.num_instance_columns,
        decreases instances@.len() - c,
    {
        if instances[c].len() != pk.num_instance_columns {
            proof {
                assert(t0.is_prefix_of(transcript.trace()));
            }
            return Err(ProverError::InvalidInstanceCount);
        }
        c = c + 1;
    }
    backend.set_extended_domain(pk);
    // Hash the key's representation into the transcript first.
    let repr = backend.transcript_repr(pk);
    transcript.common_scalar(&repr);
    let ghost t1 = transcript.trace();
    let single_instances = match crate::instances::prepare_instances(
        &*backend,
        pk,
        instances,
        query_instance,
        transcript,
    ) {
        Ok(v) => v,
        Err(e) => {
            proof {
                assert(t1.is_prefix_of(transcript.trace()));
                assert(t0.is_prefix_of(t1));
                lemma_prefix_transitive(t0, t1, transcript.trace());
                // The preparer fails only on bad instance shape, so here
                // some circuit exists and its data is the culprit.
                if e is InvalidInstanceCount {
                    let cbad = choose|c2: int|
                        0 <= c2 < instances@.len() && #[trigger] instances@[c2]@.len()
                            != pk.num_instance_columns;
                    assert(0 <= cbad < instances@.len());
                    assert(circuits@.len() > 0);
                } else {
                    assert(e is InstanceTooLarge);
                    if (forall|c2: int, col: int|
                        0 <= c2 < instances@.len() && 0 <= col < instances@[c2]@.len()
                            ==> #[trigger] instances@[c2]@[col]@.len()
                            <= pk.usable_rows_spec()) {
                        let (cb, colb) = choose|c2: int, col: int|
                            0 <= c2 < instances@.len() && 0 <= col < instances@[c2]@.len()
                                && #[trigger] instances@[c2]@[col]@.len()
                                > pk.usable_rows_spec();
                        assert(instances@[cb]@[colb]@.len() <= pk.usable_rows_spec());
                        assert(false);
                    }
                    let (cb, colb) = choose|c2: int, col: int|
                        0 <= c2 < instances@.len() && 0 <= col < instances@[c2]@.len()
                            && #[trigger] instances@[c2]@[col]@.len() > pk.usable_rows_spec();
                    assert(0 <= cb < instances@.len());
                    assert(circuits@.len() > 0);
                }
            }
            return Err(e);
        },
    };
    let ghost t2 = transcript.trace();
    let (advice, challenge_map) = match run_phases(
        backend,
        pk,
        circuits,
        instances,
        blinds,
        transcript,
    ) {
        Ok(v) => v,
        Err(e) => {
            proof {
                assert(t0.is_prefix_of(t1));
                lemma_prefix_transitive(t0, t1, t2);
                lemma_prefix_transitive(t0, t2, transcript.trace());
            }
            return Err(e);
        },
    };
    // Reorder the completed challenge map into the index-ordered sequence.
    let challenges = challenge_map.into_ordered();
    // Export the randomness-source and transcript state so the backend can
    // resume both, then hand everything over for proof construction.
    backend.set_rng_state(rng_state);
    let transcript_state = transcript.state();
    backend.set_transcript_state(&transcript_state);
    backend.build_proof(pk, &single_instances, &advice, &challenges);
    proof {
        let iv = circuits_view(instances@);
        if !query_instance {
            lemma_instance_scalar_segment_len(iv);
        }
        assert(t2.len() == t0.len() + 1 + instance_entry_count(iv, query_instance));
        assert(t0.is_prefix_of(t1));
        lemma_prefix_transitive(t0, t1, t2);
        lemma_prefix_transitive(t0, t2, transcript.trace());
        lemma_prefix_index(t1, t2, t0.len() as int);
        lemma_prefix_index(t2, transcript.trace(), t0.len() as int);
        if !query_instance {
            let seg = instance_scalar_segment(iv);
            assert forall|j: int| 0 <= j < seg.len() implies transcript.trace()[t0.len() + 1 + j]
                == seg[j] by {
                lemma_prefix_index(t2, transcript.trace(), t0.len() + 1 + j);
                assert(t2[t0.len() + 1 + j] == (t1 + seg)[t0.len() + 1 + j]);
            }
            assert(transcript.trace().subrange(t0.len() as int + 1, t0.len() as int + 1 + seg.len() as int)
                =~= seg);
        } else {
            assert forall|j: int|
                t0.len() + 1 <= j < t0.len() + 1 + instance_entry_count(iv, true) implies (
            #[trigger] transcript.trace()[j]) is CommonPoint by {
                lemma_prefix_index(t2, transcript.trace(), j);
            }
        }
    }
    Ok(())
}

} // verus!
