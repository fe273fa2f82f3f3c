//! The instance preparer: validates and zero-extends public inputs, binds
//! them into the transcript (as commitments or in cleartext, a scheme-level
//! choice), and converts them to coefficient form for the backend.

use crate::backend::{Backend, InstanceSingle};
use crate::errors::ProverError;
use crate::key::ProvingKey;
use crate::points::{Commitment, ProjectivePoint};
use crate::protocol::{
    circuit_scalar_segment, circuits_view, columns_view, instance_entry_count,
    instance_scalar_segment, lemma_circuit_entry_count_query, point_entries, scalar_entries,
};
use crate::scalar::{Scalar, scalar_zero, zero_evals};
use crate::transcript::{Sponge, Transcript, TranscriptEntry};
use vstd::prelude::*;
use vstd::seq_lib::*;

verus! {

/// Zero-extends one column's supplied values to the full domain size.
pub fn padded_column(values: &Vec<Scalar>, n: usize) -> (r: Vec<Scalar>)
    requires
        values@.len() <= n,
    ensures
        crate::backend::is_zero_padded(values@, r@, n as int),
{
    let mut r = zero_evals(n);
    let mut i: usize = 0;
    while i < values.len()
        invariant
            i <= values@.len() <= n,
            r@.len() == n,
            forall|j: int| 0 <= j < i ==> r@[j] == values@[j],
            forall|j: int| i <= j < n ==> r@[j] == scalar_zero(),
        decreases values@.len() - i,
    {
        r.set(i, values[i]);
        i = i + 1;
    }
    r
}

/// Binds a run of raw scalars into the transcript in cleartext, in order.
fn append_scalars<H: Sponge>(transcript: &mut Transcript<H>, values: &Vec<Scalar>)
    ensures
        final(transcript).trace() == old(transcript).trace() + scalar_entries(values@),
{
    let ghost base = transcript.trace();
    let mut i: usize = 0;
    while i < values.len()
        invariant
            i <= values@.len(),
            transcript.trace() == base + scalar_entries(values@.take(i as int)),
        decreases values@.len() - i,
    {
        transcript.common_scalar(&values[i]);
        proof {
            assert(scalar_entries(values@.take(i + 1)) =~= scalar_entries(
                values@.take(i as int),
            ).push(TranscriptEntry::CommonScalar(values@[i as int])));
            assert(base + scalar_entries(values@.take(i as int)).push(
                TranscriptEntry::CommonScalar(values@[i as int]),
            ) =~= (base + scalar_entries(values@.take(i as int))).push(
                TranscriptEntry::CommonScalar(values@[i as int]),
            ));
        }
        i = i + 1;
    }
    proof {
        assert(values@.take(values@.len() as int) =~= values@);
    }
}

/// Binds a run of instance commitments into the transcript, in order.
fn append_common_points<H: Sponge>(transcript: &mut Transcript<H>, points: &Vec<Commitment>)
    ensures
        final(transcript).trace() == old(transcript).trace() + point_entries(points@),
{
    let ghost base = transcript.trace();
    let mut i: usize = 0;
    while i < points.len()
        invariant
            i <= points@.len(),
            transcript.trace() == base + point_entries(points@.take(i as int)),
        decreases points@.len() - i,
    {
        transcript.common_point(&points[i]);
        proof {
            assert(point_entries(points@.take(i + 1)) =~= point_entries(
                points@.take(i as int),
            ).push(TranscriptEntry::CommonPoint(points@[i as int])));
            assert(base + point_entries(points@.take(i as int)).push(
                TranscriptEntry::CommonPoint(points@[i as int]),
            ) =~= (base + point_entries(points@.take(i as int))).push(
                TranscriptEntry::CommonPoint(points@[i as int]),
            ));
        }
        i = i + 1;
    }
    proof {
        assert(points@.take(points@.len() as int) =~= points@);
    }
}

/// Prepares one circuit's public inputs: enforces the usable-row capacity,
/// binds the columns into the transcript, and builds the evaluation- and
/// coefficient-form polynomials.
pub fn prepare_circuit<B: Backend, H: Sponge>(
    backend: &B,
    pk: &ProvingKey,
    cols: &Vec<Vec<Scalar>>,
    query_instance: bool,
    transcript: &mut Transcript<H>,
) -> (r: Result<InstanceSingle, ProverError>)
    requires
        pk.wf(),
    ensures
        old(transcript).trace().is_prefix_of(final(transcript).trace()),
        r is Ok <==> (forall|col: int|
            0 <= col < cols@.len() ==> #[trigger] cols@[col]@.len() <= pk.usable_rows_spec()),
        r matches Err(e) ==> e == ProverError::InstanceTooLarge,
        r matches Ok(s) ==> {
            &&& s.derived_from(columns_view(cols@), pk.n as int)
            &&& !query_instance ==> final(transcript).trace() == old(transcript).trace()
                + circuit_scalar_segment(columns_view(cols@))
            &&& query_instance ==> final(transcript).trace().len() == old(
                transcript,
            ).trace().len() + cols@.len() && (forall|j: int|
                old(transcript).trace().len() <= j < final(transcript).trace().len() ==> (
                #[trigger] final(transcript).trace()[j]) is CommonPoint)
        },
{
    let ghost base = transcript.trace();
    let ghost cv = columns_view(cols@);
    let usable = pk.usable_rows();
    let mut values_vec: Vec<Vec<Scalar>> = Vec::new();
    let mut col: usize = 0;
    while col < cols.len()
        invariant
            pk.wf(),
            base == old(transcript).trace(),
            usable == pk.usable_rows_spec(),
            cv == columns_view(cols@),
            col <= cols@.len(),
            values_vec@.len() == col,
            forall|c: int| 0 <= c < col ==> #[trigger] cols@[c]@.len() <= pk.usable_rows_spec(),
            forall|c: int|
                0 <= c < col ==> crate::backend::is_zero_padded(
                    cols@[c]@,
                    #[trigger] values_vec@[c]@,
                    pk.n as int,
                ),
            !query_instance ==> transcript.trace() == base + circuit_scalar_segment(
                cv.take(col as int),
            ),
            query_instance ==> transcript.trace() == base,
            base.is_prefix_of(transcript.trace()),
        decreases cols@.len() - col,
    {
        let vals = &cols[col];
        if vals.len() > usable {
            return Err(ProverError::InstanceTooLarge);
        }
        if !query_instance {
            let ghost pre = transcript.trace();
            append_scalars(transcript, vals);
            proof {
                assert(cv.take(col + 1).drop_last() =~= cv.take(col as int));
                assert(cv.take(col + 1).last() == cv[col as int]);
                assert(circuit_scalar_segment(cv.take(col + 1)) == circuit_scalar_segment(
                    cv.take(col as int),
                ) + scalar_entries(cv[col as int]));
                assert(base + circuit_scalar_segment(cv.take(col + 1)) =~= (base
                    + circuit_scalar_segment(cv.take(col as int))) + scalar_entries(
                    cols@[col as int]@,
                ));
                assert(base.is_prefix_of(transcript.trace()));
            }
        }
        values_vec.push(padded_column(vals, pk.n));
        col = col + 1;
    }
    proof {
        assert(cv.take(cols@.len() as int) =~= cv);
    }
    if query_instance {
        let mut projective: Vec<ProjectivePoint> = Vec::new();
        let mut c: usize = 0;
        while c < values_vec.len()
            invariant
                c <= values_vec@.len(),
                projective@.len() == c,
            decreases values_vec@.len() - c,
        {
            projective.push(backend.commit_lagrange(&values_vec[c]));
            c = c + 1;
        }
        let commitments = backend.batch_normalize(&projective);
        append_common_points(transcript, &commitments);
        proof {
            assert(point_entries(commitments@).len() == commitments@.len());
            assert forall|j: int|
                base.len() <= j < transcript.trace().len() implies (#[trigger] transcript.trace()[j]) is CommonPoint by {
                assert(transcript.trace()[j] == point_entries(commitments@)[j - base.len()]);
            }
            assert(base.is_prefix_of(transcript.trace()));
        }
    }
    let mut polys: Vec<Vec<Scalar>> = Vec::new();
    let mut c: usize = 0;
    while c < values_vec.len()
        invariant
            c <= values_vec@.len(),
            polys@.len() == c,
            forall|j: int|
                0 <= j < values_vec@.len() ==> #[trigger] values_vec@[j]@.len() == pk.n,
            forall|j: int| 0 <= j < c ==> #[trigger] polys@[j]@.len() == pk.n,
        decreases values_vec@.len() - c,
    {
        polys.push(backend.ifft(&values_vec[c]));
        c = c + 1;
    }
    Ok(InstanceSingle { instance_values: values_vec, instance_polys: polys })
}

/// Prepares every circuit's public inputs, in declared circuit order.
/// Exactly the shape errors of the public-input data can arise here: a
/// column count different from the key's fails with
/// `InvalidInstanceCount` before anything is bound, and a column longer
/// than the usable rows fails with `InstanceTooLarge`; otherwise one
/// `InstanceSingle` per circuit is produced and the transcript holds the
/// full instance binding.
pub fn prepare_instances<B: Backend, H: Sponge>(
    backend: &B,
    pk: &ProvingKey,
    instances: &Vec<Vec<Vec<Scalar>>>,
    query_instance: bool,
    transcript: &mut Transcript<H>,
) -> (r: Result<Vec<InstanceSingle>, ProverError>)
    requires
        pk.wf(),
    ensures
        old(transcript).trace().is_prefix_of(final(transcript).trace()),
        (r == Err::<Vec<InstanceSingle>, ProverError>(ProverError::InvalidInstanceCount)) <==> (
        exists|c: int|
            0 <= c < instances@.len() && #[trigger] instances@[c]@.len()
                != pk.num_instance_columns),
        r == Err::<Vec<InstanceSingle>, ProverError>(ProverError::InvalidInstanceCount)
            ==> final(transcript).trace() == old(transcript).trace(),
        r matches Err(e) ==> e is InvalidInstanceCount || e is InstanceTooLarge,
        (forall|c: int|
            0 <= c < instances@.len() ==> #[trigger] instances@[c]@.len()
                == pk.num_instance_columns) ==> ((r == Err::<Vec<InstanceSingle>, ProverError>(
            ProverError::InstanceTooLarge,
        )) <==> (exists|c: int, col: int|
            0 <= c < instances@.len() && 0 <= col < instances@[c]@.len()
                && #[trigger] instances@[c]@[col]@.len() > pk.usable_rows_spec())),
        r matches Ok(out) ==> {
            &&& out@.len() == instances@.len()
            &&& forall|c: int|
                0 <= c < out@.len() ==> (#[trigger] out@[c]).derived_from(
                    columns_view(instances@[c]@),
                    pk.n as int,
                )
            &&& !query_instance ==> final(transcript).trace() == old(transcript).trace()
                + instance_scalar_segment(circuits_view(instances@))
            &&& query_instance ==> final(transcript).trace().len() == old(
                transcript,
            ).trace().len() + instance_entry_count(circuits_view(instances@), true) && (forall|
                j: int,
            |
                old(transcript).trace().len() <= j < final(transcript).trace().len() ==> (
                #[trigger] final(transcript).trace()[j]) is CommonPoint)
        },
{
    let ghost base = transcript.trace();
    let ghost iv = circuits_view(instances@);
    let mut c: usize = 0;
    while c < instances.len()
        invariant
            c <= instances@.len(),
            base == old(transcript).trace(),
            transcript.trace() == base,
            forall|i: int|
                0 <= i < c ==> #[trigger] instances@[i]@.len() == pk.num_instance_columns,
        decreases instances@.len() - c,
    {
        if instances[c].len() != pk.num_instance_columns {
            proof {
                assert(base.is_prefix_of(transcript.trace()));
            }
            return Err(ProverError::InvalidInstanceCount);
        }
        c = c + 1;
    }
    let mut out: Vec<InstanceSingle> = Vec::new();
    let mut c: usize = 0;
    while c < instances.len()
        invariant
            pk.wf(),
            iv == circuits_view(instances@),
            base == old(transcript).trace(),
            c <= instances@.len(),
            out@.len() == c,
            forall|i: int|
                0 <= i < instances@.len() ==> #[trigger] instances@[i]@.len()
                    == pk.num_instance_columns,
            forall|i: int, col: int|
                0 <= i < c && 0 <= col < instances@[i]@.len()
                    ==> #[trigger] instances@[i]@[col]@.len() <= pk.usable_rows_spec(),
            forall|i: int|
                0 <= i < c ==> (#[trigger] out@[i]).derived_from(
                    columns_view(instances@[i]@),
                    pk.n as int,
                ),
            !query_instance ==> transcript.trace() == base + instance_scalar_segment(
                iv.take(c as int),
            ),
            query_instance ==> transcript.trace().len() == base.len() + instance_entry_count(
                iv.take(c as int),
                true,
            ) && (forall|j: int|
                base.len() <= j < transcript.trace().len() ==> (#[trigger] transcript.trace()[j])
                    is CommonPoint),
            base.is_prefix_of(transcript.trace()),
        decreases instances@.len() - c,
    {
        let ghost pre = transcript.trace();
        let single = match prepare_circuit(backend, pk, &instances[c], query_instance, transcript) {
            Ok(s) => s,
            Err(e) => {
                proof {
                    assert(instances@[c as int]@.len() == pk.num_instance_columns);
                    let badcol = choose|col: int|
                        0 <= col < instances@[c as int]@.len()
                            && #[trigger] instances@[c as int]@[col]@.len()
                            > pk.usable_rows_spec();
                    assert(0 <= c < instances@.len() && 0 <= badcol < instances@[c as int]@.len()
                        && instances@[c as int]@[badcol]@.len() > pk.usable_rows_spec());
                }
                return Err(e);
            },
        };
        proof {
            assert(iv.take(c + 1).drop_last() =~= iv.take(c as int));
            assert(iv.take(c + 1).last() == iv[c as int]);
            assert(iv[c as int] == columns_view(instances@[c as int]@));
            if !query_instance {
                assert(instance_scalar_segment(iv.take(c + 1)) == instance_scalar_segment(
                    iv.take(c as int),
                ) + circuit_scalar_segment(iv[c as int]));
                assert(base + instance_scalar_segment(iv.take(c + 1)) =~= (base
                    + instance_scalar_segment(iv.take(c as int))) + circuit_scalar_segment(
                    iv[c as int],
                ));
            } else {
                lemma_circuit_entry_count_query(iv[c as int]);
                assert(instance_entry_count(iv.take(c + 1), true) == instance_entry_count(
                    iv.take(c as int),
                    true,
                ) + iv[c as int].len());
                assert(iv[c as int].len() == instances@[c as int]@.len());
                assert forall|j: int|
                    base.len() <= j < transcript.trace().len() implies (
                #[trigger] transcript.trace()[j]) is CommonPoint by {
                    if j < pre.len() {
                        assert(pre.is_prefix_of(transcript.trace()));
                        assert(transcript.trace()[j] == transcript.trace().subrange(
                            0,
                            pre.len() as int,
                        )[j]);
                    }
                }
            }
        }
        out.push(single);
        c = c + 1;
    }
    proof {
        assert(iv.take(instances@.len() as int) =~= iv);
    }
    Ok(out)
}

} // verus!
