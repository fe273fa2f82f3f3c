//! The shape of a well-formed proof-generation transcript: which entries
//! the protocol appends, in which order. The scheduler's contract states
//! that the trace it leaves behind has exactly this shape, which is the
//! commit-before-challenge ordering the Fiat-Shamir argument rests on.

use crate::key::{ProvingKey, count_eq};
use crate::points::Commitment;
use crate::scalar::Scalar;
use crate::transcript::TranscriptEntry;
use vstd::prelude::*;

verus! {

/// The nested mathematical view of per-circuit, per-column instance data.
pub open spec fn circuits_view(v: Seq<Vec<Vec<Scalar>>>) -> Seq<Seq<Seq<Scalar>>> {
    v.map_values(|c: Vec<Vec<Scalar>>| c@.map_values(|col: Vec<Scalar>| col@))
}

/// The column-sequence view of one circuit's instance data.
pub open spec fn columns_view(v: Seq<Vec<Scalar>>) -> Seq<Seq<Scalar>> {
    v.map_values(|col: Vec<Scalar>| col@)
}

/// The transcript entries that bind a run of raw scalars in cleartext.
pub open spec fn scalar_entries(vals: Seq<Scalar>) -> Seq<TranscriptEntry> {
    vals.map_values(|v: Scalar| TranscriptEntry::CommonScalar(v))
}

/// The transcript entries that bind a run of instance commitments.
pub open spec fn point_entries(pts: Seq<Commitment>) -> Seq<TranscriptEntry> {
    pts.map_values(|p: Commitment| TranscriptEntry::CommonPoint(p))
}

/// One circuit's cleartext instance binding: every supplied value of every
/// column, in declared column order.
pub open spec fn circuit_scalar_segment(cols: Seq<Seq<Scalar>>) -> Seq<TranscriptEntry>
    decreases cols.len(),
{
    if cols.len() == 0 {
        Seq::empty()
    } else {
        circuit_scalar_segment(cols.drop_last()) + scalar_entries(cols.last())
    }
}

/// The whole cleartext instance binding, circuits in declared order.
pub open spec fn instance_scalar_segment(instances: Seq<Seq<Seq<Scalar>>>) -> Seq<TranscriptEntry>
    decreases instances.len(),
{
    if instances.len() == 0 {
        Seq::empty()
    } else {
        instance_scalar_segment(instances.drop_last()) + circuit_scalar_segment(instances.last())
    }
}

/// How many transcript entries one circuit's instance binding appends: one
/// commitment point per column when the scheme queries instances, else one
/// scalar per supplied value.
pub open spec fn circuit_entry_count(cols: Seq<Seq<Scalar>>, query_instance: bool) -> int
    decreases cols.len(),
{
    if cols.len() == 0 {
        0
    } else {
        circuit_entry_count(cols.drop_last(), query_instance) + if query_instance {
            1int
        } else {
            cols.last().len() as int
        }
    }
}

/// How many transcript entries the whole instance binding appends.
pub open spec fn instance_entry_count(
    instances: Seq<Seq<Seq<Scalar>>>,
    query_instance: bool,
) -> int
    decreases instances.len(),
{
    if instances.len() == 0 {
        0
    } else {
        instance_entry_count(instances.drop_last(), query_instance) + circuit_entry_count(
            instances.last(),
            query_instance,
        )
    }
}

/// The cleartext segment is as long as its entry count says.
pub proof fn lemma_circuit_scalar_segment_len(cols: Seq<Seq<Scalar>>)
    ensures
        circuit_scalar_segment(cols).len() == circuit_entry_count(cols, false),
        circuit_entry_count(cols, false) >= 0,
    decreases cols.len(),
{
    if cols.len() > 0 {
        lemma_circuit_scalar_segment_len(cols.drop_last());
    }
}

/// The whole cleartext binding is as long as its entry count says.
pub proof fn lemma_instance_scalar_segment_len(instances: Seq<Seq<Seq<Scalar>>>)
    ensures
        instance_scalar_segment(instances).len() == instance_entry_count(instances, false),
        instance_entry_count(instances, false) >= 0,
    decreases instances.len(),
{
    if instances.len() > 0 {
        lemma_instance_scalar_segment_len(instances.drop_last());
        lemma_circuit_scalar_segment_len(instances.last());
    }
}

/// When the scheme queries instances, a circuit binds exactly one
/// commitment point per instance column.
pub proof fn lemma_circuit_entry_count_query(cols: Seq<Seq<Scalar>>)
    ensures
        circuit_entry_count(cols, true) == cols.len(),
    decreases cols.len(),
{
    if cols.len() > 0 {
        lemma_circuit_entry_count_query(cols.drop_last());
    }
}

/// How many transcript entries one phase appends: one published commitment
/// per (circuit, owned column), then one squeeze per owned challenge.
pub open spec fn block_len(pk: ProvingKey, num_circuits: int, p: u8) -> int {
    num_circuits * pk.owned_count(p) + pk.challenge_count(p)
}

/// The total entry count of the blocks of the first `i` phases.
pub open spec fn blocks_len_upto(pk: ProvingKey, num_circuits: int, i: int) -> int
    decreases i,
{
    if i <= 0 {
        0
    } else {
        blocks_len_upto(pk, num_circuits, i - 1) + block_len(pk, num_circuits, pk.phases@[i - 1])
    }
}

/// One phase's block, starting at `start`: first all of the phase's
/// commitments, then all of its squeezes.
pub open spec fn phase_block_ok(
    tr: Seq<TranscriptEntry>,
    start: int,
    pk: ProvingKey,
    num_circuits: int,
    p: u8,
) -> bool {
    &&& forall|j: int|
        start <= j < start + num_circuits * pk.owned_count(p) ==> (#[trigger] tr[j])
            is WrittenPoint
    &&& forall|j: int|
        start + num_circuits * pk.owned_count(p) <= j < start + block_len(pk, num_circuits, p)
            ==> (#[trigger] tr[j]) is Squeeze
}

/// The scheduling suffix of a trace is phase-structured: beginning at
/// `base`, the phases' blocks follow one another in declared phase order.
pub open spec fn phase_trace_ok(
    tr: Seq<TranscriptEntry>,
    base: int,
    pk: ProvingKey,
    num_circuits: int,
) -> bool {
    forall|i: int|
        0 <= i < pk.phases@.len() ==> phase_block_ok(
            tr,
            base + blocks_len_upto(pk, num_circuits, i),
            pk,
            num_circuits,
            #[trigger] pk.phases@[i],
        )
}

/// Block lengths are never negative.
pub proof fn lemma_block_len_nonneg(pk: ProvingKey, num_circuits: int, p: u8)
    requires
        num_circuits >= 0,
    ensures
        block_len(pk, num_circuits, p) >= 0,
        pk.owned_count(p) >= 0,
        pk.challenge_count(p) >= 0,
{
    crate::key::lemma_count_eq_bounds(pk.advice_column_phases@, p);
    crate::key::lemma_count_eq_bounds(pk.challenge_phases@, p);
    assert(num_circuits * pk.owned_count(p) >= 0) by (nonlinear_arith)
        requires
            num_circuits >= 0,
            pk.owned_count(p) >= 0,
    ;
}

/// Cumulative block lengths grow monotonically with the phase index.
pub proof fn lemma_blocks_len_upto_monotone(pk: ProvingKey, num_circuits: int, i: int, j: int)
    requires
        num_circuits >= 0,
        0 <= i <= j,
    ensures
        blocks_len_upto(pk, num_circuits, i) <= blocks_len_upto(pk, num_circuits, j),
        blocks_len_upto(pk, num_circuits, i) >= 0,
    decreases j,
{
    if j > 0 {
        if i <= j - 1 {
            lemma_blocks_len_upto_monotone(pk, num_circuits, i, j - 1);
            lemma_block_len_nonneg(pk, num_circuits, pk.phases@[j - 1]);
        } else {
            lemma_blocks_len_upto_monotone(pk, num_circuits, i - 1, j - 1);
            lemma_block_len_nonneg(pk, num_circuits, pk.phases@[i - 1]);
        }
    }
}

/// An entry of a prefix is the same entry of the longer trace.
pub proof fn lemma_prefix_index(a: Seq<TranscriptEntry>, b: Seq<TranscriptEntry>, j: int)
    requires
        a.is_prefix_of(b),
        0 <= j < a.len(),
    ensures
        b[j] == a[j],
{
    assert(a[j] == b.subrange(0, a.len() as int)[j]);
}

/// A prefix of a prefix is a prefix.
pub proof fn lemma_prefix_transitive(
    a: Seq<TranscriptEntry>,
    b: Seq<TranscriptEntry>,
    c: Seq<TranscriptEntry>,
)
    requires
        a.is_prefix_of(b),
        b.is_prefix_of(c),
    ensures
        a.is_prefix_of(c),
{
    assert forall|j: int| 0 <= j < a.len() implies a[j] == c[j] by {
        lemma_prefix_index(a, b, j);
        lemma_prefix_index(b, c, j);
    }
    assert(a =~= c.subrange(0, a.len() as int));
}

/// A phase block already wholly inside a trace keeps its shape when the
/// trace grows by appending.
pub proof fn lemma_phase_block_ok_extend(
    tr1: Seq<TranscriptEntry>,
    tr2: Seq<TranscriptEntry>,
    start: int,
    pk: ProvingKey,
    num_circuits: int,
    p: u8,
)
    requires
        phase_block_ok(tr1, start, pk, num_circuits, p),
        tr1.is_prefix_of(tr2),
        num_circuits >= 0,
        start >= 0,
        start + block_len(pk, num_circuits, p) <= tr1.len(),
    ensures
        phase_block_ok(tr2, start, pk, num_circuits, p),
{
    lemma_block_len_nonneg(pk, num_circuits, p);
    assert forall|j: int|
        start <= j < start + num_circuits * pk.owned_count(p) implies (#[trigger] tr2[j])
            is WrittenPoint by {
        lemma_prefix_index(tr1, tr2, j);
    }
    assert forall|j: int|
        start + num_circuits * pk.owned_count(p) <= j < start + block_len(pk, num_circuits, p)
            implies (#[trigger] tr2[j]) is Squeeze by {
        lemma_prefix_index(tr1, tr2, j);
    }
}

/// Membership in a one-longer prefix: the new element either was already
/// there or is the one just uncovered.
pub proof fn lemma_take_contains_step(s: Seq<u8>, p: int, x: u8)
    requires
        0 <= p < s.len(),
    ensures
        s.take(p + 1).contains(x) <==> (s.take(p).contains(x) || s[p] == x),
{
    if s.take(p + 1).contains(x) {
        let i = choose|i: int| 0 <= i < s.take(p + 1).len() && #[trigger] s.take(p + 1)[i] == x;
        if i < p {
            assert(s.take(p)[i] == x);
        }
    }
    if s.take(p).contains(x) {
        let i = choose|i: int| 0 <= i < s.take(p).len() && #[trigger] s.take(p)[i] == x;
        assert(s.take(p + 1)[i] == x);
    }
    if s[p] == x {
        assert(s.take(p + 1)[p] == x);
    }
}

/// Commit-before-challenge ordering: in a phase-structured trace, every
/// commitment a phase publishes stands strictly before every challenge
/// squeezed for that phase, and the entries are of the stated kinds.
pub proof fn lemma_commit_before_challenge(
    tr: Seq<TranscriptEntry>,
    base: int,
    pk: ProvingKey,
    num_circuits: int,
    i: int,
    jc: int,
    js: int,
)
    requires
        phase_trace_ok(tr, base, pk, num_circuits),
        0 <= i < pk.phases@.len(),
        num_circuits >= 0,
        base + blocks_len_upto(pk, num_circuits, i) <= jc < base + blocks_len_upto(
            pk,
            num_circuits,
            i,
        ) + num_circuits * pk.owned_count(pk.phases@[i]),
        base + blocks_len_upto(pk, num_circuits, i) + num_circuits * pk.owned_count(pk.phases@[i])
            <= js < base + blocks_len_upto(pk, num_circuits, i) + block_len(
            pk,
            num_circuits,
            pk.phases@[i],
        ),
    ensures
        jc < js,
        tr[jc] is WrittenPoint,
        tr[js] is Squeeze,
{
    assert(phase_block_ok(
        tr,
        base + blocks_len_upto(pk, num_circuits, i),
        pk,
        num_circuits,
        pk.phases@[i],
    ));
}

} // verus!
