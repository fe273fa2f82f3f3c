//! The assignment sink: the per-(phase, circuit) capability object a
//! circuit's synthesis routine writes witness values into. It enforces the
//! usable-row bound and the phase gate; it never touches the transcript.

use crate::challenges::ChallengeMap;
use crate::errors::ProverError;
use crate::scalar::{Assigned, Scalar, zero_rational_evals};
use vstd::prelude::*;

verus! {

/// One phase's witness-collection buffer for one circuit. Created fresh at
/// the start of each (phase, circuit) step, filled by synthesis, and
/// consumed within the same scheduler iteration.
pub struct WitnessBuffer {
    /// The key's domain size exponent, reported in row-bound errors.
    pub k: u32,
    /// The phase currently being synthesized.
    pub current_phase: u8,
    /// One rational-evaluation column per declared advice column.
    pub advice: Vec<Vec<Assigned>>,
    /// The owning phase of each advice column.
    pub advice_phases: Vec<u8>,
    /// The challenges derived in earlier phases.
    pub challenges: ChallengeMap,
    /// This circuit's public-input columns, as supplied (not padded).
    pub instances: Vec<Vec<Scalar>>,
    /// Rows at or beyond this bound are reserved and may not be assigned.
    pub usable_rows: usize,
}

impl WitnessBuffer {
    /// Shape invariant: one column per declared advice column, every column
    /// `rows` entries long.
    pub open spec fn wf(self, rows: int) -> bool {
        &&& self.advice@.len() == self.advice_phases@.len()
        &&& forall|i: int| 0 <= i < self.advice@.len() ==> #[trigger] self.advice@[i]@.len() == rows
    }

    /// Everything except the advice columns is as it was: synthesis may
    /// only ever write witness cells.
    pub open spec fn same_context(self, other: WitnessBuffer) -> bool {
        &&& self.k == other.k
        &&& self.current_phase == other.current_phase
        &&& self.advice_phases@ == other.advice_phases@
        &&& self.challenges.slots@ == other.challenges.slots@
        &&& self.instances@ == other.instances@
        &&& self.usable_rows == other.usable_rows
    }

    /// Builds a fresh buffer for one (phase, circuit) step: every advice
    /// cell starts unassigned.
    pub fn new(
        k: u32,
        current_phase: u8,
        rows: usize,
        advice_phases: Vec<u8>,
        challenges: ChallengeMap,
        instances: Vec<Vec<Scalar>>,
        usable_rows: usize,
    ) -> (r: WitnessBuffer)
        ensures
            r.wf(rows as int),
            r.k == k,
            r.current_phase == current_phase,
            r.advice_phases@ == advice_phases@,
            r.challenges.slots@ == challenges.slots@,
            r.instances@ == instances@,
            r.usable_rows == usable_rows,
            forall|c: int, row: int|
                0 <= c < r.advice@.len() && 0 <= row < rows ==> r.advice@[c]@[row]
                    == Assigned::Zero,
    {
        let mut advice: Vec<Vec<Assigned>> = Vec::new();
        let mut i: usize = 0;
        let n_cols = advice_phases.len();
        while i < n_cols
            invariant
                i <= n_cols,
                advice@.len() == i,
                forall|c: int| 0 <= c < i ==> #[trigger] advice@[c]@.len() == rows,
                forall|c: int, row: int|
                    0 <= c < i && 0 <= row < rows ==> advice@[c]@[row] == Assigned::Zero,
            decreases n_cols - i,
        {
            advice.push(zero_rational_evals(rows));
            i = i + 1;
        }
        WitnessBuffer { k, current_phase, advice, advice_phases, challenges, instances, usable_rows }
    }

    /// Reads a public-input cell. Fails with `RowOutOfRange` for any row at
    /// or beyond the usable bound, whatever the column; fails with
    /// `UnknownColumn` when the column (or the row within the supplied
    /// values) does not exist; otherwise returns the known value.
    pub fn query_instance(&self, column: usize, row: usize) -> (r: Result<Scalar, ProverError>)
        ensures
            row >= self.usable_rows ==> r == Err::<Scalar, ProverError>(
                ProverError::RowOutOfRange(self.k),
            ),
            row < self.usable_rows && column < self.instances@.len() && row < self.instances@[
                column as int
            ]@.len() ==> r == Ok::<Scalar, ProverError>(self.instances@[column as int]@[row as int]),
            row < self.usable_rows && (column >= self.instances@.len() || row
                >= self.instances@[column as int]@.len()) ==> r == Err::<Scalar, ProverError>(
                ProverError::UnknownColumn,
            ),
    {
        if row >= self.usable_rows {
            return Err(ProverError::RowOutOfRange(self.k));
        }
        if column >= self.instances.len() {
            return Err(ProverError::UnknownColumn);
        }
        let col = &self.instances[column];
        if row >= col.len() {
            return Err(ProverError::UnknownColumn);
        }
        Ok(col[row])
    }

    /// Writes one advice cell. A write to a column owned by a phase after
    /// the current one is silently ignored and reports success: such a
    /// column may only take effect during its own phase. Within the current
    /// or an earlier phase, a row at or beyond the usable bound fails with
    /// `RowOutOfRange`, an undeclared column fails with `UnknownColumn`, and
    /// otherwise the tagged value is stored as supplied, to be resolved to a
    /// dense field element in the batched conversion step.
    pub fn assign_advice(&mut self, column: usize, row: usize, value: Assigned) -> (r: Result<
        (),
        ProverError,
    >)
        ensures
            column < old(self).advice_phases@.len() && old(self).advice_phases@[column as int]
                > old(self).current_phase ==> r == Ok::<(), ProverError>(()) && *final(self) == *old(
                self,
            ),
            !(column < old(self).advice_phases@.len() && old(self).advice_phases@[column as int]
                > old(self).current_phase) ==> {
                &&& row >= old(self).usable_rows ==> r == Err::<(), ProverError>(
                    ProverError::RowOutOfRange(old(self).k),
                ) && *final(self) == *old(self)
                &&& row < old(self).usable_rows && (column >= old(self).advice@.len() || row
                    >= old(self).advice@[column as int]@.len()) ==> r == Err::<(), ProverError>(
                    ProverError::UnknownColumn,
                ) && *final(self) == *old(self)
                &&& row < old(self).usable_rows && column < old(self).advice@.len() && row < old(
                    self,
                ).advice@[column as int]@.len() ==> {
                    &&& r == Ok::<(), ProverError>(())
                    &&& final(self).advice@.len() == old(self).advice@.len()
                    &&& final(self).advice@[column as int]@ == old(self).advice@[
                        column as int
                    ]@.update(row as int, value)
                    &&& forall|c: int|
                        0 <= c < old(self).advice@.len() && c != column ==> final(self).advice@[c]
                            == old(self).advice@[c]
                    &&& final(self).same_context(*old(self))
                }
            },
    {
        if column < self.advice_phases.len() && self.advice_phases[column] > self.current_phase {
            return Ok(());
        }
        if row >= self.usable_rows {
            return Err(ProverError::RowOutOfRange(self.k));
        }
        if column >= self.advice.len() {
            return Err(ProverError::UnknownColumn);
        }
        let col_len = self.advice[column].len();
        if row >= col_len {
            // Unreachable when the buffer is well-formed with at least
            // `usable_rows` rows; kept so the method is total on any shape.
            return Err(ProverError::UnknownColumn);
        }
        let ghost pre = self.advice@;
        let mut col = self.advice.remove(column);
        col.set(row, value);
        self.advice.insert(column, col);
        proof {
            assert forall|c: int| 0 <= c < pre.len() && c != column implies self.advice@[c] == pre[c]
            by {
                if c < column {
                    assert(self.advice@[c] == pre.remove(column as int)[c]);
                } else {
                    assert(self.advice@[c] == pre.remove(column as int)[c - 1]);
                }
            }
        }
        Ok(())
    }

    /// Looks up a challenge by index: the derived value if present, or the
    /// explicit not-yet-derived marker. Never an error: circuits probing
    /// shape must tolerate challenges of later phases being unknown.
    pub fn get_challenge(&self, index: usize) -> (r: Option<Scalar>)
        ensures
            index < self.challenges.slots@.len() ==> r == self.challenges.slots@[index as int],
            index >= self.challenges.slots@.len() ==> r is None,
    {
        self.challenges.get(index)
    }

    /// Entering a named region is a no-op: regions were flattened when the
    /// key was built.
    pub fn enter_region(&mut self)
        ensures
            *final(self) == *old(self),
    {
    }

    /// Leaving a region is a no-op.
    pub fn exit_region(&mut self)
        ensures
            *final(self) == *old(self),
    {
    }

    /// Selector assignments were baked into the key; reports success and
    /// changes nothing.
    pub fn enable_selector(&mut self, _selector: usize, _row: usize) -> (r: Result<(), ProverError>)
        ensures
            *final(self) == *old(self),
            r == Ok::<(), ProverError>(()),
    {
        Ok(())
    }

    /// Fixed-column values were baked into the key; reports success and
    /// changes nothing.
    pub fn assign_fixed(&mut self, _column: usize, _row: usize, _value: Assigned) -> (r: Result<
        (),
        ProverError,
    >)
        ensures
            *final(self) == *old(self),
            r == Ok::<(), ProverError>(()),
    {
        Ok(())
    }

    /// Copy constraints were baked into the key; reports success and
    /// changes nothing.
    pub fn copy(
        &mut self,
        _from_column: usize,
        _from_row: usize,
        _to_column: usize,
        _to_row: usize,
    ) -> (r: Result<(), ProverError>)
        ensures
            *final(self) == *old(self),
            r == Ok::<(), ProverError>(()),
    {
        Ok(())
    }

    /// Filling a fixed column from a row is a no-op here.
    pub fn fill_from_row(&mut self, _column: usize, _from_row: usize) -> (r: Result<
        (),
        ProverError,
    >)
        ensures
            *final(self) == *old(self),
            r == Ok::<(), ProverError>(()),
    {
        Ok(())
    }

    /// Entering a namespace is a no-op.
    pub fn push_namespace(&mut self)
        ensures
            *final(self) == *old(self),
    {
    }

    /// Leaving a namespace is a no-op.
    pub fn pop_namespace(&mut self)
        ensures
            *final(self) == *old(self),
    {
    }
}

} // verus!
