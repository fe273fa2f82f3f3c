use plonk_prover::challenges::ChallengeMap;
use plonk_prover::errors::ProverError;
use plonk_prover::scalar::{Assigned, Scalar};
use plonk_prover::witness::WitnessBuffer;

fn buffer() -> WitnessBuffer {
    // Two advice columns, owned by phases 0 and 1; currently in phase 0.
    // Sixteen rows, ten of them usable; one instance column with three
    // supplied values.
    WitnessBuffer::new(
        4,
        0,
        16,
        vec![0, 1],
        ChallengeMap::new(2),
        vec![vec![Scalar::from_u64(5), Scalar::from_u64(6), Scalar::from_u64(7)]],
        10,
    )
}

#[test]
fn instance_query_beyond_usable_rows_fails() {
    let w = buffer();
    // Row 10 is the first reserved row; the column being valid is
    // irrelevant, and so is the column being invalid.
    assert_eq!(w.query_instance(0, 10), Err(ProverError::RowOutOfRange(4)));
    assert_eq!(w.query_instance(99, 10), Err(ProverError::RowOutOfRange(4)));
    assert_eq!(w.query_instance(0, 15), Err(ProverError::RowOutOfRange(4)));
}

#[test]
fn instance_query_returns_known_values() {
    let w = buffer();
    assert_eq!(w.query_instance(0, 0), Ok(Scalar::from_u64(5)));
    assert_eq!(w.query_instance(0, 2), Ok(Scalar::from_u64(7)));
}

#[test]
fn instance_query_unknown_column_fails() {
    let w = buffer();
    assert_eq!(w.query_instance(1, 0), Err(ProverError::UnknownColumn));
    // A usable row beyond the supplied values is likewise unknown.
    assert_eq!(w.query_instance(0, 3), Err(ProverError::UnknownColumn));
}

#[test]
fn advice_write_beyond_usable_rows_fails() {
    let mut w = buffer();
    let r = w.assign_advice(0, 10, Assigned::Trivial(Scalar::from_u64(1)));
    assert_eq!(r, Err(ProverError::RowOutOfRange(4)));
}

#[test]
fn advice_write_unknown_column_fails() {
    let mut w = buffer();
    let r = w.assign_advice(5, 0, Assigned::Trivial(Scalar::from_u64(1)));
    assert_eq!(r, Err(ProverError::UnknownColumn));
}

#[test]
fn advice_write_is_stored_in_own_phase() {
    let mut w = buffer();
    let r = w.assign_advice(0, 3, Assigned::Trivial(Scalar::from_u64(42)));
    assert_eq!(r, Ok(()));
    assert_eq!(w.advice[0][3], Assigned::Trivial(Scalar::from_u64(42)));
}

#[test]
fn later_phase_write_succeeds_without_effect() {
    let mut w = buffer();
    // Column 1 is owned by phase 1; the buffer is in phase 0. The write
    // must report success and store nothing.
    let r = w.assign_advice(1, 0, Assigned::Trivial(Scalar::from_u64(9)));
    assert_eq!(r, Ok(()));
    assert_eq!(w.advice[1][0], Assigned::Zero);
    // Even a write at a reserved row succeeds, because the phase gate
    // comes first.
    let r2 = w.assign_advice(1, 12, Assigned::Trivial(Scalar::from_u64(9)));
    assert_eq!(r2, Ok(()));
}

#[test]
fn challenge_lookup_never_errors() {
    let mut w = buffer();
    assert!(w.get_challenge(0).is_none());
    assert!(w.get_challenge(17).is_none());
    let mut map = ChallengeMap::new(2);
    map.insert(1, Scalar::from_u64(77));
    w.challenges = map;
    assert!(w.get_challenge(0).is_none());
    assert_eq!(w.get_challenge(1), Some(Scalar::from_u64(77)));
}

#[test]
fn bookkeeping_operations_are_no_ops() {
    let mut w = buffer();
    w.enter_region();
    assert_eq!(w.enable_selector(3, 2), Ok(()));
    assert_eq!(w.assign_fixed(0, 0, Assigned::Zero), Ok(()));
    assert_eq!(w.copy(0, 1, 1, 2), Ok(()));
    assert_eq!(w.fill_from_row(0, 0), Ok(()));
    w.push_namespace();
    w.pop_namespace();
    w.exit_region();
    assert_eq!(w.advice[0][0], Assigned::Zero);
    assert_eq!(w.advice[1][0], Assigned::Zero);
}
