use plonk_prover::backend::{AdviceSingle, Backend, InstanceSingle, Synthesizer};
use plonk_prover::challenges::ChallengeMap;
use plonk_prover::errors::ProverError;
use plonk_prover::instances::prepare_instances;
use plonk_prover::key::ProvingKey;
use plonk_prover::points::{Commitment, ProjectivePoint};
use plonk_prover::prover::create_proof;
use plonk_prover::scalar::{Assigned, Scalar};
use plonk_prover::scheduler::run_phases;
use plonk_prover::transcript::{Sponge, Transcript, TranscriptEntry};
use plonk_prover::witness::WitnessBuffer;

struct CountingSponge {
    mix: u64,
}

impl CountingSponge {
    fn new() -> CountingSponge {
        CountingSponge { mix: 0x12345678 }
    }
}

impl Sponge for CountingSponge {
    fn absorb_scalar(&mut self, s: &Scalar) {
        self.mix = self.mix.wrapping_mul(31).wrapping_add(s.l0);
    }

    fn absorb_point(&mut self, p: &Commitment) {
        self.mix = self.mix.wrapping_mul(37).wrapping_add(p.x.l0 ^ p.y.l0);
    }

    fn squeeze(&mut self) -> Scalar {
        self.mix = self.mix.wrapping_mul(6364136223846793005).wrapping_add(1442695040888963407);
        Scalar::from_u64(self.mix)
    }

    fn state(&self) -> Vec<u8> {
        self.mix.to_le_bytes().to_vec()
    }
}

struct MockBackend {
    rng_state: Vec<u8>,
    transcript_state: Vec<u8>,
    built: bool,
    challenge_count: usize,
}

impl MockBackend {
    fn new() -> MockBackend {
        MockBackend { rng_state: Vec::new(), transcript_state: Vec::new(), built: false, challenge_count: 0 }
    }
}

impl Backend for MockBackend {
    fn set_extended_domain(&mut self, _pk: &ProvingKey) {}

    fn transcript_repr(&self, pk: &ProvingKey) -> Scalar {
        Scalar::from_u64(1000 + pk.k as u64)
    }

    fn commit_lagrange(&self, evals: &Vec<Scalar>) -> ProjectivePoint {
        let mut acc: u64 = 17;
        for e in evals.iter() {
            acc = acc.wrapping_mul(131).wrapping_add(e.l0);
        }
        ProjectivePoint {
            x: Scalar::from_u64(acc),
            y: Scalar::from_u64(acc ^ 0xabcd),
            z: Scalar::from_u64(1),
        }
    }

    fn batch_normalize(&self, points: &Vec<ProjectivePoint>) -> Vec<Commitment> {
        points.iter().map(|p| Commitment { x: p.x, y: p.y }).collect()
    }

    fn ifft(&self, evals: &Vec<Scalar>) -> Vec<Scalar> {
        let mut v = evals.clone();
        v.reverse();
        v
    }

    fn batch_evaluate(&self, columns: &Vec<Vec<Assigned>>) -> Vec<Vec<Scalar>> {
        columns
            .iter()
            .map(|col| {
                col.iter()
                    .map(|a| match a {
                        Assigned::Zero => Scalar::zero(),
                        Assigned::Trivial(v) => *v,
                        Assigned::Rational(n, d) => Scalar::from_u64(n.l0 / d.l0.max(1)),
                    })
                    .collect()
            })
            .collect()
    }

    fn set_rng_state(&mut self, state: &Vec<u8>) {
        self.rng_state = state.clone();
    }

    fn set_transcript_state(&mut self, state: &Vec<u8>) {
        self.transcript_state = state.clone();
    }

    fn build_proof(
        &mut self,
        _pk: &ProvingKey,
        _instances: &Vec<InstanceSingle>,
        _advice: &Vec<AdviceSingle>,
        challenges: &Vec<Scalar>,
    ) {
        self.built = true;
        self.challenge_count = challenges.len();
    }
}

/// A circuit over two advice columns (phases 0 and 1): copies an instance
/// value into column 0, and fills column 1 from the first challenge once
/// it is known.
struct TwoPhaseCircuit;

impl Synthesizer for TwoPhaseCircuit {
    fn synthesize(&self, _rows: usize, w: &mut WitnessBuffer) -> Result<(), ProverError> {
        let v = w.query_instance(0, 0)?;
        w.assign_advice(0, 0, Assigned::Trivial(v))?;
        // In phase 0 this write targets a phase-1 column and is ignored.
        w.assign_advice(1, 0, Assigned::Trivial(Scalar::from_u64(9)))?;
        if let Some(ch) = w.get_challenge(0) {
            w.assign_advice(1, 1, Assigned::Trivial(ch))?;
        }
        Ok(())
    }
}

/// A circuit over a single phase-0 advice column.
struct OneColumnCircuit;

impl Synthesizer for OneColumnCircuit {
    fn synthesize(&self, _rows: usize, w: &mut WitnessBuffer) -> Result<(), ProverError> {
        let v = w.query_instance(0, 0)?;
        w.assign_advice(0, 0, Assigned::Trivial(v))?;
        Ok(())
    }
}

struct FailingCircuit;

impl Synthesizer for FailingCircuit {
    fn synthesize(&self, _rows: usize, _w: &mut WitnessBuffer) -> Result<(), ProverError> {
        Err(ProverError::SynthesisFailure)
    }
}

/// One instance column, one phase-0 advice column, no challenges,
/// `k = 4`, `n = 16`, five blinding factors: usable rows are 10.
fn simple_key() -> ProvingKey {
    ProvingKey {
        k: 4,
        n: 16,
        num_instance_columns: 1,
        blinding_factors: 5,
        advice_column_phases: vec![0],
        challenge_phases: vec![],
        phases: vec![0],
    }
}

/// One instance column, two advice columns owned by phases 0 and 1, one
/// challenge per phase.
fn two_phase_key() -> ProvingKey {
    ProvingKey {
        k: 4,
        n: 16,
        num_instance_columns: 1,
        blinding_factors: 5,
        advice_column_phases: vec![0, 1],
        challenge_phases: vec![0, 1],
        phases: vec![0, 1],
    }
}

fn scalars(vals: &[u64]) -> Vec<Scalar> {
    vals.iter().map(|v| Scalar::from_u64(*v)).collect()
}

#[test]
fn three_values_fit_sixteen_row_domain() {
    // Usable rows = 16 - 5 - 1 = 10, so three supplied values succeed.
    let pk = simple_key();
    let backend = MockBackend::new();
    let mut transcript = Transcript::new(CountingSponge::new());
    let instances = vec![vec![scalars(&[1, 2, 3])]];
    let r = prepare_instances(&backend, &pk, &instances, false, &mut transcript);
    assert!(r.is_ok());
    let singles = r.unwrap();
    assert_eq!(singles.len(), 1);
    assert_eq!(singles[0].instance_values.len(), 1);
    assert_eq!(singles[0].instance_values[0].len(), 16);
    assert_eq!(singles[0].instance_polys[0].len(), 16);
}

#[test]
fn eleven_values_exceed_usable_rows() {
    // Eleven values exceed the ten usable rows and must be rejected.
    let pk = simple_key();
    let backend = MockBackend::new();
    let mut transcript = Transcript::new(CountingSponge::new());
    let instances = vec![vec![scalars(&[1, 2, 3, 4, 5, 6, 7, 8, 9, 10, 11])]];
    let r = prepare_instances(&backend, &pk, &instances, false, &mut transcript);
    assert_eq!(r.err(), Some(ProverError::InstanceTooLarge));
}

#[test]
fn ten_values_exactly_fill_usable_rows() {
    let pk = simple_key();
    let backend = MockBackend::new();
    let mut transcript = Transcript::new(CountingSponge::new());
    let instances = vec![vec![scalars(&[1, 2, 3, 4, 5, 6, 7, 8, 9, 10])]];
    assert!(prepare_instances(&backend, &pk, &instances, false, &mut transcript).is_ok());
}

#[test]
fn instance_values_are_zero_padded() {
    let pk = simple_key();
    let backend = MockBackend::new();
    let mut transcript = Transcript::new(CountingSponge::new());
    let instances = vec![vec![scalars(&[5, 6])]];
    let singles = prepare_instances(&backend, &pk, &instances, false, &mut transcript).unwrap();
    let col = &singles[0].instance_values[0];
    assert_eq!(col[0], Scalar::from_u64(5));
    assert_eq!(col[1], Scalar::from_u64(6));
    for row in 2..16 {
        assert_eq!(col[row], Scalar::zero());
    }
}

#[test]
fn wrong_column_count_is_rejected_before_binding() {
    let pk = simple_key();
    let mut backend = MockBackend::new();
    let mut transcript = Transcript::new(CountingSponge::new());
    // Two columns supplied where the key declares one.
    let instances = vec![vec![scalars(&[1]), scalars(&[2])]];
    let circuits = vec![TwoPhaseCircuit];
    let blinds = vec![scalars(&[11])];
    let r = create_proof(
        &mut backend, &pk, &circuits, &instances, &blinds, false, &vec![0u8], &mut transcript,
    );
    assert_eq!(r.err(), Some(ProverError::InvalidInstanceCount));
    // Nothing was bound into the transcript.
    assert_eq!(transcript.entries.len(), 0);
}

#[test]
fn oversize_instance_fails_whole_call() {
    let pk = two_phase_key();
    let mut backend = MockBackend::new();
    let mut transcript = Transcript::new(CountingSponge::new());
    let instances = vec![vec![scalars(&[1, 2, 3, 4, 5, 6, 7, 8, 9, 10, 11])]];
    let circuits = vec![TwoPhaseCircuit];
    let blinds = vec![scalars(&[11, 12])];
    let r = create_proof(
        &mut backend, &pk, &circuits, &instances, &blinds, false, &vec![0u8], &mut transcript,
    );
    assert_eq!(r.err(), Some(ProverError::InstanceTooLarge));
    assert!(!backend.built);
}

#[test]
fn successful_run_reaches_backend_with_all_challenges() {
    let pk = two_phase_key();
    let mut backend = MockBackend::new();
    let mut transcript = Transcript::new(CountingSponge::new());
    let instances = vec![vec![scalars(&[3, 4])]];
    let circuits = vec![TwoPhaseCircuit];
    let blinds = vec![scalars(&[11, 12])];
    let r = create_proof(
        &mut backend, &pk, &circuits, &instances, &blinds, false, &vec![7u8], &mut transcript,
    );
    assert!(r.is_ok());
    assert!(backend.built);
    assert_eq!(backend.challenge_count, 2);
    assert_eq!(backend.rng_state, vec![7u8]);
}

#[test]
fn transcript_orders_commitments_before_challenges() {
    // One circuit, two phases, one owned column and one challenge per
    // phase, two cleartext instance values: the trace must be the key's
    // representation scalar, the instance scalars, then per phase one
    // written commitment followed by one squeeze.
    let pk = two_phase_key();
    let mut backend = MockBackend::new();
    let mut transcript = Transcript::new(CountingSponge::new());
    let instances = vec![vec![scalars(&[3, 4])]];
    let circuits = vec![TwoPhaseCircuit];
    let blinds = vec![scalars(&[11, 12])];
    let r = create_proof(
        &mut backend, &pk, &circuits, &instances, &blinds, false, &vec![0u8], &mut transcript,
    );
    assert!(r.is_ok());
    let e = &transcript.entries;
    assert_eq!(e.len(), 7);
    assert_eq!(e[0], TranscriptEntry::CommonScalar(Scalar::from_u64(1004)));
    assert_eq!(e[1], TranscriptEntry::CommonScalar(Scalar::from_u64(3)));
    assert_eq!(e[2], TranscriptEntry::CommonScalar(Scalar::from_u64(4)));
    assert!(matches!(e[3], TranscriptEntry::WrittenPoint(_)));
    assert!(matches!(e[4], TranscriptEntry::Squeeze(_)));
    assert!(matches!(e[5], TranscriptEntry::WrittenPoint(_)));
    assert!(matches!(e[6], TranscriptEntry::Squeeze(_)));
}

#[test]
fn identical_runs_produce_identical_transcripts() {
    let run = || {
        let pk = two_phase_key();
        let mut backend = MockBackend::new();
        let mut transcript = Transcript::new(CountingSponge::new());
        let instances = vec![vec![scalars(&[3, 4])]];
        let circuits = vec![TwoPhaseCircuit];
        let blinds = vec![scalars(&[11, 12])];
        let r = create_proof(
            &mut backend, &pk, &circuits, &instances, &blinds, false, &vec![0u8], &mut transcript,
        );
        assert!(r.is_ok());
        let state = transcript.state();
        (transcript.entries, state, backend.transcript_state)
    };
    let (entries_a, state_a, backend_state_a) = run();
    let (entries_b, state_b, backend_state_b) = run();
    assert_eq!(entries_a, entries_b);
    assert_eq!(state_a, state_b);
    assert_eq!(backend_state_a, backend_state_b);
}

#[test]
fn synthesis_failure_aborts_the_call() {
    let pk = simple_key();
    let mut backend = MockBackend::new();
    let mut transcript = Transcript::new(CountingSponge::new());
    let instances = vec![vec![scalars(&[1])]];
    let circuits = vec![FailingCircuit];
    let blinds = vec![scalars(&[11])];
    let r = create_proof(
        &mut backend, &pk, &circuits, &instances, &blinds, false, &vec![0u8], &mut transcript,
    );
    assert_eq!(r.err(), Some(ProverError::SynthesisFailure));
    assert!(!backend.built);
}

#[test]
fn run_phases_completes_every_challenge_exactly_once() {
    let pk = two_phase_key();
    let backend = MockBackend::new();
    let mut transcript = Transcript::new(CountingSponge::new());
    let instances = vec![vec![scalars(&[3, 4])]];
    let circuits = vec![TwoPhaseCircuit];
    let blinds = vec![scalars(&[11, 12])];
    let r = run_phases(&backend, &pk, &circuits, &instances, &blinds, &mut transcript);
    let (advice, challenges) = r.unwrap();
    assert_eq!(advice.len(), 1);
    assert_eq!(advice[0].advice_polys.len(), 2);
    assert_eq!(advice[0].advice_polys[0].len(), 16);
    assert_eq!(advice[0].advice_polys[1].len(), 16);
    assert!(challenges.get(0).is_some());
    assert!(challenges.get(1).is_some());
    assert!(challenges.get(2).is_none());
    let ordered = challenges.into_ordered();
    assert_eq!(ordered.len(), 2);
    assert_eq!(Some(ordered[0]), challenges.get(0));
    assert_eq!(Some(ordered[1]), challenges.get(1));
}

#[test]
fn committed_advice_column_ends_with_one() {
    // The scheduler fixes the last row of every committed advice column to
    // the reserved constant before committing.
    let pk = simple_key();
    let backend = MockBackend::new();
    let mut transcript = Transcript::new(CountingSponge::new());
    let instances = vec![vec![scalars(&[3])]];
    let blinds = vec![scalars(&[11])];
    let r = run_phases(&backend, &pk, &vec![OneColumnCircuit], &instances, &blinds, &mut transcript);
    let (advice, _) = r.unwrap();
    let col = &advice[0].advice_polys[0];
    assert_eq!(col[0], Scalar::from_u64(3));
    assert_eq!(col[15], Scalar::from_u64(1));
    assert_eq!(advice[0].advice_blinds[0], Scalar::from_u64(11));
}

#[test]
fn no_circuits_always_succeeds() {
    // With nothing to synthesize, nothing can fail: success is owed.
    let pk = two_phase_key();
    let mut backend = MockBackend::new();
    let mut transcript = Transcript::new(CountingSponge::new());
    let circuits: Vec<TwoPhaseCircuit> = Vec::new();
    let instances: Vec<Vec<Vec<Scalar>>> = Vec::new();
    let blinds: Vec<Vec<Scalar>> = Vec::new();
    let r = create_proof(
        &mut backend, &pk, &circuits, &instances, &blinds, false, &vec![0u8], &mut transcript,
    );
    assert!(r.is_ok());
    assert!(backend.built);
    // The key's representation is still bound, and both challenges are
    // still derived, one squeeze per phase.
    assert_eq!(transcript.entries.len(), 3);
    assert!(matches!(transcript.entries[0], TranscriptEntry::CommonScalar(_)));
    assert!(matches!(transcript.entries[1], TranscriptEntry::Squeeze(_)));
    assert!(matches!(transcript.entries[2], TranscriptEntry::Squeeze(_)));
}

#[test]
fn no_phases_succeeds_on_well_shaped_input() {
    // A key with no declared phases has no advice columns and no
    // challenges; synthesis never runs, so fitting instances succeed.
    let pk = ProvingKey {
        k: 4,
        n: 16,
        num_instance_columns: 1,
        blinding_factors: 5,
        advice_column_phases: vec![],
        challenge_phases: vec![],
        phases: vec![],
    };
    let mut backend = MockBackend::new();
    let mut transcript = Transcript::new(CountingSponge::new());
    let circuits = vec![FailingCircuit];
    let instances = vec![vec![scalars(&[1, 2, 3])]];
    let blinds = vec![Vec::new()];
    let r = create_proof(
        &mut backend, &pk, &circuits, &instances, &blinds, false, &vec![0u8], &mut transcript,
    );
    assert!(r.is_ok());
    assert!(backend.built);
    assert_eq!(backend.challenge_count, 0);
}

#[test]
fn challenge_map_marks_underived_indices() {
    let map = ChallengeMap::new(3);
    assert_eq!(map.capacity(), 3);
    assert!(map.get(0).is_none());
    assert!(map.get(2).is_none());
    assert!(map.get(7).is_none());
}
