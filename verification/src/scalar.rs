//! Field scalars and the tagged witness-value representation.
//!
//! The orchestrator never computes with field elements itself: it only moves
//! them between the circuit, the transcript and the backend. A scalar is
//! therefore held as four plain 64-bit limbs; the arithmetic backend is the
//! sole interpreter of their meaning.

use vstd::prelude::*;

verus! {

/// A field element, held as four little-endian 64-bit limbs of its canonical
/// representation. The orchestrator treats scalars as opaque values.
#[derive(Clone, Copy, Debug, PartialEq, Eq, Structural)]
pub struct Scalar {
    pub l0: u64,
    pub l1: u64,
    pub l2: u64,
    pub l3: u64,
}

/// The canonical zero scalar.
pub open spec fn scalar_zero() -> Scalar {
    Scalar { l0: 0, l1: 0, l2: 0, l3: 0 }
}

/// The canonical one scalar.
pub open spec fn scalar_one() -> Scalar {
    Scalar { l0: 1, l1: 0, l2: 0, l3: 0 }
}

impl Scalar {
    /// Builds the canonical zero scalar.
    pub fn zero() -> (r: Scalar)
        ensures
            r == scalar_zero(),
    {
        Scalar { l0: 0, l1: 0, l2: 0, l3: 0 }
    }

    /// Builds the canonical one scalar, the constant reserved for the last
    /// row of every committed advice column.
    pub fn one() -> (r: Scalar)
        ensures
            r == scalar_one(),
    {
        Scalar { l0: 1, l1: 0, l2: 0, l3: 0 }
    }

    /// Builds a scalar from a small integer, for tests and callers that only
    /// need low-entropy values.
    pub fn from_u64(v: u64) -> (r: Scalar)
        ensures
            r == (Scalar { l0: v, l1: 0, l2: 0, l3: 0 }),
    {
        Scalar { l0: v, l1: 0, l2: 0, l3: 0 }
    }
}

/// How a circuit supplies one advice cell: either the known zero, a plain
/// value, or a ratio whose division is deferred to the backend's batched
/// inversion. The variants are resolved to dense field elements in one
/// batched step per phase.
#[derive(Clone, Copy, Debug, PartialEq, Eq, Structural)]
pub enum Assigned {
    /// The zero element.
    Zero,
    /// A concrete value, used as-is.
    Trivial(Scalar),
    /// A numerator over a denominator, resolved by field inversion.
    Rational(Scalar, Scalar),
}

/// Builds an evaluation buffer of `n` rows, every row the zero scalar.
pub fn zero_evals(n: usize) -> (r: Vec<Scalar>)
    ensures
        r@.len() == n,
        forall|i: int| 0 <= i < n ==> r@[i] == scalar_zero(),
{
    let mut r: Vec<Scalar> = Vec::new();
    let mut i: usize = 0;
    while i < n
        invariant
            i <= n,
            r@.len() == i,
            forall|j: int| 0 <= j < i ==> r@[j] == scalar_zero(),
        decreases n - i,
    {
        r.push(Scalar::zero());
        i = i + 1;
    }
    r
}

/// Builds a rational-evaluation buffer of `n` rows, every row unassigned
/// (the zero variant), the state of a fresh witness column.
pub fn zero_rational_evals(n: usize) -> (r: Vec<Assigned>)
    ensures
        r@.len() == n,
        forall|i: int| 0 <= i < n ==> r@[i] == Assigned::Zero,
{
    let mut r: Vec<Assigned> = Vec::new();
    let mut i: usize = 0;
    while i < n
        invariant
            i <= n,
            r@.len() == i,
            forall|j: int| 0 <= j < i ==> r@[j] == Assigned::Zero,
        decreases n - i,
    {
        r.push(Assigned::Zero);
        i = i + 1;
    }
    r
}

/// Copies a scalar buffer, element for element.
pub fn copy_scalars(v: &Vec<Scalar>) -> (r: Vec<Scalar>)
    ensures
        r@ == v@,
{
    let mut r: Vec<Scalar> = Vec::new();
    let mut i: usize = 0;
    while i < v.len()
        invariant
            i <= v@.len(),
            r@ == v@.take(i as int),
        decreases v@.len() - i,
    {
        r.push(v[i]);
        proof {
            assert(r@ =~= v@.take(i + 1));
        }
        i = i + 1;
    }
    proof {
        assert(v@.take(v@.len() as int) =~= v@);
    }
    r
}

/// Copies a rational-evaluation buffer, element for element.
pub fn copy_assigneds(v: &Vec<Assigned>) -> (r: Vec<Assigned>)
    ensures
        r@ == v@,
{
    let mut r: Vec<Assigned> = Vec::new();
    let mut i: usize = 0;
    while i < v.len()
        invariant
            i <= v@.len(),
            r@ == v@.take(i as int),
        decreases v@.len() - i,
    {
        r.push(v[i]);
        proof {
            assert(r@ =~= v@.take(i + 1));
        }
        i = i + 1;
    }
    proof {
        assert(v@.take(v@.len() as int) =~= v@);
    }
    r
}

/// Copies a phase list, element for element.
pub fn copy_bytes(v: &Vec<u8>) -> (r: Vec<u8>)
    ensures
        r@ == v@,
{
    let mut r: Vec<u8> = Vec::new();
    let mut i: usize = 0;
    while i < v.len()
        invariant
            i <= v@.len(),
            r@ == v@.take(i as int),
        decreases v@.len() - i,
    {
        r.push(v[i]);
        proof {
            assert(r@ =~= v@.take(i + 1));
        }
        i = i + 1;
    }
    proof {
        assert(v@.take(v@.len() as int) =~= v@);
    }
    r
}

/// Copies a per-column scalar table; the copy holds the same values column
/// by column.
pub fn copy_columns(v: &Vec<Vec<Scalar>>) -> (r: Vec<Vec<Scalar>>)
    ensures
        r@.len() == v@.len(),
        forall|i: int| 0 <= i < v@.len() ==> #[trigger] r@[i]@ == v@[i]@,
{
    let mut r: Vec<Vec<Scalar>> = Vec::new();
    let mut i: usize = 0;
    while i < v.len()
        invariant
            i <= v@.len(),
            r@.len() == i,
            forall|j: int| 0 <= j < i ==> #[trigger] r@[j]@ == v@[j]@,
        decreases v@.len() - i,
    {
        r.push(copy_scalars(&v[i]));
        i = i + 1;
    }
    r
}

} // verus!
