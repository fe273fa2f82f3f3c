//! The proving key's shape data: column counts, the phase list, and the
//! ownership maps that drive the scheduler. The key itself is produced by
//! the out-of-scope circuit compiler; the orchestrator only reads it.

use vstd::prelude::*;

verus! {

/// The circuit-shape data the orchestrator reads from a proving key.
pub struct ProvingKey {
    /// The domain size exponent; the domain has `n` rows.
    pub k: u32,
    /// The domain size (number of rows of every column polynomial).
    pub n: usize,
    /// How many instance (public-input) columns every circuit must supply.
    pub num_instance_columns: usize,
    /// How many trailing rows of each column are reserved for blinding.
    pub blinding_factors: usize,
    /// The owning phase of each advice column, indexed by column.
    pub advice_column_phases: Vec<u8>,
    /// The owning phase of each challenge, indexed by challenge.
    pub challenge_phases: Vec<u8>,
    /// The declared phases, in the strictly ascending order they run in.
    pub phases: Vec<u8>,
}

/// How many entries of `s` equal `p`.
pub open spec fn count_eq(s: Seq<u8>, p: u8) -> int
    decreases s.len(),
{
    if s.len() == 0 {
        0
    } else {
        count_eq(s.drop_last(), p) + if s.last() == p { 1int } else { 0int }
    }
}

/// The indices of the entries of `s` that equal `p`, in ascending order.
pub open spec fn indices_eq(s: Seq<u8>, p: u8) -> Seq<int>
    decreases s.len(),
{
    if s.len() == 0 {
        Seq::empty()
    } else if s.last() == p {
        indices_eq(s.drop_last(), p).push(s.len() - 1)
    } else {
        indices_eq(s.drop_last(), p)
    }
}

/// Counting and index collection agree: there are as many matching indices
/// as matches.
pub proof fn lemma_indices_eq_len(s: Seq<u8>, p: u8)
    ensures
        indices_eq(s, p).len() == count_eq(s, p),
    decreases s.len(),
{
    if s.len() > 0 {
        lemma_indices_eq_len(s.drop_last(), p);
    }
}

/// The matching indices are in range and strictly ascending.
pub proof fn lemma_indices_eq_sorted(s: Seq<u8>, p: u8)
    ensures
        forall|i: int|
            0 <= i < indices_eq(s, p).len() ==> 0 <= #[trigger] indices_eq(s, p)[i] < s.len(),
        forall|i: int, j: int|
            0 <= i < j < indices_eq(s, p).len() ==> indices_eq(s, p)[i] < indices_eq(s, p)[j],
    decreases s.len(),
{
    if s.len() > 0 {
        lemma_indices_eq_sorted(s.drop_last(), p);
        let pre = indices_eq(s.drop_last(), p);
        if s.last() == p {
            assert(indices_eq(s, p) == pre.push(s.len() - 1));
            assert forall|i: int|
                0 <= i < indices_eq(s, p).len() implies 0 <= #[trigger] indices_eq(s, p)[i]
                < s.len() by {
                if i < pre.len() {
                    assert(indices_eq(s, p)[i] == pre[i]);
                } else {
                    assert(indices_eq(s, p)[i] == s.len() - 1);
                }
            }
            assert forall|i: int, j: int|
                0 <= i < j < indices_eq(s, p).len() implies indices_eq(s, p)[i] < indices_eq(
                s,
                p,
            )[j] by {
                if j < pre.len() {
                    assert(indices_eq(s, p)[i] == pre[i]);
                    assert(indices_eq(s, p)[j] == pre[j]);
                } else {
                    assert(indices_eq(s, p)[j] == s.len() - 1);
                    assert(indices_eq(s, p)[i] == pre[i]);
                    assert(pre[i] < s.drop_last().len());
                }
            }
        } else {
            assert(indices_eq(s, p) == pre);
        }
    }
}

/// An index stands among the matches exactly when its entry matches.
pub proof fn lemma_indices_eq_membership(s: Seq<u8>, p: u8, col: int)
    requires
        0 <= col < s.len(),
    ensures
        (exists|t: int| 0 <= t < indices_eq(s, p).len() && #[trigger] indices_eq(s, p)[t] == col)
            <==> s[col] == p,
    decreases s.len(),
{
    lemma_indices_eq_sorted(s, p);
    if col == s.len() - 1 {
        if s[col] == p {
            assert(indices_eq(s, p).last() == col);
            assert(indices_eq(s, p)[indices_eq(s, p).len() - 1] == col);
        } else {
            lemma_indices_eq_sorted(s.drop_last(), p);
            if exists|t: int|
                0 <= t < indices_eq(s, p).len() && #[trigger] indices_eq(s, p)[t] == col {
                let t = choose|t: int|
                    0 <= t < indices_eq(s, p).len() && #[trigger] indices_eq(s, p)[t] == col;
                assert(indices_eq(s, p) == indices_eq(s.drop_last(), p));
                assert(indices_eq(s.drop_last(), p)[t] < s.drop_last().len());
                assert(false);
            }
        }
    } else {
        lemma_indices_eq_membership(s.drop_last(), p, col);
        assert(s.drop_last()[col] == s[col]);
        if s[col] == p {
            let t = choose|t: int|
                0 <= t < indices_eq(s.drop_last(), p).len() && #[trigger] indices_eq(
                    s.drop_last(),
                    p,
                )[t] == col;
            if s.last() == p {
                assert(indices_eq(s, p)[t] == col);
            } else {
                assert(indices_eq(s, p)[t] == col);
            }
        } else {
            if exists|t: int|
                0 <= t < indices_eq(s, p).len() && #[trigger] indices_eq(s, p)[t] == col {
                let t = choose|t: int|
                    0 <= t < indices_eq(s, p).len() && #[trigger] indices_eq(s, p)[t] == col;
                if s.last() == p && t == indices_eq(s, p).len() - 1 {
                    assert(indices_eq(s, p)[t] == s.len() - 1);
                    assert(false);
                } else {
                    assert(indices_eq(s.drop_last(), p)[t] == col);
                    assert(false);
                }
            }
        }
    }
}

/// Counts never run negative and never exceed the sequence length.
pub proof fn lemma_count_eq_bounds(s: Seq<u8>, p: u8)
    ensures
        0 <= count_eq(s, p) <= s.len(),
    decreases s.len(),
{
    if s.len() > 0 {
        lemma_count_eq_bounds(s.drop_last(), p);
    }
}

/// Extending a prefix by one entry adjusts the count by whether that entry
/// matches.
pub proof fn lemma_count_eq_take_step(s: Seq<u8>, p: u8, j: int)
    requires
        0 <= j < s.len(),
    ensures
        count_eq(s.take(j + 1), p) == count_eq(s.take(j), p) + if s[j] == p {
            1int
        } else {
            0int
        },
{
    assert(s.take(j + 1).drop_last() =~= s.take(j));
    assert(s.take(j + 1).last() == s[j]);
}

/// Taking the whole sequence counts the whole sequence.
pub proof fn lemma_count_eq_take_all(s: Seq<u8>, p: u8)
    ensures
        count_eq(s.take(s.len() as int), p) == count_eq(s, p),
{
    assert(s.take(s.len() as int) =~= s);
}

impl ProvingKey {
    /// The rows a circuit may assign: everything except the rows reserved
    /// for blinding and the one row reserved for the permutation argument.
    pub open spec fn usable_rows_spec(self) -> int {
        self.n - self.blinding_factors - 1
    }

    /// The number of advice columns the key declares.
    pub open spec fn num_advice_columns(self) -> int {
        self.advice_column_phases@.len() as int
    }

    /// The number of challenges the key declares.
    pub open spec fn num_challenges(self) -> int {
        self.challenge_phases@.len() as int
    }

    /// How many advice columns a phase owns.
    pub open spec fn owned_count(self, p: u8) -> int {
        count_eq(self.advice_column_phases@, p)
    }

    /// How many challenges a phase owns.
    pub open spec fn challenge_count(self, p: u8) -> int {
        count_eq(self.challenge_phases@, p)
    }

    /// Well-formedness of the key's shape data: the domain leaves at least
    /// one usable row, the phase list is strictly ascending, and every
    /// advice column and challenge is owned by a declared phase.
    pub open spec fn wf(self) -> bool {
        &&& self.n >= self.blinding_factors + 2
        &&& forall|i: int, j: int|
            0 <= i < j < self.phases@.len() ==> self.phases@[i] < self.phases@[j]
        &&& forall|i: int|
            0 <= i < self.advice_column_phases@.len() ==> self.phases@.contains(
                #[trigger] self.advice_column_phases@[i],
            )
        &&& forall|i: int|
            0 <= i < self.challenge_phases@.len() ==> self.phases@.contains(
                #[trigger] self.challenge_phases@[i],
            )
    }

    /// The usable-row bound as an executable value.
    pub fn usable_rows(&self) -> (r: usize)
        requires
            self.wf(),
        ensures
            r == self.usable_rows_spec(),
    {
        self.n - self.blinding_factors - 1
    }

    /// Collects the advice-column indices owned by phase `p`, in ascending
    /// order, mirroring the declared column order.
    pub fn owned_columns(&self, p: u8) -> (r: Vec<usize>)
        ensures
            r@.map_values(|u: usize| u as int) == indices_eq(self.advice_column_phases@, p),
            r@.len() == self.owned_count(p),
            forall|i: int| 0 <= i < r@.len() ==> r@[i] < self.advice_column_phases@.len(),
    {
        let s = &self.advice_column_phases;
        let ghost sv = s@;
        let mut r: Vec<usize> = Vec::new();
        let mut j: usize = 0;
        while j < s.len()
            invariant
                j <= sv.len(),
                sv == s@,
                r@.map_values(|u: usize| u as int) == indices_eq(sv.take(j as int), p),
                forall|i: int| 0 <= i < r@.len() ==> r@[i] < j,
            decreases s.len() - j,
        {
            proof {
                assert(sv.take(j + 1).drop_last() =~= sv.take(j as int));
                assert(sv.take(j + 1).last() == sv[j as int]);
            }
            if s[j] == p {
                r.push(j);
                proof {
                    assert(r@.map_values(|u: usize| u as int) =~= indices_eq(
                        sv.take(j as int),
                        p,
                    ).push(j as int));
                }
            }
            j = j + 1;
        }
        proof {
            assert(sv.take(sv.len() as int) =~= sv);
            lemma_indices_eq_len(sv, p);
        }
        r
    }
}

} // verus!
