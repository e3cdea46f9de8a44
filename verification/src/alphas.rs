//! Bookkeeping for the constraint-combination challenge.
//!
//! Many constraints fold into one identity through a random linear combination
//! by consecutive powers of a per-side challenge.  A fresh holder carries the
//! powers of a single challenge; combining two holders under a folding
//! challenge yields a holder whose answer to every power query is the linear
//! combination of the two sides' answers, which is exactly what the folded
//! instance must report.

use vstd::prelude::*;
use crate::expr::mix_seq;
use crate::field::{fadd, fmul, fpow, vals, Fp};

verus! {

/// The powers of the constraint-combination challenge one instance holds,
/// sized at creation to the number of combined constraints.
#[derive(Debug)]
pub struct Alphas {
    powers: Vec<Fp>,
}

impl View for Alphas {
    type V = Seq<int>;

    closed spec fn view(&self) -> Seq<int> {
        vals(self.powers@)
    }
}

impl Alphas {
    /// A fresh holder: the consecutive powers of one challenge, starting at
    /// the zeroth.
    pub fn new(alpha: Fp, count: usize) -> (r: Alphas)
        ensures
            r@.len() == count,
            forall|i: int| 0 <= i < count ==> r@[i] == fpow(alpha@, i as nat),
    {
        let mut powers: Vec<Fp> = Vec::new();
        let mut cur = Fp::one();
        let mut i: usize = 0;
        while i < count
            invariant
                0 <= i <= count,
                powers@.len() == i,
                cur@ == fpow(alpha@, i as nat),
                forall|j: int| 0 <= j < i ==> (#[trigger] powers@[j])@ == fpow(alpha@, j as nat),
            decreases count - i,
        {
            powers.push(cur);
            cur = cur.mul(alpha);
            proof {
                assert(cur@ == fmul(fpow(alpha@, (i - 1 + 1) as nat), alpha@));
                crate::field::lemma_fmul_comm(fpow(alpha@, i as nat), alpha@);
            }
            i = i + 1;
        }
        Alphas { powers }
    }

    /// The powers as a table, for absorbing into a transcript.
    pub fn powers(&self) -> (r: &Vec<Fp>)
        ensures
            vals(r@) == self@,
    {
        &self.powers
    }

    /// How many powers this holder answers for.
    pub fn len(&self) -> (r: usize)
        ensures
            r == self@.len(),
    {
        self.powers.len()
    }

    /// The `i`-th power, or nothing when `i` is outside the range registered
    /// at creation.
    pub fn get(&self, i: usize) -> (r: Option<Fp>)
        ensures
            i < self@.len() ==> (r matches Some(v) && v@ == self@[i as int]),
            i >= self@.len() ==> r is None,
    {
        if i < self.powers.len() {
            Some(self.powers[i])
        } else {
            None
        }
    }

    /// Combines two holders under a folding challenge: every power query on
    /// the result answers `a.get(i) + challenge * b.get(i)`.  Nothing is
    /// returned when the holders answer for different ranges.
    pub fn combine(a: Alphas, b: Alphas, challenge: Fp) -> (r: Option<Alphas>)
        ensures
            a@.len() == b@.len() <==> r is Some,
            r matches Some(c) ==> c@ == mix_seq(a@, b@, challenge@),
    {
        if a.powers.len() != b.powers.len() {
            return None;
        }
        let mut powers: Vec<Fp> = Vec::new();
        let mut i: usize = 0;
        while i < a.powers.len()
            invariant
                0 <= i <= a.powers@.len(),
                a.powers@.len() == b.powers@.len(),
                powers@.len() == i,
                forall|j: int| 0 <= j < i ==> (#[trigger] powers@[j])@
                    == fadd(a@[j], fmul(challenge@, b@[j])),
            decreases a.powers@.len() - i,
        {
            powers.push(a.powers[i].add(challenge.mul(b.powers[i])));
            i = i + 1;
        }
        proof {
            assert(powers@.map(|k: int, x: Fp| x@) =~= mix_seq(a@, b@, challenge@));
        }
        Some(Alphas { powers })
    }
}

} // verus!
