//! The homomorphic commitment oracle.
//!
//! A commitment to an evaluation table is the inner product of the table with
//! a fixed public basis: the powers of a fixed generator, one per row.  The
//! scheme relies only on the additive homomorphism, proved below: committing
//! to a linear combination of tables gives the same linear combination of the
//! commitments.

use vstd::prelude::*;
use crate::expr::mix_seq;
use crate::field::{
    fadd, fmul, fpow, lemma_fmul_assoc, lemma_fmul_comm, lemma_fmul_distrib, lemma_fmul_red,
    vals, Fp,
};

verus! {

/// The generator whose powers form the commitment basis.
pub const COMMITMENT_GENERATOR: u64 = 5;

/// The commitment to the first `n` entries of a table.
pub open spec fn commit_upto(basis: Seq<int>, t: Seq<int>, n: int) -> int
    decreases n,
{
    if n <= 0 {
        0
    } else {
        fadd(commit_upto(basis, t, n - 1), fmul(basis[n - 1], t[n - 1]))
    }
}

/// The commitment to a whole table.
pub open spec fn commit_spec(basis: Seq<int>, t: Seq<int>) -> int {
    commit_upto(basis, t, t.len() as int)
}

/// The public parameters of the commitment oracle: one basis scalar per row.
#[derive(Debug)]
pub struct CommitmentKey {
    basis: Vec<Fp>,
}

impl View for CommitmentKey {
    type V = Seq<int>;

    closed spec fn view(&self) -> Seq<int> {
        vals(self.basis@)
    }
}

impl CommitmentKey {
    /// A key able to commit to tables of up to `rows` entries.
    pub fn new(rows: usize) -> (r: CommitmentKey)
        ensures
            r@.len() == rows,
            forall|i: int| 0 <= i < rows ==> r@[i] == fpow(COMMITMENT_GENERATOR as int, i as nat),
    {
        let g = Fp::new(COMMITMENT_GENERATOR);
        let mut basis: Vec<Fp> = Vec::new();
        let mut cur = Fp::one();
        let mut i: usize = 0;
        while i < rows
            invariant
                0 <= i <= rows,
                basis@.len() == i,
                g@ == COMMITMENT_GENERATOR as int,
                cur@ == fpow(COMMITMENT_GENERATOR as int, i as nat),
                forall|j: int| 0 <= j < i ==> (#[trigger] basis@[j])@
                    == fpow(COMMITMENT_GENERATOR as int, j as nat),
            decreases rows - i,
        {
            basis.push(cur);
            cur = cur.mul(g);
            proof {
                lemma_fmul_comm(fpow(COMMITMENT_GENERATOR as int, i as nat),
                    COMMITMENT_GENERATOR as int);
            }
            i = i + 1;
        }
        CommitmentKey { basis }
    }

    /// How many rows this key can commit to.
    pub fn rows(&self) -> (r: usize)
        ensures
            r == self@.len(),
    {
        self.basis.len()
    }

    /// Commits to an evaluation table.
    pub fn commit(&self, table: &Vec<Fp>) -> (r: Fp)
        requires
            table@.len() <= self@.len(),
        ensures
            r@ == commit_spec(self@, vals(table@)),
    {
        let ghost t = vals(table@);
        let mut acc = Fp::zero();
        let mut i: usize = 0;
        while i < table.len()
            invariant
                0 <= i <= table@.len(),
                table@.len() <= self@.len(),
                t == vals(table@),
                acc@ == commit_upto(self@, t, i as int),
            decreases table@.len() - i,
        {
            acc = acc.add(self.basis[i].mul(table[i]));
            i = i + 1;
        }
        acc
    }
}

/// The additive homomorphism of the commitment: committing to the linear
/// combination of two tables under a challenge gives the linear combination
/// of the two commitments.
pub proof fn lemma_commit_homomorphic(basis: Seq<int>, a: Seq<int>, b: Seq<int>, x: int, n: int)
    requires
        a.len() == b.len(),
        n <= a.len(),
    ensures
        commit_upto(basis, mix_seq(a, b, x), n)
            == fadd(commit_upto(basis, a, n), fmul(x, commit_upto(basis, b, n))),
    decreases n,
{
    if n <= 0 {
        assert(fmul(x, 0) == 0) by {
            vstd::arithmetic::mul::lemma_mul_basics(x);
        }
    } else {
        lemma_commit_homomorphic(basis, a, b, x, n - 1);
        let s = basis[n - 1];
        let ca = commit_upto(basis, a, n - 1);
        let cb = commit_upto(basis, b, n - 1);
        let ta = a[n - 1];
        let tb = b[n - 1];
        // the new entry splits into its two sides
        assert(fmul(s, mix_seq(a, b, x)[n - 1]) == fadd(fmul(s, ta), fmul(s, fmul(x, tb)))) by {
            lemma_fmul_red(s, ta + fmul(x, tb));
            lemma_fmul_distrib(s, ta, fmul(x, tb));
        }
        // the side of b regroups under the challenge
        assert(fmul(s, fmul(x, tb)) == fmul(x, fmul(s, tb))) by {
            lemma_fmul_assoc(s, x, tb);
            lemma_fmul_comm(s, x);
            lemma_fmul_assoc(x, s, tb);
        }
        // fold the challenge out of the accumulated side of b
        assert(fadd(fmul(x, cb), fmul(x, fmul(s, tb))) == fmul(x, fadd(cb, fmul(s, tb)))) by {
            lemma_fmul_distrib(x, cb, fmul(s, tb));
            lemma_fmul_red(x, fadd(cb, fmul(s, tb)));
        }
        // reassociate the four summands
        lemma_fadd4(ca, fmul(x, cb), fmul(s, ta), fmul(x, fmul(s, tb)));
    }
}

/// Swapping the middle operands of a four-way field sum.
proof fn lemma_fadd4(p: int, q: int, s: int, t: int)
    ensures
        fadd(fadd(p, q), fadd(s, t)) == fadd(fadd(p, s), fadd(q, t)),
{
    vstd::arithmetic::div_mod::lemma_add_mod_noop(p + q, s + t, crate::field::MODULUS as int);
    vstd::arithmetic::div_mod::lemma_add_mod_noop(p + s, q + t, crate::field::MODULUS as int);
}

} // verus!
