//! The relaxed instance/witness pair and its combination law.
//!
//! An instance is the public side of a pair: one commitment per witness
//! column (selector indicator columns included), the public challenge
//! scalars, the constraint-combination powers, the relaxation slack, and the
//! commitment to the error table.  A witness is the private side: one
//! evaluation table per column, and the error table.  Fresh pairs carry slack
//! one and an all-zero error; combination is linear in every component, which
//! is what makes the relaxed relation closed under folding.

use vstd::prelude::*;
use crate::alphas::Alphas;
use crate::errors::FoldingError;
use crate::expr::{heval, mix_cols, mix_seq, FoldingExpr, PairView};
use crate::field::{fadd, fmul, red, vals, Fp};

verus! {

/// The values of a family of column tables.
pub open spec fn cols_view(s: Seq<Vec<Fp>>) -> Seq<Seq<int>> {
    s.map(|i: int, c: Vec<Fp>| vals(c@))
}

/// The public side of a relaxed pair.
#[derive(Debug)]
pub struct Instance {
    /// One commitment per witness column, selector indicators included.
    pub commitments: Vec<Fp>,
    /// The public challenge scalars.
    pub challenges: Vec<Fp>,
    /// The constraint-combination powers.
    pub alphas: Alphas,
    /// The relaxation slack: one for a fresh pair.
    pub u: Fp,
    /// The commitment to the error table: zero for a fresh pair.
    pub error_commitment: Fp,
}

/// The private side of a relaxed pair.
#[derive(Debug)]
pub struct Witness {
    /// One evaluation table per column, selector indicators included.
    pub cols: Vec<Vec<Fp>>,
    /// The error table: all zero for a fresh pair.
    pub error: Vec<Fp>,
}

/// The number of rows of a witness: the shared length of its tables.
pub open spec fn wit_rows(w: Witness) -> nat {
    if w.cols@.len() == 0 {
        0
    } else {
        w.cols@[0]@.len()
    }
}

/// A witness is well formed when every table, the error included, has the
/// shared length.
pub open spec fn wit_wf(w: Witness) -> bool {
    &&& forall|i: int| 0 <= i < w.cols@.len() ==> (#[trigger] w.cols@[i])@.len() == wit_rows(w)
    &&& w.error@.len() == wit_rows(w)
}

/// What one side of a fold exposes to expression evaluation.
pub open spec fn pair_view(i: Instance, w: Witness) -> PairView {
    PairView {
        rows: wit_rows(w),
        cols: cols_view(w.cols@),
        chals: vals(i.challenges@),
        alphas: i.alphas@,
        u: i.u@,
    }
}

/// The relaxed relation: at every row, the expression evaluates to the error
/// table's entry.  A fresh pair satisfies it exactly when every constraint
/// row evaluates to zero.
pub open spec fn sat(i: Instance, w: Witness, e: FoldingExpr) -> bool {
    forall|row: int| 0 <= row < wit_rows(w)
        ==> heval(e, pair_view(i, w), row) == red(#[trigger] w.error@[row]@)
}

/// Two instances have the same shape.
pub open spec fn inst_same_shape(a: Instance, b: Instance) -> bool {
    &&& a.commitments@.len() == b.commitments@.len()
    &&& a.challenges@.len() == b.challenges@.len()
    &&& a.alphas@.len() == b.alphas@.len()
}

/// Two witnesses have the same shape.
pub open spec fn wit_same_shape(a: Witness, b: Witness) -> bool {
    &&& a.cols@.len() == b.cols@.len()
    &&& forall|i: int| 0 <= i < a.cols@.len()
        ==> (#[trigger] a.cols@[i])@.len() == b.cols@[i]@.len()
    &&& a.error@.len() == b.error@.len()
}

/// The entry-wise linear combination of two tables under a challenge.
pub fn mix_table(a: &Vec<Fp>, b: &Vec<Fp>, r: Fp) -> (out: Vec<Fp>)
    requires
        a@.len() == b@.len(),
    ensures
        out@.len() == a@.len(),
        vals(out@) == mix_seq(vals(a@), vals(b@), r@),
{
    let mut out: Vec<Fp> = Vec::new();
    let mut i: usize = 0;
    while i < a.len()
        invariant
            0 <= i <= a@.len(),
            a@.len() == b@.len(),
            out@.len() == i,
            forall|j: int| 0 <= j < i ==> (#[trigger] out@[j])@ == fadd(a@[j]@,
                fmul(r@, b@[j]@)),
        decreases a@.len() - i,
    {
        out.push(a[i].add(r.mul(b[i])));
        i = i + 1;
    }
    proof {
        assert(vals(out@) =~= mix_seq(vals(a@), vals(b@), r@));
    }
    out
}

impl Instance {
    /// Combines two instances under a folding challenge: every commitment,
    /// every challenge scalar, every combination power and the slack combine
    /// linearly, and so does the error commitment.  Mismatched shapes are
    /// rejected.
    pub fn combine(a: Instance, b: Instance, r: Fp) -> (out: Result<Instance, FoldingError>)
        ensures
            out is Ok <==> inst_same_shape(a, b),
            out matches Ok(c) ==> {
                &&& vals(c.commitments@) == mix_seq(vals(a.commitments@), vals(b.commitments@),
                    r@)
                &&& vals(c.challenges@) == mix_seq(vals(a.challenges@), vals(b.challenges@), r@)
                &&& c.alphas@ == mix_seq(a.alphas@, b.alphas@, r@)
                &&& c.u@ == fadd(a.u@, fmul(r@, b.u@))
                &&& c.error_commitment@ == fadd(a.error_commitment@,
                    fmul(r@, b.error_commitment@))
            },
            out is Err ==> out == Result::<Instance, FoldingError>::Err(
                FoldingError::MismatchedShape,
            ),
    {
        if a.commitments.len() != b.commitments.len()
            || a.challenges.len() != b.challenges.len() {
            return Err(FoldingError::MismatchedShape);
        }
        let commitments = mix_table(&a.commitments, &b.commitments, r);
        let challenges = mix_table(&a.challenges, &b.challenges, r);
        let alphas = match Alphas::combine(a.alphas, b.alphas, r) {
            Some(al) => al,
            None => {
                return Err(FoldingError::MismatchedShape);
            },
        };
        let u = a.u.add(r.mul(b.u));
        let error_commitment = a.error_commitment.add(r.mul(b.error_commitment));
        Ok(Instance { commitments, challenges, alphas, u, error_commitment })
    }
}

impl Witness {
    /// A fresh witness over the given tables, with an all-zero error table.
    /// Tables of uneven length are rejected.
    pub fn new(cols: Vec<Vec<Fp>>) -> (out: Result<Witness, FoldingError>)
        ensures
            out is Ok <==> (forall|i: int| 0 <= i < cols@.len()
                ==> (#[trigger] cols@[i])@.len() == cols_rows(cols@)),
            out matches Ok(w) ==> {
                &&& w.cols@ == cols@
                &&& wit_wf(w)
                &&& forall|row: int| 0 <= row < wit_rows(w) ==> red(#[trigger] w.error@[row]@)
                    == 0
            },
            out is Err ==> out == Result::<Witness, FoldingError>::Err(
                FoldingError::MismatchedRows,
            ),
    {
        let rows: usize = if cols.len() == 0 {
            0
        } else {
            cols[0].len()
        };
        let mut i: usize = 0;
        while i < cols.len()
            invariant
                0 <= i <= cols@.len(),
                rows == cols_rows(cols@),
                forall|j: int| 0 <= j < i ==> (#[trigger] cols@[j])@.len() == rows,
            decreases cols@.len() - i,
        {
            if cols[i].len() != rows {
                return Err(FoldingError::MismatchedRows);
            }
            i = i + 1;
        }
        let mut error: Vec<Fp> = Vec::new();
        let mut j: usize = 0;
        while j < rows
            invariant
                0 <= j <= rows,
                error@.len() == j,
                forall|k: int| 0 <= k < j ==> (#[trigger] error@[k])@ == 0,
            decreases rows - j,
        {
            error.push(Fp::zero());
            j = j + 1;
        }
        Ok(Witness { cols, error })
    }

    /// Decides whether every table, the error included, has the shared
    /// length.
    pub fn check_wf(&self) -> (r: bool)
        ensures
            r == wit_wf(*self),
    {
        let rows = self.rows();
        if self.error.len() != rows {
            return false;
        }
        let mut i: usize = 0;
        while i < self.cols.len()
            invariant
                0 <= i <= self.cols@.len(),
                self.error@.len() == wit_rows(*self),
                rows == wit_rows(*self),
                forall|j: int| 0 <= j < i ==> (#[trigger] self.cols@[j])@.len() == rows,
            decreases self.cols@.len() - i,
        {
            if self.cols[i].len() != rows {
                return false;
            }
            i = i + 1;
        }
        true
    }

    /// The number of rows: the shared length of the evaluation tables.
    pub fn rows(&self) -> (r: usize)
        ensures
            r == wit_rows(*self),
    {
        if self.cols.len() == 0 {
            0
        } else {
            self.cols[0].len()
        }
    }

    /// Combines two witnesses under a folding challenge: every table entry,
    /// the error included, combines linearly.  Witnesses of unequal row
    /// counts, or of unequal column counts, are rejected.
    pub fn combine(a: Witness, b: Witness, r: Fp) -> (out: Result<Witness, FoldingError>)
        ensures
            out is Ok <==> wit_same_shape(a, b),
            out matches Ok(c) ==> {
                &&& cols_view(c.cols@) == mix_cols(cols_view(a.cols@), cols_view(b.cols@), r@)
                &&& vals(c.error@) == mix_seq(vals(a.error@), vals(b.error@), r@)
                &&& wit_rows(c) == wit_rows(a) && wit_rows(c) == wit_rows(b)
                &&& c.cols@.len() == a.cols@.len()
                &&& forall|i: int| 0 <= i < c.cols@.len() ==> (#[trigger] c.cols@[i])@.len()
                    == a.cols@[i]@.len()
                &&& c.error@.len() == a.error@.len()
            },
            out is Err ==> out == Result::<Witness, FoldingError>::Err(
                FoldingError::MismatchedRows,
            ),
    {
        if a.cols.len() != b.cols.len() || a.error.len() != b.error.len() {
            return Err(FoldingError::MismatchedRows);
        }
        let mut cols: Vec<Vec<Fp>> = Vec::new();
        let mut i: usize = 0;
        while i < a.cols.len()
            invariant
                0 <= i <= a.cols@.len(),
                a.cols@.len() == b.cols@.len(),
                cols@.len() == i,
                forall|j: int| 0 <= j < i ==> (#[trigger] a.cols@[j])@.len()
                    == b.cols@[j]@.len(),
                forall|j: int| 0 <= j < i ==> vals((#[trigger] cols@[j])@)
                    == mix_seq(vals(a.cols@[j]@), vals(b.cols@[j]@), r@),
                forall|j: int| 0 <= j < i ==> (#[trigger] cols@[j])@.len() == a.cols@[j]@.len(),
            decreases a.cols@.len() - i,
        {
            if a.cols[i].len() != b.cols[i].len() {
                return Err(FoldingError::MismatchedRows);
            }
            let t = mix_table(&a.cols[i], &b.cols[i], r);
            cols.push(t);
            i = i + 1;
        }
        let error = mix_table(&a.error, &b.error, r);
        let out = Witness { cols, error };
        proof {
            assert(cols_view(out.cols@) =~~= mix_cols(cols_view(a.cols@), cols_view(b.cols@),
                r@));
        }
        Ok(out)
    }
}

/// A well-formed witness exposes a well-formed view.
pub proof fn lemma_pair_view_wf(i: Instance, w: Witness)
    requires
        wit_wf(w),
    ensures
        crate::expr::view_wf(pair_view(i, w)),
{
    let pv = pair_view(i, w);
    assert forall|k: int| 0 <= k < pv.cols.len() implies (#[trigger] pv.cols[k]).len()
        == pv.rows by {
        assert(pv.cols[k] == vals(w.cols@[k]@));
        assert(w.cols@[k]@.len() == wit_rows(w));
    }
}

/// The shared length read off a family of tables: the first table's length.
pub open spec fn cols_rows(cols: Seq<Vec<Fp>>) -> nat {
    if cols.len() == 0 {
        0
    } else {
        cols[0]@.len()
    }
}

} // verus!
