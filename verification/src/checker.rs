//! The non-succinct checker.
//!
//! A test-time oracle: it evaluates an expression directly against one
//! instance/witness pair, row by row, and confirms that every row meets the
//! relaxed relation — the expression's value equals the error table's entry.
//! On the first violated row it reports the row index and the violation
//! amount.  It is never part of the proving path.

use vstd::prelude::*;
use crate::env::{eval_side, FoldingEnv, Side};
use crate::errors::FoldingError;
use crate::expr::{heval, in_scope, FoldingExpr};
use crate::field::{fsub, red, Fp};
use crate::pair::{pair_view, sat, wit_rows, wit_wf, Instance, Witness};

verus! {

/// Why a check did not pass: the pair did not fit the expression, or a row
/// violated the relation.
#[derive(Debug)]
pub enum CheckerError {
    /// The pair's shape does not cover the expression's atoms.
    Config(FoldingError),
    /// The first violated row, and the amount by which it missed.
    Violation { row: usize, value: Fp },
}

/// A pair's shape covers an expression when every atom of the expression
/// resolves inside the pair.
pub open spec fn checkable(i: Instance, w: Witness, e: FoldingExpr) -> bool {
    &&& wit_wf(w)
    &&& in_scope(e, pair_view(i, w).cols.len(), pair_view(i, w).chals.len(), pair_view(
        i,
        w,
    ).alphas.len())
}

/// The checker: one pair, checked by duplicating it into both sides of an
/// ordinary evaluation environment.
#[derive(Debug)]
pub struct ExtendedProvider {
    pub instance: Instance,
    pub witness: Witness,
}

impl ExtendedProvider {
    /// Wraps a pair for checking.
    pub fn new(instance: Instance, witness: Witness) -> (r: ExtendedProvider)
        ensures
            r.instance == instance,
            r.witness == witness,
    {
        ExtendedProvider { instance, witness }
    }

    /// Evaluates the expression at every row and confirms the relaxed
    /// relation.  Rejects a pair whose shape does not cover the expression;
    /// otherwise passes exactly when every row evaluates to its error entry,
    /// and reports the first violated row and the violation amount if not.
    pub fn check(&self, e: &FoldingExpr) -> (res: Result<(), CheckerError>)
        ensures
            res is Ok <==> (checkable(self.instance, self.witness, *e) && sat(self.instance,
                self.witness, *e)),
            !checkable(self.instance, self.witness, *e) <==> (res matches Err(
                CheckerError::Config(_),
            )),
            res matches Err(CheckerError::Violation { row, value }) ==> {
                &&& 0 <= row < wit_rows(self.witness)
                &&& heval(*e, pair_view(self.instance, self.witness), row as int) != red(
                    self.witness.error@[row as int]@,
                )
                &&& value@ == fsub(
                    heval(*e, pair_view(self.instance, self.witness), row as int),
                    red(self.witness.error@[row as int]@),
                )
                &&& forall|r2: int| 0 <= r2 < row
                    ==> heval(*e, pair_view(self.instance, self.witness), r2) == red(
                        #[trigger] self.witness.error@[r2]@,
                    )
            },
    {
        let ghost pv = pair_view(self.instance, self.witness);
        if !self.witness.check_wf() {
            return Err(CheckerError::Config(FoldingError::MismatchedRows));
        }
        let ncols = self.witness.cols.len();
        let nchals = self.instance.challenges.len();
        let nalphas = self.instance.alphas.len();
        if !crate::expr::check_in_scope(e, ncols, nchals, nalphas) {
            return Err(CheckerError::Config(FoldingError::UnmappedAtom));
        }
        let env = FoldingEnv::new(
            0,
            &self.instance,
            &self.instance,
            &self.witness,
            &self.witness,
        );
        proof {
            crate::pair::lemma_pair_view_wf(self.instance, self.witness);
        }
        let rows = self.witness.rows();
        let mut row: usize = 0;
        while row < rows
            invariant
                0 <= row <= rows,
                rows == wit_rows(self.witness),
                wit_wf(self.witness),
                in_scope(*e, pv.cols.len(), pv.chals.len(), pv.alphas.len()),
                pv == pair_view(self.instance, self.witness),
                env.wf(),
                env.side_view(Side::Left) == pv,
                forall|r2: int| 0 <= r2 < row ==> heval(*e, pv, r2) == red(
                    #[trigger] self.witness.error@[r2]@,
                ),
            decreases rows - row,
        {
            let v = eval_side(e, &env, Side::Left, row);
            let expected = self.witness.error[row].reduced();
            if !v.eq_value(expected) {
                return Err(CheckerError::Violation { row, value: v.sub(expected) });
            }
            row = row + 1;
        }
        Ok(())
    }
}

} // verus!
