//! The evaluation environment of one fold.
//!
//! Built fresh per fold from the two instances and the two witnesses, and
//! discarded afterwards.  It resolves every expression atom — a column cell
//! of the current or the next row, a challenge, a combination power, a
//! selector indicator — to the concrete field value of one side, and the
//! evaluators walk an expression through it, once per row.

use vstd::prelude::*;
use crate::expr::{
    cell_row, compat, heval, in_scope, view_wf, xeval, CurrOrNext, FoldingExpr, PairView,
};
use crate::field::{red, Fp};
use crate::pair::{pair_view, wit_rows, wit_wf, Instance, Witness};
use crate::poly::CrossPoly;

verus! {

/// Which of the two folded pairs an atom resolves against.
#[derive(Clone, Copy, Debug, PartialEq, Eq, Structural)]
pub enum Side {
    Left,
    Right,
}

/// The per-fold evaluation environment: the two pairs, and the layout datum
/// needed to find the selector indicator columns.
pub struct FoldingEnv<'a> {
    /// How many columns come before the first selector indicator.
    pub n_regular: usize,
    pub instance_l: &'a Instance,
    pub instance_r: &'a Instance,
    pub witness_l: &'a Witness,
    pub witness_r: &'a Witness,
}

impl<'a> FoldingEnv<'a> {
    /// What the chosen side exposes to evaluation.
    pub open spec fn side_view(self, side: Side) -> PairView {
        match side {
            Side::Left => pair_view(*self.instance_l, *self.witness_l),
            Side::Right => pair_view(*self.instance_r, *self.witness_r),
        }
    }

    /// Both sides are well formed and have the same shape.
    pub open spec fn wf(self) -> bool {
        &&& wit_wf(*self.witness_l)
        &&& wit_wf(*self.witness_r)
        &&& view_wf(self.side_view(Side::Left))
        &&& view_wf(self.side_view(Side::Right))
        &&& compat(self.side_view(Side::Left), self.side_view(Side::Right))
    }

    /// Captures the two pairs of one fold.
    pub fn new(
        structure: usize,
        instance_l: &'a Instance,
        instance_r: &'a Instance,
        witness_l: &'a Witness,
        witness_r: &'a Witness,
    ) -> (r: FoldingEnv<'a>)
        ensures
            r.n_regular == structure,
            r.instance_l == instance_l,
            r.instance_r == instance_r,
            r.witness_l == witness_l,
            r.witness_r == witness_r,
    {
        FoldingEnv { n_regular: structure, instance_l, instance_r, witness_l, witness_r }
    }

    /// The number of rows of the witnesses.
    pub fn domain_size(&self) -> (r: usize)
        ensures
            r == wit_rows(*self.witness_l),
    {
        self.witness_l.rows()
    }

    /// The value of a column cell, at the current or the next row, on one
    /// side.
    pub fn col(&self, col: usize, curr_or_next: CurrOrNext, side: Side, row: usize) -> (r: Fp)
        requires
            self.wf(),
            col < self.side_view(side).cols.len(),
            row < self.side_view(side).rows,
        ensures
            r@ == red(
                self.side_view(side).cols[col as int][cell_row(self.side_view(side),
                    curr_or_next, row as int)],
            ),
    {
        let w: &Witness = match side {
            Side::Left => self.witness_l,
            Side::Right => self.witness_r,
        };
        let rows = w.rows();
        let idx: usize = match curr_or_next {
            CurrOrNext::Curr => row,
            CurrOrNext::Next => {
                if row + 1 < rows {
                    row + 1
                } else {
                    0
                }
            },
        };
        proof {
            if curr_or_next is Next {
                if row + 1 < rows {
                    vstd::arithmetic::div_mod::lemma_small_mod((row + 1) as nat, rows as nat);
                } else {
                    vstd::arithmetic::div_mod::lemma_mod_self_0(rows as int);
                }
            }
        }
        w.cols[col][idx].reduced()
    }

    /// The value of a challenge scalar on one side.
    pub fn challenge(&self, challenge: usize, side: Side) -> (r: Fp)
        requires
            challenge < self.side_view(side).chals.len(),
        ensures
            r@ == red(self.side_view(side).chals[challenge as int]),
    {
        let i: &Instance = match side {
            Side::Left => self.instance_l,
            Side::Right => self.instance_r,
        };
        i.challenges[challenge].reduced()
    }

    /// The value of a combination power on one side.
    pub fn alpha(&self, i: usize, side: Side) -> (r: Fp)
        requires
            i < self.side_view(side).alphas.len(),
        ensures
            r@ == red(self.side_view(side).alphas[i as int]),
    {
        let inst: &Instance = match side {
            Side::Left => self.instance_l,
            Side::Right => self.instance_r,
        };
        let v = match inst.alphas.get(i) {
            Some(v) => v,
            None => Fp::zero(),
        };
        v.reduced()
    }

    /// The relaxation slack of one side.
    pub fn slack(&self, side: Side) -> (r: Fp)
        ensures
            r@ == red(self.side_view(side).u),
    {
        let inst: &Instance = match side {
            Side::Left => self.instance_l,
            Side::Right => self.instance_r,
        };
        inst.u.reduced()
    }

    /// The value of a selector indicator column at the current row, on one
    /// side.  Selectors are never read at the next row.
    pub fn selector(&self, s: usize, side: Side, row: usize) -> (r: Fp)
        requires
            self.wf(),
            self.n_regular + s <= usize::MAX,
            self.n_regular + s < self.side_view(side).cols.len(),
            row < self.side_view(side).rows,
        ensures
            r@ == red(self.side_view(side).cols[self.n_regular + s][row as int]),
    {
        self.col(self.n_regular + s, CurrOrNext::Curr, side, row)
    }
}

/// Evaluates an expression against one side of the environment, at one row.
pub fn eval_side(e: &FoldingExpr, env: &FoldingEnv, side: Side, row: usize) -> (r: Fp)
    requires
        env.wf(),
        in_scope(
            *e,
            env.side_view(side).cols.len(),
            env.side_view(side).chals.len(),
            env.side_view(side).alphas.len(),
        ),
        row < env.side_view(side).rows,
    ensures
        r@ == heval(*e, env.side_view(side), row as int),
    decreases *e,
{
    match e {
        FoldingExpr::Cell { col, row: ro } => env.col(*col, *ro, side, row),
        FoldingExpr::Challenge(j) => env.challenge(*j, side),
        FoldingExpr::Alpha(j) => env.alpha(*j, side),
        FoldingExpr::Slack => env.slack(side),
        FoldingExpr::Constant(c) => {
            (*c).reduced()
        },
        FoldingExpr::Add(a, b) => eval_side(a, env, side, row).add(eval_side(b, env, side, row)),
        FoldingExpr::Sub(a, b) => eval_side(a, env, side, row).sub(eval_side(b, env, side, row)),
        FoldingExpr::Mul(a, b) => eval_side(a, env, side, row).mul(eval_side(b, env, side, row)),
    }
}

/// Evaluates an expression against both sides at once, at one row, as a
/// polynomial in the folding variable.
pub fn eval_poly(e: &FoldingExpr, env: &FoldingEnv, row: usize) -> (r: CrossPoly)
    requires
        env.wf(),
        in_scope(
            *e,
            env.side_view(Side::Left).cols.len(),
            env.side_view(Side::Left).chals.len(),
            env.side_view(Side::Left).alphas.len(),
        ),
        row < env.side_view(Side::Left).rows,
    ensures
        r@ == xeval(*e, env.side_view(Side::Left), env.side_view(Side::Right), row as int),
    decreases *e,
{
    match e {
        FoldingExpr::Cell { col, row: ro } => CrossPoly::linear(
            env.col(*col, *ro, Side::Left, row),
            env.col(*col, *ro, Side::Right, row),
        ),
        FoldingExpr::Challenge(j) => CrossPoly::linear(
            env.challenge(*j, Side::Left),
            env.challenge(*j, Side::Right),
        ),
        FoldingExpr::Alpha(j) => CrossPoly::linear(
            env.alpha(*j, Side::Left),
            env.alpha(*j, Side::Right),
        ),
        FoldingExpr::Slack => CrossPoly::linear(env.slack(Side::Left), env.slack(Side::Right)),
        FoldingExpr::Constant(c) => {
            CrossPoly::constant((*c).reduced())
        },
        FoldingExpr::Add(a, b) => eval_poly(a, env, row).add(&eval_poly(b, env, row)),
        FoldingExpr::Sub(a, b) => eval_poly(a, env, row).sub(&eval_poly(b, env, row)),
        FoldingExpr::Mul(a, b) => eval_poly(a, env, row).mul(&eval_poly(b, env, row)),
    }
}

} // verus!
