//! The decomposable folding scheme.
//!
//! Construction turns a selector-to-constraints mapping and a list of common
//! constraints into one global identity: each gate's constraints are combined
//! by consecutive powers of the combination challenge — no power is ever
//! reused across gates, so unrelated violations cannot cancel — multiplied by
//! that gate's selector indicator column, balanced to a uniform degree with the
//! relaxation slack, and summed.  A specialized expression per gate keeps only
//! that gate's term and the common terms: on fresh pairs whose other selector
//! columns are zero it evaluates identically to the global identity.
//!
//! Construction's contract says when it succeeds (`acceptable`), what every
//! built expression is worth at relaxation slack one (the power-weighted,
//! selector-gated sums of the input constraints), and that the decomposition
//! holds (`bridges`): wherever the other gates' selector columns are zero,
//! the global identity evaluates exactly as one gate's specialized
//! expression, whatever the slack.
//!
//! A fold absorbs both instances into the transcript, evaluates the chosen
//! expression over both sides as a polynomial in the folding variable, commits
//! to the two cross-term tables, absorbs those commitments, draws the folding
//! challenge, and combines instances, witnesses and error data.  Its contract
//! carries the accumulation theorem: when both inputs satisfy the relaxed
//! relation for the folded expression, the output does too — for every
//! challenge the transcript can produce.  In fresh-pair mode it carries the
//! completeness story to the end: zero selector columns stay zero, and two
//! satisfying gate pairs fold into a pair satisfying the global identity.

use vstd::prelude::*;
use crate::commit::{commit_spec, CommitmentKey};
use crate::env::{eval_poly, FoldingEnv, Side};
use crate::errors::FoldingError;
use crate::expr::{
    check_in_scope, check_plain, degree_capped, dup, edeg, heval, homog, in_scope, mix_view,
    plain, xeval, CurrOrNext, FoldingExpr, PairView,
};
use crate::field::{fadd, fmul, red, vals, Fp, MODULUS};
use crate::pair::{cols_view, pair_view, sat, wit_rows, wit_wf, Instance, Witness};
use crate::poly::{coeff, peval, SPoly};
use crate::transcript::{absorb_seq, absorb_step, squeeze, Transcript};

verus! {

/// The scheme: the circuit layout, the commitment key, the specialized
/// expression of every gate, and the global identity.
#[derive(Debug)]
pub struct DecomposableFoldingScheme {
    /// Columns before the first selector indicator.
    pub n_regular: usize,
    /// Selector indicator columns, one per gate.
    pub n_selectors: usize,
    /// Public challenge scalars per instance.
    pub n_challenges: usize,
    /// Combination powers per instance: one per constraint overall.
    pub n_alphas: usize,
    /// Rows of every witness table.
    pub domain_size: usize,
    /// The commitment key, sized to the domain.
    pub key: CommitmentKey,
    /// Per gate: that gate's term plus the common terms.
    pub specialized: Vec<FoldingExpr>,
    /// The global identity: every gate's term plus the common terms.
    pub final_constraint: FoldingExpr,
}

/// An expression the scheme can fold: degree-homogeneous, of degree exactly
/// three, with every atom inside the scheme's shape.
pub open spec fn expr_ok(e: FoldingExpr, s: DecomposableFoldingScheme) -> bool {
    &&& homog(e)
    &&& edeg(e) == 3
    &&& in_scope(
        e,
        (s.n_regular + s.n_selectors) as nat,
        s.n_challenges as nat,
        s.n_alphas as nat,
    )
}

/// A well-built scheme.
pub open spec fn scheme_wf(s: DecomposableFoldingScheme) -> bool {
    &&& s.n_regular + s.n_selectors <= usize::MAX
    &&& s.key@.len() == s.domain_size
    &&& s.specialized@.len() == s.n_selectors
    &&& expr_ok(s.final_constraint, s)
    &&& forall|j: int| 0 <= j < s.n_selectors ==> expr_ok(#[trigger] s.specialized@[j], s)
}

/// The expression a fold evaluates: one gate's specialized expression in
/// fresh-pair mode, the global identity in relaxed-pair mode.
pub open spec fn used_expr(s: DecomposableFoldingScheme, selector: Option<usize>) -> FoldingExpr {
    match selector {
        Some(j) => s.specialized@[j as int],
        None => s.final_constraint,
    }
}

/// The shapes a fold accepts: both pairs sized to the scheme, and the
/// selector, if any, among the configured gates.
pub open spec fn fold_inputs_ok(
    s: DecomposableFoldingScheme,
    li: Instance,
    lw: Witness,
    ri: Instance,
    rw: Witness,
    selector: Option<usize>,
) -> bool {
    &&& wit_wf(lw)
    &&& wit_wf(rw)
    &&& lw.cols@.len() == s.n_regular + s.n_selectors
    &&& rw.cols@.len() == s.n_regular + s.n_selectors
    &&& wit_rows(lw) == s.domain_size
    &&& wit_rows(rw) == s.domain_size
    &&& li.commitments@.len() == s.n_regular + s.n_selectors
    &&& ri.commitments@.len() == s.n_regular + s.n_selectors
    &&& li.challenges@.len() == s.n_challenges
    &&& ri.challenges@.len() == s.n_challenges
    &&& li.alphas@.len() == s.n_alphas
    &&& ri.alphas@.len() == s.n_alphas
    &&& (selector matches Some(j) ==> j < s.n_selectors)
}

/// The transcript state after absorbing one instance: its commitments, its
/// challenges, its combination powers, its slack, and its error commitment,
/// in that fixed order.
pub open spec fn absorbed_instance(s: int, i: Instance) -> int {
    absorb_step(
        absorb_step(
            absorb_seq(
                absorb_seq(
                    absorb_seq(s, vals(i.commitments@), i.commitments@.len() as int),
                    vals(i.challenges@),
                    i.challenges@.len() as int,
                ),
                i.alphas@,
                i.alphas@.len() as int,
            ),
            i.u@,
        ),
        i.error_commitment@,
    )
}

/// The transcript state a fold draws its challenge from: both instances, then
/// the two cross-term commitments, absorbed in that fixed order.
pub open spec fn fold_state(s0: int, li: Instance, ri: Instance, c0: int, c1: int) -> int {
    absorb_step(absorb_step(absorbed_instance(absorbed_instance(s0, li), ri), c0), c1)
}

/// What a fold returns: the folded pair, the two cross-term tables, and the
/// folding challenge that was drawn.
#[derive(Debug)]
pub struct FoldingOutput {
    pub instance: Instance,
    pub witness: Witness,
    pub cross_0: Vec<Fp>,
    pub cross_1: Vec<Fp>,
    pub challenge: Fp,
}

/// Absorbs one instance's public data into the transcript, in the fixed
/// documented order.
fn absorb_instance(t: &mut Transcript, i: &Instance)
    ensures
        final(t)@ == absorbed_instance(old(t)@, *i),
{
    t.absorb_all(&i.commitments);
    t.absorb_all(&i.challenges);
    t.absorb_all(i.alphas.powers());
    t.absorb(i.u);
    t.absorb(i.error_commitment);
}

/// Multiplies the slack in until the degree reaches `d`, keeping homogeneity.
fn pad_expr(e: FoldingExpr, d: usize) -> (r: FoldingExpr)
    requires
        homog(e),
        edeg(e) <= d,
        d <= 3,
    ensures
        homog(r),
        edeg(r) == d,
        forall|nc: nat, nch: nat, na: nat| in_scope(e, nc, nch, na) ==> #[trigger] in_scope(
            r,
            nc,
            nch,
            na,
        ),
        forall|v: PairView, row: int| v.u == 1 ==> #[trigger] heval(r, v, row) == heval(
            e,
            v,
            row,
        ),
{
    let ghost orig = e;
    let mut cur = e;
    let mut cd = degree_capped(&cur);
    while cd < d
        invariant
            homog(cur),
            edeg(cur) == cd,
            cd <= d,
            d <= 3,
            forall|nc: nat, nch: nat, na: nat| in_scope(orig, nc, nch, na) ==> #[trigger]
                in_scope(cur, nc, nch, na),
            forall|v: PairView, row: int| v.u == 1 ==> #[trigger] heval(cur, v, row) == heval(
                orig,
                v,
                row,
            ),
        decreases d - cd,
    {
        let ghost prev = cur;
        cur = FoldingExpr::Mul(Box::new(FoldingExpr::Slack), Box::new(cur));
        proof {
            crate::expr::lemma_expr_slack(0, 0, 0);
            crate::expr::lemma_expr_mul(FoldingExpr::Slack, prev, 0, 0, 0);
            assert forall|nc: nat, nch: nat, na: nat| in_scope(orig, nc, nch, na) implies
                #[trigger] in_scope(cur, nc, nch, na) by {
                crate::expr::lemma_expr_slack(nc, nch, na);
                crate::expr::lemma_expr_mul(FoldingExpr::Slack, prev, nc, nch, na);
            }
            assert forall|v: PairView, row: int| v.u == 1 implies #[trigger] heval(cur, v, row)
                == heval(orig, v, row) by {
                crate::expr::lemma_heval_nodes(FoldingExpr::Slack, prev, v, row);
                crate::expr::lemma_heval_reduced(prev, v, row);
                crate::field::lemma_fmul_red(1, heval(prev, v, row));
            }
        }
        cd = cd + 1;
    }
    cur
}

/// Balances every sum so that both operands share a degree, by multiplying
/// the slack into the smaller side.
fn hom_expr(e: FoldingExpr) -> (r: FoldingExpr)
    requires
        edeg(e) <= 3,
    ensures
        homog(r),
        edeg(r) == edeg(e),
        forall|nc: nat, nch: nat, na: nat| in_scope(e, nc, nch, na) ==> #[trigger] in_scope(
            r,
            nc,
            nch,
            na,
        ),
        forall|v: PairView, row: int| v.u == 1 ==> #[trigger] heval(r, v, row) == heval(
            e,
            v,
            row,
        ),
    decreases e,
{
    let ghost orig = e;
    match e {
        FoldingExpr::Add(a, b) => {
            let ghost ga0 = *a;
            let ghost gb0 = *b;
            let ha = hom_expr(*a);
            let hb = hom_expr(*b);
            let da = degree_capped(&ha);
            let db = degree_capped(&hb);
            let (la, lb) = if da >= db {
                (ha, pad_expr(hb, da))
            } else {
                (pad_expr(ha, db), hb)
            };
            let ghost gla = la;
            let ghost glb = lb;
            let res = FoldingExpr::Add(Box::new(la), Box::new(lb));
            proof {
                crate::expr::lemma_expr_add(gla, glb, 0, 0, 0);
                assert forall|nc: nat, nch: nat, na: nat| in_scope(orig, nc, nch, na) implies
                    #[trigger] in_scope(res, nc, nch, na) by {
                    crate::expr::lemma_expr_add(gla, glb, nc, nch, na);
                }
                assert forall|v: PairView, row: int| v.u == 1 implies #[trigger] heval(
                    res,
                    v,
                    row,
                ) == heval(orig, v, row) by {
                    crate::expr::lemma_heval_nodes(gla, glb, v, row);
                    crate::expr::lemma_heval_nodes(ga0, gb0, v, row);
                    assert(heval(gla, v, row) == heval(ga0, v, row));
                    assert(heval(glb, v, row) == heval(gb0, v, row));
                }
            }
            res
        },
        FoldingExpr::Sub(a, b) => {
            let ghost ga0 = *a;
            let ghost gb0 = *b;
            let ha = hom_expr(*a);
            let hb = hom_expr(*b);
            let da = degree_capped(&ha);
            let db = degree_capped(&hb);
            let (la, lb) = if da >= db {
                (ha, pad_expr(hb, da))
            } else {
                (pad_expr(ha, db), hb)
            };
            let ghost gla = la;
            let ghost glb = lb;
            let res = FoldingExpr::Sub(Box::new(la), Box::new(lb));
            proof {
                crate::expr::lemma_expr_sub(gla, glb, 0, 0, 0);
                assert forall|nc: nat, nch: nat, na: nat| in_scope(orig, nc, nch, na) implies
                    #[trigger] in_scope(res, nc, nch, na) by {
                    crate::expr::lemma_expr_sub(gla, glb, nc, nch, na);
                }
                assert forall|v: PairView, row: int| v.u == 1 implies #[trigger] heval(
                    res,
                    v,
                    row,
                ) == heval(orig, v, row) by {
                    crate::expr::lemma_heval_nodes(gla, glb, v, row);
                    crate::expr::lemma_heval_nodes(ga0, gb0, v, row);
                    assert(heval(gla, v, row) == heval(ga0, v, row));
                    assert(heval(glb, v, row) == heval(gb0, v, row));
                }
            }
            res
        },
        FoldingExpr::Mul(a, b) => {
            let ghost ga0 = *a;
            let ghost gb0 = *b;
            let ha = hom_expr(*a);
            let hb = hom_expr(*b);
            let ghost gla = ha;
            let ghost glb = hb;
            let res = FoldingExpr::Mul(Box::new(ha), Box::new(hb));
            proof {
                crate::expr::lemma_expr_mul(gla, glb, 0, 0, 0);
                assert forall|nc: nat, nch: nat, na: nat| in_scope(orig, nc, nch, na) implies
                    #[trigger] in_scope(res, nc, nch, na) by {
                    crate::expr::lemma_expr_mul(gla, glb, nc, nch, na);
                }
                assert forall|v: PairView, row: int| v.u == 1 implies #[trigger] heval(
                    res,
                    v,
                    row,
                ) == heval(orig, v, row) by {
                    crate::expr::lemma_heval_nodes(gla, glb, v, row);
                    crate::expr::lemma_heval_nodes(ga0, gb0, v, row);
                    assert(heval(gla, v, row) == heval(ga0, v, row));
                    assert(heval(glb, v, row) == heval(gb0, v, row));
                }
            }
            res
        },
        other => other,
    }
}

/// A constraint the combiner accepts under a degree budget: no reserved
/// atom, every index in scope, and room for the combination power.
pub open spec fn combinable(
    c: FoldingExpr,
    target: nat,
    ncols: nat,
    nchals: nat,
    nalphas: nat,
) -> bool {
    &&& plain(c)
    &&& in_scope(c, ncols, nchals, nalphas)
    &&& edeg(c) + 1 <= target
}

/// The value, at relaxation slack one, of the first `n` of a list of
/// constraints combined by consecutive combination powers starting at
/// `offset`.
pub open spec fn combo_val(
    cs: Seq<FoldingExpr>,
    offset: int,
    n: int,
    v: PairView,
    row: int,
) -> int
    decreases n,
{
    if n <= 0 {
        0
    } else {
        fadd(
            combo_val(cs, offset, n - 1, v, row),
            fmul(red(v.alphas[offset + n - 1]), heval(cs[n - 1], v, row)),
        )
    }
}

/// Combines a list of constraints by consecutive combination powers starting
/// at `offset`, every summand balanced to degree exactly `target`.  Succeeds
/// exactly when every constraint is acceptable; the result's value at slack
/// one is the power-weighted sum of the constraints' values.
fn alpha_combine(
    cs: &Vec<FoldingExpr>,
    offset: usize,
    target: usize,
    ncols: usize,
    nchals: usize,
    nalphas: usize,
) -> (r: Result<FoldingExpr, FoldingError>)
    requires
        1 <= target <= 3,
        offset + cs@.len() <= nalphas,
    ensures
        r is Ok <==> (forall|i: int| 0 <= i < cs@.len() ==> combinable(
            #[trigger] cs@[i],
            target as nat,
            ncols as nat,
            nchals as nat,
            nalphas as nat,
        )),
        r matches Ok(g) ==> homog(g) && edeg(g) == target && in_scope(
            g,
            ncols as nat,
            nchals as nat,
            nalphas as nat,
        ),
        r matches Ok(g) ==> forall|v: PairView, row: int|
            (v.u == 1 && (forall|i: int| 0 <= i < cs@.len() ==> heval(#[trigger] cs@[i], v, row)
                == 0)) ==> #[trigger] heval(g, v, row) == 0,
        r matches Ok(g) ==> forall|v: PairView, row: int| v.u == 1 ==> #[trigger] heval(g, v, row)
            == combo_val(cs@, offset as int, cs@.len() as int, v, row),
{
    let mut acc: Option<FoldingExpr> = None;
    let mut i: usize = 0;
    while i < cs.len()
        invariant
            0 <= i <= cs@.len(),
            offset + cs@.len() <= nalphas,
            1 <= target <= 3,
            acc matches Some(a) ==> homog(a) && edeg(a) == target && in_scope(
                a,
                ncols as nat,
                nchals as nat,
                nalphas as nat,
            ),
            acc is Some <==> i > 0,
            acc matches Some(a) ==> forall|v: PairView, row: int|
                (v.u == 1 && (forall|k: int| 0 <= k < i ==> heval(#[trigger] cs@[k], v, row)
                    == 0)) ==> #[trigger] heval(a, v, row) == 0,
            forall|k: int| 0 <= k < i ==> combinable(
                #[trigger] cs@[k],
                target as nat,
                ncols as nat,
                nchals as nat,
                nalphas as nat,
            ),
            acc matches Some(a) ==> forall|v: PairView, row: int| v.u == 1 ==> #[trigger] heval(
                a,
                v,
                row,
            ) == combo_val(cs@, offset as int, i as int, v, row),
        decreases cs@.len() - i,
    {
        let c = &cs[i];
        if !check_plain(c) {
            proof {
                assert(!combinable(cs@[i as int], target as nat, ncols as nat, nchals as nat,
                    nalphas as nat));
            }
            return Err(FoldingError::ReservedAtom);
        }
        if !check_in_scope(c, ncols, nchals, nalphas) {
            proof {
                assert(!combinable(cs@[i as int], target as nat, ncols as nat, nchals as nat,
                    nalphas as nat));
            }
            return Err(FoldingError::UnmappedAtom);
        }
        let dc = degree_capped(c);
        if dc + 1 > target {
            proof {
                assert(!combinable(cs@[i as int], target as nat, ncols as nat, nchals as nat,
                    nalphas as nat));
            }
            return Err(FoldingError::DegreeTooHigh);
        }
        let p = pad_expr(hom_expr(dup(c)), target - 1);
        let ghost gp = p;
        let t = FoldingExpr::Mul(Box::new(FoldingExpr::Alpha(offset + i)), Box::new(p));
        proof {
            crate::expr::lemma_expr_alpha((offset + i) as usize, ncols as nat, nchals as nat,
                nalphas as nat);
            crate::expr::lemma_expr_mul(FoldingExpr::Alpha((offset + i) as usize), gp,
                ncols as nat, nchals as nat, nalphas as nat);
        }
        let ghost gt = t;
        proof {
            assert forall|v: PairView, row: int|
                (v.u == 1 && heval(cs@[i as int], v, row) == 0) implies #[trigger] heval(
                gt,
                v,
                row,
            ) == 0 by {
                crate::expr::lemma_heval_nodes(FoldingExpr::Alpha((offset + i) as usize), gp, v,
                    row);
                assert(heval(gp, v, row) == 0);
                crate::field::lemma_fmul_zero(
                    heval(FoldingExpr::Alpha((offset + i) as usize), v, row),
                );
            }
            assert forall|v: PairView, row: int| v.u == 1 implies #[trigger] heval(gt, v, row)
                == fmul(red(v.alphas[offset + i]), heval(cs@[i as int], v, row)) by {
                crate::expr::lemma_heval_nodes(FoldingExpr::Alpha((offset + i) as usize), gp, v,
                    row);
                crate::expr::lemma_heval_alpha((offset + i) as usize, v, row);
                assert(heval(gp, v, row) == heval(cs@[i as int], v, row));
            }
        }
        acc = Some(
            match acc {
                None => {
                    proof {
                        assert forall|v: PairView, row: int| v.u == 1 implies #[trigger] heval(
                            gt,
                            v,
                            row,
                        ) == combo_val(cs@, offset as int, i + 1, v, row) by {
                            assert(combo_val(cs@, offset as int, 0, v, row) == 0);
                            assert(heval(gt, v, row) == fmul(red(v.alphas[offset + i]),
                                heval(cs@[i as int], v, row)));
                        }
                    }
                    t
                },
                Some(a) => {
                    let ghost ga = a;
                    let res = FoldingExpr::Add(Box::new(a), Box::new(t));
                    proof {
                        crate::expr::lemma_expr_add(ga, gt, ncols as nat, nchals as nat,
                            nalphas as nat);
                        assert forall|v: PairView, row: int|
                            (v.u == 1 && (forall|k: int| 0 <= k < i + 1 ==> heval(
                                #[trigger] cs@[k],
                                v,
                                row,
                            ) == 0)) implies #[trigger] heval(res, v, row) == 0 by {
                            crate::expr::lemma_heval_nodes(ga, gt, v, row);
                            assert(heval(cs@[i as int], v, row) == 0);
                            assert(heval(ga, v, row) == 0);
                            assert(heval(gt, v, row) == 0);
                        }
                        assert forall|v: PairView, row: int| v.u == 1 implies #[trigger] heval(
                            res,
                            v,
                            row,
                        ) == combo_val(cs@, offset as int, i + 1, v, row) by {
                            crate::expr::lemma_heval_nodes(ga, gt, v, row);
                            assert(heval(ga, v, row) == combo_val(cs@, offset as int, i as int,
                                v, row));
                            assert(heval(gt, v, row) == fmul(red(v.alphas[offset + i]),
                                heval(cs@[i as int], v, row)));
                        }
                    }
                    res
                },
            },
        );
        i = i + 1;
    }
    match acc {
        None => {
            let z = Fp::zero();
            proof {
                crate::expr::lemma_expr_const(z, 0, 0, 0);
            }
            let p = pad_expr(FoldingExpr::Constant(z), target);
            proof {
                assert forall|nc2: nat, nch2: nat, na2: nat| true implies #[trigger] in_scope(
                    p,
                    nc2,
                    nch2,
                    na2,
                ) by {
                    crate::expr::lemma_expr_const(z, nc2, nch2, na2);
                }
            }
            Ok(p)
        },
        Some(a) => Ok(a),
    }
}

/// The sum of the lengths of the first `k` constraint lists.
pub open spec fn lens_sum(css: Seq<Vec<FoldingExpr>>, k: int) -> int
    decreases k,
{
    if k <= 0 {
        0
    } else {
        lens_sum(css, k - 1) + css[k - 1]@.len()
    }
}

/// The running sum of list lengths never shrinks.
proof fn lemma_lens_sum_mono(css: Seq<Vec<FoldingExpr>>, k: int, n: int)
    requires
        0 <= k <= n,
    ensures
        lens_sum(css, k) <= lens_sum(css, n),
    decreases n,
{
    if k < n {
        lemma_lens_sum_mono(css, k, n - 1);
    }
}

/// A gate constraint the scheme accepts: no reserved atom, only configured
/// columns and challenges, and degree at most one — the combination power
/// and the selector indicator take the degree to three.
pub open spec fn gate_constraint_ok(c: FoldingExpr, ncols: nat, nchals: nat) -> bool {
    plain(c) && in_scope(c, ncols, nchals, 0) && edeg(c) <= 1
}

/// A common constraint the scheme accepts: degree at most two, the
/// combination power taking it to three.
pub open spec fn common_constraint_ok(c: FoldingExpr, ncols: nat, nchals: nat) -> bool {
    plain(c) && in_scope(c, ncols, nchals, 0) && edeg(c) <= 2
}

/// When scheme construction succeeds: every gate and common constraint is
/// acceptable, and the column and combination-power counts fit the machine.
pub open spec fn acceptable(
    css: Seq<Vec<FoldingExpr>>,
    commons: Seq<FoldingExpr>,
    n_regular: int,
    nchals: int,
) -> bool {
    &&& n_regular + css.len() <= usize::MAX
    &&& lens_sum(css, css.len() as int) + commons.len() <= usize::MAX
    &&& forall|j: int, i: int| 0 <= j < css.len() && 0 <= i < css[j]@.len()
        ==> gate_constraint_ok(
            #[trigger] css[j]@[i],
            (n_regular + css.len()) as nat,
            nchals as nat,
        )
    &&& forall|i: int| 0 <= i < commons.len() ==> common_constraint_ok(
        #[trigger] commons[i],
        (n_regular + css.len()) as nat,
        nchals as nat,
    )
}

/// One gate's term value at relaxation slack one: its selector indicator
/// times its combined constraints, whose powers start where the previous
/// gates' powers end.
pub open spec fn term_val(
    css: Seq<Vec<FoldingExpr>>,
    n_regular: int,
    j: int,
    v: PairView,
    row: int,
) -> int {
    fmul(
        red(v.cols[n_regular + j][row]),
        combo_val(css[j]@, lens_sum(css, j), css[j]@.len() as int, v, row),
    )
}

/// The combined common constraints' value at relaxation slack one: their
/// powers start where the last gate's end.
pub open spec fn commons_val(
    css: Seq<Vec<FoldingExpr>>,
    commons: Seq<FoldingExpr>,
    v: PairView,
    row: int,
) -> int {
    combo_val(commons, lens_sum(css, css.len() as int), commons.len() as int, v, row)
}

/// The global identity's value at relaxation slack one, read from gate `j`
/// on: the remaining gates' terms, then the combined common constraints.
pub open spec fn final_val(
    css: Seq<Vec<FoldingExpr>>,
    commons: Seq<FoldingExpr>,
    n_regular: int,
    j: int,
    v: PairView,
    row: int,
) -> int
    decreases css.len() - j,
{
    if j < 0 || j >= css.len() {
        commons_val(css, commons, v, row)
    } else {
        fadd(
            term_val(css, n_regular, j, v, row),
            final_val(css, commons, n_regular, j + 1, v, row),
        )
    }
}

/// The decomposition property of a well-built scheme: wherever every other
/// gate's selector indicator column is zero, the global identity evaluates
/// exactly as one gate's specialized expression — whatever the slack.
#[verifier::opaque]
pub open spec fn bridges(s: DecomposableFoldingScheme) -> bool {
    forall|j: int, v: PairView, row: int|
        (0 <= j < s.n_selectors && (forall|k: int|
            0 <= k < s.n_selectors && k != j ==> red(
                #[trigger] v.cols[s.n_regular + k][row],
            ) == 0)) ==> heval(s.final_constraint, v, row) == #[trigger] heval(
            s.specialized@[j],
            v,
            row,
        )
}

/// Every selector indicator column other than gate `j`'s is zero on every
/// row of the witness: the caller-guaranteed shape of a fresh gate-`j` pair.
#[verifier::opaque]
pub open spec fn others_zero(s: DecomposableFoldingScheme, w: Witness, j: int) -> bool {
    forall|k: int, row: int|
        0 <= k < s.n_selectors && k != j && 0 <= row < wit_rows(w) ==> red(
            #[trigger] cols_view(w.cols@)[s.n_regular + k][row],
        ) == 0
}

/// Folding keeps a zero column zero: the linear combination of two values
/// that vanish still vanishes, whatever the challenge.
pub proof fn lemma_mix_keeps_zero(a: int, b: int, x: int)
    requires
        red(a) == 0,
        red(b) == 0,
    ensures
        red(fadd(a, fmul(x, b))) == 0,
{
    crate::field::lemma_fmul_red(x, b);
    crate::field::lemma_fmul_zero(x);
    crate::field::lemma_fadd_red(a, fmul(x, b));
}

/// Completeness across the decomposition: a pair that satisfies a gate's
/// specialized relaxed relation, and whose other selector indicator columns
/// are all zero, satisfies the global identity's relaxed relation too.
pub proof fn lemma_specialized_to_final(
    s: DecomposableFoldingScheme,
    j: usize,
    i: Instance,
    w: Witness,
)
    requires
        bridges(s),
        j < s.n_selectors,
        sat(i, w, s.specialized@[j as int]),
        others_zero(s, w, j as int),
    ensures
        sat(i, w, s.final_constraint),
{
    reveal(bridges);
    reveal(others_zero);
    assert forall|row: int| 0 <= row < wit_rows(w) implies heval(s.final_constraint,
        pair_view(i, w), row) == red(#[trigger] w.error@[row]@) by {
        let v = pair_view(i, w);
        assert forall|k: int| 0 <= k < s.n_selectors && k != j as int implies red(
            #[trigger] v.cols[s.n_regular + k][row],
        ) == 0 by {
            assert(red(cols_view(w.cols@)[s.n_regular + k][row]) == 0);
        }
        assert(heval(s.final_constraint, v, row) == heval(s.specialized@[j as int], v, row));
        assert(heval(s.specialized@[j as int], v, row) == red(w.error@[row]@));
    }
}

/// Mixing two witnesses whose other selector columns vanish gives a witness
/// whose other selector columns vanish.
proof fn lemma_fold_keeps_others_zero(
    s: DecomposableFoldingScheme,
    jj: usize,
    vl: PairView,
    vr: PairView,
    fi: Instance,
    fw: Witness,
    lw: Witness,
    rw: Witness,
    r: int,
)
    requires
        jj < s.n_selectors,
        s.n_regular + s.n_selectors <= usize::MAX,
        vl.cols == cols_view(lw.cols@),
        vr.cols == cols_view(rw.cols@),
        crate::expr::view_wf(vl),
        crate::expr::compat(vl, vr),
        vl.cols.len() == s.n_regular + s.n_selectors,
        wit_rows(lw) == vl.rows,
        wit_rows(rw) == vl.rows,
        wit_rows(fw) == vl.rows,
        pair_view(fi, fw) == mix_view(vl, vr, r),
        others_zero(s, lw, jj as int),
        others_zero(s, rw, jj as int),
    ensures
        others_zero(s, fw, jj as int),
{
    reveal(others_zero);
    assert forall|k: int, row2: int|
        0 <= k < s.n_selectors && k != jj as int && 0 <= row2 < wit_rows(fw) implies red(
        #[trigger] cols_view(fw.cols@)[s.n_regular + k][row2],
    ) == 0 by {
        let c = s.n_regular + k;
        assert(cols_view(fw.cols@)[c] == crate::expr::mix_seq(vl.cols[c], vr.cols[c], r));
        assert(cols_view(fw.cols@)[c][row2] == fadd(vl.cols[c][row2], fmul(r, vr.cols[c][row2])));
        assert(red(vl.cols[c][row2]) == 0);
        assert(red(vr.cols[c][row2]) == 0);
        lemma_mix_keeps_zero(vl.cols[c][row2], vr.cols[c][row2], r);
    }
}

/// On a pair whose other selector columns vanish, a row that violates the
/// gate's specialized relation violates the global identity too: with the
/// fold's violation clause this carries one-sided soundness over to the
/// checker's verdict on the global identity, for every challenge.
pub proof fn lemma_final_violation_row(
    s: DecomposableFoldingScheme,
    jj: usize,
    fi: Instance,
    fw: Witness,
    row: int,
)
    requires
        bridges(s),
        jj < s.n_selectors,
        others_zero(s, fw, jj as int),
        0 <= row < wit_rows(fw),
        heval(s.specialized@[jj as int], pair_view(fi, fw), row) != red(fw.error@[row]@),
    ensures
        heval(s.final_constraint, pair_view(fi, fw), row) != red(fw.error@[row]@),
{
    reveal(bridges);
    reveal(others_zero);
    let pv = pair_view(fi, fw);
    assert forall|k: int| 0 <= k < s.n_selectors && k != jj as int implies red(
        #[trigger] pv.cols[s.n_regular + k][row],
    ) == 0 by {
        assert(red(cols_view(fw.cols@)[s.n_regular + k][row]) == 0);
    }
    assert(heval(s.final_constraint, pv, row) == heval(s.specialized@[jj as int], pv, row));
}

impl DecomposableFoldingScheme {
    /// Builds the scheme and the global identity from a selector-indexed
    /// family of gate constraint lists and a list of common constraints.
    ///
    /// Every constraint gets its own combination power — a running index
    /// across gates and commons, so no power is reused.  Gate constraints may
    /// have degree at most one (the power and the selector indicator take the
    /// degree to three); common constraints, degree at most two.
    ///
    /// Construction succeeds exactly when every constraint meets those
    /// bounds, avoids the reserved atoms, names only configured columns and
    /// challenges, and the counts fit the machine.  On success the contract
    /// pins the built expressions down: at relaxation slack one, each gate's
    /// specialized expression is worth its term plus the combined commons and
    /// the global identity is worth every term plus the combined commons; and
    /// the decomposition property `bridges` holds at any slack.
    pub fn new(
        constraints_by_selector: Vec<Vec<FoldingExpr>>,
        common_constraints: Vec<FoldingExpr>,
        n_regular: usize,
        n_challenges: usize,
        domain_size: usize,
    ) -> (r: Result<(DecomposableFoldingScheme, FoldingExpr), FoldingError>)
        ensures
            r is Ok <==> acceptable(
                constraints_by_selector@,
                common_constraints@,
                n_regular as int,
                n_challenges as int,
            ),
            r matches Ok(p) ==> {
                &&& scheme_wf(p.0)
                &&& p.1 == p.0.final_constraint
                &&& p.0.n_regular == n_regular
                &&& p.0.n_selectors == constraints_by_selector@.len()
                &&& p.0.n_challenges == n_challenges
                &&& p.0.n_alphas == lens_sum(constraints_by_selector@,
                    constraints_by_selector@.len() as int) + common_constraints@.len()
                &&& p.0.domain_size == domain_size
            },
            // the value of every built expression at relaxation slack one: a
            // gate's specialized expression is its term plus the combined
            // commons; the global identity is every gate's term plus the
            // combined commons
            r matches Ok(p) ==> forall|j: int, v: PairView, row: int|
                (0 <= j < p.0.n_selectors && v.u == 1) ==> #[trigger] heval(
                    p.0.specialized@[j],
                    v,
                    row,
                ) == fadd(
                    term_val(constraints_by_selector@, n_regular as int, j, v, row),
                    commons_val(constraints_by_selector@, common_constraints@, v, row),
                ),
            r matches Ok(p) ==> forall|v: PairView, row: int| v.u == 1 ==> #[trigger] heval(
                p.0.final_constraint,
                v,
                row,
            ) == final_val(
                constraints_by_selector@,
                common_constraints@,
                n_regular as int,
                0,
                v,
                row,
            ),
            // the decomposition property, at any slack
            r matches Ok(p) ==> bridges(p.0),
            // completeness of the specialized expressions: at a fresh pair
            // (slack one), a gate's specialized expression vanishes on every
            // row where its selector indicator is zero or its constraints all
            // vanish, provided the common constraints vanish as well
            r matches Ok(p) ==> forall|j: int, v: PairView, row: int|
                (0 <= j < p.0.n_selectors && v.u == 1 && (red(v.cols[n_regular + j][row]) == 0
                    || (forall|i: int| 0 <= i < constraints_by_selector@[j]@.len() ==> heval(
                        #[trigger] constraints_by_selector@[j]@[i],
                        v,
                        row,
                    ) == 0)) && (forall|i: int| 0 <= i < common_constraints@.len() ==> heval(
                    #[trigger] common_constraints@[i],
                    v,
                    row,
                ) == 0)) ==> #[trigger] heval(p.0.specialized@[j], v, row) == 0,
    {
        let n_selectors = constraints_by_selector.len();
        if n_regular > usize::MAX - n_selectors {
            return Err(FoldingError::MismatchedShape);
        }
        let ncols = n_regular + n_selectors;

        // one combination power per constraint, across all gates and commons
        let mut total: usize = 0;
        let mut s: usize = 0;
        while s < n_selectors
            invariant
                0 <= s <= n_selectors,
                n_selectors == constraints_by_selector@.len(),
                total == lens_sum(constraints_by_selector@, s as int),
            decreases n_selectors - s,
        {
            let l = constraints_by_selector[s].len();
            if total > usize::MAX - l {
                proof {
                    assert(lens_sum(constraints_by_selector@, s + 1) == total + l);
                    lemma_lens_sum_mono(constraints_by_selector@, s + 1,
                        n_selectors as int);
                }
                return Err(FoldingError::DegreeTooHigh);
            }
            total = total + l;
            s = s + 1;
        }
        if total > usize::MAX - common_constraints.len() {
            return Err(FoldingError::DegreeTooHigh);
        }
        let n_alphas = total + common_constraints.len();

        // one term per gate: the selector indicator times that gate's
        // power-combined constraints
        let mut terms: Vec<FoldingExpr> = Vec::new();
        let mut offset: usize = 0;
        let mut s2: usize = 0;
        while s2 < n_selectors
            invariant
                0 <= s2 <= n_selectors,
                n_selectors == constraints_by_selector@.len(),
                n_regular + n_selectors == ncols,
                offset == lens_sum(constraints_by_selector@, s2 as int),
                n_alphas >= lens_sum(constraints_by_selector@, n_selectors as int),
                terms@.len() == s2,
                forall|j: int| 0 <= j < s2 ==> homog(#[trigger] terms@[j]) && edeg(terms@[j])
                    == 3 && in_scope(
                    terms@[j],
                    ncols as nat,
                    n_challenges as nat,
                    n_alphas as nat,
                ),
                forall|j: int, v: PairView, row: int|
                    (0 <= j < s2 && v.u == 1 && (red(v.cols[n_regular + j][row]) == 0 || (
                    forall|i: int| 0 <= i < constraints_by_selector@[j]@.len() ==> heval(
                        #[trigger] constraints_by_selector@[j]@[i],
                        v,
                        row,
                    ) == 0))) ==> #[trigger] heval(terms@[j], v, row) == 0,
                forall|j: int, v: PairView, row: int|
                    (0 <= j < s2 && red(v.cols[n_regular + j][row]) == 0) ==> #[trigger] heval(
                        terms@[j],
                        v,
                        row,
                    ) == 0,
                forall|j: int, v: PairView, row: int| (0 <= j < s2 && v.u == 1) ==> #[trigger]
                    heval(terms@[j], v, row) == term_val(constraints_by_selector@,
                    n_regular as int, j, v, row),
                forall|j: int, i: int| 0 <= j < s2 && 0 <= i
                    < constraints_by_selector@[j]@.len() ==> combinable(
                    #[trigger] constraints_by_selector@[j]@[i],
                    2,
                    ncols as nat,
                    n_challenges as nat,
                    n_alphas as nat,
                ),
            decreases n_selectors - s2,
        {
            proof {
                lemma_lens_sum_mono(constraints_by_selector@, s2 + 1, n_selectors as int);
            }
            let cs = &constraints_by_selector[s2];
            let comb = match alpha_combine(cs, offset, 2, ncols, n_challenges, n_alphas) {
                Ok(g) => g,
                Err(e) => {
                    proof {
                        let csj = constraints_by_selector@[s2 as int]@;
                        let i0 = choose|i: int| 0 <= i < csj.len() && !combinable(
                            #[trigger] csj[i],
                            2,
                            ncols as nat,
                            n_challenges as nat,
                            n_alphas as nat,
                        );
                        if plain(csj[i0]) {
                            crate::expr::lemma_plain_scope(csj[i0], ncols as nat,
                                n_challenges as nat, n_alphas as nat);
                        }
                        assert(!gate_constraint_ok(csj[i0], ncols as nat, n_challenges as nat));
                    }
                    return Err(e);
                },
            };
            let ghost gc = comb;
            let term = FoldingExpr::Mul(
                Box::new(FoldingExpr::Cell { col: n_regular + s2, row: CurrOrNext::Curr }),
                Box::new(comb),
            );
            let ghost gterm = term;
            proof {
                crate::expr::lemma_expr_cell((n_regular + s2) as usize, CurrOrNext::Curr,
                    ncols as nat, n_challenges as nat, n_alphas as nat);
                crate::expr::lemma_expr_mul(
                    FoldingExpr::Cell { col: (n_regular + s2) as usize, row: CurrOrNext::Curr },
                    gc,
                    ncols as nat,
                    n_challenges as nat,
                    n_alphas as nat,
                );
                assert forall|v: PairView, row: int|
                    (v.u == 1 && (red(v.cols[n_regular + s2][row]) == 0 || (forall|i: int|
                        0 <= i < constraints_by_selector@[s2 as int]@.len() ==> heval(
                        #[trigger] constraints_by_selector@[s2 as int]@[i],
                        v,
                        row,
                    ) == 0))) implies #[trigger] heval(gterm, v, row) == 0 by {
                    let sel = FoldingExpr::Cell {
                        col: (n_regular + s2) as usize,
                        row: CurrOrNext::Curr,
                    };
                    crate::expr::lemma_heval_nodes(sel, gc, v, row);
                    crate::expr::lemma_heval_cell((n_regular + s2) as usize, v, row);
                    if red(v.cols[n_regular + s2][row]) == 0 {
                        crate::field::lemma_fmul_zero(heval(gc, v, row));
                    } else {
                        assert(heval(gc, v, row) == 0);
                        crate::field::lemma_fmul_zero(heval(sel, v, row));
                    }
                }
                assert forall|v: PairView, row: int| red(v.cols[n_regular + s2][row]) == 0
                    implies #[trigger] heval(gterm, v, row) == 0 by {
                    let sel = FoldingExpr::Cell {
                        col: (n_regular + s2) as usize,
                        row: CurrOrNext::Curr,
                    };
                    crate::expr::lemma_heval_nodes(sel, gc, v, row);
                    crate::expr::lemma_heval_cell((n_regular + s2) as usize, v, row);
                    crate::field::lemma_fmul_zero(heval(gc, v, row));
                }
                assert forall|v: PairView, row: int| v.u == 1 implies #[trigger] heval(
                    gterm,
                    v,
                    row,
                ) == term_val(constraints_by_selector@, n_regular as int, s2 as int, v, row) by {
                    let sel = FoldingExpr::Cell {
                        col: (n_regular + s2) as usize,
                        row: CurrOrNext::Curr,
                    };
                    crate::expr::lemma_heval_nodes(sel, gc, v, row);
                    crate::expr::lemma_heval_cell((n_regular + s2) as usize, v, row);
                    assert(heval(gc, v, row) == combo_val(constraints_by_selector@[s2 as int]@,
                        offset as int, constraints_by_selector@[s2 as int]@.len() as int, v,
                        row));
                }
            }
            terms.push(term);
            offset = offset + cs.len();
            s2 = s2 + 1;
        }

        // the common constraints, power-combined at full degree
        let common_t = match alpha_combine(
            &common_constraints,
            offset,
            3,
            ncols,
            n_challenges,
            n_alphas,
        ) {
            Ok(g) => g,
            Err(e) => {
                proof {
                    let i0 = choose|i: int| 0 <= i < common_constraints@.len() && !combinable(
                        #[trigger] common_constraints@[i],
                        3,
                        ncols as nat,
                        n_challenges as nat,
                        n_alphas as nat,
                    );
                    if plain(common_constraints@[i0]) {
                        crate::expr::lemma_plain_scope(common_constraints@[i0], ncols as nat,
                            n_challenges as nat, n_alphas as nat);
                    }
                    assert(!common_constraint_ok(common_constraints@[i0], ncols as nat,
                        n_challenges as nat));
                }
                return Err(e);
            },
        };

        // per gate: that gate's term plus the common terms
        let mut specialized: Vec<FoldingExpr> = Vec::new();
        let mut s3: usize = 0;
        while s3 < n_selectors
            invariant
                0 <= s3 <= n_selectors,
                terms@.len() == n_selectors,
                specialized@.len() == s3,
                homog(common_t) && edeg(common_t) == 3 && in_scope(
                    common_t,
                    ncols as nat,
                    n_challenges as nat,
                    n_alphas as nat,
                ),
                forall|v: PairView, row: int|
                    (v.u == 1 && (forall|i: int| 0 <= i < common_constraints@.len() ==> heval(
                        #[trigger] common_constraints@[i],
                        v,
                        row,
                    ) == 0)) ==> #[trigger] heval(common_t, v, row) == 0,
                forall|j: int| 0 <= j < n_selectors ==> homog(#[trigger] terms@[j]) && edeg(
                    terms@[j],
                ) == 3 && in_scope(terms@[j], ncols as nat, n_challenges as nat, n_alphas as nat),
                forall|j: int, v: PairView, row: int|
                    (0 <= j < n_selectors && v.u == 1 && (red(v.cols[n_regular + j][row]) == 0
                        || (forall|i: int| 0 <= i < constraints_by_selector@[j]@.len() ==> heval(
                        #[trigger] constraints_by_selector@[j]@[i],
                        v,
                        row,
                    ) == 0))) ==> #[trigger] heval(terms@[j], v, row) == 0,
                forall|j: int| 0 <= j < s3 ==> homog(#[trigger] specialized@[j]) && edeg(
                    specialized@[j],
                ) == 3 && in_scope(
                    specialized@[j],
                    ncols as nat,
                    n_challenges as nat,
                    n_alphas as nat,
                ),
                forall|j: int, v: PairView, row: int|
                    (0 <= j < s3 && v.u == 1 && (red(v.cols[n_regular + j][row]) == 0 || (
                    forall|i: int| 0 <= i < constraints_by_selector@[j]@.len() ==> heval(
                        #[trigger] constraints_by_selector@[j]@[i],
                        v,
                        row,
                    ) == 0)) && (forall|i: int| 0 <= i < common_constraints@.len() ==> heval(
                        #[trigger] common_constraints@[i],
                        v,
                        row,
                    ) == 0)) ==> #[trigger] heval(specialized@[j], v, row) == 0,
                forall|j: int| 0 <= j < s3 ==> #[trigger] specialized@[j] == FoldingExpr::Add(
                    Box::new(terms@[j]),
                    Box::new(common_t),
                ),
            decreases n_selectors - s3,
        {
            let ta = dup(&terms[s3]);
            let tb = dup(&common_t);
            let ghost gta = ta;
            let ghost gtb = tb;
            let sp = FoldingExpr::Add(Box::new(ta), Box::new(tb));
            let ghost gsp = sp;
            proof {
                crate::expr::lemma_expr_add(gta, gtb, ncols as nat, n_challenges as nat,
                    n_alphas as nat);
                assert forall|v: PairView, row: int|
                    (v.u == 1 && (red(v.cols[n_regular + s3][row]) == 0 || (forall|i: int|
                        0 <= i < constraints_by_selector@[s3 as int]@.len() ==> heval(
                        #[trigger] constraints_by_selector@[s3 as int]@[i],
                        v,
                        row,
                    ) == 0)) && (forall|i: int| 0 <= i < common_constraints@.len() ==> heval(
                        #[trigger] common_constraints@[i],
                        v,
                        row,
                    ) == 0)) implies #[trigger] heval(gsp, v, row) == 0 by {
                    crate::expr::lemma_heval_nodes(gta, gtb, v, row);
                    assert(heval(terms@[s3 as int], v, row) == 0);
                    assert(heval(common_t, v, row) == 0);
                }
            }
            specialized.push(sp);
            s3 = s3 + 1;
        }

        // the global identity: every gate's term plus the common terms
        let ghost gcommon = common_t;
        let mut final_c = common_t;
        let mut s4: usize = n_selectors;
        while s4 > 0
            invariant
                0 <= s4 <= n_selectors,
                n_selectors == constraints_by_selector@.len(),
                n_regular + n_selectors == ncols,
                terms@.len() == n_selectors,
                homog(final_c) && edeg(final_c) == 3 && in_scope(
                    final_c,
                    ncols as nat,
                    n_challenges as nat,
                    n_alphas as nat,
                ),
                forall|j: int| 0 <= j < n_selectors ==> homog(#[trigger] terms@[j]) && edeg(
                    terms@[j],
                ) == 3 && in_scope(terms@[j], ncols as nat, n_challenges as nat, n_alphas as nat),
                forall|j: int, v: PairView, row: int|
                    (0 <= j < n_selectors && red(v.cols[n_regular + j][row]) == 0) ==> #[trigger]
                    heval(terms@[j], v, row) == 0,
                forall|j: int, v: PairView, row: int| (0 <= j < n_selectors && v.u == 1)
                    ==> #[trigger] heval(terms@[j], v, row) == term_val(constraints_by_selector@,
                    n_regular as int, j, v, row),
                forall|v: PairView, row: int| v.u == 1 ==> #[trigger] heval(gcommon, v, row)
                    == commons_val(constraints_by_selector@, common_constraints@, v, row),
                // the value of the partial chain at slack one
                forall|v: PairView, row: int| v.u == 1 ==> #[trigger] heval(final_c, v, row)
                    == final_val(constraints_by_selector@, common_constraints@, n_regular as int,
                    s4 as int, v, row),
                // the partial chain collapses to the commons where all its
                // gates' selectors are zero, at any slack
                forall|v: PairView, row: int|
                    (forall|k: int| s4 <= k < n_selectors ==> red(
                        #[trigger] v.cols[n_regular + k][row],
                    ) == 0) ==> #[trigger] heval(final_c, v, row) == heval(gcommon, v, row),
                // ... and to one gate's term plus the commons where all the
                // others are zero, at any slack
                forall|j: int, v: PairView, row: int|
                    (s4 <= j < n_selectors && (forall|k: int|
                        s4 <= k < n_selectors && k != j ==> red(
                            #[trigger] v.cols[n_regular + k][row],
                        ) == 0)) ==> heval(final_c, v, row) == fadd(
                        #[trigger] heval(terms@[j], v, row),
                        heval(gcommon, v, row),
                    ),
            decreases s4,
        {
            s4 = s4 - 1;
            let ta = dup(&terms[s4]);
            let ghost gta = ta;
            let ghost gfc = final_c;
            final_c = FoldingExpr::Add(Box::new(ta), Box::new(final_c));
            let ghost gnew = final_c;
            proof {
                crate::expr::lemma_expr_add(gta, gfc, ncols as nat, n_challenges as nat,
                    n_alphas as nat);
                assert forall|v: PairView, row: int| v.u == 1 implies #[trigger] heval(
                    gnew,
                    v,
                    row,
                ) == final_val(constraints_by_selector@, common_constraints@, n_regular as int,
                    s4 as int, v, row) by {
                    crate::expr::lemma_heval_nodes(gta, gfc, v, row);
                    assert(heval(gta, v, row) == term_val(constraints_by_selector@,
                        n_regular as int, s4 as int, v, row));
                    assert(heval(gfc, v, row) == final_val(constraints_by_selector@,
                        common_constraints@, n_regular as int, s4 + 1, v, row));
                }
                assert forall|v: PairView, row: int|
                    (forall|k: int| s4 <= k < n_selectors ==> red(
                        #[trigger] v.cols[n_regular + k][row],
                    ) == 0) implies #[trigger] heval(gnew, v, row) == heval(gcommon, v, row) by {
                    crate::expr::lemma_heval_nodes(gta, gfc, v, row);
                    assert(red(v.cols[n_regular + s4][row]) == 0);
                    assert(heval(gta, v, row) == 0);
                    assert(heval(gfc, v, row) == heval(gcommon, v, row));
                    crate::expr::lemma_heval_reduced(gcommon, v, row);
                }
                assert forall|j: int, v: PairView, row: int|
                    (s4 <= j < n_selectors && (forall|k: int|
                        s4 <= k < n_selectors && k != j ==> red(
                            #[trigger] v.cols[n_regular + k][row],
                        ) == 0)) implies heval(gnew, v, row) == fadd(
                        #[trigger] heval(terms@[j], v, row),
                        heval(gcommon, v, row),
                    ) by {
                    crate::expr::lemma_heval_nodes(gta, gfc, v, row);
                    if j == s4 {
                        assert(heval(gfc, v, row) == heval(gcommon, v, row));
                    } else {
                        assert(red(v.cols[n_regular + s4][row]) == 0);
                        assert(heval(gta, v, row) == 0);
                        assert(heval(gfc, v, row) == fadd(heval(terms@[j], v, row),
                            heval(gcommon, v, row)));
                    }
                }
            }
        }

        proof {
            // acceptance: every constraint the combiners admitted
            assert forall|j: int, i: int|
                0 <= j < constraints_by_selector@.len() && 0 <= i
                    < constraints_by_selector@[j]@.len() implies gate_constraint_ok(
                #[trigger] constraints_by_selector@[j]@[i],
                ncols as nat,
                n_challenges as nat,
            ) by {
                assert(combinable(constraints_by_selector@[j]@[i], 2, ncols as nat,
                    n_challenges as nat, n_alphas as nat));
                crate::expr::lemma_plain_scope(constraints_by_selector@[j]@[i], ncols as nat,
                    n_challenges as nat, n_alphas as nat);
            }
            assert forall|i: int| 0 <= i < common_constraints@.len() implies
                common_constraint_ok(#[trigger] common_constraints@[i], ncols as nat,
                n_challenges as nat) by {
                assert(combinable(common_constraints@[i], 3, ncols as nat, n_challenges as nat,
                    n_alphas as nat));
                crate::expr::lemma_plain_scope(common_constraints@[i], ncols as nat,
                    n_challenges as nat, n_alphas as nat);
            }
            // the value of every specialized expression at slack one
            assert forall|j: int, v: PairView, row: int|
                (0 <= j < n_selectors && v.u == 1) implies #[trigger] heval(
                specialized@[j],
                v,
                row,
            ) == fadd(
                term_val(constraints_by_selector@, n_regular as int, j, v, row),
                commons_val(constraints_by_selector@, common_constraints@, v, row),
            ) by {
                crate::expr::lemma_heval_nodes(terms@[j], gcommon, v, row);
                assert(specialized@[j] == FoldingExpr::Add(Box::new(terms@[j]),
                    Box::new(gcommon)));
                assert(heval(terms@[j], v, row) == term_val(constraints_by_selector@,
                    n_regular as int, j, v, row));
                assert(heval(gcommon, v, row) == commons_val(constraints_by_selector@,
                    common_constraints@, v, row));
            }
            // the decomposition property, at any slack
            reveal(bridges);
            assert forall|j: int, v: PairView, row: int|
                (0 <= j < n_selectors && (forall|k: int|
                    0 <= k < n_selectors && k != j ==> red(
                        #[trigger] v.cols[n_regular + k][row],
                    ) == 0)) implies heval(final_c, v, row) == #[trigger] heval(
                specialized@[j],
                v,
                row,
            ) by {
                crate::expr::lemma_heval_nodes(terms@[j], gcommon, v, row);
                assert(specialized@[j] == FoldingExpr::Add(Box::new(terms@[j]),
                    Box::new(gcommon)));
                assert(heval(final_c, v, row) == fadd(heval(terms@[j], v, row),
                    heval(gcommon, v, row)));
            }
        }
        let scheme = DecomposableFoldingScheme {
            n_regular,
            n_selectors,
            n_challenges,
            n_alphas,
            domain_size,
            key: CommitmentKey::new(domain_size),
            specialized,
            final_constraint: dup(&final_c),
        };
        Ok((scheme, final_c))
    }

    /// Folds two pairs into one.
    ///
    /// In fresh-pair mode (`selector` given) that gate's specialized
    /// expression is evaluated; in relaxed-pair mode the global identity is.
    /// Both instances are absorbed into the transcript before the cross-term
    /// commitments, and those before the challenge is drawn.  On matching
    /// shapes the fold returns the combined pair, the cross terms, and the
    /// challenge; mismatched shapes or an unknown selector are rejected.
    ///
    /// The contract carries the accumulation theorem: every component of the
    /// output pair is the linear combination of the inputs under the drawn
    /// challenge; the cross-term tables hold the two inner coefficients of
    /// the two-sided evaluation; the folded error table follows the
    /// cross-term correction; and, when both inputs satisfy the relaxed
    /// relation for the folded expression, the folded pair satisfies it too.
    /// In fresh-pair mode, vanishing other-selector columns stay vanished,
    /// and — through the decomposition property — two satisfying gate pairs
    /// fold into a pair satisfying the global identity itself; a violated
    /// side stays violated row by row, which `lemma_final_violation_row`
    /// carries over to the global identity.
    #[verifier::spinoff_prover]
    #[verifier::rlimit(100)]
    pub fn fold_instance_witness_pair(
        &self,
        left: (Instance, Witness),
        right: (Instance, Witness),
        selector: Option<usize>,
        transcript: &mut Transcript,
    ) -> (out: Result<FoldingOutput, FoldingError>)
        requires
            scheme_wf(*self),
        ensures
            out is Ok <==> fold_inputs_ok(*self, left.0, left.1, right.0, right.1, selector),
            out matches Ok(o) ==> ({
                let vl = pair_view(left.0, left.1);
                let vr = pair_view(right.0, right.1);
                let e = used_expr(*self, selector);
                let r = o.challenge@;
                let rows = self.domain_size as int;
                &&& pair_view(o.instance, o.witness) == mix_view(vl, vr, r)
                &&& vals(o.instance.commitments@) == crate::expr::mix_seq(
                    vals(left.0.commitments@),
                    vals(right.0.commitments@),
                    r,
                )
                &&& wit_wf(o.witness)
                &&& wit_rows(o.witness) == self.domain_size
                &&& o.cross_0@.len() == rows && o.cross_1@.len() == rows
                &&& (forall|row: int| 0 <= row < rows ==> (#[trigger] o.cross_0@[row])@
                    == xeval(e, vl, vr, row).c1)
                &&& (forall|row: int| 0 <= row < rows ==> (#[trigger] o.cross_1@[row])@
                    == xeval(e, vl, vr, row).c2)
                &&& (forall|row: int| 0 <= row < rows ==> (#[trigger] o.witness.error@[row])@
                    == peval(
                        SPoly {
                            c0: red(left.1.error@[row]@),
                            c1: xeval(e, vl, vr, row).c1,
                            c2: xeval(e, vl, vr, row).c2,
                            c3: red(right.1.error@[row]@),
                        },
                        r,
                    ))
                &&& o.instance.error_commitment@ == peval(
                    SPoly {
                        c0: left.0.error_commitment@,
                        c1: commit_spec(self.key@, vals(o.cross_0@)),
                        c2: commit_spec(self.key@, vals(o.cross_1@)),
                        c3: right.0.error_commitment@,
                    },
                    r,
                )
                &&& r == squeeze(fold_state(
                    old(transcript)@,
                    left.0,
                    right.0,
                    commit_spec(self.key@, vals(o.cross_0@)),
                    commit_spec(self.key@, vals(o.cross_1@)),
                ))
                &&& final(transcript)@ == fadd(r, 1)
                &&& ((sat(left.0, left.1, e) && sat(right.0, right.1, e)) ==> sat(
                    o.instance,
                    o.witness,
                    e,
                ))
                &&& (selector matches Some(jj) ==> ((others_zero(*self, left.1, jj as int)
                    && others_zero(*self, right.1, jj as int)) ==> others_zero(
                    *self,
                    o.witness,
                    jj as int,
                )))
                &&& (selector matches Some(jj) ==> ((bridges(*self) && sat(left.0, left.1, e)
                    && sat(right.0, right.1, e) && others_zero(*self, left.1, jj as int)
                    && others_zero(*self, right.1, jj as int)) ==> sat(
                    o.instance,
                    o.witness,
                    self.final_constraint,
                )))
                &&& (forall|row: int|
                    0 <= row < rows && heval(e, vl, row) != red(left.1.error@[row]@) && heval(
                        e,
                        vr,
                        row,
                    ) == red(#[trigger] right.1.error@[row]@) ==> heval(
                        e,
                        pair_view(o.instance, o.witness),
                        row,
                    ) != red(o.witness.error@[row]@))
            }),
    {
        let (instance_l, witness_l) = left;
        let (instance_r, witness_r) = right;
        let ghost gli = instance_l;
        let ghost glw = witness_l;
        let ghost gri = instance_r;
        let ghost grw = witness_r;
        let ghost vl = pair_view(instance_l, witness_l);
        let ghost vr = pair_view(instance_r, witness_r);

        // reject every shape the scheme was not built for
        let ncols = self.n_regular + self.n_selectors;
        if !witness_l.check_wf() || !witness_r.check_wf() {
            return Err(FoldingError::MismatchedRows);
        }
        if witness_l.cols.len() != ncols || witness_r.cols.len() != ncols
            || witness_l.rows() != self.domain_size || witness_r.rows() != self.domain_size {
            return Err(FoldingError::MismatchedRows);
        }
        if instance_l.commitments.len() != ncols || instance_r.commitments.len() != ncols
            || instance_l.challenges.len() != self.n_challenges
            || instance_r.challenges.len() != self.n_challenges
            || instance_l.alphas.len() != self.n_alphas
            || instance_r.alphas.len() != self.n_alphas {
            return Err(FoldingError::MismatchedShape);
        }
        let expr: &FoldingExpr = match selector {
            Some(s) => {
                if s >= self.n_selectors {
                    return Err(FoldingError::UnknownSelector);
                }
                &self.specialized[s]
            },
            None => &self.final_constraint,
        };

        // bind both sides before the challenge exists
        absorb_instance(transcript, &instance_l);
        absorb_instance(transcript, &instance_r);

        // the cross terms: the two inner coefficients of the two-sided
        // evaluation, row by row
        let env = FoldingEnv::new(
            self.n_regular,
            &instance_l,
            &instance_r,
            &witness_l,
            &witness_r,
        );
        proof {
            crate::pair::lemma_pair_view_wf(instance_l, witness_l);
            crate::pair::lemma_pair_view_wf(instance_r, witness_r);
        }
        let rows = self.domain_size;
        let mut cross_0: Vec<Fp> = Vec::new();
        let mut cross_1: Vec<Fp> = Vec::new();
        let mut row: usize = 0;
        while row < rows
            invariant
                0 <= row <= rows,
                env.wf(),
                env.side_view(Side::Left) == vl,
                env.side_view(Side::Right) == vr,
                vl.rows == rows,
                in_scope(*expr, vl.cols.len(), vl.chals.len(), vl.alphas.len()),
                cross_0@.len() == row && cross_1@.len() == row,
                forall|k: int| 0 <= k < row ==> (#[trigger] cross_0@[k])@
                    == xeval(*expr, vl, vr, k).c1,
                forall|k: int| 0 <= k < row ==> (#[trigger] cross_1@[k])@
                    == xeval(*expr, vl, vr, k).c2,
            decreases rows - row,
        {
            let p = eval_poly(expr, &env, row);
            cross_0.push(p.c1);
            cross_1.push(p.c2);
            row = row + 1;
        }

        // commit to the cross terms, absorb, then draw the challenge
        let com_0 = self.key.commit(&cross_0);
        let com_1 = self.key.commit(&cross_1);
        transcript.absorb(com_0);
        transcript.absorb(com_1);
        let r = transcript.challenge();
        let r2 = r.mul(r);
        let r3 = r2.mul(r);

        // combine the public data, then correct the error commitment
        let el_com = instance_l.error_commitment;
        let er_com = instance_r.error_commitment;
        let mut instance = match Instance::combine(instance_l, instance_r, r) {
            Ok(c) => c,
            Err(e) => {
                return Err(e);
            },
        };
        instance.error_commitment = el_com.add(com_0.mul(r).add(com_1.mul(r2).add(
            er_com.mul(r3),
        )));

        // combine the witness columns, then correct the error table
        let mut error: Vec<Fp> = Vec::new();
        let mut k: usize = 0;
        while k < rows
            invariant
                0 <= k <= rows,
                rows == wit_rows(witness_l) && rows == wit_rows(witness_r),
                wit_wf(witness_l) && wit_wf(witness_r),
                cross_0@.len() == rows && cross_1@.len() == rows,
                r2@ == fmul(r@, r@),
                r3@ == fmul(fmul(r@, r@), r@),
                error@.len() == k,
                forall|j: int| 0 <= j < k ==> (#[trigger] error@[j])@ == peval(
                    SPoly {
                        c0: red(witness_l.error@[j]@),
                        c1: cross_0@[j]@,
                        c2: cross_1@[j]@,
                        c3: red(witness_r.error@[j]@),
                    },
                    r@,
                ),
            decreases rows - k,
        {
            let el = witness_l.error[k].reduced();
            let er = witness_r.error[k].reduced();
            error.push(el.add(cross_0[k].mul(r).add(cross_1[k].mul(r2).add(er.mul(r3)))));
            k = k + 1;
        }
        let mut witness = match Witness::combine(witness_l, witness_r, r) {
            Ok(c) => c,
            Err(e) => {
                return Err(e);
            },
        };
        witness.error = error;

        proof {
            assert(*expr == used_expr(*self, selector));
            assert(pair_view(instance, witness) == mix_view(vl, vr, r@));
            assert forall|i: int| 0 <= i < witness.cols@.len() implies
                (#[trigger] witness.cols@[i])@.len() == wit_rows(witness) by {
                assert(glw.cols@[i]@.len() == wit_rows(glw));
            }
            if sat(gli, glw, *expr) && sat(gri, grw, *expr) {
                lemma_fold_sat(*expr, vl, vr, instance, witness, glw.error@, grw.error@, r@);
            }
            if let Some(jj) = selector {
                if others_zero(*self, glw, jj as int) && others_zero(*self, grw, jj as int) {
                    lemma_fold_keeps_others_zero(*self, jj, vl, vr, instance, witness, glw, grw,
                        r@);
                    if bridges(*self) && sat(gli, glw, *expr) && sat(gri, grw, *expr) {
                        lemma_specialized_to_final(*self, jj, instance, witness);
                    }
                }
            }
            assert forall|row2: int|
                0 <= row2 < rows && heval(*expr, vl, row2) != red(glw.error@[row2]@) && heval(
                    *expr,
                    vr,
                    row2,
                ) == red(#[trigger] grw.error@[row2]@) implies heval(
                *expr,
                pair_view(instance, witness),
                row2,
            ) != red(witness.error@[row2]@) by {
                lemma_fold_violation(*expr, vl, vr, instance, witness, glw.error@, grw.error@,
                    r@, row2);
            }
        }

        Ok(FoldingOutput { instance, witness, cross_0, cross_1, challenge: r })
    }
}

/// The deterministic side of soundness, applied to one fold's output: where
/// the left side violates the relation and the right side meets it, the
/// folded pair still violates it, whatever challenge was drawn — the right
/// side contributes nothing that could cancel the left side's violation.
#[verifier::spinoff_prover]
#[verifier::rlimit(60)]
proof fn lemma_fold_violation(
    e: FoldingExpr,
    vl: PairView,
    vr: PairView,
    fi: Instance,
    fw: Witness,
    le: Seq<Fp>,
    re: Seq<Fp>,
    r: int,
    row: int,
)
    requires
        homog(e),
        edeg(e) == 3,
        in_scope(e, vl.cols.len(), vl.chals.len(), vl.alphas.len()),
        crate::expr::view_wf(vl),
        crate::expr::view_wf(vr),
        crate::expr::compat(vl, vr),
        pair_view(fi, fw) == mix_view(vl, vr, r),
        wit_rows(fw) == vl.rows,
        fw.error@.len() == vl.rows,
        le.len() == vl.rows,
        re.len() == vl.rows,
        0 <= row < vl.rows,
        fw.error@[row]@ == peval(
            SPoly {
                c0: red(le[row]@),
                c1: xeval(e, vl, vr, row).c1,
                c2: xeval(e, vl, vr, row).c2,
                c3: red(re[row]@),
            },
            r,
        ),
        heval(e, vl, row) != red(le[row]@),
        heval(e, vr, row) == red(re[row]@),
    ensures
        heval(e, pair_view(fi, fw), row) != red(fw.error@[row]@),
{
    crate::expr::lemma_xeval(e, vl, vr, row, r);
    let p = xeval(e, vl, vr, row);
    let q = SPoly { c0: red(le[row]@), c1: p.c1, c2: p.c2, c3: red(re[row]@) };
    // the two polynomials agree above the constant coefficient
    assert(p.c3 == coeff(p, 3));
    assert(p.c3 == q.c3);
    // distinct reduced constant terms keep the evaluations apart
    assert(0 <= p.c0 < MODULUS);
    assert(0 <= q.c0 < MODULUS);
    assert(p.c0 != q.c0);
    let t = fadd(
        fmul(p.c1, r),
        fadd(fmul(p.c2, fmul(r, r)), fmul(p.c3, fmul(fmul(r, r), r))),
    );
    assert(peval(p, r) == fadd(p.c0, t));
    assert(peval(q, r) == fadd(q.c0, t));
    assert(fadd(p.c0, t) != fadd(q.c0, t));
    assert(red(fw.error@[row]@) == fw.error@[row]@);
}

/// The accumulation theorem, applied to one fold's output: the folded pair's
/// view is the linear combination of the sides, its error table follows the
/// cross-term correction, and so, when both sides satisfied the relation, the
/// folded pair does.
proof fn lemma_fold_sat(
    e: FoldingExpr,
    vl: PairView,
    vr: PairView,
    fi: Instance,
    fw: Witness,
    le: Seq<Fp>,
    re: Seq<Fp>,
    r: int,
)
    requires
        homog(e),
        edeg(e) == 3,
        in_scope(e, vl.cols.len(), vl.chals.len(), vl.alphas.len()),
        crate::expr::view_wf(vl),
        crate::expr::view_wf(vr),
        crate::expr::compat(vl, vr),
        pair_view(fi, fw) == mix_view(vl, vr, r),
        wit_rows(fw) == vl.rows,
        fw.error@.len() == vl.rows,
        le.len() == vl.rows,
        re.len() == vl.rows,
        forall|row: int| 0 <= row < vl.rows ==> (#[trigger] fw.error@[row])@ == peval(
            SPoly {
                c0: red(le[row]@),
                c1: xeval(e, vl, vr, row).c1,
                c2: xeval(e, vl, vr, row).c2,
                c3: red(re[row]@),
            },
            r,
        ),
        forall|row: int| 0 <= row < vl.rows ==> heval(e, vl, row) == red(#[trigger] le[row]@),
        forall|row: int| 0 <= row < vl.rows ==> heval(e, vr, row) == red(#[trigger] re[row]@),
    ensures
        forall|row: int| 0 <= row < wit_rows(fw) ==> heval(e, pair_view(fi, fw), row) == red(
            #[trigger] fw.error@[row]@,
        ),
{
    assert forall|row: int| 0 <= row < wit_rows(fw) implies heval(e, pair_view(fi, fw), row)
        == red(#[trigger] fw.error@[row]@) by {
        crate::expr::lemma_xeval(e, vl, vr, row, r);
        let p = xeval(e, vl, vr, row);
        assert(p.c0 == red(le[row]@));
        assert(coeff(p, 3) == red(re[row]@));
        assert(fw.error@[row]@ == peval(p, r));
    }
}

} // verus!
