//! The constraint expression language and its two evaluation semantics.
//!
//! An expression is a polynomial over atoms: witness cells (current or next
//! row), challenge scalars, powers of the constraint-combination challenge, the
//! relaxation slack, and constants.  Selector indicator columns are ordinary
//! witness cells that the combined-expression builder multiplies in; they get
//! no atom of their own.
//!
//! The same expression is read in two ways.  `heval` resolves every atom
//! against one instance/witness pair and yields the field value of the
//! expression at one row.  `xeval` resolves every atom against a pair of sides
//! as `left + X * right`, where `X` stands for the folding challenge, and
//! yields a polynomial of degree at most three in `X`.  The lemma at the end
//! ties them together: evaluating that polynomial at a challenge equals
//! `heval` at the combined pair, its constant coefficient is `heval` at the
//! left pair, and — for a degree-homogeneous expression — its top coefficient
//! is `heval` at the right pair.  That identity is the entire soundness and
//! completeness story of a fold.

use vstd::prelude::*;
use crate::field::{
    fadd, fmul, fsub, red, lemma_fadd_red, lemma_fmul_comm, lemma_fmul_red, Fp, MODULUS,
};
use crate::poly::{
    coeff, lemma_compose_addsub, lemma_compose_mul, padd, pbound, pconst, peval, plin, pmul,
    preduced, psub, SPoly,
};

verus! {

/// Whether a cell atom reads the current row or the next row (wrapping around
/// at the last row).
#[derive(Clone, Copy, Debug, PartialEq, Eq, Structural)]
pub enum CurrOrNext {
    Curr,
    Next,
}

/// A constraint expression.
#[derive(Debug)]
pub enum FoldingExpr {
    /// A witness cell: column index, and which row it reads.
    Cell { col: usize, row: CurrOrNext },
    /// A public challenge scalar, by index.
    Challenge(usize),
    /// A power of the constraint-combination challenge, by exponent index.
    Alpha(usize),
    /// The relaxation slack of the pair, used to balance degrees.
    Slack,
    /// A constant field element.
    Constant(Fp),
    Add(Box<FoldingExpr>, Box<FoldingExpr>),
    Sub(Box<FoldingExpr>, Box<FoldingExpr>),
    Mul(Box<FoldingExpr>, Box<FoldingExpr>),
}

/// Everything one side of a fold exposes to expression evaluation: the witness
/// columns (selector indicators included), the public challenges, the powers
/// held by the constraint-combination bookkeeping, and the relaxation slack.
pub struct PairView {
    pub rows: nat,
    pub cols: Seq<Seq<int>>,
    pub chals: Seq<int>,
    pub alphas: Seq<int>,
    pub u: int,
}

/// A view is well formed when every column table has exactly `rows` entries.
pub open spec fn view_wf(v: PairView) -> bool {
    forall|i: int| 0 <= i < v.cols.len() ==> (#[trigger] v.cols[i]).len() == v.rows
}

/// Two sides can fold when their shapes agree.
pub open spec fn compat(l: PairView, r: PairView) -> bool {
    &&& l.rows == r.rows
    &&& l.cols.len() == r.cols.len()
    &&& l.chals.len() == r.chals.len()
    &&& l.alphas.len() == r.alphas.len()
}

/// The row a cell atom reads: the next row wraps around to row zero.
pub open spec fn cell_row(v: PairView, r: CurrOrNext, row: int) -> int {
    match r {
        CurrOrNext::Curr => row,
        CurrOrNext::Next => (row + 1) % (v.rows as int),
    }
}

/// Every atom index stays within the given shape.
pub open spec fn in_scope(e: FoldingExpr, ncols: nat, nchals: nat, nalphas: nat) -> bool
    decreases e,
{
    match e {
        FoldingExpr::Cell { col, row } => col < ncols,
        FoldingExpr::Challenge(j) => j < nchals,
        FoldingExpr::Alpha(j) => j < nalphas,
        FoldingExpr::Slack => true,
        FoldingExpr::Constant(_) => true,
        FoldingExpr::Add(a, b) => in_scope(*a, ncols, nchals, nalphas) && in_scope(
            *b,
            ncols,
            nchals,
            nalphas,
        ),
        FoldingExpr::Sub(a, b) => in_scope(*a, ncols, nchals, nalphas) && in_scope(
            *b,
            ncols,
            nchals,
            nalphas,
        ),
        FoldingExpr::Mul(a, b) => in_scope(*a, ncols, nchals, nalphas) && in_scope(
            *b,
            ncols,
            nchals,
            nalphas,
        ),
    }
}

/// The formal degree of an expression: atoms are linear because every one of
/// them combines linearly under folding.
pub open spec fn edeg(e: FoldingExpr) -> nat
    decreases e,
{
    match e {
        FoldingExpr::Constant(_) => 0,
        FoldingExpr::Add(a, b) => if edeg(*a) >= edeg(*b) {
            edeg(*a)
        } else {
            edeg(*b)
        },
        FoldingExpr::Sub(a, b) => if edeg(*a) >= edeg(*b) {
            edeg(*a)
        } else {
            edeg(*b)
        },
        FoldingExpr::Mul(a, b) => edeg(*a) + edeg(*b),
        _ => 1,
    }
}

/// Degree homogeneity: both operands of every sum have the same degree.  The
/// builder makes every expression homogeneous by multiplying in the slack, so
/// that the top coefficient of the two-sided evaluation is exactly the right
/// side's own value.
pub open spec fn homog(e: FoldingExpr) -> bool
    decreases e,
{
    match e {
        FoldingExpr::Add(a, b) => homog(*a) && homog(*b) && edeg(*a) == edeg(*b),
        FoldingExpr::Sub(a, b) => homog(*a) && homog(*b) && edeg(*a) == edeg(*b),
        FoldingExpr::Mul(a, b) => homog(*a) && homog(*b),
        _ => true,
    }
}

/// One-sided evaluation: the field value of the expression at `row`, with
/// every atom resolved against the one pair `v`.
pub open spec fn heval(e: FoldingExpr, v: PairView, row: int) -> int
    decreases e,
{
    match e {
        FoldingExpr::Cell { col, row: r } => red(v.cols[col as int][cell_row(v, r, row)]),
        FoldingExpr::Challenge(j) => red(v.chals[j as int]),
        FoldingExpr::Alpha(j) => red(v.alphas[j as int]),
        FoldingExpr::Slack => red(v.u),
        FoldingExpr::Constant(c) => red(c@),
        FoldingExpr::Add(a, b) => fadd(heval(*a, v, row), heval(*b, v, row)),
        FoldingExpr::Sub(a, b) => fsub(heval(*a, v, row), heval(*b, v, row)),
        FoldingExpr::Mul(a, b) => fmul(heval(*a, v, row), heval(*b, v, row)),
    }
}

/// Two-sided evaluation: the polynomial in the folding variable `X` obtained
/// by resolving every atom as `left + X * right`.
pub open spec fn xeval(e: FoldingExpr, l: PairView, r: PairView, row: int) -> SPoly
    decreases e,
{
    match e {
        FoldingExpr::Cell { col, row: ro } => plin(
            red(l.cols[col as int][cell_row(l, ro, row)]),
            red(r.cols[col as int][cell_row(r, ro, row)]),
        ),
        FoldingExpr::Challenge(j) => plin(red(l.chals[j as int]), red(r.chals[j as int])),
        FoldingExpr::Alpha(j) => plin(red(l.alphas[j as int]), red(r.alphas[j as int])),
        FoldingExpr::Slack => plin(red(l.u), red(r.u)),
        FoldingExpr::Constant(c) => pconst(red(c@)),
        FoldingExpr::Add(a, b) => padd(xeval(*a, l, r, row), xeval(*b, l, r, row)),
        FoldingExpr::Sub(a, b) => psub(xeval(*a, l, r, row), xeval(*b, l, r, row)),
        FoldingExpr::Mul(a, b) => pmul(xeval(*a, l, r, row), xeval(*b, l, r, row)),
    }
}

/// The linear combination of two sequences under a challenge, entry by entry.
pub open spec fn mix_seq(a: Seq<int>, b: Seq<int>, x: int) -> Seq<int> {
    Seq::new(a.len(), |i: int| fadd(a[i], fmul(x, b[i])))
}

/// The linear combination of two column families under a challenge.
pub open spec fn mix_cols(a: Seq<Seq<int>>, b: Seq<Seq<int>>, x: int) -> Seq<Seq<int>> {
    Seq::new(a.len(), |i: int| mix_seq(a[i], b[i], x))
}

/// The pair obtained by folding two sides with challenge `x`: every column,
/// challenge, combination power and the slack combine linearly.
pub open spec fn mix_view(l: PairView, r: PairView, x: int) -> PairView {
    PairView {
        rows: l.rows,
        cols: mix_cols(l.cols, r.cols, x),
        chals: mix_seq(l.chals, r.chals, x),
        alphas: mix_seq(l.alphas, r.alphas, x),
        u: fadd(l.u, fmul(x, r.u)),
    }
}

/// The central identity of the scheme, by induction over the expression.
///
/// For any two compatible sides and any expression of degree at most three:
/// the two-sided evaluation is bounded by the expression's degree and has
/// reduced coefficients; its constant coefficient is the left side's own
/// value; evaluating it at any challenge gives the expression's value at the
/// folded pair; and, when the expression is degree-homogeneous, its top
/// coefficient is the right side's own value.
#[verifier::spinoff_prover]
#[verifier::rlimit(100)]
pub proof fn lemma_xeval(e: FoldingExpr, l: PairView, r: PairView, row: int, x: int)
    requires
        edeg(e) <= 3,
        in_scope(e, l.cols.len(), l.chals.len(), l.alphas.len()),
        view_wf(l),
        view_wf(r),
        compat(l, r),
        0 <= row < l.rows,
    ensures
        pbound(xeval(e, l, r, row), edeg(e)),
        preduced(xeval(e, l, r, row)),
        xeval(e, l, r, row).c0 == heval(e, l, row),
        peval(xeval(e, l, r, row), x) == heval(e, mix_view(l, r, x), row),
        homog(e) ==> coeff(xeval(e, l, r, row), edeg(e)) == heval(e, r, row),
    decreases e,
{
    let m = mix_view(l, r, x);
    match e {
        FoldingExpr::Cell { col, row: ro } => {
            let idx = cell_row(l, ro, row);
            assert(0 <= idx < l.rows) by {
                if ro is Next {
                    vstd::arithmetic::div_mod::lemma_mod_division_less_than_divisor(row + 1,
                        l.rows as int);
                }
            }
            lemma_atom(l.cols[col as int][idx], r.cols[col as int][idx], x);
            assert(cell_row(m, ro, row) == idx);
            assert(cell_row(r, ro, row) == idx);
            assert(l.cols[col as int].len() == l.rows);
            assert(m.cols[col as int] == mix_seq(l.cols[col as int], r.cols[col as int], x));
            assert(m.cols[col as int][idx] == fadd(l.cols[col as int][idx],
                fmul(x, r.cols[col as int][idx])));
            assert(peval(xeval(e, l, r, row), x) == heval(e, m, row));
        },
        FoldingExpr::Challenge(j) => {
            lemma_atom(l.chals[j as int], r.chals[j as int], x);
            assert(peval(xeval(e, l, r, row), x) == heval(e, m, row));
        },
        FoldingExpr::Alpha(j) => {
            lemma_atom(l.alphas[j as int], r.alphas[j as int], x);
            assert(peval(xeval(e, l, r, row), x) == heval(e, m, row));
        },
        FoldingExpr::Slack => {
            lemma_atom(l.u, r.u, x);
            assert(peval(xeval(e, l, r, row), x) == heval(e, m, row));
        },
        FoldingExpr::Constant(c) => {
            assert(peval(xeval(e, l, r, row), x) == heval(e, m, row));
        },
        FoldingExpr::Add(a, b) => {
            lemma_xeval(*a, l, r, row, x);
            lemma_xeval(*b, l, r, row, x);
            lemma_compose_addsub(xeval(*a, l, r, row), xeval(*b, l, r, row), edeg(*a), edeg(*b),
                x);
        },
        FoldingExpr::Sub(a, b) => {
            lemma_xeval(*a, l, r, row, x);
            lemma_xeval(*b, l, r, row, x);
            lemma_compose_addsub(xeval(*a, l, r, row), xeval(*b, l, r, row), edeg(*a), edeg(*b),
                x);
        },
        FoldingExpr::Mul(a, b) => {
            lemma_xeval(*a, l, r, row, x);
            lemma_xeval(*b, l, r, row, x);
            lemma_compose_mul(xeval(*a, l, r, row), xeval(*b, l, r, row), edeg(*a), edeg(*b), x);
        },
    }
}

/// No atom reserved for the builder occurs: no combination power, no slack.
pub open spec fn plain(e: FoldingExpr) -> bool
    decreases e,
{
    match e {
        FoldingExpr::Alpha(_) => false,
        FoldingExpr::Slack => false,
        FoldingExpr::Add(a, b) => plain(*a) && plain(*b),
        FoldingExpr::Sub(a, b) => plain(*a) && plain(*b),
        FoldingExpr::Mul(a, b) => plain(*a) && plain(*b),
        _ => true,
    }
}

/// A structural copy of an expression.
pub fn dup(e: &FoldingExpr) -> (r: FoldingExpr)
    ensures
        r == *e,
    decreases *e,
{
    match e {
        FoldingExpr::Cell { col, row } => FoldingExpr::Cell { col: *col, row: *row },
        FoldingExpr::Challenge(j) => FoldingExpr::Challenge(*j),
        FoldingExpr::Alpha(j) => FoldingExpr::Alpha(*j),
        FoldingExpr::Slack => FoldingExpr::Slack,
        FoldingExpr::Constant(c) => FoldingExpr::Constant(*c),
        FoldingExpr::Add(a, b) => FoldingExpr::Add(Box::new(dup(a)), Box::new(dup(b))),
        FoldingExpr::Sub(a, b) => FoldingExpr::Sub(Box::new(dup(a)), Box::new(dup(b))),
        FoldingExpr::Mul(a, b) => FoldingExpr::Mul(Box::new(dup(a)), Box::new(dup(b))),
    }
}

/// Decides whether every atom index stays within the given shape.
pub fn check_in_scope(e: &FoldingExpr, ncols: usize, nchals: usize, nalphas: usize) -> (r: bool)
    ensures
        r == in_scope(*e, ncols as nat, nchals as nat, nalphas as nat),
    decreases *e,
{
    match e {
        FoldingExpr::Cell { col, row } => *col < ncols,
        FoldingExpr::Challenge(j) => *j < nchals,
        FoldingExpr::Alpha(j) => *j < nalphas,
        FoldingExpr::Slack => true,
        FoldingExpr::Constant(_) => true,
        FoldingExpr::Add(a, b) => check_in_scope(a, ncols, nchals, nalphas) && check_in_scope(
            b,
            ncols,
            nchals,
            nalphas,
        ),
        FoldingExpr::Sub(a, b) => check_in_scope(a, ncols, nchals, nalphas) && check_in_scope(
            b,
            ncols,
            nchals,
            nalphas,
        ),
        FoldingExpr::Mul(a, b) => check_in_scope(a, ncols, nchals, nalphas) && check_in_scope(
            b,
            ncols,
            nchals,
            nalphas,
        ),
    }
}

/// Decides whether an expression avoids the builder's reserved atoms.
pub fn check_plain(e: &FoldingExpr) -> (r: bool)
    ensures
        r == plain(*e),
    decreases *e,
{
    match e {
        FoldingExpr::Alpha(_) => false,
        FoldingExpr::Slack => false,
        FoldingExpr::Add(a, b) => check_plain(a) && check_plain(b),
        FoldingExpr::Sub(a, b) => check_plain(a) && check_plain(b),
        FoldingExpr::Mul(a, b) => check_plain(a) && check_plain(b),
        _ => true,
    }
}

/// The degree of an expression, saturated just above the degree bound the
/// cross-term computation can carry.
pub fn degree_capped(e: &FoldingExpr) -> (d: usize)
    ensures
        d == if edeg(*e) > 3 { 4nat } else { edeg(*e) },
    decreases *e,
{
    match e {
        FoldingExpr::Constant(_) => 0,
        FoldingExpr::Add(a, b) => {
            let da = degree_capped(a);
            let db = degree_capped(b);
            if da >= db {
                da
            } else {
                db
            }
        },
        FoldingExpr::Sub(a, b) => {
            let da = degree_capped(a);
            let db = degree_capped(b);
            if da >= db {
                da
            } else {
                db
            }
        },
        FoldingExpr::Mul(a, b) => {
            let da = degree_capped(a);
            let db = degree_capped(b);
            if da + db > 3 {
                4
            } else {
                da + db
            }
        },
        _ => 1,
    }
}

/// One-sided evaluation always lands in the canonical range.
pub proof fn lemma_heval_reduced(e: FoldingExpr, v: PairView, row: int)
    ensures
        0 <= heval(e, v, row) < MODULUS,
    decreases e,
{
    match e {
        FoldingExpr::Add(a, b) => {
            lemma_heval_reduced(*a, v, row);
            lemma_heval_reduced(*b, v, row);
        },
        FoldingExpr::Sub(a, b) => {
            lemma_heval_reduced(*a, v, row);
            lemma_heval_reduced(*b, v, row);
        },
        FoldingExpr::Mul(a, b) => {
            lemma_heval_reduced(*a, v, row);
            lemma_heval_reduced(*b, v, row);
        },
        _ => {},
    }
}

/// How the one-sided evaluation reads a freshly built node.
pub proof fn lemma_heval_nodes(a: FoldingExpr, b: FoldingExpr, v: PairView, row: int)
    ensures
        heval(FoldingExpr::Mul(Box::new(a), Box::new(b)), v, row) == fmul(
            heval(a, v, row),
            heval(b, v, row),
        ),
        heval(FoldingExpr::Add(Box::new(a), Box::new(b)), v, row) == fadd(
            heval(a, v, row),
            heval(b, v, row),
        ),
        heval(FoldingExpr::Sub(Box::new(a), Box::new(b)), v, row) == fsub(
            heval(a, v, row),
            heval(b, v, row),
        ),
        heval(FoldingExpr::Slack, v, row) == red(v.u),
{
}

/// How the one-sided evaluation reads a combination-power atom.
pub proof fn lemma_heval_alpha(j: usize, v: PairView, row: int)
    ensures
        heval(FoldingExpr::Alpha(j), v, row) == red(v.alphas[j as int]),
{
}

/// An expression without reserved atoms is indifferent to the number of
/// combination powers in scope.
pub proof fn lemma_plain_scope(e: FoldingExpr, nc: nat, nch: nat, na: nat)
    requires
        plain(e),
    ensures
        in_scope(e, nc, nch, na) == in_scope(e, nc, nch, 0),
    decreases e,
{
    match e {
        FoldingExpr::Add(a, b) => {
            lemma_plain_scope(*a, nc, nch, na);
            lemma_plain_scope(*b, nc, nch, na);
        },
        FoldingExpr::Sub(a, b) => {
            lemma_plain_scope(*a, nc, nch, na);
            lemma_plain_scope(*b, nc, nch, na);
        },
        FoldingExpr::Mul(a, b) => {
            lemma_plain_scope(*a, nc, nch, na);
            lemma_plain_scope(*b, nc, nch, na);
        },
        _ => {},
    }
}

/// How the one-sided evaluation reads a current-row cell atom.
pub proof fn lemma_heval_cell(col: usize, v: PairView, row: int)
    ensures
        heval(FoldingExpr::Cell { col, row: CurrOrNext::Curr }, v, row) == red(
            v.cols[col as int][row],
        ),
{
}

/// Degree, homogeneity and scope of a freshly built product.
pub proof fn lemma_expr_mul(a: FoldingExpr, b: FoldingExpr, nc: nat, nch: nat, na: nat)
    ensures
        edeg(FoldingExpr::Mul(Box::new(a), Box::new(b))) == edeg(a) + edeg(b),
        homog(FoldingExpr::Mul(Box::new(a), Box::new(b))) == (homog(a) && homog(b)),
        in_scope(FoldingExpr::Mul(Box::new(a), Box::new(b)), nc, nch, na) == (in_scope(
            a,
            nc,
            nch,
            na,
        ) && in_scope(b, nc, nch, na)),
{
}

/// Degree, homogeneity and scope of a freshly built sum.
pub proof fn lemma_expr_add(a: FoldingExpr, b: FoldingExpr, nc: nat, nch: nat, na: nat)
    ensures
        edeg(FoldingExpr::Add(Box::new(a), Box::new(b))) == if edeg(a) >= edeg(b) {
            edeg(a)
        } else {
            edeg(b)
        },
        homog(FoldingExpr::Add(Box::new(a), Box::new(b))) == (homog(a) && homog(b) && edeg(a)
            == edeg(b)),
        in_scope(FoldingExpr::Add(Box::new(a), Box::new(b)), nc, nch, na) == (in_scope(
            a,
            nc,
            nch,
            na,
        ) && in_scope(b, nc, nch, na)),
{
}

/// Degree, homogeneity and scope of a freshly built difference.
pub proof fn lemma_expr_sub(a: FoldingExpr, b: FoldingExpr, nc: nat, nch: nat, na: nat)
    ensures
        edeg(FoldingExpr::Sub(Box::new(a), Box::new(b))) == if edeg(a) >= edeg(b) {
            edeg(a)
        } else {
            edeg(b)
        },
        homog(FoldingExpr::Sub(Box::new(a), Box::new(b))) == (homog(a) && homog(b) && edeg(a)
            == edeg(b)),
        in_scope(FoldingExpr::Sub(Box::new(a), Box::new(b)), nc, nch, na) == (in_scope(
            a,
            nc,
            nch,
            na,
        ) && in_scope(b, nc, nch, na)),
{
}

/// Degree, homogeneity and scope of a slack atom.
pub proof fn lemma_expr_slack(nc: nat, nch: nat, na: nat)
    ensures
        edeg(FoldingExpr::Slack) == 1,
        homog(FoldingExpr::Slack),
        in_scope(FoldingExpr::Slack, nc, nch, na),
{
}

/// Degree, homogeneity and scope of a combination-power atom.
pub proof fn lemma_expr_alpha(j: usize, nc: nat, nch: nat, na: nat)
    ensures
        edeg(FoldingExpr::Alpha(j)) == 1,
        homog(FoldingExpr::Alpha(j)),
        in_scope(FoldingExpr::Alpha(j), nc, nch, na) == (j < na),
{
}

/// Degree, homogeneity and scope of a cell atom.
pub proof fn lemma_expr_cell(col: usize, ro: CurrOrNext, nc: nat, nch: nat, na: nat)
    ensures
        edeg(FoldingExpr::Cell { col, row: ro }) == 1,
        homog(FoldingExpr::Cell { col, row: ro }),
        in_scope(FoldingExpr::Cell { col, row: ro }, nc, nch, na) == (col < nc),
{
}

/// Degree, homogeneity and scope of a constant.
pub proof fn lemma_expr_const(c: Fp, nc: nat, nch: nat, na: nat)
    ensures
        edeg(FoldingExpr::Constant(c)) == 0,
        homog(FoldingExpr::Constant(c)),
        in_scope(FoldingExpr::Constant(c), nc, nch, na),
{
}

/// The atom case of the central identity: a linear polynomial evaluated at a
/// challenge is the linear combination of its ends.
proof fn lemma_atom(a: int, b: int, x: int)
    ensures
        peval(plin(red(a), red(b)), x) == red(fadd(a, fmul(x, b))),
        plin(red(a), red(b)).c0 == red(a),
        coeff(plin(red(a), red(b)), 1) == red(b),
        pbound(plin(red(a), red(b)), 1),
        preduced(plin(red(a), red(b))),
{
    lemma_fmul_red(b, x);
    lemma_fmul_comm(red(b), x);
    lemma_fmul_comm(b, x);
    lemma_fadd_red(a, fmul(x, b));
}

} // verus!
