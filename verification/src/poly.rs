//! Polynomials of degree at most three in the folding variable.
//!
//! A fold evaluates the constraint expression with every atom resolved to
//! `left + X * right`, where `X` is a formal variable standing for the folding
//! challenge.  The result, per row, is a polynomial of degree at most three in
//! `X`; its outer coefficients are the two sides' own violation values and its
//! two inner coefficients are the cross terms.  This module gives that
//! polynomial type, its ring operations, and the lemmas that relate the
//! operations to evaluation at a concrete challenge.

use vstd::prelude::*;
use vstd::arithmetic::div_mod::{
    lemma_add_mod_noop, lemma_add_mod_noop_right, lemma_mul_mod_noop, lemma_mul_mod_noop_left,
    lemma_mul_mod_noop_right,
};
use vstd::arithmetic::mul::{
    lemma_mul_is_associative, lemma_mul_is_commutative, lemma_mul_is_distributive_add,
    lemma_mul_is_distributive_add_other_way,
};
use crate::field::{fadd, fmul, fsub, red, Fp, MODULUS};

verus! {

/// A polynomial `c0 + c1 X + c2 X^2 + c3 X^3` over the field, in spec land.
pub struct SPoly {
    pub c0: int,
    pub c1: int,
    pub c2: int,
    pub c3: int,
}

/// The coefficient of `X^k`, zero above degree three.
pub open spec fn coeff(p: SPoly, k: nat) -> int {
    if k == 0 {
        p.c0
    } else if k == 1 {
        p.c1
    } else if k == 2 {
        p.c2
    } else if k == 3 {
        p.c3
    } else {
        0
    }
}

/// The constant polynomial.
pub open spec fn pconst(a: int) -> SPoly {
    SPoly { c0: a, c1: 0, c2: 0, c3: 0 }
}

/// The linear polynomial `a + b X`, used for every resolved atom.
pub open spec fn plin(a: int, b: int) -> SPoly {
    SPoly { c0: a, c1: b, c2: 0, c3: 0 }
}

/// Coefficient-wise sum.
pub open spec fn padd(p: SPoly, q: SPoly) -> SPoly {
    SPoly {
        c0: fadd(p.c0, q.c0),
        c1: fadd(p.c1, q.c1),
        c2: fadd(p.c2, q.c2),
        c3: fadd(p.c3, q.c3),
    }
}

/// Coefficient-wise difference.
pub open spec fn psub(p: SPoly, q: SPoly) -> SPoly {
    SPoly {
        c0: fsub(p.c0, q.c0),
        c1: fsub(p.c1, q.c1),
        c2: fsub(p.c2, q.c2),
        c3: fsub(p.c3, q.c3),
    }
}

/// Product, truncated above `X^3`; it is only applied where the degrees of the
/// factors sum to at most three, so nothing is lost to the truncation.
pub open spec fn pmul(p: SPoly, q: SPoly) -> SPoly {
    SPoly {
        c0: fmul(p.c0, q.c0),
        c1: fadd(fmul(p.c0, q.c1), fmul(p.c1, q.c0)),
        c2: fadd(fmul(p.c0, q.c2), fadd(fmul(p.c1, q.c1), fmul(p.c2, q.c0))),
        c3: fadd(
            fmul(p.c0, q.c3),
            fadd(fmul(p.c1, q.c2), fadd(fmul(p.c2, q.c1), fmul(p.c3, q.c0))),
        ),
    }
}

/// Evaluation at a concrete challenge.
pub open spec fn peval(p: SPoly, x: int) -> int {
    fadd(
        p.c0,
        fadd(
            fmul(p.c1, x),
            fadd(fmul(p.c2, fmul(x, x)), fmul(p.c3, fmul(fmul(x, x), x))),
        ),
    )
}

/// Every coefficient above `d` is zero.
pub open spec fn pbound(p: SPoly, d: nat) -> bool {
    &&& (d < 1 ==> p.c1 == 0)
    &&& (d < 2 ==> p.c2 == 0)
    &&& (d < 3 ==> p.c3 == 0)
}

/// Every coefficient lies in the canonical range.
pub open spec fn preduced(p: SPoly) -> bool {
    &&& 0 <= p.c0 < MODULUS
    &&& 0 <= p.c1 < MODULUS
    &&& 0 <= p.c2 < MODULUS
    &&& 0 <= p.c3 < MODULUS
}

/// The same polynomial read as a plain integer expression, before reduction.
pub open spec fn ipoly(p: SPoly, x: int) -> int {
    p.c0 + p.c1 * x + p.c2 * (x * x) + p.c3 * (x * x * x)
}

/// Evaluation is the reduction of the plain integer reading.
pub proof fn lemma_peval_flat(p: SPoly, x: int)
    ensures
        peval(p, x) == red(ipoly(p, x)),
{
    let m = MODULUS as int;
    let x2 = x * x;
    let x3 = x * x * x;
    assert(fmul(p.c2, fmul(x, x)) == (p.c2 * x2) % m) by {
        lemma_mul_mod_noop_right(p.c2, x2, m);
    }
    assert(fmul(p.c3, fmul(fmul(x, x), x)) == (p.c3 * x3) % m) by {
        lemma_mul_mod_noop_left(x2, x, m);
        lemma_mul_mod_noop_right(p.c3, x3, m);
        assert(x2 * x == x3) by (nonlinear_arith)
            requires x2 == x * x && x3 == x * x * x;
    }
    assert(fadd(fmul(p.c2, fmul(x, x)), fmul(p.c3, fmul(fmul(x, x), x)))
        == (p.c2 * x2 + p.c3 * x3) % m) by {
        lemma_add_mod_noop(p.c2 * x2, p.c3 * x3, m);
    }
    assert(fadd(fmul(p.c1, x), (p.c2 * x2 + p.c3 * x3) % m)
        == (p.c1 * x + p.c2 * x2 + p.c3 * x3) % m) by {
        lemma_add_mod_noop(p.c1 * x, p.c2 * x2 + p.c3 * x3, m);
    }
    assert(fadd(p.c0, (p.c1 * x + p.c2 * x2 + p.c3 * x3) % m)
        == (p.c0 + p.c1 * x + p.c2 * x2 + p.c3 * x3) % m) by {
        lemma_add_mod_noop_right(p.c0, p.c1 * x + p.c2 * x2 + p.c3 * x3, m);
    }
}

/// Reducing each coefficient does not change the evaluation.
proof fn lemma_ipoly_red_coeffs(p: SPoly, q: SPoly, x: int)
    requires
        q.c0 == red(p.c0),
        q.c1 == red(p.c1),
        q.c2 == red(p.c2),
        q.c3 == red(p.c3),
    ensures
        red(ipoly(q, x)) == red(ipoly(p, x)),
{
    let m = MODULUS as int;
    lemma_mul_mod_noop_left(p.c1, x, m);
    lemma_mul_mod_noop_left(q.c1, x, m);
    lemma_mul_mod_noop_left(p.c2, x * x, m);
    lemma_mul_mod_noop_left(q.c2, x * x, m);
    lemma_mul_mod_noop_left(p.c3, x * x * x, m);
    lemma_mul_mod_noop_left(q.c3, x * x * x, m);
    lemma_add_mod_noop(q.c0, q.c1 * x, m);
    lemma_add_mod_noop(p.c0, p.c1 * x, m);
    lemma_add_mod_noop(q.c0 + q.c1 * x, q.c2 * (x * x), m);
    lemma_add_mod_noop(p.c0 + p.c1 * x, p.c2 * (x * x), m);
    lemma_add_mod_noop(q.c0 + q.c1 * x + q.c2 * (x * x), q.c3 * (x * x * x), m);
    lemma_add_mod_noop(p.c0 + p.c1 * x + p.c2 * (x * x), p.c3 * (x * x * x), m);
}

/// Evaluation turns a polynomial sum into a field sum.
pub proof fn lemma_peval_padd(p: SPoly, q: SPoly, x: int)
    ensures
        peval(padd(p, q), x) == fadd(peval(p, x), peval(q, x)),
{
    let m = MODULUS as int;
    let s = SPoly { c0: p.c0 + q.c0, c1: p.c1 + q.c1, c2: p.c2 + q.c2, c3: p.c3 + q.c3 };
    lemma_peval_flat(padd(p, q), x);
    lemma_peval_flat(p, x);
    lemma_peval_flat(q, x);
    lemma_ipoly_red_coeffs(s, padd(p, q), x);
    assert(ipoly(s, x) == ipoly(p, x) + ipoly(q, x)) by (nonlinear_arith)
        requires
            s.c0 == p.c0 + q.c0,
            s.c1 == p.c1 + q.c1,
            s.c2 == p.c2 + q.c2,
            s.c3 == p.c3 + q.c3;
    lemma_add_mod_noop(ipoly(p, x), ipoly(q, x), m);
}

/// Evaluation turns a polynomial difference into a field difference.
pub proof fn lemma_peval_psub(p: SPoly, q: SPoly, x: int)
    ensures
        peval(psub(p, q), x) == fsub(peval(p, x), peval(q, x)),
{
    let m = MODULUS as int;
    let s = SPoly { c0: p.c0 - q.c0, c1: p.c1 - q.c1, c2: p.c2 - q.c2, c3: p.c3 - q.c3 };
    lemma_peval_flat(psub(p, q), x);
    lemma_peval_flat(p, x);
    lemma_peval_flat(q, x);
    lemma_ipoly_red_coeffs(s, psub(p, q), x);
    assert(ipoly(s, x) == ipoly(p, x) - ipoly(q, x)) by (nonlinear_arith)
        requires
            s.c0 == p.c0 - q.c0,
            s.c1 == p.c1 - q.c1,
            s.c2 == p.c2 - q.c2,
            s.c3 == p.c3 - q.c3;
    vstd::arithmetic::div_mod::lemma_sub_mod_noop(ipoly(p, x), ipoly(q, x), m);
}

/// Evaluation turns the truncated product into a field product, provided the
/// degrees of the factors sum to at most three.
pub proof fn lemma_peval_pmul(p: SPoly, q: SPoly, x: int, dp: nat, dq: nat)
    requires
        pbound(p, dp),
        pbound(q, dq),
        dp + dq <= 3,
    ensures
        peval(pmul(p, q), x) == fmul(peval(p, x), peval(q, x)),
{
    let m = MODULUS as int;
    let conv = SPoly {
        c0: p.c0 * q.c0,
        c1: p.c0 * q.c1 + p.c1 * q.c0,
        c2: p.c0 * q.c2 + p.c1 * q.c1 + p.c2 * q.c0,
        c3: p.c0 * q.c3 + p.c1 * q.c2 + p.c2 * q.c1 + p.c3 * q.c0,
    };
    assert(pmul(p, q).c0 == red(conv.c0));
    assert(pmul(p, q).c1 == red(conv.c1)) by {
        lemma_add_mod_noop(p.c0 * q.c1, p.c1 * q.c0, m);
    }
    assert(pmul(p, q).c2 == red(conv.c2)) by {
        lemma_add_mod_noop(p.c1 * q.c1, p.c2 * q.c0, m);
        lemma_add_mod_noop(p.c0 * q.c2, p.c1 * q.c1 + p.c2 * q.c0, m);
    }
    assert(pmul(p, q).c3 == red(conv.c3)) by {
        lemma_add_mod_noop(p.c2 * q.c1, p.c3 * q.c0, m);
        lemma_add_mod_noop(p.c1 * q.c2, p.c2 * q.c1 + p.c3 * q.c0, m);
        lemma_add_mod_noop(p.c0 * q.c3, p.c1 * q.c2 + p.c2 * q.c1 + p.c3 * q.c0, m);
    }
    // products whose exponents sum above three all carry a vanished factor
    lemma_vanished_factor(p.c1, q.c3, 1, 3, dp, dq);
    lemma_vanished_factor(p.c2, q.c2, 2, 2, dp, dq);
    lemma_vanished_factor(p.c3, q.c1, 3, 1, dp, dq);
    lemma_vanished_factor(p.c2, q.c3, 2, 3, dp, dq);
    lemma_vanished_factor(p.c3, q.c2, 3, 2, dp, dq);
    lemma_vanished_factor(p.c3, q.c3, 3, 3, dp, dq);
    lemma_cubic_product(p.c0, p.c1, p.c2, p.c3, q.c0, q.c1, q.c2, q.c3, x);
    let t4 = p.c1 * q.c3 + p.c2 * q.c2 + p.c3 * q.c1;
    let t5 = p.c2 * q.c3 + p.c3 * q.c2;
    let t6 = p.c3 * q.c3;
    assert(t4 * ((x * x) * (x * x)) == 0) by (nonlinear_arith)
        requires t4 == 0;
    assert(t5 * (((x * x) * (x * x)) * x) == 0) by (nonlinear_arith)
        requires t5 == 0;
    assert(t6 * (((x * x) * (x * x)) * (x * x)) == 0) by (nonlinear_arith)
        requires t6 == 0;
    assert(ipoly(conv, x) == ipoly(p, x) * ipoly(q, x));
    lemma_peval_flat(pmul(p, q), x);
    lemma_peval_flat(p, x);
    lemma_peval_flat(q, x);
    lemma_ipoly_red_coeffs(conv, pmul(p, q), x);
    lemma_mul_mod_noop(ipoly(p, x), ipoly(q, x), m);
}

/// A product of coefficients vanishes when the exponents it belongs to sum
/// above the degree bound of the product.
proof fn lemma_vanished_factor(a: int, b: int, i: nat, j: nat, dp: nat, dq: nat)
    requires
        dp + dq <= 3,
        i + j > 3,
        dp < i ==> a == 0,
        dq < j ==> b == 0,
    ensures
        a * b == 0,
{
    if dp < i {
        assert(a * b == 0) by (nonlinear_arith)
            requires a == 0;
    } else {
        assert(dq < j);
        assert(a * b == 0) by (nonlinear_arith)
            requires b == 0;
    }
}

/// Collecting two products that share a common factor.
proof fn lemma_factor2(c1: int, c2: int, z: int)
    by (nonlinear_arith)
    ensures
        c1 * z + c2 * z == (c1 + c2) * z,
{
}

/// Collecting three products that share a common factor.
proof fn lemma_factor3(c1: int, c2: int, c3: int, z: int)
    by (nonlinear_arith)
    ensures
        c1 * z + c2 * z + c3 * z == (c1 + c2 + c3) * z,
{
}

/// Collecting four products that share a common factor.
proof fn lemma_factor4(c1: int, c2: int, c3: int, c4: int, z: int)
    by (nonlinear_arith)
    ensures
        c1 * z + c2 * z + c3 * z + c4 * z == (c1 + c2 + c3 + c4) * z,
{
}

/// The full expansion of a product of two cubics, with the powers of `x`
/// written in the exact shapes the callers use.
proof fn lemma_cubic_product(
    a0: int, a1: int, a2: int, a3: int,
    b0: int, b1: int, b2: int, b3: int,
    x: int,
)
    ensures
        (a0 + a1 * x + a2 * (x * x) + a3 * (x * x * x))
            * (b0 + b1 * x + b2 * (x * x) + b3 * (x * x * x))
        == a0 * b0 + (a0 * b1 + a1 * b0) * x + (a0 * b2 + a1 * b1 + a2 * b0) * (x * x)
            + (a0 * b3 + a1 * b2 + a2 * b1 + a3 * b0) * (x * x * x)
            + (a1 * b3 + a2 * b2 + a3 * b1) * ((x * x) * (x * x))
            + (a2 * b3 + a3 * b2) * (((x * x) * (x * x)) * x)
            + (a3 * b3) * (((x * x) * (x * x)) * (x * x)),
{
    let bb = b0 + b1 * x + b2 * (x * x) + b3 * (x * x * x);
    let x2 = x * x;
    let x3 = x * x * x;
    let x4 = (x * x) * (x * x);
    let x5 = ((x * x) * (x * x)) * x;
    let x6 = ((x * x) * (x * x)) * (x * x);
    // the reassociations of powers of x that the sixteen products land in
    assert(x * x2 == x3) by {
        lemma_mul_is_associative(x, x, x);
    }
    assert(x * x3 == x4) by {
        lemma_mul_is_associative(x, x2, x);
        lemma_mul_is_associative(x2, x, x);
    }
    assert(x2 * x3 == x5) by {
        lemma_mul_is_associative(x2, x2, x);
    }
    assert(x3 * x == x4) by {
        lemma_mul_is_associative(x2, x, x);
    }
    assert(x3 * x2 == x5) by {
        lemma_mul_is_associative(x2, x, x2);
        lemma_mul_is_associative(x, x, x);
        lemma_mul_is_commutative(x, x2);
        lemma_mul_is_associative(x2, x2, x);
    }
    assert(x3 * x3 == x6) by {
        lemma_mul_is_associative(x2, x, x3);
        lemma_mul_is_associative(x, x2, x);
        lemma_mul_is_associative(x2, x, x);
        lemma_mul_is_commutative(x, x2);
        lemma_mul_is_associative(x2, x2, x2);
    }
    // distribute the left factor over the right sum, one term at a time
    lemma_mul_is_distributive_add(a0, b0 + b1 * x + b2 * x2, b3 * x3);
    lemma_mul_is_distributive_add(a0, b0 + b1 * x, b2 * x2);
    lemma_mul_is_distributive_add(a0, b0, b1 * x);
    lemma_mul_is_distributive_add(a1 * x, b0 + b1 * x + b2 * x2, b3 * x3);
    lemma_mul_is_distributive_add(a1 * x, b0 + b1 * x, b2 * x2);
    lemma_mul_is_distributive_add(a1 * x, b0, b1 * x);
    lemma_mul_is_distributive_add(a2 * x2, b0 + b1 * x + b2 * x2, b3 * x3);
    lemma_mul_is_distributive_add(a2 * x2, b0 + b1 * x, b2 * x2);
    lemma_mul_is_distributive_add(a2 * x2, b0, b1 * x);
    lemma_mul_is_distributive_add(a3 * x3, b0 + b1 * x + b2 * x2, b3 * x3);
    lemma_mul_is_distributive_add(a3 * x3, b0 + b1 * x, b2 * x2);
    lemma_mul_is_distributive_add(a3 * x3, b0, b1 * x);
    lemma_mul_is_distributive_add_other_way(bb, a0 + a1 * x + a2 * x2, a3 * x3);
    lemma_mul_is_distributive_add_other_way(bb, a0 + a1 * x, a2 * x2);
    lemma_mul_is_distributive_add_other_way(bb, a0, a1 * x);
    // normalize each bilinear product to coefficient times power
    lemma_term_mul(a0, 1, b1, x);
    lemma_term_mul(a0, 1, b2, x2);
    lemma_term_mul(a0, 1, b3, x3);
    lemma_term_mul(a1, x, b0, 1);
    lemma_term_mul(a1, x, b1, x);
    lemma_term_mul(a1, x, b2, x2);
    lemma_term_mul(a1, x, b3, x3);
    lemma_term_mul(a2, x2, b0, 1);
    lemma_term_mul(a2, x2, b1, x);
    lemma_term_mul(a2, x2, b2, x2);
    lemma_term_mul(a2, x2, b3, x3);
    lemma_term_mul(a3, x3, b0, 1);
    lemma_term_mul(a3, x3, b1, x);
    lemma_term_mul(a3, x3, b2, x2);
    lemma_term_mul(a3, x3, b3, x3);
    // collect the coefficients that share a power
    lemma_factor2(a0 * b1, a1 * b0, x);
    lemma_factor3(a0 * b2, a1 * b1, a2 * b0, x2);
    lemma_factor4(a0 * b3, a1 * b2, a2 * b1, a3 * b0, x3);
    lemma_factor3(a1 * b3, a2 * b2, a3 * b1, x4);
    lemma_factor2(a2 * b3, a3 * b2, x5);
}

/// Products of products reassociate into coefficient times power.
proof fn lemma_term_mul(a: int, t: int, b: int, s: int)
    ensures
        (a * t) * (b * s) == (a * b) * (t * s),
        a * (b * s) == (a * b) * s,
        (a * t) * b == (a * b) * t,
{
    lemma_mul_is_associative(a, t, b * s);
    lemma_mul_is_associative(t, b, s);
    lemma_mul_is_commutative(t, b);
    lemma_mul_is_associative(b, t, s);
    lemma_mul_is_associative(a, b, t * s);
    lemma_mul_is_associative(a, b, s);
    lemma_mul_is_associative(a, t, b);
    lemma_mul_is_commutative(t, b);
    lemma_mul_is_associative(a, b, t);
}

/// A sum is bounded by the larger degree; a product by the sum of degrees; the
/// top and bottom coefficients of a product are the products of the factors'.
#[verifier::spinoff_prover]
#[verifier::rlimit(60)]
pub proof fn lemma_pmul_shape(p: SPoly, q: SPoly, dp: nat, dq: nat)
    requires
        pbound(p, dp),
        pbound(q, dq),
        dp + dq <= 3,
    ensures
        pbound(pmul(p, q), (dp + dq) as nat),
        coeff(pmul(p, q), (dp + dq) as nat) == fmul(coeff(p, dp), coeff(q, dq)),
        pmul(p, q).c0 == fmul(p.c0, q.c0),
{
    if dp == 0 {
        assert(coeff(pmul(p, q), (dp + dq) as nat) == fmul(coeff(p, dp), coeff(q, dq)));
    } else if dp == 1 {
        assert(coeff(pmul(p, q), (dp + dq) as nat) == fmul(coeff(p, dp), coeff(q, dq)));
    } else if dp == 2 {
        assert(coeff(pmul(p, q), (dp + dq) as nat) == fmul(coeff(p, dp), coeff(q, dq)));
    } else {
        assert(coeff(pmul(p, q), (dp + dq) as nat) == fmul(coeff(p, dp), coeff(q, dq)));
    }
}

/// Sums, differences and truncated products of reduced polynomials stay reduced.
pub proof fn lemma_ops_reduced(p: SPoly, q: SPoly)
    ensures
        preduced(padd(p, q)),
        preduced(psub(p, q)),
        preduced(pmul(p, q)),
{
}

/// Everything a sum or difference of two evaluations needs in one step:
/// degree bound, reduced coefficients, evaluation, and the outer
/// coefficients.
pub proof fn lemma_compose_addsub(p: SPoly, q: SPoly, dp: nat, dq: nat, x: int)
    requires
        pbound(p, dp),
        pbound(q, dq),
        dp <= 3,
        dq <= 3,
    ensures
        pbound(padd(p, q), if dp >= dq { dp } else { dq }),
        pbound(psub(p, q), if dp >= dq { dp } else { dq }),
        preduced(padd(p, q)),
        preduced(psub(p, q)),
        peval(padd(p, q), x) == fadd(peval(p, x), peval(q, x)),
        peval(psub(p, q), x) == fsub(peval(p, x), peval(q, x)),
        padd(p, q).c0 == fadd(p.c0, q.c0),
        psub(p, q).c0 == fsub(p.c0, q.c0),
        dp == dq ==> coeff(padd(p, q), dp) == fadd(coeff(p, dp), coeff(q, dq)),
        dp == dq ==> coeff(psub(p, q), dp) == fsub(coeff(p, dp), coeff(q, dq)),
{
    lemma_peval_padd(p, q, x);
    lemma_peval_psub(p, q, x);
    lemma_ops_reduced(p, q);
}

/// Everything a product of two evaluations needs in one step: degree bound,
/// reduced coefficients, evaluation, and the outer coefficients.
pub proof fn lemma_compose_mul(p: SPoly, q: SPoly, dp: nat, dq: nat, x: int)
    requires
        pbound(p, dp),
        pbound(q, dq),
        dp + dq <= 3,
    ensures
        pbound(pmul(p, q), (dp + dq) as nat),
        preduced(pmul(p, q)),
        peval(pmul(p, q), x) == fmul(peval(p, x), peval(q, x)),
        pmul(p, q).c0 == fmul(p.c0, q.c0),
        coeff(pmul(p, q), (dp + dq) as nat) == fmul(coeff(p, dp), coeff(q, dq)),
{
    lemma_peval_pmul(p, q, x, dp, dq);
    lemma_pmul_shape(p, q, dp, dq);
    lemma_ops_reduced(p, q);
}

/// A degree-three polynomial in the folding variable, with executable
/// coefficients: the per-row result of a two-sided expression evaluation.
#[derive(Clone, Copy, Debug)]
pub struct CrossPoly {
    pub c0: Fp,
    pub c1: Fp,
    pub c2: Fp,
    pub c3: Fp,
}

impl View for CrossPoly {
    type V = SPoly;

    open spec fn view(&self) -> SPoly {
        SPoly { c0: self.c0@, c1: self.c1@, c2: self.c2@, c3: self.c3@ }
    }
}

impl CrossPoly {
    /// The constant polynomial.
    pub fn constant(a: Fp) -> (r: CrossPoly)
        ensures
            r@ == pconst(a@),
    {
        CrossPoly { c0: a, c1: Fp::zero(), c2: Fp::zero(), c3: Fp::zero() }
    }

    /// The linear polynomial `a + b X`.
    pub fn linear(a: Fp, b: Fp) -> (r: CrossPoly)
        ensures
            r@ == plin(a@, b@),
    {
        CrossPoly { c0: a, c1: b, c2: Fp::zero(), c3: Fp::zero() }
    }

    /// Coefficient-wise sum.
    pub fn add(&self, other: &CrossPoly) -> (r: CrossPoly)
        ensures
            r@ == padd(self@, other@),
    {
        CrossPoly {
            c0: self.c0.add(other.c0),
            c1: self.c1.add(other.c1),
            c2: self.c2.add(other.c2),
            c3: self.c3.add(other.c3),
        }
    }

    /// Coefficient-wise difference.
    pub fn sub(&self, other: &CrossPoly) -> (r: CrossPoly)
        ensures
            r@ == psub(self@, other@),
    {
        CrossPoly {
            c0: self.c0.sub(other.c0),
            c1: self.c1.sub(other.c1),
            c2: self.c2.sub(other.c2),
            c3: self.c3.sub(other.c3),
        }
    }

    /// Truncated product.
    pub fn mul(&self, other: &CrossPoly) -> (r: CrossPoly)
        ensures
            r@ == pmul(self@, other@),
    {
        let a = self;
        let b = other;
        CrossPoly {
            c0: a.c0.mul(b.c0),
            c1: a.c0.mul(b.c1).add(a.c1.mul(b.c0)),
            c2: a.c0.mul(b.c2).add(a.c1.mul(b.c1).add(a.c2.mul(b.c0))),
            c3: a.c0.mul(b.c3).add(a.c1.mul(b.c2).add(a.c2.mul(b.c1).add(a.c3.mul(b.c0)))),
        }
    }

    /// Evaluation at a concrete challenge.
    pub fn eval(&self, x: Fp) -> (r: Fp)
        ensures
            r@ == peval(self@, x@),
    {
        let x2 = x.mul(x);
        let x3 = x2.mul(x);
        self.c0.add(self.c1.mul(x).add(self.c2.mul(x2).add(self.c3.mul(x3))))
    }
}

} // verus!
