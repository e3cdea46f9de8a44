//! The scalar field that every table entry, challenge and commitment lives in.
//!
//! The field is the integers modulo a small, fixed prime.  A small field keeps
//! the soundness error of a fold (constraint degree / field size) large enough
//! to observe, so a test can enumerate every folding challenge and count the
//! challenges on which an invalid fold slips through.

use vstd::prelude::*;
use vstd::arithmetic::div_mod::{
    lemma_add_mod_noop, lemma_add_mod_noop_right, lemma_mod_twice, lemma_mul_mod_noop,
    lemma_mul_mod_noop_left, lemma_mul_mod_noop_right,
};
use vstd::arithmetic::mul::{
    lemma_mul_is_associative, lemma_mul_is_commutative, lemma_mul_is_distributive_add,
    lemma_mul_upper_bound,
};

verus! {

/// The prime modulus of the scalar field.
pub const MODULUS: u64 = 101;

/// Addition in the field, on mathematical integers.
pub open spec fn fadd(a: int, b: int) -> int {
    (a + b) % (MODULUS as int)
}

/// Subtraction in the field, on mathematical integers.
pub open spec fn fsub(a: int, b: int) -> int {
    (a - b) % (MODULUS as int)
}

/// Multiplication in the field, on mathematical integers.
pub open spec fn fmul(a: int, b: int) -> int {
    (a * b) % (MODULUS as int)
}

/// `a` raised to the power `e` in the field.
pub open spec fn fpow(a: int, e: nat) -> int
    decreases e,
{
    if e == 0 {
        1
    } else {
        fmul(a, fpow(a, (e - 1) as nat))
    }
}

/// Reduction of an integer into the canonical range `[0, MODULUS)`.
pub open spec fn red(a: int) -> int {
    a % (MODULUS as int)
}

/// A field element, kept reduced.
#[derive(Clone, Copy, Debug, PartialEq, Eq, Structural)]
pub struct Fp {
    v: u64,
}

impl View for Fp {
    type V = int;

    closed spec fn view(&self) -> int {
        self.v as int
    }
}

impl Fp {
    #[verifier::type_invariant]
    spec fn type_inv(self) -> bool {
        self.v < MODULUS
    }

    /// Builds the field element congruent to `v`.
    pub fn new(v: u64) -> (r: Fp)
        ensures
            r@ == red(v as int),
    {
        Fp { v: v % MODULUS }
    }

    /// The additive identity.
    pub fn zero() -> (r: Fp)
        ensures
            r@ == 0,
    {
        Fp { v: 0 }
    }

    /// The multiplicative identity.
    pub fn one() -> (r: Fp)
        ensures
            r@ == 1,
    {
        Fp { v: 1 }
    }

    /// Field addition.
    pub fn add(self, other: Fp) -> (r: Fp)
        ensures
            r@ == fadd(self@, other@),
    {
        proof {
            use_type_invariant(self);
            use_type_invariant(other);
        }
        Fp { v: (self.v + other.v) % MODULUS }
    }

    /// Field subtraction.
    pub fn sub(self, other: Fp) -> (r: Fp)
        ensures
            r@ == fsub(self@, other@),
    {
        proof {
            use_type_invariant(self);
            use_type_invariant(other);
        }
        Fp { v: (self.v + MODULUS - other.v) % MODULUS }
    }

    /// Field multiplication.
    pub fn mul(self, other: Fp) -> (r: Fp)
        ensures
            r@ == fmul(self@, other@),
    {
        proof {
            use_type_invariant(self);
            use_type_invariant(other);
            assert(self.v * other.v < MODULUS * MODULUS) by {
                lemma_mul_upper_bound(self.v as int, MODULUS - 1, other.v as int, MODULUS - 1);
            }
        }
        Fp { v: (self.v * other.v) % MODULUS }
    }

    /// The same element, with its range made visible: every field element,
    /// however it was built, holds a reduced value.
    pub fn reduced(self) -> (r: Fp)
        ensures
            r == self,
            0 <= r@ < MODULUS,
            red(r@) == r@,
    {
        proof {
            use_type_invariant(self);
        }
        self
    }

    /// Whether two field elements hold the same value.
    pub fn eq_value(self, other: Fp) -> (r: bool)
        ensures
            r == (self@ == other@),
    {
        self.v == other.v
    }

    /// `self` raised to the power `e`.
    pub fn pow(self, e: usize) -> (r: Fp)
        ensures
            r@ == fpow(self@, e as nat),
        decreases e,
    {
        if e == 0 {
            Fp::one()
        } else {
            self.mul(self.pow(e - 1))
        }
    }
}


/// The values of a sequence of field elements.
pub open spec fn vals(s: Seq<Fp>) -> Seq<int> {
    s.map(|i: int, x: Fp| x@)
}

/// Reducing an operand of a field addition does not change the sum.
pub proof fn lemma_fadd_red(a: int, b: int)
    ensures
        fadd(red(a), b) == fadd(a, b),
        fadd(a, red(b)) == fadd(a, b),
{
    lemma_add_mod_noop(a, b, MODULUS as int);
    lemma_mod_twice(a, MODULUS as int);
    lemma_mod_twice(b, MODULUS as int);
    lemma_add_mod_noop(red(a), b, MODULUS as int);
    lemma_add_mod_noop(a, red(b), MODULUS as int);
}

/// Reducing an operand of a field multiplication does not change the product.
pub proof fn lemma_fmul_red(a: int, b: int)
    ensures
        fmul(red(a), b) == fmul(a, b),
        fmul(a, red(b)) == fmul(a, b),
{
    lemma_mul_mod_noop(a, b, MODULUS as int);
    lemma_mod_twice(a, MODULUS as int);
    lemma_mod_twice(b, MODULUS as int);
    lemma_mul_mod_noop(red(a), b, MODULUS as int);
    lemma_mul_mod_noop(a, red(b), MODULUS as int);
}

/// A product with a zero factor vanishes in the field.
pub proof fn lemma_fmul_zero(a: int)
    ensures
        fmul(a, 0) == 0,
        fmul(0, a) == 0,
{
    vstd::arithmetic::mul::lemma_mul_basics(a);
}

/// Field multiplication is commutative.
pub proof fn lemma_fmul_comm(a: int, b: int)
    ensures
        fmul(a, b) == fmul(b, a),
{
    lemma_mul_is_commutative(a, b);
}

/// Field multiplication is associative.
pub proof fn lemma_fmul_assoc(a: int, b: int, c: int)
    ensures
        fmul(fmul(a, b), c) == fmul(a, fmul(b, c)),
{
    let m = MODULUS as int;
    lemma_mul_mod_noop_left(a * b, c, m);
    lemma_mul_mod_noop_right(a, b * c, m);
    lemma_mul_is_associative(a, b, c);
}

/// Field multiplication distributes over field addition.
pub proof fn lemma_fmul_distrib(a: int, b: int, c: int)
    ensures
        fmul(a, fadd(b, c)) == fadd(fmul(a, b), fmul(a, c)),
{
    let m = MODULUS as int;
    lemma_mul_mod_noop_right(a, b + c, m);
    lemma_mul_is_distributive_add(a, b, c);
    lemma_add_mod_noop(a * b, a * c, m);
}

} // verus!
