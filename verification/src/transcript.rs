//! The Fiat–Shamir transcript.
//!
//! A deterministic sponge over the scalar field: absorbing folds an element
//! into the state, and squeezing derives a challenge from the state alone.
//! Every challenge is therefore a deterministic function of the whole absorbed
//! history, which is all the folding protocol relies on: both sides'
//! commitments and public data are absorbed before the folding challenge is
//! drawn, so no side can be chosen after the fact.

use vstd::prelude::*;
use crate::field::{fadd, fmul, vals, Fp};

verus! {

/// The multiplier that separates consecutive absorbed elements.
pub const TRANSCRIPT_MIXER: u64 = 31;

/// The constant added when a challenge is squeezed.
pub const TRANSCRIPT_SHIFT: u64 = 42;

/// The state after absorbing `x` into state `s`.
pub open spec fn absorb_step(s: int, x: int) -> int {
    fadd(fmul(s, TRANSCRIPT_MIXER as int), x)
}

/// The challenge squeezed out of state `s`.
pub open spec fn squeeze(s: int) -> int {
    fadd(fmul(fmul(s, s), s), TRANSCRIPT_SHIFT as int)
}

/// A deterministic absorb/challenge sponge.
#[derive(Debug)]
pub struct Transcript {
    state: Fp,
}

impl View for Transcript {
    type V = int;

    closed spec fn view(&self) -> int {
        self.state@
    }
}

impl Transcript {
    /// A transcript with nothing absorbed.
    pub fn new() -> (r: Transcript)
        ensures
            r@ == 0,
    {
        Transcript { state: Fp::zero() }
    }

    /// Folds one field element into the state.
    pub fn absorb(&mut self, x: Fp)
        ensures
            final(self)@ == absorb_step(old(self)@, x@),
    {
        self.state = self.state.mul(Fp::new(TRANSCRIPT_MIXER)).add(x);
    }

    /// Folds every element of a table into the state, in order.
    pub fn absorb_all(&mut self, xs: &Vec<Fp>)
        ensures
            final(self)@ == absorb_seq(old(self)@, vals(xs@), xs@.len() as int),
    {
        let mut i: usize = 0;
        while i < xs.len()
            invariant
                0 <= i <= xs@.len(),
                self@ == absorb_seq(old(self)@, vals(xs@), i as int),
            decreases xs@.len() - i,
        {
            self.absorb(xs[i]);
            i = i + 1;
        }
    }

    /// Draws the next challenge and steps the state, so that two draws in a
    /// row give different challenges.
    pub fn challenge(&mut self) -> (r: Fp)
        ensures
            r@ == squeeze(old(self)@),
            final(self)@ == fadd(squeeze(old(self)@), 1),
    {
        let s = self.state;
        let r = s.mul(s).mul(s).add(Fp::new(TRANSCRIPT_SHIFT));
        self.state = r.add(Fp::one());
        r
    }
}

/// The state after absorbing the first `n` entries of a table.
pub open spec fn absorb_seq(s: int, xs: Seq<int>, n: int) -> int
    decreases n,
{
    if n <= 0 {
        s
    } else {
        absorb_step(absorb_seq(s, xs, n - 1), xs[n - 1])
    }
}

} // verus!
