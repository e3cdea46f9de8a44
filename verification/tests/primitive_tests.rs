// The building blocks under the scheme: field arithmetic, combination-power
// bookkeeping, the homomorphic commitment, and the transcript.

use folding::alphas::Alphas;
use folding::commit::CommitmentKey;
use folding::field::Fp;
use folding::field::MODULUS;
use folding::transcript::Transcript;

fn fp(v: u64) -> Fp {
    Fp::new(v)
}

#[test]
fn field_arithmetic_wraps_at_the_modulus() {
    assert_eq!(fp(4).add(fp(2)), fp(6));
    assert_eq!(fp(100).add(fp(5)), fp(4));
    assert_eq!(fp(2).sub(fp(5)), fp(MODULUS - 3));
    assert_eq!(fp(10).mul(fp(11)), fp(9));
    assert_eq!(fp(3).pow(4), fp(81));
    assert_eq!(fp(2).pow(0), Fp::one());
}

#[test]
fn alphas_hold_consecutive_powers() {
    let a = Alphas::new(fp(3), 4);
    assert_eq!(a.get(0), Some(fp(1)));
    assert_eq!(a.get(1), Some(fp(3)));
    assert_eq!(a.get(2), Some(fp(9)));
    assert_eq!(a.get(3), Some(fp(27)));
    assert_eq!(a.get(4), None);
}

#[test]
fn alphas_combine_linearly() {
    let a = Alphas::new(fp(3), 3);
    let b = Alphas::new(fp(5), 3);
    let r = fp(7);
    let c = Alphas::combine(a, b, r).unwrap();
    // 3^2 + 7 * 5^2 = 9 + 175 = 184 = 83 mod 101
    assert_eq!(c.get(2), Some(fp(83)));
    assert_eq!(c.get(3), None);
}

#[test]
fn alphas_of_unequal_ranges_do_not_combine() {
    let a = Alphas::new(fp(3), 3);
    let b = Alphas::new(fp(5), 2);
    assert!(Alphas::combine(a, b, fp(7)).is_none());
}

#[test]
fn commitment_is_homomorphic() {
    let key = CommitmentKey::new(4);
    let a = vec![fp(4), fp(9), fp(1), fp(55)];
    let b = vec![fp(7), fp(0), fp(32), fp(2)];
    let r = fp(13);
    let mixed: Vec<Fp> = a.iter().zip(b.iter()).map(|(x, y)| x.add(r.mul(*y))).collect();
    assert_eq!(key.commit(&mixed), key.commit(&a).add(r.mul(key.commit(&b))));
}

#[test]
fn commitment_depends_on_every_entry() {
    let key = CommitmentKey::new(2);
    let a = vec![fp(4), fp(9)];
    let b = vec![fp(4), fp(10)];
    assert_ne!(key.commit(&a), key.commit(&b));
}

#[test]
fn transcript_is_deterministic_and_order_sensitive() {
    let mut t1 = Transcript::new();
    t1.absorb(fp(4));
    t1.absorb(fp(9));
    let c1 = t1.challenge();

    let mut t2 = Transcript::new();
    t2.absorb(fp(4));
    t2.absorb(fp(9));
    assert_eq!(t2.challenge(), c1);

    let mut t3 = Transcript::new();
    t3.absorb(fp(9));
    t3.absorb(fp(4));
    assert_ne!(t3.challenge(), c1);
}

#[test]
fn consecutive_challenges_differ() {
    let mut t = Transcript::new();
    t.absorb(fp(4));
    let c1 = t.challenge();
    let c2 = t.challenge();
    assert_ne!(c1, c2);
}
