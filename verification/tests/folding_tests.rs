// End-to-end behavior of the decomposable folding scheme: an "add" gate and a
// "subtract" gate over three witness columns, two selector indicator columns,
// folded pairwise and then folded together, every stage checked.

use folding::checker::ExtendedProvider;
use folding::commit::CommitmentKey;
use folding::env::FoldingEnv;
use folding::expr::CurrOrNext;
use folding::expr::FoldingExpr;
use folding::field::Fp;
use folding::alphas::Alphas;
use folding::pair::Instance;
use folding::pair::Witness;
use folding::scheme::DecomposableFoldingScheme;
use folding::transcript::Transcript;

const N_REGULAR: usize = 3;
const N_COLS: usize = 5;
const N_CHALLENGES: usize = 3;
const N_ALPHAS: usize = 2;
const ROWS: usize = 2;

fn cell(col: usize) -> FoldingExpr {
    FoldingExpr::Cell { col, row: CurrOrNext::Curr }
}

// the "add" gate: A + B - C must vanish where its selector is one
fn add_constraint() -> FoldingExpr {
    FoldingExpr::Sub(
        Box::new(FoldingExpr::Add(Box::new(cell(0)), Box::new(cell(1)))),
        Box::new(cell(2)),
    )
}

// the "subtract" gate: A - B - C must vanish where its selector is one
fn sub_constraint() -> FoldingExpr {
    FoldingExpr::Sub(
        Box::new(FoldingExpr::Sub(Box::new(cell(0)), Box::new(cell(1)))),
        Box::new(cell(2)),
    )
}

fn make_scheme() -> (DecomposableFoldingScheme, FoldingExpr) {
    DecomposableFoldingScheme::new(
        vec![vec![add_constraint()], vec![sub_constraint()]],
        vec![],
        N_REGULAR,
        N_CHALLENGES,
        ROWS,
    )
    .unwrap()
}

fn fp(v: u64) -> Fp {
    Fp::new(v)
}

fn table(vals: [u64; ROWS]) -> Vec<Fp> {
    vals.iter().map(|v| fp(*v)).collect()
}

fn witness_from(cols: [[u64; ROWS]; N_COLS]) -> Witness {
    Witness::new(cols.iter().map(|c| table(*c)).collect()).unwrap()
}

// an "add" witness: c = a + b, the add selector on, the sub selector off
fn add_witness(a: [u64; ROWS], b: [u64; ROWS]) -> Witness {
    let c = [a[0] + b[0], a[1] + b[1]];
    witness_from([a, b, c, [1, 1], [0, 0]])
}

// a "subtract" witness: c = a - b (in the field), selectors the other way
fn sub_witness(a: [u64; ROWS], b: [u64; ROWS]) -> Witness {
    let m = folding::field::MODULUS;
    let c = [(a[0] + m - b[0]) % m, (a[1] + m - b[1]) % m];
    witness_from([a, b, c, [0, 0], [1, 1]])
}

// commits every column and fixes the public data of a fresh pair
fn instance_from_witness(w: &Witness, key: &CommitmentKey, alpha: u64) -> Instance {
    let commitments = w.cols.iter().map(|c| key.commit(c)).collect();
    Instance {
        commitments,
        challenges: vec![fp(7), fp(11), fp(13)],
        alphas: Alphas::new(fp(alpha), N_ALPHAS),
        u: Fp::one(),
        error_commitment: Fp::zero(),
    }
}

fn check_pair(instance: Instance, witness: Witness, e: &FoldingExpr) -> (Instance, Witness) {
    let checker = ExtendedProvider::new(instance, witness);
    assert!(checker.check(e).is_ok());
    (checker.instance, checker.witness)
}

// folding two valid fresh pairs of one gate yields a pair the checker accepts
#[test]
fn completeness_fresh_add_pairs() {
    let (scheme, final_constraint) = make_scheme();
    let key = CommitmentKey::new(ROWS);
    let mut transcript = Transcript::new();

    let w1 = add_witness([4, 2], [2, 1]);
    let i1 = instance_from_witness(&w1, &key, 19);
    let w2 = add_witness([5, 4], [6, 3]);
    let i2 = instance_from_witness(&w2, &key, 23);

    let out = scheme
        .fold_instance_witness_pair((i1, w1), (i2, w2), Some(0), &mut transcript)
        .unwrap();
    assert_eq!(out.cross_0.len(), ROWS);
    assert_eq!(out.cross_1.len(), ROWS);
    check_pair(out.instance, out.witness, &final_constraint);
}

// the worked example end to end: two add pairs folded, two subtract pairs
// folded, and the two relaxed results folded into one mixed pair, all passing
#[test]
fn end_to_end_mixed_fold() {
    let (scheme, final_constraint) = make_scheme();
    let key = CommitmentKey::new(ROWS);
    let mut transcript = Transcript::new();

    let left = {
        let w1 = add_witness([4, 2], [2, 1]);
        let i1 = instance_from_witness(&w1, &key, 19);
        let w2 = add_witness([5, 4], [6, 3]);
        let i2 = instance_from_witness(&w2, &key, 23);
        let out = scheme
            .fold_instance_witness_pair((i1, w1), (i2, w2), Some(0), &mut transcript)
            .unwrap();
        check_pair(out.instance, out.witness, &final_constraint)
    };
    let right = {
        let w1 = sub_witness([4, 2], [2, 1]);
        let i1 = instance_from_witness(&w1, &key, 29);
        let w2 = sub_witness([5, 4], [6, 3]);
        let i2 = instance_from_witness(&w2, &key, 31);
        let out = scheme
            .fold_instance_witness_pair((i1, w1), (i2, w2), Some(1), &mut transcript)
            .unwrap();
        check_pair(out.instance, out.witness, &final_constraint)
    };
    let out = scheme
        .fold_instance_witness_pair(left, right, None, &mut transcript)
        .unwrap();
    check_pair(out.instance, out.witness, &final_constraint);
}

// combining instances is linear in every commitment and challenge
#[test]
fn instance_combination_linearity() {
    let key = CommitmentKey::new(ROWS);
    let w1 = add_witness([4, 2], [2, 1]);
    let i1 = instance_from_witness(&w1, &key, 19);
    let w2 = add_witness([5, 4], [6, 3]);
    let i2 = instance_from_witness(&w2, &key, 23);
    let r = fp(37);

    let expected_coms: Vec<Fp> = i1
        .commitments
        .iter()
        .zip(i2.commitments.iter())
        .map(|(a, b)| a.add(r.mul(*b)))
        .collect();
    let expected_chals: Vec<Fp> = i1
        .challenges
        .iter()
        .zip(i2.challenges.iter())
        .map(|(a, b)| a.add(r.mul(*b)))
        .collect();
    let c = Instance::combine(i1, i2, r).unwrap();
    assert_eq!(c.commitments, expected_coms);
    assert_eq!(c.challenges, expected_chals);
    assert_eq!(c.u, fp(1).add(r.mul(fp(1))));
}

// combining witnesses keeps the row count; unequal row counts are rejected
#[test]
fn witness_row_count_invariant() {
    let a = add_witness([4, 2], [2, 1]);
    let b = add_witness([5, 4], [6, 3]);
    let c = Witness::combine(a, b, fp(5)).unwrap();
    assert_eq!(c.rows(), ROWS);

    let short = Witness::new(vec![vec![fp(1)]; N_COLS]).unwrap();
    let tall = add_witness([4, 2], [2, 1]);
    assert!(Witness::combine(short, tall, fp(5)).is_err());
}

// tables of uneven length are rejected at witness construction
#[test]
fn witness_uneven_tables_rejected() {
    assert!(Witness::new(vec![vec![fp(1), fp(2)], vec![fp(3)]]).is_err());
}

// an unknown selector is rejected, and so is a pair of the wrong shape
#[test]
fn fold_rejects_bad_inputs() {
    let (scheme, _) = make_scheme();
    let key = CommitmentKey::new(ROWS);
    let mut transcript = Transcript::new();

    let w1 = add_witness([4, 2], [2, 1]);
    let i1 = instance_from_witness(&w1, &key, 19);
    let w2 = add_witness([5, 4], [6, 3]);
    let i2 = instance_from_witness(&w2, &key, 23);
    assert!(scheme
        .fold_instance_witness_pair((i1, w1), (i2, w2), Some(9), &mut transcript)
        .is_err());

    let w3 = add_witness([4, 2], [2, 1]);
    let i3 = instance_from_witness(&w3, &key, 19);
    let w4 = Witness::new(vec![vec![fp(1)]; N_COLS]).unwrap();
    let i4 = instance_from_witness(&w4, &CommitmentKey::new(1), 23);
    assert!(scheme
        .fold_instance_witness_pair((i3, w3), (i4, w4), Some(0), &mut transcript)
        .is_err());
}

// folding an invalid pair with a valid one fails the checker whatever the
// challenge: the fraction of accidentally passing challenges is far below
// the constraint degree over the field size
#[test]
fn soundness_over_every_challenge() {
    let (_scheme, final_constraint) = make_scheme();
    let key = CommitmentKey::new(ROWS);

    let mut passing: u64 = 0;
    for r_val in 0..folding::field::MODULUS {
        let r = fp(r_val);
        // the left pair deliberately violates the add gate on row 0
        let wl = witness_from([[4, 2], [2, 1], [7, 3], [1, 1], [0, 0]]);
        let il = instance_from_witness(&wl, &key, 19);
        let wr = add_witness([5, 4], [6, 3]);
        let ir = instance_from_witness(&wr, &key, 23);

        // cross terms of the expression the fold would use
        let env = FoldingEnv::new(N_REGULAR, &il, &ir, &wl, &wr);
        let mut t0 = Vec::new();
        let mut t1 = Vec::new();
        for row in 0..ROWS {
            let p = folding::env::eval_poly(&final_constraint, &env, row);
            t0.push(p.c1);
            t1.push(p.c2);
        }
        let r2 = r.mul(r);
        let r3 = r2.mul(r);
        let mut error = Vec::new();
        for row in 0..ROWS {
            let el = wl.error[row];
            let er = wr.error[row];
            error.push(el.add(t0[row].mul(r).add(t1[row].mul(r2).add(er.mul(r3)))));
        }
        let folded_i = Instance::combine(il, ir, r).unwrap();
        let mut folded_w = Witness::combine(wl, wr, r).unwrap();
        folded_w.error = error;
        let checker = ExtendedProvider::new(folded_i, folded_w);
        if checker.check(&final_constraint).is_ok() {
            passing += 1;
        }
    }
    // one violated side against a valid side never folds into a valid pair
    assert_eq!(passing, 0);
}

// two invalid pairs can only cancel on the handful of challenges that solve
// a cubic: at most the constraint degree, out of the whole field
#[test]
fn soundness_bound_two_invalid_pairs() {
    let (_, final_constraint) = make_scheme();
    let key = CommitmentKey::new(ROWS);

    let mut passing: u64 = 0;
    for r_val in 0..folding::field::MODULUS {
        let r = fp(r_val);
        let wl = witness_from([[4, 2], [2, 1], [7, 3], [1, 1], [0, 0]]);
        let il = instance_from_witness(&wl, &key, 19);
        let wr = witness_from([[5, 4], [6, 3], [12, 7], [1, 1], [0, 0]]);
        let ir = instance_from_witness(&wr, &key, 23);

        let env = FoldingEnv::new(N_REGULAR, &il, &ir, &wl, &wr);
        let mut t0 = Vec::new();
        let mut t1 = Vec::new();
        for row in 0..ROWS {
            let p = folding::env::eval_poly(&final_constraint, &env, row);
            t0.push(p.c1);
            t1.push(p.c2);
        }
        let r2 = r.mul(r);
        let r3 = r2.mul(r);
        let mut error = Vec::new();
        for row in 0..ROWS {
            let el = wl.error[row];
            let er = wr.error[row];
            error.push(el.add(t0[row].mul(r).add(t1[row].mul(r2).add(er.mul(r3)))));
        }
        let folded_i = Instance::combine(il, ir, r).unwrap();
        let mut folded_w = Witness::combine(wl, wr, r).unwrap();
        folded_w.error = error;
        let checker = ExtendedProvider::new(folded_i, folded_w);
        if checker.check(&final_constraint).is_ok() {
            passing += 1;
        }
    }
    assert!(passing <= 3);
}

// a row claiming two gates at once is flagged by the checker unless it
// satisfies both gates: selector exclusivity is the callers' precondition
#[test]
fn overlapping_selectors_flagged() {
    let (_, final_constraint) = make_scheme();
    let key = CommitmentKey::new(ROWS);
    // c = a + b holds, c = a - b does not, yet both selectors claim the row
    let w = witness_from([[4, 2], [2, 1], [6, 3], [1, 1], [1, 1]]);
    let i = instance_from_witness(&w, &key, 19);
    let checker = ExtendedProvider::new(i, w);
    assert!(checker.check(&final_constraint).is_err());
}

// each way to misconfigure the scheme is reported as its own error
#[test]
fn builder_rejects_bad_constraints() {
    // a gate constraint of degree two cannot be carried by two cross terms
    let quadratic = FoldingExpr::Mul(Box::new(cell(0)), Box::new(cell(1)));
    assert_eq!(
        DecomposableFoldingScheme::new(vec![vec![quadratic]], vec![], N_REGULAR, N_CHALLENGES,
            ROWS)
            .unwrap_err(),
        folding::errors::FoldingError::DegreeTooHigh,
    );
    // a constraint may not use the builder's reserved atoms
    let reserved = FoldingExpr::Alpha(0);
    assert_eq!(
        DecomposableFoldingScheme::new(vec![vec![reserved]], vec![], N_REGULAR, N_CHALLENGES,
            ROWS)
            .unwrap_err(),
        folding::errors::FoldingError::ReservedAtom,
    );
    // a constraint may not name a column outside the layout
    let unmapped = cell(9);
    assert_eq!(
        DecomposableFoldingScheme::new(vec![vec![unmapped]], vec![], N_REGULAR, N_CHALLENGES,
            ROWS)
            .unwrap_err(),
        folding::errors::FoldingError::UnmappedAtom,
    );
}

// instances of different shapes do not combine
#[test]
fn instance_shape_mismatch_rejected() {
    let key = CommitmentKey::new(ROWS);
    let w = add_witness([4, 2], [2, 1]);
    let a = instance_from_witness(&w, &key, 19);
    let mut b = instance_from_witness(&w, &key, 23);
    b.commitments.pop();
    assert_eq!(
        Instance::combine(a, b, fp(3)).unwrap_err(),
        folding::errors::FoldingError::MismatchedShape,
    );
}

// a pair whose shape does not cover the expression is a configuration error
#[test]
fn checker_rejects_unmapped_expression() {
    let key = CommitmentKey::new(ROWS);
    let w = add_witness([4, 2], [2, 1]);
    let i = instance_from_witness(&w, &key, 19);
    let checker = ExtendedProvider::new(i, w);
    assert!(matches!(
        checker.check(&cell(9)),
        Err(folding::checker::CheckerError::Config(_))
    ));
}

// the checker reports the first violated row and the violation amount
#[test]
fn checker_reports_first_violation() {
    let (_, final_constraint) = make_scheme();
    let key = CommitmentKey::new(ROWS);
    let w = witness_from([[4, 2], [2, 1], [6, 9], [1, 1], [0, 0]]);
    let i = instance_from_witness(&w, &key, 19);
    let checker = ExtendedProvider::new(i, w);
    match checker.check(&final_constraint) {
        Err(folding::checker::CheckerError::Violation { row, value }) => {
            assert_eq!(row, 1);
            assert_ne!(value, Fp::zero());
        },
        _ => panic!("expected a violation"),
    }
}
