use combat_core::rng::{RandState, RandValue};

fn consts(v: &RandValue) -> Vec<i64> {
    match v {
        RandValue::Sum(ops) => ops
            .iter()
            .map(|o| match o {
                RandValue::Const(i) => *i,
                _ => panic!("expected a constant operand"),
            })
            .collect(),
        _ => panic!("expected a sum"),
    }
}

#[test]
fn scripted_die_draws_in_order_with_clamping() {
    let mut rng = RandState::scripted(vec![3, 100, 0]);
    let d = RandValue::die(6, 3);
    // 3 stays, 100 clamps to 6, 0 clamps to 1.
    assert_eq!(d.eval(&mut rng), 3 + 6 + 1);
}

#[test]
fn scripted_exhaustion_yields_ones() {
    let mut rng = RandState::scripted(vec![4]);
    let d = RandValue::die(6, 3);
    assert_eq!(d.eval(&mut rng), 4 + 1 + 1);
}

#[test]
fn const_eval_consumes_nothing() {
    let mut rng = RandState::scripted(vec![5, 5]);
    assert_eq!(RandValue::Const(7).eval(&mut rng), 7);
    // The script is untouched: the next die still sees 5 first.
    assert_eq!(RandValue::die(6, 1).eval(&mut rng), 5);
}

#[test]
fn sum_product_negate_eval() {
    let mut rng = RandState::scripted(vec![]);
    let s = RandValue::Sum(vec![RandValue::Const(2), RandValue::Const(3)]);
    assert_eq!(s.eval(&mut rng), 5);
    let p = RandValue::Product(vec![RandValue::Const(3), RandValue::Const(4)]);
    assert_eq!(p.eval(&mut rng), 12);
    let n = RandValue::Negate(Box::new(RandValue::Const(9)));
    assert_eq!(n.eval(&mut rng), -9);
}

#[test]
fn evaluation_order_is_left_to_right() {
    let mut rng = RandState::scripted(vec![2, 5]);
    let e = RandValue::die(6, 1).plus(RandValue::die(6, 1).scale(1));
    // Left operand takes the first scripted draw.
    let total = e.eval(&mut rng);
    assert_eq!(total, 7);
}

#[test]
fn repeatable_under_identical_seeds() {
    // Independently re-seeded identical sources give identical results.
    let e = RandValue::die(20, 5).plus(RandValue::die(6, 2));
    let mut a = RandState::seeded(42);
    let mut b = RandState::seeded(42);
    let ra: Vec<i64> = (0..10).map(|_| e.eval(&mut a)).collect();
    let rb: Vec<i64> = (0..10).map(|_| e.eval(&mut b)).collect();
    assert_eq!(ra, rb);
}

#[test]
fn repeatable_under_identical_scripts() {
    let e = RandValue::die(8, 4);
    let mut a = RandState::scripted(vec![1, 2, 3, 4]);
    let mut b = RandState::scripted(vec![1, 2, 3, 4]);
    assert_eq!(e.eval(&mut a), e.eval(&mut b));
}

#[test]
fn seeded_draws_stay_in_range_and_vary() {
    // Through the public evaluator: a d20 under rand's generator stays in
    // range and does not return one constant value.
    let mut rng = RandState::seeded(7);
    let d = RandValue::d20();
    let rolls: Vec<i64> = (0..40).map(|_| d.eval(&mut rng)).collect();
    assert!(rolls.iter().all(|r| (1..=20).contains(r)));
    assert!(rolls.iter().any(|r| *r != rolls[0]));
}

#[test]
fn scaling_a_die_multiplies_repetitions() {
    // Scaling a die term multiplies the repetition count.
    match RandValue::die(6, 2).scale(3) {
        RandValue::Die { faces, times } => {
            assert_eq!(faces, 6);
            assert_eq!(times, 6);
        }
        _ => panic!("scaling a die term must stay a die term"),
    }
}

#[test]
fn scaling_matches_summed_copies_in_distribution() {
    // Scaled die vs the sum of unscaled copies, large-sample mean check.
    let k = 4u64;
    let n = 4000;
    let scaled = RandValue::die(6, 1).scale(k);
    let copy = RandValue::die(6, k);
    let mut a = RandState::seeded(1);
    let mut b = RandState::seeded(2);
    let ma: f64 = (0..n).map(|_| scaled.eval(&mut a) as f64).sum::<f64>() / n as f64;
    let mb: f64 = (0..n).map(|_| copy.eval(&mut b) as f64).sum::<f64>() / n as f64;
    // Both means sit near k * 3.5 = 14.
    assert!((ma - 14.0).abs() < 0.5, "mean of scaled term was {ma}");
    assert!((mb - 14.0).abs() < 0.5, "mean of summed copies was {mb}");
    assert!((ma - mb).abs() < 1.0);
}

#[test]
fn plus_flattens_sums() {
    // (a + b) + c, a + (b + c), and the one combined sum carry the same
    // multiset of leaf operands.
    let abc1 = (RandValue::Const(1).plus(RandValue::Const(2))).plus(RandValue::Const(3));
    let abc2 = RandValue::Const(1).plus(RandValue::Const(2).plus(RandValue::Const(3)));
    let abc3 = RandValue::Sum(vec![
        RandValue::Const(1),
        RandValue::Const(2),
        RandValue::Const(3),
    ]);
    let mut m1 = consts(&abc1);
    let mut m2 = consts(&abc2);
    let mut m3 = consts(&abc3);
    m1.sort();
    m2.sort();
    m3.sort();
    assert_eq!(m1, vec![1, 2, 3]);
    assert_eq!(m1, m2);
    assert_eq!(m2, m3);
}

#[test]
fn plus_const_folds_constants() {
    match RandValue::Const(40).plus_const(2) {
        RandValue::Const(i) => assert_eq!(i, 42),
        _ => panic!("adding a constant to a constant must fold"),
    }
}

#[test]
fn scale_folds_constants() {
    match RandValue::Const(21).scale(2) {
        RandValue::Const(i) => assert_eq!(i, 42),
        _ => panic!("scaling a constant must fold"),
    }
}

#[test]
fn saturating_eval_never_overflows() {
    let mut rng = RandState::scripted(vec![]);
    let big = RandValue::Product(vec![
        RandValue::Const(i64::MAX),
        RandValue::Const(4),
    ]);
    assert_eq!(big.eval(&mut rng), i64::MAX);
    let small = RandValue::Negate(Box::new(RandValue::Const(i64::MIN)));
    assert_eq!(small.eval(&mut rng), i64::MAX);
}
