//! Gradient-step and TD-target behaviour on concrete values.

use dqn_agent::qfn::QFunction;
use dqn_agent::qfn::SgdOptimizer;
use dqn_agent::qfn::TrainOutcome;
use dqn_agent::trainer::td_target;

fn small_net() -> QFunction {
    QFunction {
        obs_dim: 2,
        weights: vec![vec![1_000_000, -500_000], vec![250_000, 0]],
        bias: vec![100_000, -100_000],
    }
}

#[test]
fn forward_computes_scaled_dot_plus_bias() {
    let net = small_net();
    // x = (1.0, 2.0); q0 = 0.1 + (1.0*1.0 - 0.5*2.0) = 0.1,
    // and q1 = -0.1 + (0.25*1.0 + 0.0*2.0) = 0.15.
    let q = net.forward(&vec![1_000_000, 2_000_000]);
    assert_eq!(q, vec![100_000, 150_000]);
}

#[test]
fn zero_error_step_changes_nothing() {
    let mut net = small_net();
    let mut opt = SgdOptimizer::new(100_000, Some(900_000), 2, 2);
    let x = vec![1_000_000, 2_000_000];
    let current = net.forward(&x)[0];
    let outcome = net.gradient_step(&mut opt, &x, 0, current);
    assert!(matches!(outcome, TrainOutcome::Applied { loss: 0 }));
    assert_eq!(net.forward(&x), small_net().forward(&x));
    assert_eq!(net.weights, small_net().weights);
    assert_eq!(net.bias, small_net().bias);
}

#[test]
fn gradient_step_moves_prediction_toward_target() {
    let mut net = small_net();
    let mut opt = SgdOptimizer::new(100_000, None, 2, 2);
    let x = vec![1_000_000, 2_000_000];
    let before = net.forward(&x)[0];
    let target = before + 800_000;
    let outcome = net.gradient_step(&mut opt, &x, 0, target);
    assert!(matches!(outcome, TrainOutcome::Applied { .. }));
    let after = net.forward(&x)[0];
    assert!((target - after).abs() < (target - before).abs());
    // The other action's parameters are untouched.
    assert_eq!(net.weights[1], small_net().weights[1]);
    assert_eq!(net.bias[1], small_net().bias[1]);
}

#[test]
fn oversized_error_skips_update() {
    let mut net = small_net();
    let mut opt = SgdOptimizer::new(100_000, Some(900_000), 2, 2);
    let x = vec![1_000_000, 2_000_000];
    // Target 2000 units away: far beyond the error clip of 1000.
    let outcome = net.gradient_step(&mut opt, &x, 0, 2_000_000_000);
    assert_eq!(outcome, TrainOutcome::SkippedLargeError);
    assert_eq!(net.weights, small_net().weights);
    assert_eq!(net.bias, small_net().bias);
}

#[test]
fn out_of_range_weight_skips_update() {
    // Bias already at the cap; a large admissible error would push it out.
    let mut net = QFunction { obs_dim: 1, weights: vec![vec![0]], bias: vec![100_000_000] };
    let mut opt = SgdOptimizer::new(100_000, None, 1, 1);
    let x = vec![0];
    let current = net.forward(&x)[0];
    let outcome = net.gradient_step(&mut opt, &x, 0, current + 1_000_000_000);
    assert_eq!(outcome, TrainOutcome::SkippedWeightLimit);
    assert_eq!(net.bias[0], 100_000_000);
    assert_eq!(net.weights[0][0], 0);
}

#[test]
fn batch_of_one_matches_single_step() {
    let x = vec![1_000_000, 2_000_000];
    let mut single = small_net();
    let mut opt_s = SgdOptimizer::new(100_000, Some(900_000), 2, 2);
    let target = single.forward(&x)[0] + 300_000;
    single.gradient_step(&mut opt_s, &x, 0, target);

    let mut batched = small_net();
    let mut opt_b = SgdOptimizer::new(100_000, Some(900_000), 2, 2);
    batched.gradient_step_batch(&mut opt_b, &vec![x.clone()], &vec![0], &vec![target]);

    assert_eq!(single.forward(&x), batched.forward(&x));
    assert_eq!(single.weights, batched.weights);
    assert_eq!(single.bias, batched.bias);
}

#[test]
fn batch_zero_error_reports_zero_loss_and_changes_nothing() {
    let mut net = small_net();
    let mut opt = SgdOptimizer::new(100_000, Some(900_000), 2, 2);
    let x1 = vec![1_000_000, 2_000_000];
    let x2 = vec![-500_000, 250_000];
    let t1 = net.forward(&x1)[0];
    let t2 = net.forward(&x2)[1];
    let outcome = net.gradient_step_batch(
        &mut opt,
        &vec![x1.clone(), x2.clone()],
        &vec![0, 1],
        &vec![t1, t2],
    );
    assert!(matches!(outcome, TrainOutcome::Applied { loss: 0 }));
    assert_eq!(net.weights, small_net().weights);
    assert_eq!(net.bias, small_net().bias);
}

#[test]
fn batch_loss_is_mean_of_squared_errors() {
    let mut net = small_net();
    let mut opt = SgdOptimizer::new(100_000, None, 2, 2);
    let x1 = vec![1_000_000, 2_000_000];
    let x2 = vec![-500_000, 250_000];
    let t1 = net.forward(&x1)[0] + 400_000;
    let t2 = net.forward(&x2)[1] - 200_000;
    let outcome = net.gradient_step_batch(
        &mut opt,
        &vec![x1.clone(), x2.clone()],
        &vec![0, 1],
        &vec![t1, t2],
    );
    let d1: i128 = 400_000;
    let d2: i128 = 200_000;
    let expected = (d1 * d1 + d2 * d2) / 2;
    assert!(matches!(outcome, TrainOutcome::Applied { loss } if loss == expected));
}

#[test]
fn batch_with_one_oversized_error_skips_whole_update() {
    let mut net = small_net();
    let mut opt = SgdOptimizer::new(100_000, None, 2, 2);
    let x1 = vec![1_000_000, 2_000_000];
    let x2 = vec![-500_000, 250_000];
    let t1 = net.forward(&x1)[0];
    let outcome = net.gradient_step_batch(
        &mut opt,
        &vec![x1.clone(), x2.clone()],
        &vec![0, 1],
        &vec![t1, 2_000_000_000],
    );
    assert_eq!(outcome, TrainOutcome::SkippedLargeError);
    assert_eq!(net.weights, small_net().weights);
    assert_eq!(net.bias, small_net().bias);
}

#[test]
fn td_target_is_reward_plus_discounted_max() {
    // 1.0 + 0.5 * max(2.0, 1.0) = 2.0.
    assert_eq!(td_target(1_000_000, 500_000, &vec![2_000_000, 1_000_000]), 2_000_000);
    // Negative values: 0 + 0.99 * max(-1.0, -2.0) = -0.99.
    assert_eq!(td_target(0, 990_000, &vec![-1_000_000, -2_000_000]), -990_000);
}
