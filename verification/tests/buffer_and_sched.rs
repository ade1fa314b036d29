//! Ring-buffer and exploration-schedule behaviour on concrete values.

use dqn_agent::replay::BufferError;
use dqn_agent::replay::ReplayBuffer;
use dqn_agent::replay::Transition;
use dqn_agent::rng::seed_rng;
use dqn_agent::sched::greedy_action;
use dqn_agent::sched::select_action;
use dqn_agent::sched::ExplorationScheduler;

fn t(reward: i64) -> Transition {
    Transition { state: vec![0, 0], action: 0, reward, next_state: vec![0, 0] }
}

#[test]
fn ring_overwrite_keeps_most_recent() {
    let mut buf = ReplayBuffer::new(3);
    buf.store(t(1));
    buf.store(t(2));
    buf.store(t(3));
    buf.store(t(4));
    assert_eq!(buf.len(), 3);
    // The fourth store overwrote slot 0; slots 1 and 2 keep T2 and T3.
    assert_eq!(buf.get(0).reward, 4);
    assert_eq!(buf.get(1).reward, 2);
    assert_eq!(buf.get(2).reward, 3);
}

#[test]
fn len_is_min_of_stores_and_capacity() {
    let mut buf = ReplayBuffer::new(3);
    assert_eq!(buf.len(), 0);
    buf.store(t(1));
    assert_eq!(buf.len(), 1);
    buf.store(t(2));
    assert_eq!(buf.len(), 2);
    for k in 3..10 {
        buf.store(t(k));
        assert_eq!(buf.len(), 3);
    }
}

#[test]
fn sample_from_empty_buffer_fails() {
    let buf = ReplayBuffer::new(5);
    let mut rng = seed_rng(7);
    assert!(matches!(buf.sample(3, &mut rng), Err(BufferError::Empty)));
}

#[test]
fn sample_draws_stored_transitions() {
    let mut buf = ReplayBuffer::new(4);
    buf.store(t(10));
    buf.store(t(20));
    buf.store(t(30));
    let mut rng = seed_rng(99);
    let drawn = buf.sample(8, &mut rng).unwrap();
    assert_eq!(drawn.len(), 8);
    for d in &drawn {
        assert!(d.reward == 10 || d.reward == 20 || d.reward == 30);
    }
}

#[test]
fn epsilon_starts_at_max_and_decays_to_min() {
    // eps_max 1.0, eps_min 0.01, retention exp(-0.01) per time unit.
    let mut sched = ExplorationScheduler::new(1_000_000, 10_000, 990_050);
    assert_eq!(sched.epsilon(), 1_000_000);
    let mut prev = sched.epsilon();
    for _ in 0..3000 {
        sched.advance();
        let eps = sched.epsilon();
        assert!(eps <= prev);
        assert!((10_000..=1_000_000).contains(&eps));
        prev = eps;
    }
    // After 3000 time units the decay factor has bottomed out exactly.
    assert_eq!(sched.epsilon(), 10_000);
}

#[test]
fn epsilon_formula_is_exact() {
    // Retention one half: after one tick epsilon is the midpoint.
    let mut sched = ExplorationScheduler::new(1_000_000, 0, 500_000);
    sched.advance();
    assert_eq!(sched.epsilon(), 500_000);
    sched.advance();
    assert_eq!(sched.epsilon(), 250_000);
}

#[test]
fn decay_follows_elapsed_time_not_call_count() {
    // Many small steps and one jump to the same elapsed time agree.
    let mut stepped = ExplorationScheduler::new(1_000_000, 10_000, 990_050);
    let mut jumped = ExplorationScheduler::new(1_000_000, 10_000, 990_050);
    for _ in 0..50 {
        stepped.advance();
    }
    jumped.advance_to(50);
    assert_eq!(stepped.epsilon(), jumped.epsilon());
    // Re-reading the same elapsed time changes nothing.
    jumped.advance_to(50);
    assert_eq!(stepped.epsilon(), jumped.epsilon());
}

#[test]
fn greedy_action_breaks_ties_low() {
    assert_eq!(greedy_action(&vec![1, 3, 3, 2]), 1);
    assert_eq!(greedy_action(&vec![5]), 0);
    assert_eq!(greedy_action(&vec![-7, -7, -9]), 0);
    assert_eq!(greedy_action(&vec![0, -1, 4, 4]), 2);
}

#[test]
fn select_action_greedy_when_not_exploring() {
    let q = vec![10, 40, 40, 20];
    // Epsilon zero: any non-negative draw exploits.
    assert_eq!(select_action(&q, 0, 0, 3), 1);
    // Draw at or above epsilon exploits too.
    assert_eq!(select_action(&q, 500_000, 500_000, 3), 1);
}

#[test]
fn select_action_random_when_exploring() {
    let q = vec![10, 40, 40, 20];
    // Draw under epsilon takes the supplied random index.
    assert_eq!(select_action(&q, 1_000_000, 0, 3), 3);
    assert_eq!(select_action(&q, 500_000, 499_999, 2), 2);
    // A corrupted random index is clamped into range.
    assert_eq!(select_action(&q, 1_000_000, 0, 99), 3);
}
