//! Whole-agent sessions: determinism, exploration coverage, and the
//! sanity direction of the TD update.

use dqn_agent::agent::Agent;
use dqn_agent::agent::AgentConfig;
use dqn_agent::qfn::QFunction;
use dqn_agent::qfn::TrainOutcome;

fn obs(step: u64) -> Vec<i64> {
    let wiggle = ((step % 5) as i64) * 100_000;
    vec![1_000_000 + wiggle, 2_000_000 - wiggle, 500_000]
}

#[test]
fn config_check_matches_validity() {
    let good = AgentConfig::default_for(3, 4, 1);
    assert!(good.check());
    let mut bad = AgentConfig::default_for(3, 4, 1);
    bad.discount = 0;
    assert!(!bad.check());
    let mut bad2 = AgentConfig::default_for(3, 4, 1);
    bad2.eps_min = bad2.eps_max + 1;
    assert!(!bad2.check());
}

#[test]
fn fixed_seed_reproduces_actions_and_parameters() {
    let cfg = AgentConfig::default_for(3, 4, 42);
    let mut a = Agent::new(&cfg);
    let mut b = Agent::new(&cfg);
    let mut actions_a = Vec::new();
    let mut actions_b = Vec::new();
    for step in 0..60u64 {
        let x = obs(step);
        let act_a = a.act(&x);
        let act_b = b.act(&x);
        actions_a.push(act_a);
        actions_b.push(act_b);
        let reward = (step % 3) as i64 * 50_000;
        a.store_and_learn(x.clone(), act_a, reward, obs(step + 1), step);
        b.store_and_learn(x.clone(), act_b, reward, obs(step + 1), step);
    }
    assert_eq!(actions_a, actions_b);
    let x = obs(0);
    assert_eq!(a.online.forward(&x), b.online.forward(&x));
    assert_eq!(a.target.forward(&x), b.target.forward(&x));
    assert_eq!(a.epsilon(), b.epsilon());
}

#[test]
fn full_exploration_visits_every_action() {
    let mut cfg = AgentConfig::default_for(3, 4, 7);
    // Pin epsilon at 1.0 so every tick explores.
    cfg.eps_min = 1_000_000;
    cfg.retain = 1_000_000;
    let mut agent = Agent::new(&cfg);
    let mut counts = [0usize; 4];
    let x = obs(0);
    for _ in 0..1000 {
        let a = agent.act(&x);
        assert!(a < 4);
        counts[a] += 1;
    }
    // Uniform draws: each action should appear far more often than a
    // heavily biased stream would allow.
    for &c in &counts {
        assert!(c > 150, "action counts not roughly uniform: {:?}", counts);
    }
}

#[test]
fn epsilon_zero_always_picks_greedy_target_action() {
    let mut cfg = AgentConfig::default_for(2, 3, 5);
    cfg.eps_max = 0;
    cfg.eps_min = 0;
    let mut agent = Agent::new(&cfg);
    // Pin the target network so the greedy action is known: action 1
    // scores 1.0 on this observation, the others 0.
    agent.target = QFunction {
        obs_dim: 2,
        weights: vec![vec![0, 0], vec![1_000_000, 0], vec![0, 0]],
        bias: vec![0, 0, 0],
    };
    let x = vec![1_000_000, 0];
    for _ in 0..50 {
        assert_eq!(agent.act(&x), 1);
    }
}

#[test]
fn agent_tick_fills_buffer_and_decays_epsilon() {
    let mut cfg = AgentConfig::default_for(3, 4, 3);
    cfg.buffer_capacity = 3;
    let mut agent = Agent::new(&cfg);
    let eps0 = agent.epsilon();
    for step in 0..5u64 {
        let x = obs(step);
        let a = agent.act(&x);
        agent.store_and_learn(x, a, 0, obs(step + 1), step + 1);
    }
    assert_eq!(agent.buffer.len(), 3);
    assert!(agent.epsilon() < eps0);
    assert_eq!(agent.trainer.steps, 5);
}

#[test]
fn zero_rewards_drive_prediction_toward_zero() {
    let mut cfg = AgentConfig::default_for(1, 1, 11);
    cfg.momentum = None;
    cfg.discount = 500_000;
    cfg.sync_interval = 1;
    let mut agent = Agent::new(&cfg);
    let x = vec![1_000_000];
    let before = agent.online.forward(&x)[0].abs();
    for _ in 0..300 {
        let outcome = agent.store_and_learn(x.clone(), 0, 0, x.clone(), 0);
        assert!(matches!(outcome, TrainOutcome::Applied { .. }));
    }
    let after = agent.online.forward(&x)[0].abs();
    assert!(after <= 10, "prediction did not converge: before {before}, after {after}");
    assert!(after <= before);
}
