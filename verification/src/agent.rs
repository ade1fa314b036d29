//! Agent orchestration: one control cycle per simulation tick.
//!
//! Each tick the host simulation asks the agent to act on the current
//! observation, applies the chosen action, and then reports the reward
//! and resulting observation back through `store_and_learn`, which
//! records the transition, trains on it, and advances the exploration
//! schedule.  The agent owns every piece of learning state explicitly:
//! both networks, the optimizer, the replay buffer, the schedule and
//! the random stream, all seeded once at construction, so a fixed seed
//! reproduces a whole session.  Ticks on which the host finds no (or
//! more than one) controllable vehicle are simply not forwarded to the
//! agent; skipping a tick leaves all of this state untouched.

use vstd::prelude::*;

verus! {

use crate::fixed::SCALE;
use crate::fixed::abs_int;
use crate::fixed::min_int;
use crate::qfn::ERR_CLIP;
use crate::qfn::LR_MAX;
use crate::qfn::MAX_OBS_DIM;
use crate::qfn::MOM_MAX;
use crate::qfn::QFunction;
use crate::qfn::TrainOutcome;
use crate::qfn::applied_params;
use crate::qfn::net_params_eq;
use crate::qfn::obs_ok;
use crate::qfn::unchanged_params;
use crate::qfn::update_fits;
use crate::qfn::zero_velocities;
use crate::replay::ReplayBuffer;
use crate::replay::Transition;
use crate::replay::TransitionModel;
use crate::rng::rand_below;
use crate::rng::seed_rng;
use crate::sched::ExplorationScheduler;
use crate::sched::is_greedy_choice;
use crate::sched::select_action;
use crate::trainer::R_MAX;
use crate::trainer::Trainer;
use crate::trainer::td_target_spec;

/// Everything needed to determine a training session's behaviour.
pub struct AgentConfig {
    pub buffer_capacity: usize,
    pub obs_dim: usize,
    pub action_count: usize,
    pub discount: i64,
    pub learning_rate: i64,
    pub momentum: Option<i64>,
    pub eps_max: i64,
    pub eps_min: i64,
    pub retain: i64,
    pub sync_interval: u64,
    pub seed: u64,
}

impl AgentConfig {
    pub open spec fn valid(self) -> bool {
        &&& 1 <= self.buffer_capacity
        &&& 1 <= self.obs_dim <= MAX_OBS_DIM
        &&& 1 <= self.action_count
        &&& 0 < self.discount < SCALE
        &&& 0 < self.learning_rate <= LR_MAX
        &&& match self.momentum {
            Option::None => true,
            Option::Some(mu) => 0 <= mu <= MOM_MAX,
        }
        &&& 0 <= self.eps_min <= self.eps_max <= SCALE
        &&& 0 <= self.retain <= SCALE
        &&& self.sync_interval > 0
    }

    /// Run-time validity test, for callers outside the verified world.
    pub fn check(&self) -> (r: bool)
        ensures
            r == self.valid(),
    {
        let mom_ok = match self.momentum {
            None => true,
            Some(mu) => 0 <= mu && mu <= MOM_MAX,
        };
        1 <= self.buffer_capacity && 1 <= self.obs_dim && self.obs_dim <= MAX_OBS_DIM
            && 1 <= self.action_count && 0 < self.discount && self.discount < SCALE
            && 0 < self.learning_rate && self.learning_rate <= LR_MAX && mom_ok
            && 0 <= self.eps_min && self.eps_min <= self.eps_max && self.eps_max <= SCALE
            && 0 <= self.retain && self.retain <= SCALE && self.sync_interval > 0
    }

    /// Stock configuration: capacity 50,000, discount 0.99, learning
    /// rate 0.1 with Nesterov momentum 0.9, epsilon from 1.0 down to
    /// 0.01 with per-tick retention exp(-0.01), sync every 100 steps.
    pub fn default_for(obs_dim: usize, action_count: usize, seed: u64) -> (r: AgentConfig)
        requires
            1 <= obs_dim <= MAX_OBS_DIM,
            1 <= action_count,
        ensures
            r.valid(),
            r.obs_dim == obs_dim,
            r.action_count == action_count,
            r.seed == seed,
            r.buffer_capacity == 50_000,
            r.discount == 990_000,
            r.learning_rate == 100_000,
            r.momentum == Some(900_000i64),
            r.eps_max == 1_000_000,
            r.eps_min == 10_000,
            r.retain == 990_050,
            r.sync_interval == 100,
    {
        AgentConfig {
            buffer_capacity: 50_000,
            obs_dim,
            action_count,
            discount: 990_000,
            learning_rate: 100_000,
            momentum: Some(900_000),
            eps_max: 1_000_000,
            eps_min: 10_000,
            retain: 990_050,
            sync_interval: 100,
            seed,
        }
    }
}

/// The online learner: networks, optimizer, buffer, schedule, and the
/// seeded random stream, exclusively owned.
pub struct Agent {
    pub online: QFunction,
    pub target: QFunction,
    pub buffer: ReplayBuffer,
    pub sched: ExplorationScheduler,
    pub trainer: Trainer,
    pub rng: rand::rngs::StdRng,
    pub action_count: usize,
    pub obs_dim: usize,
}

impl Agent {
    pub open spec fn wf(self) -> bool {
        &&& self.online.wf()
        &&& self.target.wf()
        &&& self.online.same_shape(self.target)
        &&& self.action_count as int == self.online.actions()
        &&& self.obs_dim == self.online.obs_dim
        &&& self.buffer.wf()
        &&& self.sched.wf()
        &&& self.trainer.wf_for(self.online.actions(), self.online.obs_dim as int)
    }

    /// Builds the whole learning state from one configuration: the
    /// online network randomly initialised from the seed, the target
    /// network an exact copy of it, the buffer empty, the schedule at
    /// its maximum, the optimizer at rest.
    pub fn new(cfg: &AgentConfig) -> (r: Agent)
        requires
            cfg.valid(),
        ensures
            r.wf(),
            r.action_count == cfg.action_count,
            r.obs_dim == cfg.obs_dim,
            net_params_eq(r.target, r.online),
            r.buffer.hist@ == Seq::<TransitionModel>::empty(),
            r.buffer.capacity == cfg.buffer_capacity,
            r.sched.eps_max == cfg.eps_max,
            r.sched.eps_min == cfg.eps_min,
            r.sched.retain == cfg.retain,
            r.sched.elapsed == 0,
            r.trainer.steps == 0,
            r.trainer.skipped == 0,
            r.trainer.discount == cfg.discount,
            r.trainer.sync_interval == cfg.sync_interval,
            r.trainer.opt.lr == cfg.learning_rate,
            r.trainer.opt.momentum == cfg.momentum,
            zero_velocities_everywhere(r.trainer, cfg.action_count as int, cfg.obs_dim as int),
    {
        let mut rng = seed_rng(cfg.seed);
        let online = QFunction::random(cfg.obs_dim, cfg.action_count, &mut rng);
        let mut target = QFunction::zeros(cfg.obs_dim, cfg.action_count);
        online.clone_parameters_into(&mut target);
        let buffer = ReplayBuffer::new(cfg.buffer_capacity);
        let sched = ExplorationScheduler::new(cfg.eps_max, cfg.eps_min, cfg.retain);
        let trainer = Trainer::new(
            cfg.discount,
            cfg.learning_rate,
            cfg.momentum,
            cfg.sync_interval,
            cfg.action_count,
            cfg.obs_dim,
        );
        Agent {
            online,
            target,
            buffer,
            sched,
            trainer,
            rng,
            action_count: cfg.action_count,
            obs_dim: cfg.obs_dim,
        }
    }

    /// The acting phase of one tick: scores the observation with the
    /// target network and chooses by the epsilon-greedy rule of
    /// `select_action`, drawing the exploration coin and the random
    /// action from the agent's own stream.  Touches nothing but that
    /// stream.  With exploration off (epsilon zero) every outcome is
    /// the greedy action on the target network's values.
    pub fn act(&mut self, obs: &Vec<i64>) -> (r: usize)
        requires
            old(self).wf(),
            obs_ok(obs@, old(self).obs_dim as int),
        ensures
            final(self).wf(),
            (r as int) < old(self).action_count as int,
            final(self).online == old(self).online,
            final(self).target == old(self).target,
            final(self).buffer == old(self).buffer,
            final(self).sched == old(self).sched,
            final(self).trainer == old(self).trainer,
            final(self).action_count == old(self).action_count,
            final(self).obs_dim == old(self).obs_dim,
            old(self).sched.epsilon_spec() == 0 ==> greedy_on_target(
                old(self).target,
                obs@,
                old(self).action_count as int,
                r as int,
            ),
    {
        let eps = self.sched.epsilon();
        let draw = rand_below(&mut self.rng, SCALE as u64);
        let ridx = rand_below(&mut self.rng, self.action_count as u64) as usize;
        let q = self.target.forward(obs);
        let chosen = select_action(&q, eps, draw as i64, ridx);
        proof {
            if old(self).sched.epsilon_spec() == 0 {
                let n = old(self).action_count as int;
                assert(is_greedy_choice(q@, chosen as int));
                assert forall|a: int| 0 <= a < n implies #[trigger] old(self).target.q_value(
                    obs@,
                    a,
                ) <= old(self).target.q_value(obs@, chosen as int) by {
                    assert(q@[a] <= q@[chosen as int]);
                }
                assert forall|a: int| 0 <= a < chosen as int implies #[trigger] old(
                    self,
                ).target.q_value(obs@, a) < old(self).target.q_value(obs@, chosen as int) by {
                    assert(q@[a] < q@[chosen as int]);
                }
            }
        }
        chosen
    }

    /// The learning phase of one tick: records the finished transition
    /// in the replay buffer, trains the online network on it against
    /// the target network's bootstrap value, and moves the exploration
    /// schedule's time reference to `elapsed`, the session time the
    /// host's clock reports.
    pub fn store_and_learn(
        &mut self,
        state: Vec<i64>,
        action: usize,
        reward: i64,
        next_state: Vec<i64>,
        elapsed: u64,
    ) -> (r: TrainOutcome)
        requires
            old(self).wf(),
            obs_ok(state@, old(self).obs_dim as int),
            obs_ok(next_state@, old(self).obs_dim as int),
            (action as int) < old(self).action_count as int,
            abs_int(reward as int) <= R_MAX,
            elapsed >= old(self).sched.elapsed,
            old(self).buffer.stores() < usize::MAX,
            old(self).trainer.steps < u64::MAX,
            old(self).trainer.skipped < u64::MAX,
        ensures
            final(self).wf(),
            final(self).action_count == old(self).action_count,
            final(self).obs_dim == old(self).obs_dim,
            final(self).buffer.capacity == old(self).buffer.capacity,
            final(self).buffer.hist@ == old(self).buffer.hist@.push(
                (TransitionModel {
                    state: state@,
                    action: action as int,
                    reward: reward as int,
                    next_state: next_state@,
                }),
            ),
            final(self).buffer.data@.len() == min_int(
                old(self).buffer.stores() + 1,
                old(self).buffer.capacity as int,
            ),
            final(self).sched.elapsed == elapsed,
            final(self).sched.epsilon_spec() <= old(self).sched.epsilon_spec(),
            final(self).sched.eps_max == old(self).sched.eps_max,
            final(self).sched.eps_min == old(self).sched.eps_min,
            final(self).sched.retain == old(self).sched.retain,
            final(self).trainer.steps == old(self).trainer.steps + 1,
            final(self).trainer.discount == old(self).trainer.discount,
            final(self).trainer.sync_interval == old(self).trainer.sync_interval,
            final(self).trainer.opt.lr == old(self).trainer.opt.lr,
            final(self).trainer.opt.momentum == old(self).trainer.opt.momentum,
            ({
                let tv = td_target_spec(
                    old(self).target,
                    reward as int,
                    old(self).trainer.discount as int,
                    next_state@,
                );
                let d = old(self).online.q_value(state@, action as int) - tv;
                &&& (abs_int(d) > ERR_CLIP ==> r == TrainOutcome::SkippedLargeError)
                &&& (abs_int(d) <= ERR_CLIP && !update_fits(
                    old(self).online,
                    old(self).trainer.opt,
                    state@,
                    action as int,
                    d,
                ) ==> r == TrainOutcome::SkippedWeightLimit)
                &&& (!(r matches TrainOutcome::Applied { .. }) ==> unchanged_params(
                    old(self).online,
                    final(self).online,
                    old(self).trainer.opt,
                    final(self).trainer.opt,
                ) && final(self).trainer.skipped == old(self).trainer.skipped + 1)
                &&& (abs_int(d) <= ERR_CLIP && update_fits(
                    old(self).online,
                    old(self).trainer.opt,
                    state@,
                    action as int,
                    d,
                ) ==> {
                    &&& r matches TrainOutcome::Applied { loss } && loss as int == d * d
                    &&& applied_params(
                        old(self).online,
                        final(self).online,
                        old(self).trainer.opt,
                        final(self).trainer.opt,
                        state@,
                        action as int,
                        d,
                    )
                    &&& final(self).trainer.skipped == old(self).trainer.skipped
                })
                &&& (d == 0 && zero_velocities(
                    old(self).trainer.opt,
                    old(self).obs_dim as int,
                    action as int,
                ) ==> r == (TrainOutcome::Applied { loss: 0 }) && unchanged_params(
                    old(self).online,
                    final(self).online,
                    old(self).trainer.opt,
                    final(self).trainer.opt,
                ))
            }),
            ({
                let synced = old(self).trainer.steps_since_sync + 1 == old(
                    self,
                ).trainer.sync_interval;
                &&& (synced ==> net_params_eq(final(self).target, final(self).online))
                &&& (!synced ==> net_params_eq(final(self).target, old(self).target))
            }),
    {
        let t = Transition { state, action, reward, next_state };
        let outcome = self.trainer.train(&mut self.online, &mut self.target, &t);
        self.buffer.store(t);
        self.sched.advance_to(elapsed);
        outcome
    }

    /// Current exploration probability, in fixed point.
    pub fn epsilon(&self) -> (r: i64)
        requires
            self.wf(),
        ensures
            r == self.sched.epsilon_spec(),
            self.sched.eps_min <= r <= self.sched.eps_max,
    {
        self.sched.epsilon()
    }
}

/// `r` is the index of the greatest of the network's first `n` values
/// on `x`, ties resolved to the lowest index.
pub open spec fn greedy_on_target(net: QFunction, x: Seq<i64>, n: int, r: int) -> bool {
    &&& 0 <= r < n
    &&& forall|a: int| 0 <= a < n ==> #[trigger] net.q_value(x, a) <= net.q_value(x, r)
    &&& forall|a: int| 0 <= a < r ==> #[trigger] net.q_value(x, a) < net.q_value(x, r)
}

/// Every optimizer velocity of the trainer is at rest.
pub open spec fn zero_velocities_everywhere(tr: Trainer, actions: int, obs_dim: int) -> bool {
    crate::qfn::all_velocities_zero(tr.opt, actions, obs_dim)
}

} // verus!
