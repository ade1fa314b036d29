//! One temporal-difference training step, with the target-network
//! sync policy.
//!
//! Each invocation bootstraps a target `reward + discount * max_a
//! Q_target(next_state)[a]` from the target network, takes one gradient
//! step on the online network against it, and counts the step.  Every
//! `sync_interval` steps the online parameters are hard-copied into the
//! target network, so the learning signal chases a slowly moving
//! estimate rather than itself.  Skipped updates (oversized error or
//! out-of-range weights) are counted and leave every parameter alone.

use vstd::prelude::*;

verus! {

use crate::fixed::SCALE;
use crate::fixed::abs_int;
use crate::fixed::lemma_scale_mul_bound;
use crate::fixed::scale_mul;
use crate::fixed::scale_mul_spec;
use crate::qfn::ERR_CLIP;
use crate::qfn::QFunction;
use crate::qfn::Q_BOUND;
use crate::qfn::SgdOptimizer;
use crate::qfn::T_BOUND;
use crate::qfn::TrainOutcome;
use crate::qfn::applied_params;
use crate::qfn::net_params_eq;
use crate::qfn::obs_ok;
use crate::qfn::unchanged_params;
use crate::qfn::update_fits;
use crate::replay::Transition;
use crate::sched::greedy_action;

/// Magnitude cap on a single-step reward.
pub const R_MAX: i64 = 100_000_000_000;

/// Greatest value among the first `n` entries.
pub open spec fn max_seq(q: Seq<i64>, n: int) -> int
    decreases n,
{
    if n <= 1 {
        q[0] as int
    } else if q[n - 1] as int > max_seq(q, n - 1) {
        q[n - 1] as int
    } else {
        max_seq(q, n - 1)
    }
}

/// Greatest value the network assigns to any of its first `n` actions.
pub open spec fn max_q(net: QFunction, x: Seq<i64>, n: int) -> int
    decreases n,
{
    if n <= 1 {
        net.q_value(x, 0)
    } else if net.q_value(x, n - 1) > max_q(net, x, n - 1) {
        net.q_value(x, n - 1)
    } else {
        max_q(net, x, n - 1)
    }
}

/// Bootstrap value for one transition: the reward plus the discounted
/// best value the target network sees from the next state.
pub open spec fn td_target_spec(net: QFunction, reward: int, discount: int, next: Seq<i64>) -> int {
    reward + scale_mul_spec(discount, max_q(net, next, net.actions()))
}

/// `max_seq` is attained by some entry and dominates every entry.
proof fn lemma_max_seq(q: Seq<i64>, n: int)
    requires
        1 <= n <= q.len(),
    ensures
        forall|j: int| 0 <= j < n ==> (#[trigger] q[j]) as int <= max_seq(q, n),
        exists|j: int| 0 <= j < n && (#[trigger] q[j]) as int == max_seq(q, n),
    decreases n,
{
    if n <= 1 {
        assert(0 <= 0 < n && (q[0]) as int == max_seq(q, n));
    } else {
        lemma_max_seq(q, n - 1);
        if q[n - 1] as int > max_seq(q, n - 1) {
            assert(0 <= n - 1 < n && (q[n - 1]) as int == max_seq(q, n));
        } else {
            let w = choose|j: int| 0 <= j < n - 1 && (#[trigger] q[j]) as int == max_seq(q, n - 1);
            assert(0 <= w < n && (q[w]) as int == max_seq(q, n));
        }
    }
}

/// On a vector of the network's values, `max_seq` is `max_q`.
proof fn lemma_max_q_from_vec(net: QFunction, x: Seq<i64>, v: Seq<i64>, n: int)
    requires
        1 <= n <= v.len(),
        forall|a: int| 0 <= a < n ==> (#[trigger] v[a]) as int == net.q_value(x, a),
    ensures
        max_seq(v, n) == max_q(net, x, n),
    decreases n,
{
    if n > 1 {
        lemma_max_q_from_vec(net, x, v, n - 1);
    }
}

/// Bootstrap target from the next state's value estimates.
pub fn td_target(reward: i64, discount: i64, next_q: &Vec<i64>) -> (r: i64)
    requires
        0 < discount < SCALE,
        abs_int(reward as int) <= R_MAX,
        next_q@.len() >= 1,
        forall|a: int|
            0 <= a < next_q@.len() ==> abs_int((#[trigger] next_q@[a]) as int) <= Q_BOUND,
    ensures
        r as int == reward + scale_mul_spec(discount as int, max_seq(next_q@, next_q@.len() as int)),
        abs_int(r as int) <= T_BOUND,
{
    let idx = greedy_action(next_q);
    let maxv = next_q[idx];
    proof {
        lemma_max_seq(next_q@, next_q@.len() as int);
        assert(maxv as int == max_seq(next_q@, next_q@.len() as int));
        assert(abs_int((discount as int) * (maxv as int)) <= 1_000_000_000_000int * (SCALE as int)
            && abs_int(discount as int) * abs_int(maxv as int) < i64::MAX) by (nonlinear_arith)
            requires
                0 < discount < SCALE as int,
                abs_int(maxv as int) <= Q_BOUND as int,
        ;
        lemma_scale_mul_bound(discount as int, maxv as int, 1_000_000_000_000);
    }
    let disc = scale_mul(discount, maxv);
    reward + disc
}

/// Performs TD gradient steps and keeps the target network in sync.
pub struct Trainer {
    pub discount: i64,
    pub opt: SgdOptimizer,
    pub sync_interval: u64,
    pub steps_since_sync: u64,
    pub steps: u64,
    pub skipped: u64,
}

impl Trainer {
    pub open spec fn wf_for(self, actions: int, obs_dim: int) -> bool {
        &&& 0 < self.discount < SCALE
        &&& self.opt.wf_for(actions, obs_dim)
        &&& self.sync_interval > 0
        &&& self.steps_since_sync < self.sync_interval
    }

    pub fn new(discount: i64, lr: i64, momentum: Option<i64>, sync_interval: u64, actions: usize, obs_dim: usize) -> (r: Trainer)
        requires
            0 < discount < SCALE,
            0 < lr <= crate::qfn::LR_MAX,
            match momentum {
                Option::None => true,
                Option::Some(mu) => 0 <= mu <= crate::qfn::MOM_MAX,
            },
            sync_interval > 0,
            1 <= actions,
            1 <= obs_dim,
        ensures
            r.wf_for(actions as int, obs_dim as int),
            r.discount == discount,
            r.sync_interval == sync_interval,
            r.steps == 0,
            r.skipped == 0,
            r.steps_since_sync == 0,
            r.opt.lr == lr,
            r.opt.momentum == momentum,
            forall|a: int, j: int|
                0 <= a < actions as int && 0 <= j < obs_dim as int ==> r.opt.vrow(a)[j] == 0,
            forall|a: int| 0 <= a < actions as int ==> r.opt.vel_b@[a] == 0,
    {
        Trainer {
            discount,
            opt: SgdOptimizer::new(lr, momentum, actions, obs_dim),
            sync_interval,
            steps_since_sync: 0,
            steps: 0,
            skipped: 0,
        }
    }

    /// One training invocation on a single transition: build the
    /// bootstrap target from the target network, take one gradient step
    /// on the online network, count it, and sync the target network
    /// every `sync_interval` steps.
    pub fn train(
        &mut self,
        online: &mut QFunction,
        target_net: &mut QFunction,
        t: &Transition,
    ) -> (r: TrainOutcome)
        requires
            old(online).wf(),
            old(target_net).wf(),
            old(online).same_shape(*old(target_net)),
            old(self).wf_for(old(online).actions(), old(online).obs_dim as int),
            obs_ok(t.state@, old(online).obs_dim as int),
            obs_ok(t.next_state@, old(online).obs_dim as int),
            (t.action as int) < old(online).actions(),
            abs_int(t.reward as int) <= R_MAX,
            old(self).steps < u64::MAX,
            old(self).skipped < u64::MAX,
        ensures
            final(online).wf(),
            final(target_net).wf(),
            final(online).same_shape(*final(target_net)),
            final(online).same_shape(*old(online)),
            final(self).wf_for(old(online).actions(), old(online).obs_dim as int),
            final(self).discount == old(self).discount,
            final(self).sync_interval == old(self).sync_interval,
            final(self).opt.lr == old(self).opt.lr,
            final(self).opt.momentum == old(self).opt.momentum,
            final(self).steps == old(self).steps + 1,
            ({
                let tv = td_target_spec(
                    *old(target_net),
                    t.reward as int,
                    old(self).discount as int,
                    t.next_state@,
                );
                let d = old(online).q_value(t.state@, t.action as int) - tv;
                &&& (abs_int(d) > ERR_CLIP ==> r == TrainOutcome::SkippedLargeError)
                &&& (abs_int(d) <= ERR_CLIP && !update_fits(
                    *old(online),
                    old(self).opt,
                    t.state@,
                    t.action as int,
                    d,
                ) ==> r == TrainOutcome::SkippedWeightLimit)
                &&& (!(r matches TrainOutcome::Applied { .. }) ==> unchanged_params(
                    *old(online),
                    *final(online),
                    old(self).opt,
                    final(self).opt,
                ) && final(self).skipped == old(self).skipped + 1)
                &&& (abs_int(d) <= ERR_CLIP && update_fits(
                    *old(online),
                    old(self).opt,
                    t.state@,
                    t.action as int,
                    d,
                ) ==> {
                    &&& r matches TrainOutcome::Applied { loss } && loss as int == d * d
                    &&& applied_params(
                        *old(online),
                        *final(online),
                        old(self).opt,
                        final(self).opt,
                        t.state@,
                        t.action as int,
                        d,
                    )
                    &&& final(self).skipped == old(self).skipped
                })
                &&& (d == 0 && crate::qfn::zero_velocities(
                    old(self).opt,
                    old(online).obs_dim as int,
                    t.action as int,
                ) ==> r == (TrainOutcome::Applied { loss: 0 }) && unchanged_params(
                    *old(online),
                    *final(online),
                    old(self).opt,
                    final(self).opt,
                ))
            }),
            ({
                let synced = old(self).steps_since_sync + 1 == old(self).sync_interval;
                &&& final(self).steps_since_sync == if synced {
                    0
                } else {
                    old(self).steps_since_sync + 1
                }
                &&& (synced ==> net_params_eq(*final(target_net), *final(online)))
                &&& (!synced ==> net_params_eq(*final(target_net), *old(target_net)))
            }),
    {
        let q_next = target_net.forward(&t.next_state);
        proof {
            lemma_max_q_from_vec(
                *target_net,
                t.next_state@,
                q_next@,
                target_net.actions(),
            );
        }
        let tv = td_target(t.reward, self.discount, &q_next);
        let outcome = online.gradient_step(&mut self.opt, &t.state, t.action, tv);
        self.steps = self.steps + 1;
        match outcome {
            TrainOutcome::Applied { .. } => {
            },
            _ => {
                self.skipped = self.skipped + 1;
            },
        }
        self.steps_since_sync = self.steps_since_sync + 1;
        if self.steps_since_sync == self.sync_interval {
            online.clone_parameters_into(target_net);
            self.steps_since_sync = 0;
        }
        outcome
    }
}

} // verus!
