//! Linear Q-function approximator in fixed point, with its optimizer.
//!
//! The network maps an observation vector of `obs_dim` fixed-point
//! components to one value per action: `q[a] = bias[a] + w[a]·x`, with
//! the dot product scaled back down.  One gradient step minimises the
//! squared error between the value of the taken action and a training
//! target, with an optional Nesterov-momentum update.  Updates whose
//! temporal-difference error or resulting weights would leave the safe
//! numeric range are detected first and skipped whole, leaving every
//! parameter unchanged — the fixed-point analogue of aborting on a
//! non-finite loss.

use vstd::prelude::*;

verus! {

use vstd::arithmetic::div_mod::lemma_div_nonincreasing;
use vstd::arithmetic::div_mod::lemma_fundamental_div_mod_converse;
use crate::fixed::SCALE;
use crate::fixed::abs_int;
use crate::fixed::div_floor;
use crate::fixed::floor_div;
use crate::fixed::lemma_floor_div_bound;
use crate::fixed::lemma_scale_mul_bound;
use crate::fixed::scale_mul;
use crate::fixed::scale_mul_spec;
use crate::rng::rand_below;

/// Most observation components a network can take.
pub const MAX_OBS_DIM: usize = 64;

/// Magnitude cap on every weight and bias (100 units).
pub const W_MAX: i64 = 100_000_000;

/// Magnitude cap on every observation component (100 units).
pub const X_MAX: i64 = 100_000_000;

/// Magnitude cap on any value the network can output.
pub const Q_BOUND: i64 = 1_000_000_000_000;

/// Magnitude cap on a training target.
pub const T_BOUND: i64 = 2_000_000_000_000;

/// Temporal-difference errors beyond this (1000 units) skip the
/// update, the way a non-finite loss would abort it.
pub const ERR_CLIP: i64 = 1_000_000_000;

/// Magnitude cap on a gradient component.
pub const G_BOUND: i64 = 200_000_000_000;

/// Largest admissible learning rate (0.3).
pub const LR_MAX: i64 = 300_000;

/// Largest admissible momentum coefficient (0.9).
pub const MOM_MAX: i64 = 900_000;

/// Magnitude cap on an optimizer velocity.
pub const V_BOUND: i64 = 2_500_000_000_000;

/// Half-width of the random weight initialisation range (one unit).
pub const INIT_SPAN: u64 = 1_000_000;

/// Dot product of the first `n` components.
pub open spec fn dot(w: Seq<i64>, x: Seq<i64>, n: int) -> int
    decreases n,
{
    if n <= 0 {
        0
    } else {
        dot(w, x, n - 1) + w[n - 1] * x[n - 1]
    }
}

/// An observation acceptable to a network of dimension `dim`.
pub open spec fn obs_ok(x: Seq<i64>, dim: int) -> bool {
    &&& x.len() == dim
    &&& forall|d: int| 0 <= d < x.len() ==> abs_int((#[trigger] x[d]) as int) <= X_MAX
}

/// Gradient of the squared error with respect to weight `j` of the
/// taken action's row, for error `d` and input component `xj`.
pub open spec fn grad_w(d: int, xj: int) -> int {
    2 * scale_mul_spec(d, xj)
}

/// Gradient of the squared error with respect to the taken action's
/// bias.
pub open spec fn grad_b(d: int) -> int {
    2 * d
}

/// Velocity after one optimizer step: untouched without momentum,
/// otherwise decayed and pushed by the gradient.
pub open spec fn vel_after(momentum: Option<i64>, v: int, g: int) -> int {
    match momentum {
        Option::None => v,
        Option::Some(mu) => scale_mul_spec(mu as int, v) + g,
    }
}

/// Amount subtracted from a parameter by one optimizer step: plain
/// scaled gradient, or the Nesterov-accelerated step through the new
/// velocity.
pub open spec fn step_of(lr: int, momentum: Option<i64>, v: int, g: int) -> int {
    match momentum {
        Option::None => scale_mul_spec(lr, g),
        Option::Some(mu) => scale_mul_spec(
            lr,
            g + scale_mul_spec(mu as int, vel_after(momentum, v, g)),
        ),
    }
}

/// Result of one gradient step.
#[derive(Debug, PartialEq, Eq, Structural)]
pub enum TrainOutcome {
    /// The update was applied; `loss` is the squared error before it.
    Applied { loss: i128 },
    /// The error was too large to trust; nothing changed.
    SkippedLargeError,
    /// A weight would have left its safe range; nothing changed.
    SkippedWeightLimit,
}

/// Trainable map from observations to one value per action.
pub struct QFunction {
    pub obs_dim: usize,
    pub weights: Vec<Vec<i64>>,
    pub bias: Vec<i64>,
}

/// Momentum-capable optimizer state for one `QFunction`.
pub struct SgdOptimizer {
    pub lr: i64,
    pub momentum: Option<i64>,
    pub vel_w: Vec<Vec<i64>>,
    pub vel_b: Vec<i64>,
}

impl QFunction {
    /// Number of discrete actions this network scores.
    pub open spec fn actions(self) -> int {
        self.weights@.len() as int
    }

    /// Weight row of action `a`.
    pub open spec fn wrow(self, a: int) -> Seq<i64> {
        self.weights@[a]@
    }

    pub open spec fn wf(self) -> bool {
        &&& 1 <= self.obs_dim <= MAX_OBS_DIM
        &&& self.weights@.len() == self.bias@.len()
        &&& self.weights@.len() >= 1
        &&& forall|a: int|
            0 <= a < self.actions() ==> (#[trigger] self.weights@[a])@.len() == self.obs_dim
        &&& forall|a: int, j: int|
            0 <= a < self.actions() && 0 <= j < self.obs_dim ==> abs_int(
                (#[trigger] self.weights@[a]@[j]) as int,
            ) <= W_MAX
        &&& forall|a: int|
            0 <= a < self.actions() ==> abs_int((#[trigger] self.bias@[a]) as int) <= W_MAX
    }

    /// Value the network assigns to action `a` on observation `x`.
    pub open spec fn q_value(self, x: Seq<i64>, a: int) -> int {
        self.bias@[a] + floor_div(dot(self.wrow(a), x, self.obs_dim as int), SCALE as int)
    }

    pub open spec fn same_shape(self, other: QFunction) -> bool {
        self.obs_dim == other.obs_dim && self.actions() == other.actions()
    }

    /// Network with every parameter zero.
    pub fn zeros(obs_dim: usize, actions: usize) -> (r: QFunction)
        requires
            1 <= obs_dim <= MAX_OBS_DIM,
            1 <= actions,
        ensures
            r.wf(),
            r.obs_dim == obs_dim,
            r.actions() == actions as int,
            forall|a: int, j: int|
                0 <= a < actions as int && 0 <= j < obs_dim as int ==> r.wrow(a)[j] == 0,
            forall|a: int| 0 <= a < actions as int ==> r.bias@[a] == 0,
    {
        QFunction { obs_dim, weights: zero_matrix(actions, obs_dim), bias: zero_vector(actions) }
    }

    /// Network with every parameter drawn from `[-INIT_SPAN, INIT_SPAN]`.
    pub fn random(obs_dim: usize, actions: usize, rng: &mut rand::rngs::StdRng) -> (r: QFunction)
        requires
            1 <= obs_dim <= MAX_OBS_DIM,
            1 <= actions,
        ensures
            r.wf(),
            r.obs_dim == obs_dim,
            r.actions() == actions as int,
            forall|a: int, j: int|
                0 <= a < actions as int && 0 <= j < obs_dim as int ==> abs_int(
                    (#[trigger] r.wrow(a)[j]) as int,
                ) <= INIT_SPAN,
            forall|a: int|
                0 <= a < actions as int ==> abs_int((#[trigger] r.bias@[a]) as int) <= INIT_SPAN,
    {
        let mut weights: Vec<Vec<i64>> = Vec::new();
        let mut bias: Vec<i64> = Vec::new();
        let mut a: usize = 0;
        while a < actions
            invariant
                a <= actions,
                weights@.len() == a as int,
                bias@.len() == a as int,
                forall|p: int| 0 <= p < a as int ==> (#[trigger] weights@[p])@.len() == obs_dim,
                forall|p: int, j: int|
                    0 <= p < a as int && 0 <= j < obs_dim as int ==> abs_int(
                        (#[trigger] weights@[p]@[j]) as int,
                    ) <= INIT_SPAN,
                forall|p: int|
                    0 <= p < a as int ==> abs_int((#[trigger] bias@[p]) as int) <= INIT_SPAN,
            decreases actions - a,
        {
            let mut row: Vec<i64> = Vec::new();
            let mut j: usize = 0;
            while j < obs_dim
                invariant
                    j <= obs_dim,
                    row@.len() == j as int,
                    forall|q: int|
                        0 <= q < j as int ==> abs_int((#[trigger] row@[q]) as int) <= INIT_SPAN,
                decreases obs_dim - j,
            {
                row.push(draw_init(rng));
                j = j + 1;
            }
            weights.push(row);
            bias.push(draw_init(rng));
            a = a + 1;
        }
        QFunction { obs_dim, weights, bias }
    }

    /// Value of one action: the scaled dot product of that action's
    /// weight row with the observation, plus its bias.
    pub fn q_for_action(&self, x: &Vec<i64>, a: usize) -> (r: i64)
        requires
            self.wf(),
            obs_ok(x@, self.obs_dim as int),
            (a as int) < self.actions(),
        ensures
            r as int == self.q_value(x@, a as int),
            abs_int(r as int) <= Q_BOUND,
    {
        let mut acc: i64 = 0;
        let mut j: usize = 0;
        while j < self.obs_dim
            invariant
                self.wf(),
                obs_ok(x@, self.obs_dim as int),
                (a as int) < self.actions(),
                j <= self.obs_dim,
                acc as int == dot(self.wrow(a as int), x@, j as int),
                abs_int(acc as int) <= (j as int) * 10_000_000_000_000_000,
            decreases self.obs_dim - j,
        {
            let wj = self.weights[a][j];
            let xj = x[j];
            proof {
                assert(abs_int((wj as int) * (xj as int)) <= 10_000_000_000_000_000int) by (nonlinear_arith)
                    requires
                        abs_int(wj as int) <= W_MAX as int,
                        abs_int(xj as int) <= X_MAX as int,
                ;
                assert((j as int + 1) * 10_000_000_000_000_000 == (j as int)
                    * 10_000_000_000_000_000 + 10_000_000_000_000_000) by (nonlinear_arith);
            }
            acc = acc + wj * xj;
            j = j + 1;
        }
        proof {
            assert((self.obs_dim as int) * 10_000_000_000_000_000 <= 640_000_000_000int * (
            SCALE as int)) by (nonlinear_arith)
                requires
                    self.obs_dim <= MAX_OBS_DIM,
            ;
            lemma_floor_div_bound(acc as int, 640_000_000_000);
        }
        let scaled = div_floor(acc, SCALE);
        self.bias[a] + scaled
    }

    /// Values of all actions, in action order.
    pub fn forward(&self, x: &Vec<i64>) -> (r: Vec<i64>)
        requires
            self.wf(),
            obs_ok(x@, self.obs_dim as int),
        ensures
            r@.len() == self.actions(),
            forall|a: int| 0 <= a < self.actions() ==> (#[trigger] r@[a]) as int == self.q_value(
                x@,
                a,
            ),
            forall|a: int|
                0 <= a < self.actions() ==> abs_int((#[trigger] r@[a]) as int) <= Q_BOUND,
    {
        let n = self.weights.len();
        let mut out: Vec<i64> = Vec::new();
        let mut a: usize = 0;
        while a < n
            invariant
                self.wf(),
                obs_ok(x@, self.obs_dim as int),
                n as int == self.actions(),
                a <= n,
                out@.len() == a as int,
                forall|p: int|
                    0 <= p < a as int ==> (#[trigger] out@[p]) as int == self.q_value(x@, p),
                forall|p: int|
                    0 <= p < a as int ==> abs_int((#[trigger] out@[p]) as int) <= Q_BOUND,
            decreases n - a,
        {
            out.push(self.q_for_action(x, a));
            a = a + 1;
        }
        out
    }

    /// Hard-copies this network's parameters into `other`, the periodic
    /// target-network synchronisation.
    pub fn clone_parameters_into(&self, other: &mut QFunction)
        requires
            self.wf(),
            old(other).wf(),
            self.same_shape(*old(other)),
        ensures
            final(other).wf(),
            final(other).same_shape(*self),
            forall|a: int, j: int|
                0 <= a < self.actions() && 0 <= j < self.obs_dim ==> final(other).wrow(a)[j]
                    == (#[trigger] self.wrow(a)[j]),
            forall|a: int|
                0 <= a < self.actions() ==> final(other).bias@[a] == (#[trigger] self.bias@[a]),
    {
        let n = self.weights.len();
        let mut a: usize = 0;
        while a < n
            invariant
                self.wf(),
                other.wf(),
                self.same_shape(*other),
                n as int == self.actions(),
                a <= n,
                forall|p: int, j: int|
                    0 <= p < a as int && 0 <= j < self.obs_dim ==> other.wrow(p)[j]
                        == (#[trigger] self.wrow(p)[j]),
                forall|p: int|
                    0 <= p < a as int ==> other.bias@[p] == (#[trigger] self.bias@[p]),
            decreases n - a,
        {
            let row = crate::replay::copy_values(&self.weights[a]);
            other.weights.set(a, row);
            let b = self.bias[a];
            other.bias.set(a, b);
            a = a + 1;
        }
    }
}

/// One weight value drawn uniformly from `[-INIT_SPAN, INIT_SPAN]`.
fn draw_init(rng: &mut rand::rngs::StdRng) -> (r: i64)
    ensures
        abs_int(r as int) <= INIT_SPAN,
{
    let raw = rand_below(rng, 2 * INIT_SPAN + 1);
    (raw as i64) - (INIT_SPAN as i64)
}

/// All-zero vector of the given length.
fn zero_vector(n: usize) -> (r: Vec<i64>)
    ensures
        r@.len() == n as int,
        forall|j: int| 0 <= j < n as int ==> (#[trigger] r@[j]) == 0,
{
    let mut out: Vec<i64> = Vec::new();
    let mut j: usize = 0;
    while j < n
        invariant
            j <= n,
            out@.len() == j as int,
            forall|q: int| 0 <= q < j as int ==> (#[trigger] out@[q]) == 0,
        decreases n - j,
    {
        out.push(0);
        j = j + 1;
    }
    out
}

/// All-zero matrix with `rows` rows of length `cols`.
fn zero_matrix(rows: usize, cols: usize) -> (r: Vec<Vec<i64>>)
    ensures
        r@.len() == rows as int,
        forall|a: int| 0 <= a < rows as int ==> (#[trigger] r@[a])@.len() == cols as int,
        forall|a: int, j: int|
            0 <= a < rows as int && 0 <= j < cols as int ==> (#[trigger] r@[a]@[j]) == 0,
    {
    let mut out: Vec<Vec<i64>> = Vec::new();
    let mut a: usize = 0;
    while a < rows
        invariant
            a <= rows,
            out@.len() == a as int,
            forall|p: int| 0 <= p < a as int ==> (#[trigger] out@[p])@.len() == cols as int,
            forall|p: int, j: int|
                0 <= p < a as int && 0 <= j < cols as int ==> (#[trigger] out@[p]@[j]) == 0,
        decreases rows - a,
    {
        out.push(zero_vector(cols));
        a = a + 1;
    }
    out
}

impl SgdOptimizer {
    pub open spec fn mom_ok(self) -> bool {
        match self.momentum {
            Option::None => true,
            Option::Some(mu) => 0 <= mu <= MOM_MAX,
        }
    }

    /// Velocity row of action `a`.
    pub open spec fn vrow(self, a: int) -> Seq<i64> {
        self.vel_w@[a]@
    }

    pub open spec fn wf_for(self, actions: int, obs_dim: int) -> bool {
        &&& 0 < self.lr <= LR_MAX
        &&& self.mom_ok()
        &&& self.vel_w@.len() == actions
        &&& self.vel_b@.len() == actions
        &&& forall|a: int| 0 <= a < actions ==> (#[trigger] self.vel_w@[a])@.len() == obs_dim
        &&& forall|a: int, j: int|
            0 <= a < actions && 0 <= j < obs_dim ==> abs_int(
                (#[trigger] self.vel_w@[a]@[j]) as int,
            ) <= V_BOUND
        &&& forall|a: int| 0 <= a < actions ==> abs_int((#[trigger] self.vel_b@[a]) as int) <= V_BOUND
    }

    /// Fresh optimizer with zero velocities.
    pub fn new(lr: i64, momentum: Option<i64>, actions: usize, obs_dim: usize) -> (r: SgdOptimizer)
        requires
            0 < lr <= LR_MAX,
            match momentum {
                Option::None => true,
                Option::Some(mu) => 0 <= mu <= MOM_MAX,
            },
            1 <= actions,
            1 <= obs_dim,
        ensures
            r.wf_for(actions as int, obs_dim as int),
            r.lr == lr,
            r.momentum == momentum,
            forall|a: int, j: int|
                0 <= a < actions as int && 0 <= j < obs_dim as int ==> r.vrow(a)[j] == 0,
            forall|a: int| 0 <= a < actions as int ==> r.vel_b@[a] == 0,
    {
        SgdOptimizer {
            lr,
            momentum,
            vel_w: zero_matrix(actions, obs_dim),
            vel_b: zero_vector(actions),
        }
    }
}

/// New velocity and parameter decrement for one coordinate.
fn sgd_step(lr: i64, momentum: Option<i64>, v: i64, g: i64) -> (r: (i64, i64))
    requires
        0 < lr <= LR_MAX,
        match momentum {
            Option::None => true,
            Option::Some(mu) => 0 <= mu <= MOM_MAX,
        },
        abs_int(v as int) <= V_BOUND,
        abs_int(g as int) <= G_BOUND,
    ensures
        r.0 as int == vel_after(momentum, v as int, g as int),
        r.1 as int == step_of(lr as int, momentum, v as int, g as int),
        abs_int(r.0 as int) <= V_BOUND,
        abs_int(r.1 as int) <= 800_000_000_000,
{
    match momentum {
        None => {
            proof {
                assert(abs_int((lr as int) * (g as int)) <= 60_000_000_000int * (SCALE as int)
                    && abs_int(lr as int) * abs_int(g as int) < i64::MAX) by (nonlinear_arith)
                    requires
                        0 < lr <= LR_MAX as int,
                        abs_int(g as int) <= G_BOUND as int,
                ;
                lemma_scale_mul_bound(lr as int, g as int, 60_000_000_000);
            }
            let step = scale_mul(lr, g);
            (v, step)
        },
        Some(mu) => {
            proof {
                assert(abs_int((mu as int) * (v as int)) <= 2_250_000_000_000int * (SCALE as int)
                    && abs_int(mu as int) * abs_int(v as int) < i64::MAX) by (nonlinear_arith)
                    requires
                        0 <= mu <= MOM_MAX as int,
                        abs_int(v as int) <= V_BOUND as int,
                ;
                lemma_scale_mul_bound(mu as int, v as int, 2_250_000_000_000);
            }
            let decayed = scale_mul(mu, v);
            let vnew = decayed + g;
            proof {
                assert(abs_int((mu as int) * (vnew as int)) <= 2_205_000_000_000int * (
                SCALE as int) && abs_int(mu as int) * abs_int(vnew as int) < i64::MAX)
                    by (nonlinear_arith)
                    requires
                        0 <= mu <= MOM_MAX as int,
                        abs_int(vnew as int) <= 2_450_000_000_000int,
                ;
                lemma_scale_mul_bound(mu as int, vnew as int, 2_205_000_000_000);
            }
            let look = scale_mul(mu, vnew);
            let ng = g + look;
            proof {
                assert(abs_int((lr as int) * (ng as int)) <= 721_500_000_000int * (SCALE as int)
                    && abs_int(lr as int) * abs_int(ng as int) < i64::MAX) by (nonlinear_arith)
                    requires
                        0 < lr <= LR_MAX as int,
                        abs_int(ng as int) <= 2_405_000_000_000int,
                ;
                lemma_scale_mul_bound(lr as int, ng as int, 721_500_000_000);
            }
            let step = scale_mul(lr, ng);
            (vnew, step)
        },
    }
}

/// A scaled product with a zero factor is zero.
proof fn lemma_scale_mul_zero(b: int)
    ensures
        scale_mul_spec(0, b) == 0,
{
    assert(0int * b == 0);
    lemma_fundamental_div_mod_converse(0, SCALE as int, 0, 0);
}

/// Every candidate parameter of the update stays within the weight
/// range, so the step can be applied.
pub open spec fn update_fits(
    net: QFunction,
    opt: SgdOptimizer,
    x: Seq<i64>,
    a: int,
    d: int,
) -> bool {
    &&& forall|j: int|
        0 <= j < net.obs_dim ==> abs_int(
            (#[trigger] net.wrow(a)[j]) - step_of(
                opt.lr as int,
                opt.momentum,
                opt.vrow(a)[j] as int,
                grad_w(d, x[j] as int),
            ),
        ) <= W_MAX
    &&& abs_int(
        net.bias@[a] - step_of(opt.lr as int, opt.momentum, opt.vel_b@[a] as int, grad_b(d)),
    ) <= W_MAX
}

impl QFunction {
    /// One temporal-difference gradient step on the squared error
    /// between this network's value for `action` on `x` and `target`.
    /// Oversized errors and out-of-range results are detected first and
    /// skip the whole update; an applied update moves exactly the taken
    /// action's row and bias (and their velocities) by the optimizer
    /// step, and a zero error with resting velocities moves nothing.
    #[verifier::loop_isolation(false)]
    pub fn gradient_step(
        &mut self,
        opt: &mut SgdOptimizer,
        x: &Vec<i64>,
        action: usize,
        target: i64,
    ) -> (r: TrainOutcome)
        requires
            old(self).wf(),
            old(opt).wf_for(old(self).actions(), old(self).obs_dim as int),
            obs_ok(x@, old(self).obs_dim as int),
            (action as int) < old(self).actions(),
            abs_int(target as int) <= T_BOUND,
        ensures
            final(self).wf(),
            final(opt).wf_for(old(self).actions(), old(self).obs_dim as int),
            final(self).obs_dim == old(self).obs_dim,
            final(self).actions() == old(self).actions(),
            final(opt).lr == old(opt).lr,
            final(opt).momentum == old(opt).momentum,
            ({
                let d = old(self).q_value(x@, action as int) - target;
                &&& (abs_int(d) > ERR_CLIP ==> r == TrainOutcome::SkippedLargeError)
                &&& (abs_int(d) <= ERR_CLIP && !update_fits(
                    *old(self),
                    *old(opt),
                    x@,
                    action as int,
                    d,
                ) ==> r == TrainOutcome::SkippedWeightLimit)
                &&& (!(r matches TrainOutcome::Applied { .. }) ==> unchanged_params(
                    *old(self),
                    *final(self),
                    *old(opt),
                    *final(opt),
                ))
                &&& (abs_int(d) <= ERR_CLIP && update_fits(
                    *old(self),
                    *old(opt),
                    x@,
                    action as int,
                    d,
                ) ==> {
                    &&& r matches TrainOutcome::Applied { loss } && loss as int == d * d
                    &&& applied_params(
                        *old(self),
                        *final(self),
                        *old(opt),
                        *final(opt),
                        x@,
                        action as int,
                        d,
                    )
                })
                &&& (d == 0 && zero_velocities(*old(opt), old(self).obs_dim as int, action as int)
                    ==> r == (TrainOutcome::Applied { loss: 0 }) && unchanged_params(
                    *old(self),
                    *final(self),
                    *old(opt),
                    *final(opt),
                ))
            }),
    {
        let ghost d_g = old(self).q_value(x@, action as int) - target;
        let current = self.q_for_action(x, action);
        let d = current - target;
        let dabs = if d >= 0 {
            d
        } else {
            -d
        };
        if dabs > ERR_CLIP {
            return TrainOutcome::SkippedLargeError;
        }
        let mut new_w: Vec<i64> = Vec::new();
        let mut new_vw: Vec<i64> = Vec::new();
        let mut j: usize = 0;
        while j < self.obs_dim
            invariant
                new_w@.len() == j as int,
                new_vw@.len() == j as int,
                j <= self.obs_dim,
                forall|q: int|
                    0 <= q < j as int ==> (#[trigger] new_w@[q]) as int == self.wrow(
                        action as int,
                    )[q] - step_of(
                        opt.lr as int,
                        opt.momentum,
                        opt.vrow(action as int)[q] as int,
                        grad_w(d as int, x@[q] as int),
                    ),
                forall|q: int|
                    0 <= q < j as int ==> (#[trigger] new_vw@[q]) as int == vel_after(
                        opt.momentum,
                        opt.vrow(action as int)[q] as int,
                        grad_w(d as int, x@[q] as int),
                    ),
                forall|q: int|
                    0 <= q < j as int ==> abs_int((#[trigger] new_w@[q]) as int) <= W_MAX,
                forall|q: int|
                    0 <= q < j as int ==> abs_int((#[trigger] new_vw@[q]) as int) <= V_BOUND,
            decreases self.obs_dim - j,
        {
            let xj = x[j];
            let wj = self.weights[action][j];
            let vj = opt.vel_w[action][j];
            proof {
                assert(abs_int((d as int) * (xj as int)) <= 100_000_000_000int * (SCALE as int)
                    && abs_int(d as int) * abs_int(xj as int) < i64::MAX) by (nonlinear_arith)
                    requires
                        abs_int(d as int) <= ERR_CLIP as int,
                        abs_int(xj as int) <= X_MAX as int,
                ;
                lemma_scale_mul_bound(d as int, xj as int, 100_000_000_000);
            }
            let sm = scale_mul(d, xj);
            let g = 2 * sm;
            let (vnew, step) = sgd_step(opt.lr, opt.momentum, vj, g);
            let cand = wj - step;
            if cand > W_MAX || cand < -W_MAX {
                proof {
                    assert(abs_int(
                        old(self).wrow(action as int)[j as int] - step_of(
                            old(opt).lr as int,
                            old(opt).momentum,
                            old(opt).vrow(action as int)[j as int] as int,
                            grad_w(d_g, x@[j as int] as int),
                        ),
                    ) > W_MAX);
                    if d_g == 0 && zero_velocities(
                        *old(opt),
                        old(self).obs_dim as int,
                        action as int,
                    ) {
                        lemma_scale_mul_zero(x@[j as int] as int);
                        lemma_zero_step(old(opt).lr as int, old(opt).momentum);
                    }
                }
                return TrainOutcome::SkippedWeightLimit;
            }
            new_w.push(cand);
            new_vw.push(vnew);
            j = j + 1;
        }
        let bj = self.bias[action];
        let vb = opt.vel_b[action];
        let gb = 2 * d;
        let (vbnew, bstep) = sgd_step(opt.lr, opt.momentum, vb, gb);
        let cand_b = bj - bstep;
        if cand_b > W_MAX || cand_b < -W_MAX {
            proof {
                assert(abs_int(
                    old(self).bias@[action as int] - step_of(
                        old(opt).lr as int,
                        old(opt).momentum,
                        old(opt).vel_b@[action as int] as int,
                        grad_b(d_g),
                    ),
                ) > W_MAX);
                if d_g == 0 && zero_velocities(
                    *old(opt),
                    old(self).obs_dim as int,
                    action as int,
                ) {
                    lemma_zero_step(old(opt).lr as int, old(opt).momentum);
                }
            }
            return TrainOutcome::SkippedWeightLimit;
        }
        self.weights.set(action, new_w);
        self.bias.set(action, cand_b);
        opt.vel_w.set(action, new_vw);
        opt.vel_b.set(action, vbnew);
        proof {
            assert(abs_int((d as int) * (d as int)) <= 1_000_000_000_000_000_000int)
                by (nonlinear_arith)
                requires
                    abs_int(d as int) <= ERR_CLIP as int,
            ;
            assert forall|q: int| 0 <= q < old(self).obs_dim implies abs_int(
                old(self).wrow(action as int)[q] - step_of(
                    old(opt).lr as int,
                    old(opt).momentum,
                    old(opt).vrow(action as int)[q] as int,
                    grad_w(d_g, x@[q] as int),
                ),
            ) <= W_MAX by {
                assert(new_w@[q] as int == old(self).wrow(action as int)[q] - step_of(
                    old(opt).lr as int,
                    old(opt).momentum,
                    old(opt).vrow(action as int)[q] as int,
                    grad_w(d_g, x@[q] as int),
                ));
            }
            assert(update_fits(*old(self), *old(opt), x@, action as int, d_g));
            if d_g == 0 && zero_velocities(*old(opt), old(self).obs_dim as int, action as int) {
                lemma_zero_step(old(opt).lr as int, old(opt).momentum);
                assert forall|q: int| 0 <= q < old(self).obs_dim implies self.wrow(action as int)[q]
                    == old(self).wrow(action as int)[q] && opt.vrow(action as int)[q] == old(
                    opt,
                ).vrow(action as int)[q] by {
                    lemma_scale_mul_zero(x@[q] as int);
                    lemma_zero_step(old(opt).lr as int, old(opt).momentum);
                }
            }
        }
        let loss = (d as i128) * (d as i128);
        TrainOutcome::Applied { loss }
    }
}

/// No gradient and a resting velocity leave a parameter unchanged.
proof fn lemma_zero_step(lr: int, momentum: Option<i64>)
    ensures
        vel_after(momentum, 0, 0) == 0,
        step_of(lr, momentum, 0, 0) == 0,
{
    match momentum {
        Option::None => {
            lemma_scale_mul_zero(0);
            assert(lr * 0 == 0);
            lemma_fundamental_div_mod_converse(0, SCALE as int, 0, 0);
        },
        Option::Some(mu) => {
            assert((mu as int) * 0 == 0);
            assert(lr * 0 == 0);
            lemma_fundamental_div_mod_converse(0, SCALE as int, 0, 0);
        },
    }
}

/// Most samples one batch gradient step can take.
pub const B_MAX: usize = 64;

/// Error of batch sample `i`: the network's value for its action minus
/// its target.
pub open spec fn batch_err(
    net: QFunction,
    states: Seq<Vec<i64>>,
    acts: Seq<usize>,
    targets: Seq<i64>,
    i: int,
) -> int {
    net.q_value(states[i]@, acts[i] as int) - targets[i]
}

/// Every batch error is within the clip range.
pub open spec fn batch_errs_small(
    net: QFunction,
    states: Seq<Vec<i64>>,
    acts: Seq<usize>,
    targets: Seq<i64>,
    n: int,
) -> bool {
    forall|i: int|
        0 <= i < n ==> abs_int(#[trigger] batch_err(net, states, acts, targets, i)) <= ERR_CLIP
}

/// Every batch error is exactly zero.
pub open spec fn batch_errs_zero(
    net: QFunction,
    states: Seq<Vec<i64>>,
    acts: Seq<usize>,
    targets: Seq<i64>,
    n: int,
) -> bool {
    forall|i: int| 0 <= i < n ==> #[trigger] batch_err(net, states, acts, targets, i) == 0
}

/// Sum over the first `n` samples whose action is `a` of the scaled
/// error-input products for weight coordinate `j`.
pub open spec fn batch_wsum(
    net: QFunction,
    states: Seq<Vec<i64>>,
    acts: Seq<usize>,
    targets: Seq<i64>,
    a: int,
    j: int,
    n: int,
) -> int
    decreases n,
{
    if n <= 0 {
        0
    } else {
        batch_wsum(net, states, acts, targets, a, j, n - 1) + if acts[n - 1] as int == a {
            scale_mul_spec(batch_err(net, states, acts, targets, n - 1), states[n - 1]@[j] as int)
        } else {
            0
        }
    }
}

/// Sum over the first `n` samples whose action is `a` of the errors.
pub open spec fn batch_bsum(
    net: QFunction,
    states: Seq<Vec<i64>>,
    acts: Seq<usize>,
    targets: Seq<i64>,
    a: int,
    n: int,
) -> int
    decreases n,
{
    if n <= 0 {
        0
    } else {
        batch_bsum(net, states, acts, targets, a, n - 1) + if acts[n - 1] as int == a {
            batch_err(net, states, acts, targets, n - 1)
        } else {
            0
        }
    }
}

/// Mean-loss gradient for weight `j` of row `a` over a batch of `n`.
pub open spec fn batch_grad_w(
    net: QFunction,
    states: Seq<Vec<i64>>,
    acts: Seq<usize>,
    targets: Seq<i64>,
    a: int,
    j: int,
    n: int,
) -> int {
    2 * floor_div(batch_wsum(net, states, acts, targets, a, j, n), n)
}

/// Mean-loss gradient for the bias of row `a` over a batch of `n`.
pub open spec fn batch_grad_b(
    net: QFunction,
    states: Seq<Vec<i64>>,
    acts: Seq<usize>,
    targets: Seq<i64>,
    a: int,
    n: int,
) -> int {
    2 * floor_div(batch_bsum(net, states, acts, targets, a, n), n)
}

/// Sum of squared errors over the first `n` samples.
pub open spec fn sum_sq_err(
    net: QFunction,
    states: Seq<Vec<i64>>,
    acts: Seq<usize>,
    targets: Seq<i64>,
    n: int,
) -> int
    decreases n,
{
    if n <= 0 {
        0
    } else {
        sum_sq_err(net, states, acts, targets, n - 1) + batch_err(net, states, acts, targets, n - 1)
            * batch_err(net, states, acts, targets, n - 1)
    }
}

/// Every candidate parameter of the batch update stays within the
/// weight range.
pub open spec fn batch_fits(
    net: QFunction,
    opt: SgdOptimizer,
    states: Seq<Vec<i64>>,
    acts: Seq<usize>,
    targets: Seq<i64>,
    n: int,
) -> bool {
    &&& forall|a: int, j: int|
        0 <= a < net.actions() && 0 <= j < net.obs_dim ==> abs_int(
            (#[trigger] net.wrow(a)[j]) - step_of(
                opt.lr as int,
                opt.momentum,
                opt.vrow(a)[j] as int,
                batch_grad_w(net, states, acts, targets, a, j, n),
            ),
        ) <= W_MAX
    &&& forall|a: int|
        0 <= a < net.actions() ==> abs_int(
            (#[trigger] net.bias@[a]) - step_of(
                opt.lr as int,
                opt.momentum,
                opt.vel_b@[a] as int,
                batch_grad_b(net, states, acts, targets, a, n),
            ),
        ) <= W_MAX
}

/// Every parameter and velocity moved by exactly the mean-gradient
/// optimizer step of its own coordinate.
pub open spec fn batch_applied_params(
    net0: QFunction,
    net1: QFunction,
    opt0: SgdOptimizer,
    opt1: SgdOptimizer,
    states: Seq<Vec<i64>>,
    acts: Seq<usize>,
    targets: Seq<i64>,
    n: int,
) -> bool {
    &&& forall|a: int, j: int|
        0 <= a < net0.actions() && 0 <= j < net0.obs_dim ==> (#[trigger] net1.wrow(a)[j]) as int
            == net0.wrow(a)[j] - step_of(
            opt0.lr as int,
            opt0.momentum,
            opt0.vrow(a)[j] as int,
            batch_grad_w(net0, states, acts, targets, a, j, n),
        )
    &&& forall|a: int|
        0 <= a < net0.actions() ==> (#[trigger] net1.bias@[a]) as int == net0.bias@[a] - step_of(
            opt0.lr as int,
            opt0.momentum,
            opt0.vel_b@[a] as int,
            batch_grad_b(net0, states, acts, targets, a, n),
        )
    &&& forall|a: int, j: int|
        0 <= a < net0.actions() && 0 <= j < net0.obs_dim ==> (#[trigger] opt1.vrow(a)[j]) as int
            == vel_after(
            opt0.momentum,
            opt0.vrow(a)[j] as int,
            batch_grad_w(net0, states, acts, targets, a, j, n),
        )
    &&& forall|a: int|
        0 <= a < net0.actions() ==> (#[trigger] opt1.vel_b@[a]) as int == vel_after(
            opt0.momentum,
            opt0.vel_b@[a] as int,
            batch_grad_b(net0, states, acts, targets, a, n),
        )
}

/// Every velocity of the optimizer is at rest.
pub open spec fn all_velocities_zero(opt: SgdOptimizer, actions: int, obs_dim: int) -> bool {
    &&& forall|a: int, j: int|
        0 <= a < actions && 0 <= j < obs_dim ==> (#[trigger] opt.vrow(a)[j]) == 0
    &&& forall|a: int| 0 <= a < actions ==> (#[trigger] opt.vel_b@[a]) == 0
}

/// With all errors zero, every batch sum vanishes.
proof fn lemma_batch_sums_zero(
    net: QFunction,
    states: Seq<Vec<i64>>,
    acts: Seq<usize>,
    targets: Seq<i64>,
    a: int,
    j: int,
    n: int,
)
    requires
        batch_errs_zero(net, states, acts, targets, n),
        0 <= n,
    ensures
        batch_wsum(net, states, acts, targets, a, j, n) == 0,
        batch_bsum(net, states, acts, targets, a, n) == 0,
        sum_sq_err(net, states, acts, targets, n) == 0,
    decreases n,
{
    if n > 0 {
        lemma_batch_sums_zero(net, states, acts, targets, a, j, n - 1);
        if acts[n - 1] as int == a {
            lemma_scale_mul_zero(states[n - 1]@[j] as int);
        }
    }
}

/// Zero batch sums give a zero gradient.
proof fn lemma_zero_grad(s: int, n: int)
    requires
        s == 0,
        0 < n,
    ensures
        2 * floor_div(s, n) == 0,
{
    lemma_fundamental_div_mod_converse(0, n, 0, 0);
}

/// Two networks of the same shape with identical parameters.
pub open spec fn net_params_eq(a: QFunction, b: QFunction) -> bool {
    &&& a.same_shape(b)
    &&& forall|p: int, j: int|
        0 <= p < a.actions() && 0 <= j < a.obs_dim ==> (#[trigger] a.wrow(p)[j]) == b.wrow(p)[j]
    &&& forall|p: int| 0 <= p < a.actions() ==> (#[trigger] a.bias@[p]) == b.bias@[p]
}

/// The taken action's velocities are all at rest.
pub open spec fn zero_velocities(opt: SgdOptimizer, obs_dim: int, a: int) -> bool {
    &&& forall|j: int| 0 <= j < obs_dim ==> (#[trigger] opt.vrow(a)[j]) == 0
    &&& opt.vel_b@[a] == 0
}

/// Network parameters and velocities are identical before and after.
pub open spec fn unchanged_params(
    net0: QFunction,
    net1: QFunction,
    opt0: SgdOptimizer,
    opt1: SgdOptimizer,
) -> bool {
    &&& forall|a: int, j: int|
        0 <= a < net0.actions() && 0 <= j < net0.obs_dim ==> (#[trigger] net1.wrow(a)[j])
            == net0.wrow(a)[j]
    &&& forall|a: int| 0 <= a < net0.actions() ==> (#[trigger] net1.bias@[a]) == net0.bias@[a]
    &&& forall|a: int, j: int|
        0 <= a < net0.actions() && 0 <= j < net0.obs_dim ==> (#[trigger] opt1.vrow(a)[j])
            == opt0.vrow(a)[j]
    &&& forall|a: int| 0 <= a < net0.actions() ==> (#[trigger] opt1.vel_b@[a]) == opt0.vel_b@[a]
}

impl QFunction {
    /// One gradient step on the mean squared error over a whole batch
    /// of (observation, action, target) triples: each coordinate moves
    /// by the optimizer step of its mean gradient, in one update.  A
    /// batch of size one behaves like a single-sample step with its
    /// gradients averaged over one.  An oversized error anywhere in the
    /// batch, or any out-of-range resulting weight, skips the whole
    /// update; a batch of zero errors on a resting optimizer moves
    /// nothing and reports zero loss.
    #[verifier::loop_isolation(false)]
    pub fn gradient_step_batch(
        &mut self,
        opt: &mut SgdOptimizer,
        states: &Vec<Vec<i64>>,
        actions: &Vec<usize>,
        targets: &Vec<i64>,
    ) -> (r: TrainOutcome)
        requires
            old(self).wf(),
            old(opt).wf_for(old(self).actions(), old(self).obs_dim as int),
            1 <= states@.len() <= B_MAX,
            actions@.len() == states@.len(),
            targets@.len() == states@.len(),
            forall|i: int|
                0 <= i < states@.len() ==> obs_ok(
                    (#[trigger] states@[i])@,
                    old(self).obs_dim as int,
                ),
            forall|i: int|
                0 <= i < states@.len() ==> ((#[trigger] actions@[i]) as int) < old(self).actions(),
            forall|i: int|
                0 <= i < states@.len() ==> abs_int((#[trigger] targets@[i]) as int) <= T_BOUND,
        ensures
            final(self).wf(),
            final(opt).wf_for(old(self).actions(), old(self).obs_dim as int),
            final(self).obs_dim == old(self).obs_dim,
            final(self).actions() == old(self).actions(),
            final(opt).lr == old(opt).lr,
            final(opt).momentum == old(opt).momentum,
            ({
                let n = states@.len() as int;
                &&& (!batch_errs_small(*old(self), states@, actions@, targets@, n) ==> r
                    == TrainOutcome::SkippedLargeError)
                &&& (batch_errs_small(*old(self), states@, actions@, targets@, n) && !batch_fits(
                    *old(self),
                    *old(opt),
                    states@,
                    actions@,
                    targets@,
                    n,
                ) ==> r == TrainOutcome::SkippedWeightLimit)
                &&& (!(r matches TrainOutcome::Applied { .. }) ==> unchanged_params(
                    *old(self),
                    *final(self),
                    *old(opt),
                    *final(opt),
                ))
                &&& (batch_errs_small(*old(self), states@, actions@, targets@, n) && batch_fits(
                    *old(self),
                    *old(opt),
                    states@,
                    actions@,
                    targets@,
                    n,
                ) ==> {
                    &&& r matches TrainOutcome::Applied { loss } && loss as int == sum_sq_err(
                        *old(self),
                        states@,
                        actions@,
                        targets@,
                        n,
                    ) / n
                    &&& batch_applied_params(
                        *old(self),
                        *final(self),
                        *old(opt),
                        *final(opt),
                        states@,
                        actions@,
                        targets@,
                        n,
                    )
                })
                &&& (batch_errs_zero(*old(self), states@, actions@, targets@, n)
                    && all_velocities_zero(
                    *old(opt),
                    old(self).actions(),
                    old(self).obs_dim as int,
                ) ==> r == (TrainOutcome::Applied { loss: 0 }) && unchanged_params(
                    *old(self),
                    *final(self),
                    *old(opt),
                    *final(opt),
                ))
            }),
    {
        let n = states.len();
        let mut errs: Vec<i64> = Vec::new();
        let mut sumsq: u128 = 0;
        let mut i: usize = 0;
        while i < n
            invariant
                i <= n,
                errs@.len() == i as int,
                forall|p: int|
                    0 <= p < i as int ==> (#[trigger] errs@[p]) as int == batch_err(
                        *self,
                        states@,
                        actions@,
                        targets@,
                        p,
                    ),
                forall|p: int|
                    0 <= p < i as int ==> abs_int((#[trigger] errs@[p]) as int) <= ERR_CLIP,
                sumsq as int == sum_sq_err(*self, states@, actions@, targets@, i as int),
                sumsq <= (i as u128) * 1_000_000_000_000_000_000,
            decreases n - i,
        {
            let cur = self.q_for_action(&states[i], actions[i]);
            let d = cur - targets[i];
            let dab = if d >= 0 {
                d
            } else {
                -d
            };
            if dab > ERR_CLIP {
                proof {
                    assert(abs_int(batch_err(*self, states@, actions@, targets@, i as int))
                        > ERR_CLIP);
                }
                return TrainOutcome::SkippedLargeError;
            }
            proof {
                assert((dab as int) * (dab as int) == (d as int) * (d as int)
                    && (dab as int) * (dab as int) <= 1_000_000_000_000_000_000int)
                    by (nonlinear_arith)
                    requires
                        dab as int == abs_int(d as int),
                        abs_int(d as int) <= ERR_CLIP as int,
                ;
            }
            sumsq = sumsq + (dab as u128) * (dab as u128);
            errs.push(d);
            i = i + 1;
        }
        proof {
            assert forall|p: int| 0 <= p < n as int implies abs_int(
                #[trigger] batch_err(*self, states@, actions@, targets@, p),
            ) <= ERR_CLIP by {
                assert(abs_int((errs@[p]) as int) <= ERR_CLIP);
            }
            assert(batch_errs_small(*self, states@, actions@, targets@, n as int));
        }
        let acount = self.weights.len();
        let mut cand_w: Vec<Vec<i64>> = Vec::new();
        let mut cand_vw: Vec<Vec<i64>> = Vec::new();
        let mut cand_b: Vec<i64> = Vec::new();
        let mut cand_vb: Vec<i64> = Vec::new();
        let mut a: usize = 0;
        while a < acount
            invariant
                a <= acount,
                errs@.len() == n as int,
                forall|p: int|
                    0 <= p < n as int ==> (#[trigger] errs@[p]) as int == batch_err(
                        *self,
                        states@,
                        actions@,
                        targets@,
                        p,
                    ),
                forall|p: int|
                    0 <= p < n as int ==> abs_int((#[trigger] errs@[p]) as int) <= ERR_CLIP,
                cand_w@.len() == a as int,
                cand_vw@.len() == a as int,
                cand_b@.len() == a as int,
                cand_vb@.len() == a as int,
                forall|p: int|
                    0 <= p < a as int ==> (#[trigger] cand_w@[p])@.len() == self.obs_dim,
                forall|p: int|
                    0 <= p < a as int ==> (#[trigger] cand_vw@[p])@.len() == self.obs_dim,
                forall|p: int, j: int|
                    0 <= p < a as int && 0 <= j < self.obs_dim as int ==> (#[trigger] cand_w@[p]@[j]) as int
                        == self.wrow(p)[j] - step_of(
                        opt.lr as int,
                        opt.momentum,
                        opt.vrow(p)[j] as int,
                        batch_grad_w(*self, states@, actions@, targets@, p, j, n as int),
                    ),
                forall|p: int, j: int|
                    0 <= p < a as int && 0 <= j < self.obs_dim as int ==> (#[trigger] cand_vw@[p]@[j]) as int
                        == vel_after(
                        opt.momentum,
                        opt.vrow(p)[j] as int,
                        batch_grad_w(*self, states@, actions@, targets@, p, j, n as int),
                    ),
                forall|p: int|
                    0 <= p < a as int ==> (#[trigger] cand_b@[p]) as int == self.bias@[p]
                        - step_of(
                        opt.lr as int,
                        opt.momentum,
                        opt.vel_b@[p] as int,
                        batch_grad_b(*self, states@, actions@, targets@, p, n as int),
                    ),
                forall|p: int|
                    0 <= p < a as int ==> (#[trigger] cand_vb@[p]) as int == vel_after(
                        opt.momentum,
                        opt.vel_b@[p] as int,
                        batch_grad_b(*self, states@, actions@, targets@, p, n as int),
                    ),
                forall|p: int, j: int|
                    0 <= p < a as int && 0 <= j < self.obs_dim as int ==> abs_int(
                        (#[trigger] cand_w@[p]@[j]) as int,
                    ) <= W_MAX,
                forall|p: int, j: int|
                    0 <= p < a as int && 0 <= j < self.obs_dim as int ==> abs_int(
                        (#[trigger] cand_vw@[p]@[j]) as int,
                    ) <= V_BOUND,
                forall|p: int|
                    0 <= p < a as int ==> abs_int((#[trigger] cand_b@[p]) as int) <= W_MAX,
                forall|p: int|
                    0 <= p < a as int ==> abs_int((#[trigger] cand_vb@[p]) as int) <= V_BOUND,
            decreases acount - a,
        {
            let mut row_w: Vec<i64> = Vec::new();
            let mut row_vw: Vec<i64> = Vec::new();
            let mut j: usize = 0;
            while j < self.obs_dim
                invariant
                    j <= self.obs_dim,
                    (a as int) < self.actions(),
                    errs@.len() == n as int,
                    forall|p: int|
                        0 <= p < n as int ==> (#[trigger] errs@[p]) as int == batch_err(
                            *self,
                            states@,
                            actions@,
                            targets@,
                            p,
                        ),
                    forall|p: int|
                        0 <= p < n as int ==> abs_int((#[trigger] errs@[p]) as int) <= ERR_CLIP,
                    row_w@.len() == j as int,
                    row_vw@.len() == j as int,
                    forall|q: int|
                        0 <= q < j as int ==> (#[trigger] row_w@[q]) as int == self.wrow(
                            a as int,
                        )[q] - step_of(
                            opt.lr as int,
                            opt.momentum,
                            opt.vrow(a as int)[q] as int,
                            batch_grad_w(*self, states@, actions@, targets@, a as int, q, n as int),
                        ),
                    forall|q: int|
                        0 <= q < j as int ==> (#[trigger] row_vw@[q]) as int == vel_after(
                            opt.momentum,
                            opt.vrow(a as int)[q] as int,
                            batch_grad_w(*self, states@, actions@, targets@, a as int, q, n as int),
                        ),
                    forall|q: int|
                        0 <= q < j as int ==> abs_int((#[trigger] row_w@[q]) as int) <= W_MAX,
                    forall|q: int|
                        0 <= q < j as int ==> abs_int((#[trigger] row_vw@[q]) as int) <= V_BOUND,
                decreases self.obs_dim - j,
            {
                let mut acc: i64 = 0;
                let mut k: usize = 0;
                while k < n
                    invariant
                        k <= n,
                        (a as int) < self.actions(),
                        (j as int) < self.obs_dim as int,
                        errs@.len() == n as int,
                        forall|p: int|
                            0 <= p < n as int ==> (#[trigger] errs@[p]) as int == batch_err(
                                *self,
                                states@,
                                actions@,
                                targets@,
                                p,
                            ),
                        forall|p: int|
                            0 <= p < n as int ==> abs_int((#[trigger] errs@[p]) as int) <= ERR_CLIP,
                        acc as int == batch_wsum(
                            *self,
                            states@,
                            actions@,
                            targets@,
                            a as int,
                            j as int,
                            k as int,
                        ),
                        abs_int(acc as int) <= (k as int) * 100_000_000_000,
                    decreases n - k,
                {
                    if actions[k] == a {
                        let ek = errs[k];
                        let xkj = states[k][j];
                        proof {
                            assert(abs_int((ek as int) * (xkj as int)) <= 100_000_000_000int * (
                            SCALE as int) && abs_int(ek as int) * abs_int(xkj as int) < i64::MAX)
                                by (nonlinear_arith)
                                requires
                                    abs_int(ek as int) <= ERR_CLIP as int,
                                    abs_int(xkj as int) <= X_MAX as int,
                            ;
                            lemma_scale_mul_bound(ek as int, xkj as int, 100_000_000_000);
                        }
                        let term = scale_mul(ek, xkj);
                        acc = acc + term;
                    }
                    k = k + 1;
                }
                proof {
                    assert((n as int) * 100_000_000_000 <= 64int * 100_000_000_000);
                    crate::fixed::lemma_floor_div_bound_by(acc as int, n as int, 100_000_000_000);
                }
                let g = 2 * div_floor(acc, n as i64);
                let (vnew, step) = sgd_step(opt.lr, opt.momentum, opt.vel_w[a][j], g);
                let cw = self.weights[a][j] - step;
                if cw > W_MAX || cw < -W_MAX {
                    proof {
                        assert(abs_int(
                            old(self).wrow(a as int)[j as int] - step_of(
                                old(opt).lr as int,
                                old(opt).momentum,
                                old(opt).vrow(a as int)[j as int] as int,
                                batch_grad_w(
                                    *old(self),
                                    states@,
                                    actions@,
                                    targets@,
                                    a as int,
                                    j as int,
                                    n as int,
                                ),
                            ),
                        ) > W_MAX);
                        if batch_errs_zero(*old(self), states@, actions@, targets@, n as int)
                            && all_velocities_zero(
                            *old(opt),
                            old(self).actions(),
                            old(self).obs_dim as int,
                        ) {
                            lemma_batch_sums_zero(
                                *old(self),
                                states@,
                                actions@,
                                targets@,
                                a as int,
                                j as int,
                                n as int,
                            );
                            lemma_zero_grad(0, n as int);
                            lemma_zero_step(old(opt).lr as int, old(opt).momentum);
                        }
                    }
                    return TrainOutcome::SkippedWeightLimit;
                }
                row_w.push(cw);
                row_vw.push(vnew);
                j = j + 1;
            }
            let mut accb: i64 = 0;
            let mut k: usize = 0;
            while k < n
                invariant
                    k <= n,
                    (a as int) < self.actions(),
                    errs@.len() == n as int,
                    forall|p: int|
                        0 <= p < n as int ==> (#[trigger] errs@[p]) as int == batch_err(
                            *self,
                            states@,
                            actions@,
                            targets@,
                            p,
                        ),
                    forall|p: int|
                        0 <= p < n as int ==> abs_int((#[trigger] errs@[p]) as int) <= ERR_CLIP,
                    accb as int == batch_bsum(
                        *self,
                        states@,
                        actions@,
                        targets@,
                        a as int,
                        k as int,
                    ),
                    abs_int(accb as int) <= (k as int) * (ERR_CLIP as int),
                decreases n - k,
            {
                if actions[k] == a {
                    accb = accb + errs[k];
                }
                k = k + 1;
            }
            proof {
                crate::fixed::lemma_floor_div_bound_by(accb as int, n as int, ERR_CLIP as int);
            }
            let gb = 2 * div_floor(accb, n as i64);
            let (vbn, stepb) = sgd_step(opt.lr, opt.momentum, opt.vel_b[a], gb);
            let cb = self.bias[a] - stepb;
            if cb > W_MAX || cb < -W_MAX {
                proof {
                    assert(abs_int(
                        old(self).bias@[a as int] - step_of(
                            old(opt).lr as int,
                            old(opt).momentum,
                            old(opt).vel_b@[a as int] as int,
                            batch_grad_b(
                                *old(self),
                                states@,
                                actions@,
                                targets@,
                                a as int,
                                n as int,
                            ),
                        ),
                    ) > W_MAX);
                    if batch_errs_zero(*old(self), states@, actions@, targets@, n as int)
                        && all_velocities_zero(
                        *old(opt),
                        old(self).actions(),
                        old(self).obs_dim as int,
                    ) {
                        lemma_batch_sums_zero(
                            *old(self),
                            states@,
                            actions@,
                            targets@,
                            a as int,
                            0,
                            n as int,
                        );
                        lemma_zero_grad(0, n as int);
                        lemma_zero_step(old(opt).lr as int, old(opt).momentum);
                    }
                }
                return TrainOutcome::SkippedWeightLimit;
            }
            cand_w.push(row_w);
            cand_vw.push(row_vw);
            cand_b.push(cb);
            cand_vb.push(vbn);
            a = a + 1;
        }
        self.weights = cand_w;
        self.bias = cand_b;
        opt.vel_w = cand_vw;
        opt.vel_b = cand_vb;
        proof {
            assert forall|p: int, j: int|
                0 <= p < old(self).actions() && 0 <= j < old(self).obs_dim implies abs_int(
                old(self).wrow(p)[j] - step_of(
                    old(opt).lr as int,
                    old(opt).momentum,
                    old(opt).vrow(p)[j] as int,
                    batch_grad_w(*old(self), states@, actions@, targets@, p, j, n as int),
                ),
            ) <= W_MAX by {
                assert(abs_int((self.weights@[p]@[j]) as int) <= W_MAX);
            }
            assert forall|p: int| 0 <= p < old(self).actions() implies abs_int(
                old(self).bias@[p] - step_of(
                    old(opt).lr as int,
                    old(opt).momentum,
                    old(opt).vel_b@[p] as int,
                    batch_grad_b(*old(self), states@, actions@, targets@, p, n as int),
                ),
            ) <= W_MAX by {
                assert(abs_int((self.bias@[p]) as int) <= W_MAX);
            }
            assert(batch_fits(*old(self), *old(opt), states@, actions@, targets@, n as int));
            assert(sumsq as int == sum_sq_err(*old(self), states@, actions@, targets@, n as int));
            assert(batch_applied_params(
                *old(self),
                *self,
                *old(opt),
                *opt,
                states@,
                actions@,
                targets@,
                n as int,
            ));
            assert((n as u128) * 1_000_000_000_000_000_000 <= 64_000_000_000_000_000_000u128)
                by (nonlinear_arith)
                requires
                    n as int <= 64,
            ;
        }
        let mean = sumsq / (n as u128);
        proof {
            lemma_div_nonincreasing(sumsq as int, n as int);
            assert(mean as int == sum_sq_err(*old(self), states@, actions@, targets@, n as int)
                / (n as int));
            assert(mean <= 64_000_000_000_000_000_000u128);
            if batch_errs_zero(*old(self), states@, actions@, targets@, n as int)
                && all_velocities_zero(*old(opt), old(self).actions(), old(self).obs_dim as int) {
                lemma_batch_sums_zero(*old(self), states@, actions@, targets@, 0, 0, n as int);
                lemma_fundamental_div_mod_converse(0, n as int, 0, 0);
                assert(mean == 0);
                assert forall|p: int, j: int|
                    0 <= p < old(self).actions() && 0 <= j < old(self).obs_dim implies (
                #[trigger] self.wrow(p)[j]) == old(self).wrow(p)[j] by {
                    lemma_batch_sums_zero(*old(self), states@, actions@, targets@, p, j, n as int);
                    lemma_zero_grad(0, n as int);
                    lemma_zero_step(old(opt).lr as int, old(opt).momentum);
                }
                assert forall|p: int, j: int|
                    0 <= p < old(self).actions() && 0 <= j < old(self).obs_dim implies (
                #[trigger] opt.vrow(p)[j]) == old(opt).vrow(p)[j] by {
                    lemma_batch_sums_zero(*old(self), states@, actions@, targets@, p, j, n as int);
                    lemma_zero_grad(0, n as int);
                    lemma_zero_step(old(opt).lr as int, old(opt).momentum);
                }
                assert forall|p: int| 0 <= p < old(self).actions() implies (#[trigger] self.bias@[p])
                    == old(self).bias@[p] by {
                    lemma_batch_sums_zero(*old(self), states@, actions@, targets@, p, 0, n as int);
                    lemma_zero_grad(0, n as int);
                    lemma_zero_step(old(opt).lr as int, old(opt).momentum);
                }
                assert forall|p: int| 0 <= p < old(self).actions() implies (#[trigger] opt.vel_b@[p])
                    == old(opt).vel_b@[p] by {
                    lemma_batch_sums_zero(*old(self), states@, actions@, targets@, p, 0, n as int);
                    lemma_zero_grad(0, n as int);
                    lemma_zero_step(old(opt).lr as int, old(opt).momentum);
                }
                assert(unchanged_params(*old(self), *self, *old(opt), *opt));
            }
        }
        TrainOutcome::Applied { loss: mean as i128 }
    }
}

/// Exactly the taken action's row, bias and velocities moved by the
/// optimizer step; every other parameter kept its value.
pub open spec fn applied_params(
    net0: QFunction,
    net1: QFunction,
    opt0: SgdOptimizer,
    opt1: SgdOptimizer,
    x: Seq<i64>,
    a: int,
    d: int,
) -> bool {
    &&& forall|b: int, j: int|
        0 <= b < net0.actions() && b != a && 0 <= j < net0.obs_dim ==> (#[trigger] net1.wrow(b)[j])
            == net0.wrow(b)[j]
    &&& forall|b: int| 0 <= b < net0.actions() && b != a ==> (#[trigger] net1.bias@[b])
        == net0.bias@[b]
    &&& forall|j: int|
        0 <= j < net0.obs_dim ==> (#[trigger] net1.wrow(a)[j]) as int == net0.wrow(a)[j]
            - step_of(opt0.lr as int, opt0.momentum, opt0.vrow(a)[j] as int, grad_w(d, x[j] as int))
    &&& net1.bias@[a] as int == net0.bias@[a] - step_of(
        opt0.lr as int,
        opt0.momentum,
        opt0.vel_b@[a] as int,
        grad_b(d),
    )
    &&& forall|j: int|
        0 <= j < net0.obs_dim ==> (#[trigger] opt1.vrow(a)[j]) as int == vel_after(
            opt0.momentum,
            opt0.vrow(a)[j] as int,
            grad_w(d, x[j] as int),
        )
    &&& opt1.vel_b@[a] as int == vel_after(opt0.momentum, opt0.vel_b@[a] as int, grad_b(d))
    &&& forall|b: int, j: int|
        0 <= b < net0.actions() && b != a && 0 <= j < net0.obs_dim ==> (#[trigger] opt1.vrow(b)[j])
            == opt0.vrow(b)[j]
    &&& forall|b: int| 0 <= b < net0.actions() && b != a ==> (#[trigger] opt1.vel_b@[b])
        == opt0.vel_b@[b]
}

} // verus!
