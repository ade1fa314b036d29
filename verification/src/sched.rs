//! Exploration schedule and action selection.
//!
//! The probability of taking a random action starts at `eps_max` and
//! decays toward `eps_min` as session time passes.  Decay is driven by
//! elapsed time, not by steps: each whole time unit multiplies a decay
//! factor by the retention `retain` (the fixed-point image of
//! `exp(-decay_rate)` over one unit), so at elapsed time `t` the factor
//! is `retain^t` and epsilon is `eps_min + (eps_max - eps_min) *
//! retain^t`, the exponential schedule truncated to fixed point.
//! Epsilon never leaves `[eps_min, eps_max]` and never increases.

use vstd::prelude::*;

verus! {

use vstd::arithmetic::div_mod::lemma_div_is_ordered;
use vstd::arithmetic::div_mod::lemma_div_multiples_vanish;
use vstd::arithmetic::div_mod::lemma_fundamental_div_mod_converse;
use crate::fixed::SCALE;
use crate::fixed::min_int;
use crate::fixed::scale_mul;
use crate::fixed::scale_mul_spec;

/// Decay factor at elapsed time `t`: `retain^t`, rounded down after
/// every multiplication.
pub open spec fn factor_at(retain: int, t: nat) -> int
    decreases t,
{
    if t == 0 {
        SCALE as int
    } else {
        (factor_at(retain, (t - 1) as nat) * retain) / (SCALE as int)
    }
}

/// Epsilon induced by a decay factor.
pub open spec fn eps_of(eps_min: int, eps_max: int, factor: int) -> int {
    eps_min + ((eps_max - eps_min) * factor) / (SCALE as int)
}

/// Tracks the exploration probability over elapsed session time.
///
/// `elapsed` is a time reference measured from session start in whole
/// time units, supplied by the host's clock; decay follows that clock,
/// not the frame rate.
pub struct ExplorationScheduler {
    pub eps_max: i64,
    pub eps_min: i64,
    pub retain: i64,
    pub factor: i64,
    pub elapsed: u64,
}

impl ExplorationScheduler {
    pub open spec fn wf(self) -> bool {
        &&& 0 <= self.eps_min <= self.eps_max <= SCALE
        &&& 0 <= self.retain <= SCALE
        &&& 0 <= self.factor <= SCALE
        &&& self.factor == factor_at(self.retain as int, self.elapsed as nat)
    }

    /// Current epsilon as a spec value.
    pub open spec fn epsilon_spec(self) -> int {
        eps_of(self.eps_min as int, self.eps_max as int, self.factor as int)
    }

    pub fn new(eps_max: i64, eps_min: i64, retain: i64) -> (r: ExplorationScheduler)
        requires
            0 <= eps_min <= eps_max <= SCALE,
            0 <= retain <= SCALE,
        ensures
            r.wf(),
            r.eps_max == eps_max,
            r.eps_min == eps_min,
            r.retain == retain,
            r.factor == SCALE,
            r.elapsed == 0,
    {
        ExplorationScheduler { eps_max, eps_min, retain, factor: SCALE, elapsed: 0 }
    }

    /// Exploration probability right now, in fixed point.  Always within
    /// `[eps_min, eps_max]`; equal to `eps_max` while no time has passed.
    pub fn epsilon(&self) -> (r: i64)
        requires
            self.wf(),
        ensures
            r == self.epsilon_spec(),
            self.eps_min <= r <= self.eps_max,
            self.elapsed == 0 ==> r == self.eps_max,
    {
        proof {
            lemma_eps_of_bounds(
                self.eps_min as int,
                self.eps_max as int,
                self.factor as int,
            );
            if self.elapsed == 0 {
                lemma_eps_of_full(self.eps_min as int, self.eps_max as int);
            }
        }
        self.eps_min + scale_mul(self.eps_max - self.eps_min, self.factor)
    }

    /// One time unit passes: the decay factor shrinks by the retention
    /// ratio, and epsilon does not increase.
    pub fn advance(&mut self)
        requires
            old(self).wf(),
            old(self).elapsed < u64::MAX,
        ensures
            final(self).wf(),
            final(self).eps_max == old(self).eps_max,
            final(self).eps_min == old(self).eps_min,
            final(self).retain == old(self).retain,
            final(self).elapsed == old(self).elapsed + 1,
            final(self).factor == scale_mul_spec(old(self).factor as int, old(self).retain as int),
            final(self).factor <= old(self).factor,
            final(self).epsilon_spec() <= old(self).epsilon_spec(),
    {
        proof {
            lemma_factor_shrinks(self.factor as int, self.retain as int);
            lemma_eps_of_ordered(
                self.eps_min as int,
                self.eps_max as int,
                scale_mul_spec(self.factor as int, self.retain as int),
                self.factor as int,
            );
        }
        self.factor = scale_mul(self.factor, self.retain);
        self.elapsed = self.elapsed + 1;
    }

    /// Moves the time reference forward to `elapsed`, as read from the
    /// host's clock.  The decay factor becomes exactly `retain^elapsed`,
    /// so epsilon follows session time whatever the frame rate; it
    /// never increases.
    pub fn advance_to(&mut self, elapsed: u64)
        requires
            old(self).wf(),
            elapsed >= old(self).elapsed,
        ensures
            final(self).wf(),
            final(self).eps_max == old(self).eps_max,
            final(self).eps_min == old(self).eps_min,
            final(self).retain == old(self).retain,
            final(self).elapsed == elapsed,
            final(self).factor == factor_at(old(self).retain as int, elapsed as nat),
            final(self).epsilon_spec() <= old(self).epsilon_spec(),
    {
        let ghost start = *self;
        while self.elapsed < elapsed
            invariant
                self.wf(),
                self.eps_max == start.eps_max,
                self.eps_min == start.eps_min,
                self.retain == start.retain,
                start.elapsed <= self.elapsed <= elapsed,
                self.epsilon_spec() <= start.epsilon_spec(),
            decreases elapsed - self.elapsed,
        {
            self.advance();
        }
    }
}

/// One fixed-point multiplication by a ratio at most one keeps the
/// factor within `[0, before]`.
proof fn lemma_factor_shrinks(factor: int, retain: int)
    requires
        0 <= factor <= SCALE,
        0 <= retain <= SCALE,
    ensures
        0 <= scale_mul_spec(factor, retain) <= factor,
{
    let s = SCALE as int;
    assert(0 <= factor * retain <= factor * s) by (nonlinear_arith)
        requires
            0 <= factor && 0 <= retain <= s,
    ;
    lemma_div_is_ordered(0, factor * retain, s);
    lemma_div_is_ordered(factor * retain, factor * s, s);
    assert(factor * s == s * factor);
    lemma_div_multiples_vanish(factor, s);
}

/// Epsilon lies between its bounds for any factor in `[0, SCALE]`.
proof fn lemma_eps_of_bounds(eps_min: int, eps_max: int, factor: int)
    requires
        0 <= eps_min <= eps_max,
        0 <= factor <= SCALE,
    ensures
        eps_min <= eps_of(eps_min, eps_max, factor) <= eps_max,
{
    let s = SCALE as int;
    let w = eps_max - eps_min;
    assert(0 <= w * factor <= w * s) by (nonlinear_arith)
        requires
            0 <= w && 0 <= factor <= s,
    ;
    lemma_div_is_ordered(0, w * factor, s);
    lemma_div_is_ordered(w * factor, w * s, s);
    assert(w * s == s * w);
    lemma_div_multiples_vanish(w, s);
}

/// With the factor still at one, epsilon is exactly its maximum.
proof fn lemma_eps_of_full(eps_min: int, eps_max: int)
    ensures
        eps_of(eps_min, eps_max, SCALE as int) == eps_max,
{
    let s = SCALE as int;
    let w = eps_max - eps_min;
    assert(w * s == s * w);
    lemma_div_multiples_vanish(w, s);
}

/// Epsilon is monotone in the decay factor.
proof fn lemma_eps_of_ordered(eps_min: int, eps_max: int, f1: int, f2: int)
    requires
        eps_min <= eps_max,
        f1 <= f2,
    ensures
        eps_of(eps_min, eps_max, f1) <= eps_of(eps_min, eps_max, f2),
{
    let s = SCALE as int;
    let w = eps_max - eps_min;
    assert(w * f1 <= w * f2) by (nonlinear_arith)
        requires
            0 <= w && f1 <= f2,
    ;
    lemma_div_is_ordered(w * f1, w * f2, s);
}

/// The decay factor stays within `[0, SCALE]` at every elapsed time.
pub proof fn lemma_factor_bounds(retain: int, t: nat)
    requires
        0 <= retain <= SCALE,
    ensures
        0 <= factor_at(retain, t) <= SCALE,
    decreases t,
{
    if t > 0 {
        lemma_factor_bounds(retain, (t - 1) as nat);
        lemma_factor_shrinks(factor_at(retain, (t - 1) as nat), retain);
    }
}

/// Exploration never rises: at any later elapsed time the decay factor,
/// and with it epsilon, is no larger, and epsilon always stays within
/// `[eps_min, eps_max]`.
pub proof fn lemma_epsilon_non_increasing(
    eps_min: int,
    eps_max: int,
    retain: int,
    t1: nat,
    t2: nat,
)
    requires
        0 <= eps_min <= eps_max <= SCALE,
        0 <= retain <= SCALE,
        t1 <= t2,
    ensures
        factor_at(retain, t2) <= factor_at(retain, t1),
        eps_of(eps_min, eps_max, factor_at(retain, t2)) <= eps_of(
            eps_min,
            eps_max,
            factor_at(retain, t1),
        ),
        eps_min <= eps_of(eps_min, eps_max, factor_at(retain, t2)) <= eps_max,
    decreases t2 - t1,
{
    lemma_factor_bounds(retain, t1);
    lemma_factor_bounds(retain, t2);
    if t2 > t1 {
        lemma_epsilon_non_increasing(eps_min, eps_max, retain, t1, (t2 - 1) as nat);
        lemma_factor_bounds(retain, (t2 - 1) as nat);
        lemma_factor_shrinks(factor_at(retain, (t2 - 1) as nat), retain);
    }
    lemma_eps_of_ordered(eps_min, eps_max, factor_at(retain, t2), factor_at(retain, t1));
    lemma_eps_of_bounds(eps_min, eps_max, factor_at(retain, t2));
}

/// With any retention below one, the schedule eventually settles at its
/// minimum exactly: some elapsed time drives the decay factor to zero.
pub proof fn lemma_epsilon_reaches_min(eps_min: int, eps_max: int, retain: int)
    requires
        0 <= eps_min <= eps_max <= SCALE,
        0 <= retain < SCALE,
    ensures
        exists|t: nat|
            eps_of(eps_min, eps_max, #[trigger] factor_at(retain, t)) == eps_min,
{
    let t0 = lemma_factor_hits_zero(retain, 0);
    assert(((eps_max - eps_min) * 0) / (SCALE as int) == 0);
    assert(eps_of(eps_min, eps_max, factor_at(retain, t0)) == eps_min);
}

/// A strictly shrinking factor reaches zero after finitely many ticks.
proof fn lemma_factor_hits_zero(retain: int, t: nat) -> (t0: nat)
    requires
        0 <= retain < SCALE,
    ensures
        factor_at(retain, t0) == 0,
    decreases factor_at(retain, t) + 1,
{
    lemma_factor_bounds(retain, t);
    let f = factor_at(retain, t);
    if f == 0 {
        t
    } else {
        lemma_factor_strict_drop(f, retain);
        lemma_factor_bounds(retain, t + 1);
        lemma_factor_hits_zero(retain, t + 1)
    }
}

/// One tick with retention below one loses at least one fixed-point
/// unit while the factor is positive.
proof fn lemma_factor_strict_drop(factor: int, retain: int)
    requires
        1 <= factor <= SCALE,
        0 <= retain < SCALE,
    ensures
        scale_mul_spec(factor, retain) <= factor - 1,
{
    let s = SCALE as int;
    assert(factor * retain <= factor * s - factor) by (nonlinear_arith)
        requires
            1 <= factor && retain <= s - 1,
    ;
    lemma_div_is_ordered(factor * retain, factor * s - factor, s);
    assert(factor * s - factor == (factor - 1) * s + (s - factor)) by (nonlinear_arith);
    lemma_fundamental_div_mod_converse(factor * s - factor, s, factor - 1, s - factor);
}

/// Lowest index at which the greatest value of `q` appears.
pub open spec fn is_greedy_choice(q: Seq<i64>, r: int) -> bool {
    &&& 0 <= r < q.len()
    &&& forall|j: int| 0 <= j < q.len() ==> #[trigger] q[j] <= q[r]
    &&& forall|j: int| 0 <= j < r ==> #[trigger] q[j] < q[r]
}

/// Index of the maximum entry, ties resolved to the lowest index.
pub fn greedy_action(q: &Vec<i64>) -> (r: usize)
    requires
        q@.len() > 0,
    ensures
        is_greedy_choice(q@, r as int),
{
    let mut best: usize = 0;
    let mut i: usize = 1;
    while i < q.len()
        invariant
            0 < i <= q@.len(),
            (best as int) < i as int,
            forall|j: int| 0 <= j < i as int ==> #[trigger] q@[j] <= q@[best as int],
            forall|j: int| 0 <= j < best as int ==> #[trigger] q@[j] < q@[best as int],
        decreases q@.len() - i,
    {
        if q[i] > q[best] {
            best = i;
        }
        i = i + 1;
    }
    best
}

/// Epsilon-greedy choice, decided by a draw handed in by the caller:
/// a draw under epsilon picks the random action (clamped into range, a
/// defensive bound on a corrupted index), any other draw picks the
/// greedy action.
pub fn select_action(q: &Vec<i64>, epsilon: i64, draw: i64, random_action: usize) -> (r: usize)
    requires
        q@.len() > 0,
    ensures
        (r as int) < q@.len(),
        draw < epsilon ==> r as int == min_int(random_action as int, q@.len() - 1),
        draw >= epsilon ==> is_greedy_choice(q@, r as int),
{
    if draw < epsilon {
        if random_action < q.len() {
            random_action
        } else {
            q.len() - 1
        }
    } else {
        greedy_action(q)
    }
}

} // verus!
