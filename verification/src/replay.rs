//! Fixed-capacity ring buffer of past transitions.
//!
//! The buffer keeps up to `capacity` transitions.  A write cursor counts
//! every store ever made; once the buffer is full each store overwrites
//! the slot `cursor % capacity`, so the buffer always holds exactly the
//! most recent `min(stores, capacity)` transitions.  The ghost `hist`
//! field records the full sequence of stores and ties each slot to the
//! latest store that landed in it.

use vstd::prelude::*;

verus! {

use vstd::arithmetic::div_mod::lemma_fundamental_div_mod;
use vstd::arithmetic::div_mod::lemma_fundamental_div_mod_converse;
use vstd::arithmetic::div_mod::lemma_small_mod;
use crate::fixed::min_int;
use crate::rng::rand_below;

/// One step of experience: the observation before the step, the action
/// taken, the reward received, and the observation after the step.
pub struct Transition {
    pub state: Vec<i64>,
    pub action: usize,
    pub reward: i64,
    pub next_state: Vec<i64>,
}

/// Mathematical image of a transition.
#[verifier::ext_equal]
pub ghost struct TransitionModel {
    pub state: Seq<i64>,
    pub action: int,
    pub reward: int,
    pub next_state: Seq<i64>,
}

impl View for Transition {
    type V = TransitionModel;

    open spec fn view(&self) -> TransitionModel {
        TransitionModel {
            state: self.state@,
            action: self.action as int,
            reward: self.reward as int,
            next_state: self.next_state@,
        }
    }
}

/// Copies a fixed-point vector element by element.
pub fn copy_values(v: &Vec<i64>) -> (r: Vec<i64>)
    ensures
        r@ == v@,
{
    let mut out: Vec<i64> = Vec::new();
    let mut i: usize = 0;
    while i < v.len()
        invariant
            i <= v.len(),
            out@ == v@.subrange(0, i as int),
        decreases v.len() - i,
    {
        out.push(v[i]);
        i = i + 1;
        proof {
            assert(out@ =~= v@.subrange(0, i as int));
        }
    }
    proof {
        assert(out@ =~= v@);
    }
    out
}

impl Clone for Transition {
    fn clone(&self) -> (r: Self)
        ensures
            r@ == self@,
    {
        Transition {
            state: copy_values(&self.state),
            action: self.action,
            reward: self.reward,
            next_state: copy_values(&self.next_state),
        }
    }
}

/// Raised when a sample is requested from an empty buffer.
#[derive(Debug, PartialEq, Eq, Structural)]
pub enum BufferError {
    Empty,
}

/// Whether `t` is the image of one of the transitions held in `data`.
pub open spec fn drawn_from(t: TransitionModel, data: Seq<Transition>) -> bool {
    exists|j: int| 0 <= j < data.len() && t == (#[trigger] data[j])@
}

/// Index of the most recent store that landed in slot `j`, among the
/// first `stores` stores into a buffer of the given capacity.
pub open spec fn last_store(stores: int, capacity: int, j: int) -> int {
    j + capacity * ((stores - 1 - j) / capacity)
}

/// Ring store of the most recent transitions.
pub struct ReplayBuffer {
    pub data: Vec<Transition>,
    pub cursor: usize,
    pub capacity: usize,
    pub hist: Ghost<Seq<TransitionModel>>,
}

impl ReplayBuffer {
    /// The buffer is consistent with its ghost history: it holds the
    /// most recent `min(stores, capacity)` transitions, each in the slot
    /// its store index selects.
    pub open spec fn wf(self) -> bool {
        &&& self.capacity > 0
        &&& self.cursor == self.hist@.len()
        &&& self.data@.len() == min_int(self.hist@.len() as int, self.capacity as int)
        &&& forall|j: int|
            0 <= j < self.data@.len() ==> (#[trigger] self.data@[j])@ == self.hist@[last_store(
                self.hist@.len() as int,
                self.capacity as int,
                j,
            )]
    }

    /// Total number of stores ever made.
    pub open spec fn stores(self) -> int {
        self.hist@.len() as int
    }

    pub fn new(capacity: usize) -> (r: ReplayBuffer)
        requires
            capacity > 0,
        ensures
            r.wf(),
            r.capacity == capacity,
            r.hist@ == Seq::<TransitionModel>::empty(),
    {
        ReplayBuffer {
            data: Vec::new(),
            cursor: 0,
            capacity,
            hist: Ghost(Seq::empty()),
        }
    }

    /// Number of transitions currently held: the store count, capped at
    /// the capacity.
    pub fn len(&self) -> (r: usize)
        requires
            self.wf(),
        ensures
            r as int == min_int(self.stores(), self.capacity as int),
    {
        self.data.len()
    }

    /// Reads the transition in slot `j`.
    pub fn get(&self, j: usize) -> (r: &Transition)
        requires
            self.wf(),
            (j as int) < min_int(self.stores(), self.capacity as int),
        ensures
            r@ == self.data@[j as int]@,
    {
        &self.data[j]
    }

    /// Appends while under capacity, then overwrites the oldest slot;
    /// always advances the cursor.  Never fails.
    pub fn store(&mut self, t: Transition)
        requires
            old(self).wf(),
            old(self).stores() < usize::MAX,
        ensures
            final(self).wf(),
            final(self).capacity == old(self).capacity,
            final(self).hist@ == old(self).hist@.push(t@),
            final(self).data@.len() == min_int(
                old(self).stores() + 1,
                old(self).capacity as int,
            ),
    {
        let ghost pre = *self;
        let slot = self.cursor % self.capacity;
        if self.data.len() < self.capacity {
            self.data.push(t);
        } else {
            self.data.set(slot, t);
        }
        self.cursor = self.cursor + 1;
        proof {
            self.hist@ = pre.hist@.push(t@);
            let li = pre.hist@.len() as int;
            let cap = pre.capacity as int;
            lemma_fundamental_div_mod(li, cap);
            if li < cap {
                lemma_small_mod(li as nat, cap as nat);
            }
            assert forall|j: int| 0 <= j < self.data@.len() implies (#[trigger] self.data@[j])@
                == self.hist@[last_store(li + 1, cap, j)] by {
                lemma_last_store_step(li, cap, j);
                if j != li % cap {
                    lemma_last_store_in_range(li, cap, j);
                }
            }
        }
    }

    /// Draws `k` transitions from the stored entries with replacement,
    /// using the given generator; fails exactly when the buffer is
    /// empty.
    pub fn sample(&self, k: usize, rng: &mut rand::rngs::StdRng) -> (r: Result<
        Vec<Transition>,
        BufferError,
    >)
        requires
            self.wf(),
        ensures
            match r {
                Ok(v) => {
                    &&& self.data@.len() > 0
                    &&& v@.len() == k as int
                    &&& forall|i: int|
                        0 <= i < k as int ==> drawn_from((#[trigger] v@[i])@, self.data@)
                },
                Err(e) => e == BufferError::Empty && self.data@.len() == 0,
            },
    {
        let n = self.data.len();
        if n == 0 {
            return Err(BufferError::Empty);
        }
        let mut out: Vec<Transition> = Vec::new();
        let mut i: usize = 0;
        while i < k
            invariant
                i <= k,
                out@.len() == i as int,
                n == self.data@.len(),
                n > 0,
                forall|q: int| 0 <= q < i as int ==> drawn_from((#[trigger] out@[q])@, self.data@),
            decreases k - i,
        {
            let idx = rand_below(rng, n as u64) as usize;
            let picked = self.data[idx].clone();
            out.push(picked);
            proof {
                assert((out@[i as int])@ == (self.data@[idx as int])@);
            }
            i = i + 1;
        }
        Ok(out)
    }
}

/// How one more store moves the latest-store map: the slot the cursor
/// selects now holds the new store, every other slot is unchanged.
proof fn lemma_last_store_step(li: int, cap: int, j: int)
    requires
        0 < cap,
        0 <= li,
        0 <= j < min_int(li + 1, cap),
    ensures
        last_store(li + 1, cap, j) == if j == li % cap {
            li
        } else {
            last_store(li, cap, j)
        },
{
    lemma_fundamental_div_mod(li, cap);
    let s = li % cap;
    let q = li / cap;
    if j == s {
        assert(li - j == cap * q);
        assert((cap * q) / cap == q) by (nonlinear_arith)
            requires
                cap > 0,
        ;
    } else {
        if s > j {
            assert(li - j == q * cap + (s - j)) by (nonlinear_arith)
                requires
                    li == cap * q + s,
            ;
            lemma_fundamental_div_mod_converse(li - j, cap, q, s - j);
            lemma_fundamental_div_mod_converse(li - 1 - j, cap, q, s - j - 1);
        } else {
            assert(li - j == (q - 1) * cap + (cap + s - j)) by (nonlinear_arith)
                requires
                    li == cap * q + s,
            ;
            lemma_fundamental_div_mod_converse(li - j, cap, q - 1, cap + s - j);
            lemma_fundamental_div_mod_converse(li - 1 - j, cap, q - 1, cap + s - j - 1);
        }
    }
}

/// The latest store into slot `j` lies among the most recent
/// `min(stores, capacity)` stores.
proof fn lemma_last_store_in_range(li: int, cap: int, j: int)
    requires
        0 < cap,
        0 <= j < min_int(li, cap),
    ensures
        0 <= last_store(li, cap, j) < li,
        li - cap <= last_store(li, cap, j),
{
    lemma_fundamental_div_mod(li - 1 - j, cap);
    let q = (li - 1 - j) / cap;
    let r = (li - 1 - j) % cap;
    assert(q >= 0) by (nonlinear_arith)
        requires
            li - 1 - j >= 0 && cap > 0 && li - 1 - j == cap * q + r && 0 <= r < cap,
    ;
    assert(cap * q >= 0) by (nonlinear_arith)
        requires
            cap > 0 && q >= 0,
    ;
}

/// Ring overwrite keeps exactly the most recent transitions: the store
/// with index `m` is still held in slot `m % capacity` whenever `m` is
/// among the last `capacity` stores (and, while the buffer is filling,
/// for every store so far).  Together with `wf`, which pins the length
/// to `min(stores, capacity)`, this determines the whole contents.
pub proof fn lemma_ring_keeps_recent(buf: ReplayBuffer, m: int)
    requires
        buf.wf(),
        0 <= m < buf.stores(),
        buf.stores() - buf.capacity as int <= m,
    ensures
        buf.data@[m % buf.capacity as int]@ == buf.hist@[m],
{
    let li = buf.stores();
    let cap = buf.capacity as int;
    lemma_fundamental_div_mod(m, cap);
    let j = m % cap;
    let q = m / cap;
    assert(li - 1 - j == q * cap + (li - 1 - m)) by {
        assert(m == cap * q + j);
    }
    lemma_fundamental_div_mod_converse(li - 1 - j, cap, q, li - 1 - m);
    assert(last_store(li, cap, j) == j + cap * q);
    assert(j + cap * q == m);
}

} // verus!
