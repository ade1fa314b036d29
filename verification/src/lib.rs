//! Online reinforcement-learning agent for a self-driving vehicle simulation.
//!
//! The library holds the algorithmic core of the agent: a fixed-capacity
//! ring buffer of experience, an exploration schedule with exponential
//! decay, a linear Q-function approximator over fixed-point numbers, and
//! the temporal-difference training step that updates it.  All numeric
//! state is kept in fixed-point `i64` values (millionths), so that every
//! arithmetic step is exact and verified; the host simulation converts
//! sensor readings to and from this representation at the boundary.

pub mod agent;
pub mod fixed;
pub mod qfn;
pub mod replay;
pub mod rng;
pub mod sched;
pub mod trainer;
