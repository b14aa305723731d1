//! An online reinforcement-learning training core: a fixed-capacity
//! replay buffer with uniform sampling, a vectorized environment
//! abstraction with auto-reset, a collector that interleaves acting and
//! buffering, and the temporal-difference update protocol of a deep
//! Q-learning policy. The ring-buffer semantics, the auto-reset rule,
//! the collector's accounting and the target-synchronization protocol
//! are stated as contracts and verified; the numerical kernels of the
//! function approximator are delegated to a tensor library behind a
//! small trusted boundary.

pub mod batch;
pub mod buffer;
pub mod collector;
pub mod dqn;
pub mod env;
pub mod errors;
pub mod mock;
pub mod model;
pub mod policy;
pub mod rng;
pub mod tensor;
pub mod trainer;
pub mod venv;
