use std::collections::HashMap;
use vstd::prelude::*;

verus! {

/// An environment call either yields a value or reports an unrecoverable
/// simulation error as a textual reason.
pub type EnvResult<T> = Result<T, String>;

/// What one environment step reports: the post-step observation, the
/// reward earned (in fixed-point units), whether the episode ended, and
/// optional diagnostic metadata.
#[derive(Debug)]
pub struct Step<O> {
    pub obs: O,
    pub done: bool,
    pub reward: i64,
    pub info: Option<HashMap<String, String>>,
}

/// The capability contract of a single simulated environment.
///
/// An implementation describes itself as a deterministic transition
/// system through the spec functions: what a step from the current state
/// does (`post_step`, `step_obs`, `step_reward`, `step_done`), what a
/// reset does (`post_reset`, `reset_obs`), and on which states those
/// calls succeed (`step_ok`, `reset_ok`). A stochastic simulation can
/// thread its randomness through its state. The executable methods are
/// then bound to that model; after a failed call only the invariant is
/// promised, since such a failure terminates the run.
pub trait Environment: Sized {
    type Observation;

    type Action;

    /// Implementation-chosen well-formedness of the simulation state.
    spec fn inv(&self) -> bool;

    /// Whether stepping with `a` succeeds from this state.
    spec fn step_ok(&self, a: Self::Action) -> bool;

    /// The state a successful step with `a` leads to.
    spec fn post_step(&self, a: Self::Action) -> Self;

    /// The observation a successful step with `a` reports.
    spec fn step_obs(&self, a: Self::Action) -> Self::Observation;

    /// The reward a successful step with `a` earns.
    spec fn step_reward(&self, a: Self::Action) -> i64;

    /// Whether a successful step with `a` ends the episode.
    spec fn step_done(&self, a: Self::Action) -> bool;

    /// Whether a reset succeeds from this state.
    spec fn reset_ok(&self) -> bool;

    /// The state a successful reset leads to.
    spec fn post_reset(&self) -> Self;

    /// The observation a successful reset reports.
    spec fn reset_obs(&self) -> Self::Observation;

    /// The textual reason reported when a step with `a` fails from this
    /// state; empty unless the implementation chooses otherwise.
    open spec fn step_err(&self, a: Self::Action) -> Seq<char> {
        Seq::empty()
    }

    /// The textual reason reported when a reset fails from this state;
    /// empty unless the implementation chooses otherwise.
    open spec fn reset_err(&self) -> Seq<char> {
        Seq::empty()
    }

    fn reset(&mut self) -> (r: EnvResult<Self::Observation>)
        requires
            old(self).inv(),
        ensures
            final(self).inv(),
            old(self).reset_ok() ==> (r matches Ok(o) && *final(self) == old(self).post_reset()
                && o == old(self).reset_obs()),
            !old(self).reset_ok() ==> (r matches Err(m) && m@ == old(self).reset_err()),
    ;

    fn step(&mut self, a: &Self::Action) -> (r: EnvResult<Step<Self::Observation>>)
        requires
            old(self).inv(),
        ensures
            final(self).inv(),
            old(self).step_ok(*a) ==> (r matches Ok(s) && *final(self) == old(self).post_step(*a)
                && s.obs == old(self).step_obs(*a) && s.reward == old(self).step_reward(*a)
                && s.done == old(self).step_done(*a)),
            !old(self).step_ok(*a) ==> (r matches Err(m) && m@ == old(self).step_err(*a)),
    ;
}

} // verus!
