use crate::batch::Batch;
use crate::errors::RlError;
use crate::rng::random_ratio;
use vstd::prelude::*;

verus! {

/// The capability contract of a policy: select one action per
/// observation, and learn from a sampled batch. Action selection may
/// draw randomness, so nothing is promised about the chosen values
/// beyond index alignment; a learning step may fail (a numerical
/// failure), which terminates the run.
pub trait Policy: Sized {
    type Observation;

    type Action;

    /// Implementation-chosen well-formedness.
    spec fn inv(&self) -> bool;

    /// The relation one learning call establishes between the policy
    /// before the call, the batch it was handed, the policy after it and
    /// its result: each implementation defines it as its own learning
    /// contract.
    spec fn learned(
        pre: Self,
        batch: Batch<Self::Observation, Self::Action>,
        post: Self,
        r: Result<(), RlError>,
    ) -> bool;

    fn forward(&mut self, obs: &Vec<Self::Observation>) -> (r: Result<Vec<Self::Action>, RlError>)
        requires
            old(self).inv(),
        ensures
            final(self).inv(),
            r matches Ok(acts) ==> acts@.len() == obs@.len(),
    ;

    fn learn(&mut self, batch: &Batch<Self::Observation, Self::Action>) -> (r: Result<(), RlError>)
        requires
            old(self).inv(),
            batch.well_formed(),
        ensures
            final(self).inv(),
            Self::learned(*old(self), *batch, *final(self), r),
    ;
}

/// A policy that never learns and picks each action by a fair coin:
/// either of the two actions of a binary control problem.
pub struct RandomPolicy;

impl RandomPolicy {
    pub fn new() -> (p: Self)
        ensures
            p.inv(),
    {
        Self
    }
}

impl Policy for RandomPolicy {
    type Observation = Vec<i64>;

    type Action = i64;

    open spec fn inv(&self) -> bool {
        true
    }

    /// A random policy never learns: the call changes nothing and
    /// always succeeds.
    open spec fn learned(
        pre: Self,
        batch: Batch<Vec<i64>, i64>,
        post: Self,
        r: Result<(), RlError>,
    ) -> bool {
        &&& post == pre
        &&& r is Ok
    }

    fn forward(&mut self, obs: &Vec<Vec<i64>>) -> (r: Result<Vec<i64>, RlError>)
        ensures
            r matches Ok(acts) ==> forall|i: int|
                0 <= i < acts@.len() ==> #[trigger] acts@[i] == 0 || acts@[i] == 1,
    {
        let n = obs.len();
        let mut actions: Vec<i64> = Vec::with_capacity(n);
        let mut i: usize = 0;
        while i < n
            invariant
                actions@.len() == i,
                i <= n,
                forall|w: int| 0 <= w < i ==> #[trigger] actions@[w] == 0 || actions@[w] == 1,
            decreases n - i,
        {
            if random_ratio(1, 2) {
                actions.push(1);
            } else {
                actions.push(0);
            }
            i = i + 1;
        }
        Ok(actions)
    }

    fn learn(&mut self, _batch: &Batch<Vec<i64>, i64>) -> (r: Result<(), RlError>) {
        // a random policy does not learn
        Ok(())
    }
}

} // verus!
