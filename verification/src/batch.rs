use vstd::prelude::*;

verus! {

/// A plain aligned collection of parallel arrays: the unit exchanged
/// between the replay buffer and the policy. Index `i` across all five
/// vectors refers to the same transition. Rewards are fixed-point values:
/// integer multiples of a unit that the caller chooses.
#[derive(Debug, Clone)]
pub struct Batch<O, A> {
    pub obs: Vec<O>,
    pub act: Vec<A>,
    pub rew: Vec<i64>,
    pub done: Vec<bool>,
    pub obs_next: Vec<O>,
}

impl<O, A> Batch<O, A> {
    /// All five parallel vectors have identical length.
    pub open spec fn well_formed(self) -> bool {
        &&& self.act@.len() == self.obs@.len()
        &&& self.rew@.len() == self.obs@.len()
        &&& self.done@.len() == self.obs@.len()
        &&& self.obs_next@.len() == self.obs@.len()
    }

    /// Construction with mismatched lengths is a programming error and is
    /// rejected up front.
    pub fn new(obs: Vec<O>, act: Vec<A>, rew: Vec<i64>, done: Vec<bool>, obs_next: Vec<O>) -> (b:
        Self)
        requires
            act@.len() == obs@.len(),
            rew@.len() == obs@.len(),
            done@.len() == obs@.len(),
            obs_next@.len() == obs@.len(),
        ensures
            b.well_formed(),
            b.obs == obs,
            b.act == act,
            b.rew == rew,
            b.done == done,
            b.obs_next == obs_next,
    {
        Self { obs, act, rew, done, obs_next }
    }

    pub fn len(&self) -> (n: usize)
        ensures
            n == self.obs@.len(),
    {
        self.obs.len()
    }
}

} // verus!
