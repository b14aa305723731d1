use crate::env::{Environment, Step};
use crate::errors::RlError;
use vstd::prelude::*;

verus! {

/// The per-slot outcome of one vectorized step, as specifications see
/// it: the observation handed back for continued acting, the reward, and
/// the done flag.
pub struct SlotOutcome<O> {
    pub obs: O,
    pub reward: i64,
    pub done: bool,
}

/// A slot's step succeeds, and if it ends the episode the immediate
/// reset succeeds too.
pub open spec fn slot_ok<E: Environment>(e: E, a: E::Action) -> bool {
    &&& e.step_ok(a)
    &&& (e.step_done(a) ==> e.post_step(a).reset_ok())
}

/// The state a slot is left in by one vectorized step: stepped, and
/// reset again whenever the step ended the episode.
pub open spec fn slot_post<E: Environment>(e: E, a: E::Action) -> E {
    if e.step_done(a) {
        e.post_step(a).post_reset()
    } else {
        e.post_step(a)
    }
}

/// What a slot reports for one vectorized step. When the step ends the
/// episode the observation is the post-reset one, not the terminal one,
/// so the caller always sees a valid continuing state; only the done
/// flag signals the episode boundary.
pub open spec fn slot_outcome<E: Environment>(e: E, a: E::Action) -> SlotOutcome<E::Observation> {
    SlotOutcome {
        obs: if e.step_done(a) {
            e.post_step(a).reset_obs()
        } else {
            e.step_obs(a)
        },
        reward: e.step_reward(a),
        done: e.step_done(a),
    }
}

/// The failure `e` is exactly some slot's reported reason, wrapped as an
/// environment failure and otherwise unchanged: the step's reason where
/// that slot's step failed, or the stepped instance's reset reason where
/// its auto-reset failed.
pub open spec fn slot_failure<E: Environment>(
    envs: Seq<E>,
    acts: Seq<E::Action>,
    e: RlError,
) -> bool {
    exists|i: int|
        0 <= i < envs.len() && {
            let env_i = #[trigger] envs[i];
            ||| (!env_i.step_ok(acts[i]) && (e matches RlError::EnvironmentFailure(m) && m@
                == env_i.step_err(acts[i])))
            ||| (env_i.step_ok(acts[i]) && env_i.step_done(acts[i]) && !env_i.post_step(
                acts[i],
            ).reset_ok() && (e matches RlError::EnvironmentFailure(m) && m@ == env_i.post_step(
                acts[i],
            ).reset_err()))
        }
}

/// The capability contract of a vectorized environment: a fixed set of
/// environment instances stepped in lock-step, each auto-reset in the
/// same call whenever it reports done.
///
/// `outcomes` gives the index-aligned observables of one step;
/// `stepped` and `reset_to` relate the state before a successful call to
/// the state after it. A failed call promises only the invariant and the
/// instance count, since an environment failure terminates the run.
pub trait VectorEnv: Sized {
    type Observation;

    type Action;

    /// Implementation-chosen well-formedness.
    spec fn inv(&self) -> bool;

    /// Number of owned environment instances; fixed for the lifetime.
    spec fn num_envs(&self) -> int;

    /// Whether a lock-step step with `actions` succeeds everywhere.
    spec fn step_ok(&self, actions: Seq<Self::Action>) -> bool;

    /// Relates the state before a successful step to the state after it.
    spec fn stepped(&self, actions: Seq<Self::Action>, post: Self) -> bool;

    /// The index-aligned observables of a successful step with `actions`.
    spec fn outcomes(&self, actions: Seq<Self::Action>) -> Seq<SlotOutcome<Self::Observation>>;

    /// Whether resetting every instance succeeds.
    spec fn reset_ok(&self) -> bool;

    /// Relates the state before a successful reset to the state after it.
    spec fn reset_to(&self, post: Self) -> bool;

    /// The index-aligned initial observations of a successful reset.
    spec fn reset_obs(&self) -> Seq<Self::Observation>;

    fn len(&self) -> (n: usize)
        requires
            self.inv(),
        ensures
            n == self.num_envs(),
    ;

    fn reset(&mut self) -> (r: Result<Vec<Self::Observation>, RlError>)
        requires
            old(self).inv(),
        ensures
            final(self).inv(),
            final(self).num_envs() == old(self).num_envs(),
            old(self).reset_ok() ==> (r matches Ok(v) && old(self).reset_to(*final(self)) && v@
                == old(self).reset_obs() && v@.len() == old(self).num_envs()),
            !old(self).reset_ok() ==> (r matches Err(e) && e matches RlError::EnvironmentFailure(
                _,
            )),
    ;

    fn step(&mut self, actions: &Vec<Self::Action>) -> (r: Result<
        Vec<Step<Self::Observation>>,
        RlError,
    >)
        requires
            old(self).inv(),
        ensures
            final(self).inv(),
            final(self).num_envs() == old(self).num_envs(),
            actions@.len() != old(self).num_envs() ==> (r matches Err(e) && e
                == RlError::ArityMismatch && *final(self) == *old(self)),
            (actions@.len() == old(self).num_envs() && old(self).step_ok(actions@)) ==> (r matches
                Ok(v) && {
                let outs = old(self).outcomes(actions@);
                &&& old(self).stepped(actions@, *final(self))
                &&& outs.len() == old(self).num_envs()
                &&& v@.len() == old(self).num_envs()
                &&& forall|i: int|
                    0 <= i < v@.len() ==> (#[trigger] v@[i]).obs == outs[i].obs && v@[i].reward
                        == outs[i].reward && v@[i].done == outs[i].done
            }),
            (actions@.len() == old(self).num_envs() && !old(self).step_ok(actions@)) ==> (r matches
                Err(e) && e matches RlError::EnvironmentFailure(_)),
    ;
}

/// The straightforward adapter: N owned instances, stepped one after the
/// other in slot order.
pub struct DummyVectorEnv<E: Environment> {
    pub envs: Vec<E>,
}

impl<E: Environment> DummyVectorEnv<E> {
    pub fn new(envs: Vec<E>) -> (v: Self)
        requires
            forall|i: int| 0 <= i < envs@.len() ==> (#[trigger] envs@[i]).inv(),
        ensures
            v.inv(),
            v.envs == envs,
            v.num_envs() == envs@.len(),
    {
        Self { envs }
    }
}

impl<E: Environment> VectorEnv for DummyVectorEnv<E> {
    type Observation = E::Observation;

    type Action = E::Action;

    open spec fn inv(&self) -> bool {
        forall|i: int| 0 <= i < self.envs@.len() ==> (#[trigger] self.envs@[i]).inv()
    }

    open spec fn num_envs(&self) -> int {
        self.envs@.len() as int
    }

    open spec fn step_ok(&self, actions: Seq<E::Action>) -> bool {
        forall|i: int| 0 <= i < self.envs@.len() ==> slot_ok(#[trigger] self.envs@[i], actions[i])
    }

    open spec fn stepped(&self, actions: Seq<E::Action>, post: Self) -> bool {
        &&& post.envs@.len() == self.envs@.len()
        &&& forall|i: int|
            0 <= i < self.envs@.len() ==> post.envs@[i] == slot_post(
                #[trigger] self.envs@[i],
                actions[i],
            )
    }

    open spec fn outcomes(&self, actions: Seq<E::Action>) -> Seq<SlotOutcome<E::Observation>> {
        Seq::new(self.envs@.len(), |i: int| slot_outcome(self.envs@[i], actions[i]))
    }

    open spec fn reset_ok(&self) -> bool {
        forall|i: int| 0 <= i < self.envs@.len() ==> (#[trigger] self.envs@[i]).reset_ok()
    }

    open spec fn reset_to(&self, post: Self) -> bool {
        &&& post.envs@.len() == self.envs@.len()
        &&& forall|i: int|
            0 <= i < self.envs@.len() ==> post.envs@[i] == (#[trigger] self.envs@[i]).post_reset()
    }

    open spec fn reset_obs(&self) -> Seq<E::Observation> {
        Seq::new(self.envs@.len(), |i: int| self.envs@[i].reset_obs())
    }

    fn len(&self) -> (n: usize) {
        self.envs.len()
    }

    fn reset(&mut self) -> (r: Result<Vec<E::Observation>, RlError>)
        ensures
            !old(self).reset_ok() ==> (r matches Err(e) && exists|i: int|
                0 <= i < old(self).envs@.len() && !(#[trigger] old(self).envs@[i]).reset_ok() && (
                e matches RlError::EnvironmentFailure(m) && m@ == old(self).envs@[i].reset_err())),
    {
        let n = self.envs.len();
        let mut pending: Vec<E> = Vec::new();
        core::mem::swap(&mut self.envs, &mut pending);
        let mut obs_vec: Vec<E::Observation> = Vec::with_capacity(n);
        let mut i: usize = 0;
        while i < n
            invariant
                n == old(self).envs@.len(),
                i <= n,
                self.envs@.len() == i,
                pending@ == old(self).envs@.skip(i as int),
                forall|w: int| 0 <= w < n ==> (#[trigger] old(self).envs@[w]).inv(),
                forall|w: int| 0 <= w < i ==> (#[trigger] self.envs@[w]).inv(),
                forall|w: int|
                    0 <= w < i ==> (#[trigger] old(self).envs@[w]).reset_ok() && self.envs@[w]
                        == old(self).envs@[w].post_reset(),
                obs_vec@.len() == i,
                forall|w: int|
                    0 <= w < i ==> #[trigger] obs_vec@[w] == old(self).envs@[w].reset_obs(),
            decreases n - i,
        {
            let mut e = pending.remove(0);
            assert(e == old(self).envs@[i as int]);
            match e.reset() {
                Ok(o) => {
                    obs_vec.push(o);
                    self.envs.push(e);
                }
                Err(msg) => {
                    let err_val = RlError::EnvironmentFailure(msg);
                    proof {
                        assert(!(old(self).envs@[i as int]).reset_ok());
                        assert(err_val matches RlError::EnvironmentFailure(m) && m@ == old(
                            self,
                        ).envs@[i as int].reset_err());
                    }
                    self.envs.push(e);
                    restore_rest(&mut self.envs, &mut pending);
                    return Err(err_val);
                }
            }
            i = i + 1;
            proof {
                assert(pending@ =~= old(self).envs@.skip(i as int));
            }
        }
        proof {
            assert(obs_vec@ =~= old(self).reset_obs());
        }
        Ok(obs_vec)
    }

    fn step(&mut self, actions: &Vec<E::Action>) -> (r: Result<Vec<Step<E::Observation>>, RlError>)
        ensures
            (actions@.len() == old(self).envs@.len() && !old(self).step_ok(actions@)) ==> (r
                matches Err(e) && slot_failure(old(self).envs@, actions@, e)),
    {
        let n = self.envs.len();
        if actions.len() != n {
            return Err(RlError::ArityMismatch);
        }
        let mut pending: Vec<E> = Vec::new();
        core::mem::swap(&mut self.envs, &mut pending);
        let mut results: Vec<Step<E::Observation>> = Vec::with_capacity(n);
        let mut i: usize = 0;
        while i < n
            invariant
                n == old(self).envs@.len(),
                actions@.len() == n,
                i <= n,
                self.envs@.len() == i,
                pending@ == old(self).envs@.skip(i as int),
                forall|w: int| 0 <= w < n ==> (#[trigger] old(self).envs@[w]).inv(),
                forall|w: int| 0 <= w < i ==> (#[trigger] self.envs@[w]).inv(),
                forall|w: int|
                    0 <= w < i ==> slot_ok(#[trigger] old(self).envs@[w], actions@[w])
                        && self.envs@[w] == slot_post(old(self).envs@[w], actions@[w]),
                results@.len() == i,
                forall|w: int|
                    0 <= w < i ==> {
                        let out = slot_outcome(old(self).envs@[w], actions@[w]);
                        (#[trigger] results@[w]).obs == out.obs && results@[w].reward == out.reward
                            && results@[w].done == out.done
                    },
            decreases n - i,
        {
            let mut e = pending.remove(0);
            assert(e == old(self).envs@[i as int]);
            match e.step(&actions[i]) {
                Ok(mut s) => {
                    if s.done {
                        // auto-reset: the returned observation is the
                        // post-reset one, not the terminal one
                        match e.reset() {
                            Ok(o) => {
                                s.obs = o;
                            }
                            Err(msg) => {
                                let err_val = RlError::EnvironmentFailure(msg);
                                proof {
                                    let env_i = old(self).envs@[i as int];
                                    assert(env_i.step_ok(actions@[i as int]) && env_i.step_done(
                                        actions@[i as int],
                                    ) && !env_i.post_step(actions@[i as int]).reset_ok());
                                    assert(err_val matches RlError::EnvironmentFailure(m) && m@
                                        == env_i.post_step(actions@[i as int]).reset_err());
                                    assert(slot_failure(old(self).envs@, actions@, err_val));
                                }
                                self.envs.push(e);
                                restore_rest(&mut self.envs, &mut pending);
                                return Err(err_val);
                            }
                        }
                    }
                    results.push(s);
                    self.envs.push(e);
                }
                Err(msg) => {
                    let err_val = RlError::EnvironmentFailure(msg);
                    proof {
                        let env_i = old(self).envs@[i as int];
                        assert(!env_i.step_ok(actions@[i as int]));
                        assert(err_val matches RlError::EnvironmentFailure(m) && m@
                            == env_i.step_err(actions@[i as int]));
                        assert(slot_failure(old(self).envs@, actions@, err_val));
                    }
                    self.envs.push(e);
                    restore_rest(&mut self.envs, &mut pending);
                    return Err(err_val);
                }
            }
            i = i + 1;
            proof {
                assert(pending@ =~= old(self).envs@.skip(i as int));
            }
        }
        proof {
            assert(old(self).outcomes(actions@).len() == n);
        }
        Ok(results)
    }
}

/// Hand every remaining instance back so the instance count is preserved
/// even when a call fails partway.
fn restore_rest<E: Environment>(target: &mut Vec<E>, pending: &mut Vec<E>)
    requires
        forall|w: int| 0 <= w < old(pending)@.len() ==> (#[trigger] old(pending)@[w]).inv(),
        forall|w: int| 0 <= w < old(target)@.len() ==> (#[trigger] old(target)@[w]).inv(),
    ensures
        final(target)@.len() == old(target)@.len() + old(pending)@.len(),
        forall|w: int| 0 <= w < final(target)@.len() ==> (#[trigger] final(target)@[w]).inv(),
        final(pending)@.len() == 0,
{
    while pending.len() > 0
        invariant
            forall|w: int| 0 <= w < pending@.len() ==> (#[trigger] pending@[w]).inv(),
            forall|w: int| 0 <= w < target@.len() ==> (#[trigger] target@[w]).inv(),
            target@.len() + pending@.len() == old(target)@.len() + old(pending)@.len(),
        decreases pending@.len(),
    {
        let e = pending.remove(0);
        target.push(e);
    }
}

} // verus!
