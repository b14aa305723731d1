use crate::batch::Batch;
use crate::buffer::{Rec, ReplayBuffer};
use crate::errors::RlError;
use crate::policy::Policy;
use crate::venv::{SlotOutcome, VectorEnv};
use vstd::arithmetic::div_mod::{lemma_fundamental_div_mod, lemma_mod_bound};
use vstd::math::min;
use vstd::pervasive::cloned;
use vstd::pervasive::VecAdditionalExecFns;
use vstd::prelude::*;

verus! {

/// The transition `stored` is an owned copy of the transition `exact`.
pub open spec fn rec_copies<O: Clone, A: Clone>(exact: Rec<O, A>, stored: Rec<O, A>) -> bool {
    &&& cloned(exact.0, stored.0)
    &&& cloned(exact.1, stored.1)
    &&& stored.2 == exact.2
    &&& stored.3 == exact.3
    &&& cloned(exact.4, stored.4)
}

/// The observations one vectorized step hands back, index-aligned.
pub open spec fn outs_obs<V: VectorEnv>(env: V, acts: Seq<V::Action>) -> Seq<V::Observation> {
    Seq::new(env.outcomes(acts).len(), |i: int| env.outcomes(acts)[i].obs)
}

/// The per-slot episode accumulators after one step: reset to zero on
/// done, otherwise increased by the reward.
pub open spec fn next_accs<V: VectorEnv>(env: V, accs: Seq<i64>, acts: Seq<V::Action>) -> Seq<
    i64,
> {
    Seq::new(
        accs.len(),
        |i: int|
            if env.outcomes(acts)[i].done {
                0i64
            } else {
                (accs[i] + env.outcomes(acts)[i].reward) as i64
            },
    )
}

/// The transitions one vectorized step records, slot by slot: prior
/// observation, action, reward, done, post-step (post-auto-reset)
/// observation.
pub open spec fn step_rows<V: VectorEnv>(
    env: V,
    obs: Seq<V::Observation>,
    acts: Seq<V::Action>,
) -> Seq<Rec<V::Observation, V::Action>> {
    Seq::new(
        env.outcomes(acts).len(),
        |i: int|
            (
                obs[i],
                acts[i],
                env.outcomes(acts)[i].reward,
                env.outcomes(acts)[i].done,
                env.outcomes(acts)[i].obs,
            ),
    )
}

/// The episode returns completed among slots `[0, k)`, in slot order.
pub open spec fn emitted_prefix<O>(accs: Seq<i64>, outs: Seq<SlotOutcome<O>>, k: int) -> Seq<i64>
    decreases k,
{
    if k <= 0 {
        Seq::empty()
    } else {
        let rest = emitted_prefix(accs, outs, k - 1);
        if outs[k - 1].done {
            rest.push((accs[k - 1] + outs[k - 1].reward) as i64)
        } else {
            rest
        }
    }
}

/// No per-slot accumulation overflows in this step.
pub open spec fn step_fits<V: VectorEnv>(env: V, accs: Seq<i64>, acts: Seq<V::Action>) -> bool {
    forall|i: int|
        0 <= i < accs.len() ==> i64::MIN <= accs[i] + (#[trigger] env.outcomes(acts)[i]).reward
            <= i64::MAX
}

/// One collect iteration from `(env, obs, accs)` under the action batch
/// `acts` is possible: the arity matches, every slot steps (and
/// auto-resets) successfully, and no episode accumulator overflows.
pub open spec fn iter_ok<V: VectorEnv>(
    env: V,
    obs: Seq<V::Observation>,
    accs: Seq<i64>,
    acts: Seq<V::Action>,
) -> bool {
    &&& acts.len() == env.num_envs()
    &&& obs.len() == env.num_envs()
    &&& accs.len() == env.num_envs()
    &&& env.step_ok(acts)
    &&& env.outcomes(acts).len() == env.num_envs()
    &&& step_fits(env, accs, acts)
}

/// The environment state a run sees at the start of iteration `j`:
/// the initial one, or the one the previous iteration left behind.
pub open spec fn env_before<V: VectorEnv>(env0: V, envs: Seq<V>, j: int) -> V {
    if j <= 0 {
        env0
    } else {
        envs[j - 1]
    }
}

/// The per-slot observations at the start of iteration `j` of a run.
pub open spec fn obs_at<V: VectorEnv>(
    env0: V,
    obs0: Seq<V::Observation>,
    acts: Seq<Seq<V::Action>>,
    envs: Seq<V>,
    j: int,
) -> Seq<V::Observation> {
    if j <= 0 {
        obs0
    } else {
        outs_obs(env_before(env0, envs, j - 1), acts[j - 1])
    }
}

/// The per-slot episode accumulators at the start of iteration `j` of a
/// run.
pub open spec fn accs_at<V: VectorEnv>(
    env0: V,
    accs0: Seq<i64>,
    acts: Seq<Seq<V::Action>>,
    envs: Seq<V>,
    j: int,
) -> Seq<i64>
    decreases j,
{
    if j <= 0 {
        accs0
    } else {
        next_accs(
            env_before(env0, envs, j - 1),
            accs_at(env0, accs0, acts, envs, j - 1),
            acts[j - 1],
        )
    }
}

/// The transitions the first `j` iterations of a run record, in order.
pub open spec fn rows_at<V: VectorEnv>(
    env0: V,
    obs0: Seq<V::Observation>,
    acts: Seq<Seq<V::Action>>,
    envs: Seq<V>,
    j: int,
) -> Seq<Rec<V::Observation, V::Action>>
    decreases j,
{
    if j <= 0 {
        Seq::empty()
    } else {
        rows_at(env0, obs0, acts, envs, j - 1) + step_rows(
            env_before(env0, envs, j - 1),
            obs_at(env0, obs0, acts, envs, j - 1),
            acts[j - 1],
        )
    }
}

/// The episode returns the first `j` iterations of a run complete, in
/// order.
pub open spec fn emitted_at<V: VectorEnv>(
    env0: V,
    accs0: Seq<i64>,
    acts: Seq<Seq<V::Action>>,
    envs: Seq<V>,
    j: int,
) -> Seq<i64>
    decreases j,
{
    if j <= 0 {
        Seq::empty()
    } else {
        let e = env_before(env0, envs, j - 1);
        emitted_at(env0, accs0, acts, envs, j - 1) + emitted_prefix(
            accs_at(env0, accs0, acts, envs, j - 1),
            e.outcomes(acts[j - 1]),
            e.outcomes(acts[j - 1]).len() as int,
        )
    }
}

/// A complete collect run over `n` environment slots, witnessed by the
/// action batches `acts` and the environment states `envs` after each
/// iteration: every iteration was possible from the state the previous
/// ones produced, and the environment stepped accordingly.
pub open spec fn run_ok<V: VectorEnv>(
    n: int,
    env0: V,
    obs0: Seq<V::Observation>,
    accs0: Seq<i64>,
    acts: Seq<Seq<V::Action>>,
    envs: Seq<V>,
) -> bool {
    &&& envs.len() == acts.len()
    &&& env0.num_envs() == n
    &&& forall|j: int| 0 <= j < envs.len() ==> (#[trigger] envs[j]).num_envs() == n
    &&& forall|j: int|
        #![trigger acts[j]]
        0 <= j < acts.len() ==> {
            let e = env_before(env0, envs, j);
            &&& iter_ok(
                e,
                obs_at(env0, obs0, acts, envs, j),
                accs_at(env0, accs0, acts, envs, j),
                acts[j],
            )
            &&& e.stepped(acts[j], envs[j])
        }
}

/// A run's view of its first `j` iterations does not change when one
/// more iteration is appended to the witness sequences.
proof fn lemma_run_prefix_stable<V: VectorEnv>(
    env0: V,
    obs0: Seq<V::Observation>,
    accs0: Seq<i64>,
    acts: Seq<Seq<V::Action>>,
    envs: Seq<V>,
    a: Seq<V::Action>,
    e: V,
    j: int,
)
    requires
        0 <= j <= acts.len(),
        envs.len() == acts.len(),
    ensures
        obs_at(env0, obs0, acts.push(a), envs.push(e), j) == obs_at(env0, obs0, acts, envs, j),
        accs_at(env0, accs0, acts.push(a), envs.push(e), j) == accs_at(env0, accs0, acts, envs, j),
        rows_at(env0, obs0, acts.push(a), envs.push(e), j) == rows_at(env0, obs0, acts, envs, j),
        emitted_at(env0, accs0, acts.push(a), envs.push(e), j) == emitted_at(
            env0,
            accs0,
            acts,
            envs,
            j,
        ),
    decreases j,
{
    if j > 0 {
        lemma_run_prefix_stable(env0, obs0, accs0, acts, envs, a, e, j - 1);
        assert(acts.push(a)[j - 1] == acts[j - 1]);
        if j - 1 > 0 {
            assert(envs.push(e)[j - 2] == envs[j - 2]);
        }
    }
}

/// A run extends by one more iteration that was possible from the state
/// the run reached.
proof fn lemma_run_ok_push<V: VectorEnv>(
    n: int,
    env0: V,
    obs0: Seq<V::Observation>,
    accs0: Seq<i64>,
    acts: Seq<Seq<V::Action>>,
    envs: Seq<V>,
    a: Seq<V::Action>,
    e: V,
)
    requires
        run_ok(n, env0, obs0, accs0, acts, envs),
        e.num_envs() == n,
        iter_ok(
            env_before(env0, envs, acts.len() as int),
            obs_at(env0, obs0, acts, envs, acts.len() as int),
            accs_at(env0, accs0, acts, envs, acts.len() as int),
            a,
        ),
        env_before(env0, envs, acts.len() as int).stepped(a, e),
    ensures
        run_ok(n, env0, obs0, accs0, acts.push(a), envs.push(e)),
{
    let kk = acts.len() as int;
    let acts2 = acts.push(a);
    let envs2 = envs.push(e);
    assert forall|j: int| 0 <= j <= kk implies {
        &&& env_before(env0, envs2, j) == env_before(env0, envs, j)
        &&& obs_at(env0, obs0, acts2, envs2, j) == obs_at(env0, obs0, acts, envs, j)
        &&& accs_at(env0, accs0, acts2, envs2, j) == accs_at(env0, accs0, acts, envs, j)
    } by {
        lemma_run_prefix_stable(env0, obs0, accs0, acts, envs, a, e, j);
        if j > 0 {
            assert(envs2[j - 1] == envs[j - 1]);
        }
    }
    assert forall|j: int| 0 <= j < envs2.len() implies (#[trigger] envs2[j]).num_envs() == n by {
        if j < kk {
            assert(envs2[j] == envs[j]);
        } else {
            assert(envs2[j] == e);
        }
    }
    assert forall|j: int| #![trigger acts2[j]] 0 <= j < acts2.len() implies {
        let ej = env_before(env0, envs2, j);
        &&& iter_ok(
            ej,
            obs_at(env0, obs0, acts2, envs2, j),
            accs_at(env0, accs0, acts2, envs2, j),
            acts2[j],
        )
        &&& ej.stepped(acts2[j], envs2[j])
    } by {
        if j < kk {
            assert(acts2[j] == acts[j]);
            assert(envs2[j] == envs[j]);
        } else {
            assert(acts2[kk] == a);
            assert(envs2[kk] == e);
        }
    }
}

/// Orchestrates the interaction loop: ask the policy for one action per
/// slot, step the vectorized environment once, push the resulting
/// transitions into the buffer (if one is attached), track per-slot
/// episode returns, and hand completed returns back. Pure orchestration
/// with explicit state; it owns the environment, the policy and the
/// buffer for the lifetime of a run.
pub struct Collector<V: VectorEnv, P> {
    env: V,
    policy: P,
    buffer: Option<ReplayBuffer<V::Observation, V::Action>>,
    current_obs: Vec<V::Observation>,
    episode_returns: Vec<i64>,
}

impl<V, P> Collector<V, P> where
    V: VectorEnv,
    P: Policy<Observation = V::Observation, Action = V::Action>,
    V::Observation: Clone,
    V::Action: Clone,
 {
    pub closed spec fn env_model(self) -> V {
        self.env
    }

    pub closed spec fn policy_model(self) -> P {
        self.policy
    }

    pub closed spec fn obs_model(self) -> Seq<V::Observation> {
        self.current_obs@
    }

    pub closed spec fn returns_model(self) -> Seq<i64> {
        self.episode_returns@
    }

    pub closed spec fn has_buffer(self) -> bool {
        self.buffer is Some
    }

    pub closed spec fn buffer_history(self) -> Seq<Rec<V::Observation, V::Action>> {
        match self.buffer {
            Option::Some(b) => b.history(),
            Option::None => Seq::empty(),
        }
    }

    pub closed spec fn buffer_capacity(self) -> int {
        match self.buffer {
            Option::Some(b) => b.capacity_spec(),
            Option::None => 0,
        }
    }

    pub closed spec fn buffer_size(self) -> int {
        match self.buffer {
            Option::Some(b) => b.size_spec(),
            Option::None => 0,
        }
    }

    /// The transitions the attached buffer currently stores, in slot
    /// order; empty without a buffer.
    pub closed spec fn buffer_stored(self) -> Seq<Rec<V::Observation, V::Action>> {
        match self.buffer {
            Option::Some(b) => b.stored(),
            Option::None => Seq::empty(),
        }
    }

    /// Under the invariant the buffer's reported length is determined by
    /// its history and its capacity: the smaller of the two.
    pub proof fn lemma_buffer_size(self)
        requires
            self.inv(),
        ensures
            self.has_buffer() ==> self.buffer_size() == min(
                self.buffer_history().len() as int,
                self.buffer_capacity(),
            ),
            !self.has_buffer() ==> self.buffer_size() == 0,
    {
        match self.buffer {
            Option::Some(b) => b.lemma_size(),
            Option::None => {},
        }
    }

    pub closed spec fn inv(self) -> bool {
        &&& self.env.inv()
        &&& self.policy.inv()
        &&& self.env.num_envs() >= 1
        &&& self.current_obs@.len() == self.env.num_envs()
        &&& self.episode_returns@.len() == self.env.num_envs()
        &&& match self.buffer {
            Option::Some(b) => b.well_formed(),
            Option::None => true,
        }
    }

    /// Resets the environment once to obtain the first per-slot
    /// observations and zeroes every episode accumulator.
    pub fn new(env: V, policy: P, buffer: Option<ReplayBuffer<V::Observation, V::Action>>) -> (r:
        Result<Self, RlError>)
        requires
            env.inv(),
            policy.inv(),
            env.num_envs() >= 1,
            buffer matches Some(b) ==> b.well_formed(),
        ensures
            env.reset_ok() ==> (r matches Ok(c) && {
                &&& c.inv()
                &&& env.reset_to(c.env_model())
                &&& c.env_model().num_envs() == env.num_envs()
                &&& c.policy_model() == policy
                &&& c.obs_model() == env.reset_obs()
                &&& c.returns_model() == Seq::new(env.num_envs() as nat, |i: int| 0i64)
                &&& c.has_buffer() == (buffer matches Some(_))
                &&& (buffer matches Some(b) ==> c.buffer_history() == b.history()
                    && c.buffer_capacity() == b.capacity_spec())
            }),
            !env.reset_ok() ==> r is Err,
    {
        let mut env = env;
        let current_obs = match env.reset() {
            Ok(v) => v,
            Err(e) => {
                return Err(e);
            },
        };
        let n = env.len();
        let mut episode_returns: Vec<i64> = Vec::with_capacity(n);
        let mut i: usize = 0;
        while i < n
            invariant
                i <= n,
                episode_returns@.len() == i,
                forall|w: int| 0 <= w < i ==> #[trigger] episode_returns@[w] == 0i64,
            decreases n - i,
        {
            episode_returns.push(0);
            i = i + 1;
        }
        proof {
            assert(episode_returns@ =~= Seq::new(episode_returns@.len(), |w: int| 0i64));
        }
        Ok(Collector { env, policy, buffer, current_obs, episode_returns })
    }

    /// What a successful collect call did, witnessed by the action
    /// batches `acts` the policy chose and the environment states `envs`
    /// after each iteration: the iterations form a complete run whose
    /// count is the smallest that reaches `n_steps` transitions; the
    /// final state, the returned values and the buffer growth are
    /// exactly the run's.
    #[verifier::opaque]
    pub open spec fn collect_post(
        pre: Self,
        post: Self,
        n_steps: usize,
        acts: Seq<Seq<V::Action>>,
        envs: Seq<V>,
        rets: Seq<i64>,
    ) -> bool {
        let n = pre.env_model().num_envs();
        let base = pre.buffer_history().len();
        let env0 = pre.env_model();
        let obs0 = pre.obs_model();
        let accs0 = pre.returns_model();
        let k = acts.len() as int;
        let rows = rows_at(env0, obs0, acts, envs, k);
        &&& (n_steps == 0 ==> k == 0)
        &&& (n_steps > 0 ==> k >= 1 && k * n >= n_steps && (k - 1) * n < n_steps)
        &&& run_ok(n, env0, obs0, accs0, acts, envs)
        &&& post.env_model() == env_before(env0, envs, k)
        &&& post.obs_model() == obs_at(env0, obs0, acts, envs, k)
        &&& post.returns_model() == accs_at(env0, accs0, acts, envs, k)
        &&& rets == emitted_at(env0, accs0, acts, envs, k)
        &&& (pre.has_buffer() ==> {
            &&& post.buffer_history().len() == base + rows.len()
            &&& post.buffer_history().take(base as int) == pre.buffer_history()
            &&& forall|w: int|
                0 <= w < rows.len() ==> rec_copies(
                    rows[w],
                    #[trigger] post.buffer_history()[base + w],
                )
        })
    }

    /// The full contract of a successful collect call: the collector is
    /// still well formed, the slot count, buffer attachment and capacity
    /// are unchanged, and some complete run accounts exactly for the new
    /// state, the returned episode values and the buffer growth.
    pub open spec fn collect_ensures(pre: Self, post: Self, n_steps: usize, rets: Seq<i64>) -> bool {
        &&& post.inv()
        &&& post.env_model().num_envs() == pre.env_model().num_envs()
        &&& post.has_buffer() == pre.has_buffer()
        &&& post.buffer_capacity() == pre.buffer_capacity()
        &&& exists|acts: Seq<Seq<V::Action>>, envs: Seq<V>|
            #[trigger] Self::collect_post(pre, post, n_steps, acts, envs, rets)
    }

    /// Repeatedly select actions, step every slot once, record the
    /// per-slot transitions, and account episode returns, until at least
    /// `n_steps` transitions have been produced. Each iteration produces
    /// one transition per slot, so the count collected is the smallest
    /// multiple of the slot count that reaches `n_steps`. Returns the
    /// episode returns completed during the call, in slot iteration
    /// order. A failure of the policy, of an environment, or of an
    /// episode accumulator ends the call early with that error.
    #[verifier::rlimit(100)]
    #[verifier::spinoff_prover]
    pub fn collect(&mut self, n_steps: usize) -> (r: Result<Vec<i64>, RlError>)
        requires
            old(self).inv(),
        ensures
            final(self).inv(),
            final(self).env_model().num_envs() == old(self).env_model().num_envs(),
            final(self).has_buffer() == old(self).has_buffer(),
            final(self).buffer_capacity() == old(self).buffer_capacity(),
            final(self).buffer_history().len() >= old(self).buffer_history().len(),
            final(self).buffer_history().take(old(self).buffer_history().len() as int) == old(
                self,
            ).buffer_history(),
            n_steps == 0 ==> (r is Ok && *final(self) == *old(self)),
            r matches Ok(rets) ==> Self::collect_ensures(*old(self), *final(self), n_steps, rets@),
    {
        proof {
            reveal(Collector::collect_post);
        }
        let n = self.env.len();
        let ghost start_env = self.env;
        let ghost start_obs = self.current_obs@;
        let ghost start_accs = self.episode_returns@;
        let ghost start_hist = self.buffer_history();

        proof {
            assert(self.buffer_history().take(start_hist.len() as int) =~= start_hist);
        }
        if n_steps == 0 {
            // no transitions asked for: no outside call, nothing changes
            let empty: Vec<i64> = Vec::new();
            proof {
                assert(empty@ =~= Seq::<i64>::empty());
                assert(run_ok(
                    n as int,
                    start_env,
                    start_obs,
                    start_accs,
                    Seq::<Seq<V::Action>>::empty(),
                    Seq::<V>::empty(),
                ));
                assert(Self::collect_post(
                    *old(self),
                    *self,
                    n_steps,
                    Seq::<Seq<V::Action>>::empty(),
                    Seq::<V>::empty(),
                    empty@,
                ));
                assert(Self::collect_ensures(*old(self), *self, n_steps, empty@));
            }
            return Ok(empty);
        }
        // smallest k with k * n >= n_steps
        proof {
            lemma_ceil_div(n_steps as int, n as int);
        }
        let k: usize = n_steps / n + (if n_steps % n != 0 {
            1
        } else {
            0
        });
        let mut completed: Vec<i64> = Vec::new();
        let ghost mut acts_hist: Seq<Seq<V::Action>> = Seq::empty();
        let ghost mut envs_hist: Seq<V> = Seq::empty();
        let mut it: usize = 0;
        while it < k
            invariant
                self.inv(),
                it <= k,
                1 <= n_steps,
                n == self.env.num_envs(),
                n >= 1,
                n == start_env.num_envs(),
                acts_hist.len() == it,
                self.has_buffer() == old(self).has_buffer(),
                self.buffer_capacity() == old(self).buffer_capacity(),
                run_ok(n as int, start_env, start_obs, start_accs, acts_hist, envs_hist),
                self.env == env_before(start_env, envs_hist, it as int),
                self.current_obs@ == obs_at(start_env, start_obs, acts_hist, envs_hist, it as int),
                self.episode_returns@ == accs_at(
                    start_env,
                    start_accs,
                    acts_hist,
                    envs_hist,
                    it as int,
                ),
                completed@ == emitted_at(start_env, start_accs, acts_hist, envs_hist, it as int),
                old(self).has_buffer() ==> {
                    let rows = rows_at(start_env, start_obs, acts_hist, envs_hist, it as int);
                    &&& self.buffer_history().len() == start_hist.len() + rows.len()
                    &&& self.buffer_history().take(start_hist.len() as int) == start_hist
                    &&& forall|w: int|
                        0 <= w < rows.len() ==> rec_copies(
                            rows[w],
                            #[trigger] self.buffer_history()[start_hist.len() + w],
                        )
                },
                start_env == old(self).env_model(),
                start_obs == old(self).obs_model(),
                start_accs == old(self).returns_model(),
                start_hist == old(self).buffer_history(),
            decreases k - it,
        {
            let ghost env_pre = self.env;
            let ghost obs_pre = self.current_obs@;
            let ghost accs_pre = self.episode_returns@;
            let ghost hist_pre = self.buffer_history();
            let ghost em_pre = completed@;
            let ghost rows_pre = rows_at(start_env, start_obs, acts_hist, envs_hist, it as int);

            let actions = match self.policy.forward(&self.current_obs) {
                Ok(a) => a,
                Err(e) => {
                    return Err(e);
                },
            };
            let mut steps = match self.env.step(&actions) {
                Ok(s) => s,
                Err(e) => {
                    return Err(e);
                },
            };
            let ghost outs = env_pre.outcomes(actions@);
            let ghost env_post = self.env;
            let ghost policy_snap = self.policy;

            let mut i: usize = 0;
            while i < n
                invariant
                    i <= n,
                    n >= 1,
                    actions@.len() == n,
                    obs_pre.len() == n,
                    accs_pre.len() == n,
                    outs == env_pre.outcomes(actions@),
                    outs.len() == n,
                    n == env_pre.num_envs(),
                    env_pre.inv(),
                    env_pre.step_ok(actions@),
                    env_pre.stepped(actions@, env_post),
                    self.env == env_post,
                    self.env.inv(),
                    self.env.num_envs() == n,
                    self.policy == policy_snap,
                    self.policy.inv(),
                    steps@.len() == n - i,
                    forall|w: int|
                        0 <= w < n - i ==> (#[trigger] steps@[w]).obs == outs[i + w].obs
                            && steps@[w].reward == outs[i + w].reward && steps@[w].done == outs[i
                            + w].done,
                    self.current_obs@.len() == n,
                    forall|w: int| 0 <= w < i ==> #[trigger] self.current_obs@[w] == outs[w].obs,
                    forall|w: int| i <= w < n ==> #[trigger] self.current_obs@[w] == obs_pre[w],
                    self.episode_returns@.len() == n,
                    forall|w: int|
                        0 <= w < i ==> #[trigger] self.episode_returns@[w] == (if outs[w].done {
                            0i64
                        } else {
                            (accs_pre[w] + outs[w].reward) as i64
                        }),
                    forall|w: int| i <= w < n ==> #[trigger] self.episode_returns@[w] == accs_pre[w],
                    forall|w: int|
                        0 <= w < i ==> i64::MIN <= accs_pre[w] + (#[trigger] outs[w]).reward
                            <= i64::MAX,
                    completed@ == em_pre + emitted_prefix(accs_pre, outs, i as int),
                    self.has_buffer() == old(self).has_buffer(),
                    self.buffer_capacity() == old(self).buffer_capacity(),
                    match self.buffer {
                        Option::Some(b) => b.well_formed(),
                        Option::None => true,
                    },
                    old(self).has_buffer() ==> {
                        &&& self.buffer_history().len() == hist_pre.len() + i
                        &&& self.buffer_history().take(hist_pre.len() as int) == hist_pre
                        &&& forall|w: int|
                            0 <= w < i ==> rec_copies(
                                (obs_pre[w], actions@[w], outs[w].reward, outs[w].done, outs[w].obs),
                                #[trigger] self.buffer_history()[hist_pre.len() + w],
                            )
                    },
                    hist_pre.len() >= start_hist.len(),
                    hist_pre.take(start_hist.len() as int) == start_hist,
                    start_hist == old(self).buffer_history(),
                    n == old(self).env_model().num_envs(),
                    1 <= n_steps,
                decreases n - i,
            {
                let s = steps.remove(0);
                match &mut self.buffer {
                    Option::Some(buf) => {
                        buf.add(
                            self.current_obs[i].clone(),
                            actions[i].clone(),
                            s.reward,
                            s.done,
                            s.obs.clone(),
                        );
                    },
                    Option::None => {},
                }
                let acc = self.episode_returns[i];
                let new_acc = match acc.checked_add(s.reward) {
                    Some(v) => v,
                    None => {
                        proof {
                            assert(self.buffer_history().take(start_hist.len() as int)
                                =~= start_hist);
                        }
                        return Err(
                            RlError::NumericFailure(
                                "episode return accumulator overflow".to_string(),
                            ),
                        );
                    },
                };
                if s.done {
                    completed.push(new_acc);
                    self.episode_returns.set(i, 0);
                } else {
                    self.episode_returns.set(i, new_acc);
                }
                self.current_obs.set(i, s.obs);
                i = i + 1;
                proof {
                    if old(self).has_buffer() {
                        assert(self.buffer_history().take(hist_pre.len() as int) =~= hist_pre);
                    }
                }
            }
            it = it + 1;
            proof {
                let a = actions@;
                let kk = acts_hist.len() as int;
                let acts2 = acts_hist.push(a);
                let envs2 = envs_hist.push(env_post);
                let rows_new = step_rows(env_pre, obs_pre, a);

                assert(self.current_obs@ =~= outs_obs(env_pre, a));
                assert(self.episode_returns@ =~= next_accs(env_pre, accs_pre, a));
                assert(iter_ok(env_pre, obs_pre, accs_pre, a));

                lemma_run_prefix_stable(
                    start_env,
                    start_obs,
                    start_accs,
                    acts_hist,
                    envs_hist,
                    a,
                    env_post,
                    kk,
                );
                assert(env_before(start_env, envs2, kk) == env_pre);
                lemma_run_ok_push(
                    n as int,
                    start_env,
                    start_obs,
                    start_accs,
                    acts_hist,
                    envs_hist,
                    a,
                    env_post,
                );
                assert(run_ok(n as int, start_env, start_obs, start_accs, acts2, envs2));

                assert(env_before(start_env, envs2, kk + 1) == env_post);
                assert(obs_at(start_env, start_obs, acts2, envs2, kk + 1) == outs_obs(env_pre, a));
                assert(accs_at(start_env, start_accs, acts2, envs2, kk + 1) == next_accs(
                    env_pre,
                    accs_pre,
                    a,
                ));
                assert(rows_at(start_env, start_obs, acts2, envs2, kk + 1) == rows_pre + rows_new);
                assert(emitted_at(start_env, start_accs, acts2, envs2, kk + 1) == em_pre
                    + emitted_prefix(accs_pre, outs, n as int));
                assert(completed@ == em_pre + emitted_prefix(accs_pre, outs, n as int));

                if old(self).has_buffer() {
                    let rows2 = rows_pre + rows_new;
                    assert(hist_pre.len() == start_hist.len() + rows_pre.len());
                    assert(self.buffer_history().take(start_hist.len() as int) =~= start_hist);
                    assert forall|w: int| 0 <= w < rows2.len() implies rec_copies(
                        rows2[w],
                        #[trigger] self.buffer_history()[start_hist.len() + w],
                    ) by {
                        if w < rows_pre.len() {
                            assert(rows2[w] == rows_pre[w]);
                            assert(rec_copies(rows_pre[w], hist_pre[start_hist.len() + w]));
                            assert(self.buffer_history().take(hist_pre.len() as int)[start_hist.len()
                                + w] == hist_pre[start_hist.len() + w]);
                            assert(self.buffer_history()[start_hist.len() + w] == hist_pre[
                            start_hist.len() + w]);
                        } else {
                            let u = w - rows_pre.len();
                            assert(rows2[w] == rows_new[u]);
                            assert(rec_copies(
                                (obs_pre[u], a[u], outs[u].reward, outs[u].done, outs[u].obs),
                                self.buffer_history()[hist_pre.len() + u],
                            ));
                            assert(start_hist.len() + w == hist_pre.len() + u);
                        }
                    }
                }
                acts_hist = acts2;
                envs_hist = envs2;
            }
        }
        proof {
            if n_steps > 0 {
                lemma_ceil_div(n_steps as int, n as int);
            }
            assert(Self::collect_post(
                *old(self),
                *self,
                n_steps,
                acts_hist,
                envs_hist,
                completed@,
            ));
            assert(Self::collect_ensures(*old(self), *self, n_steps, completed@));
        }
        Ok(completed)
    }

    /// The owned policy, for inspection between calls.
    pub fn policy(&self) -> (r: &P)
        ensures
            *r == self.policy_model(),
    {
        &self.policy
    }

    pub fn get_buffer_len(&self) -> (l: usize)
        ensures
            l == self.buffer_size(),
    {
        match &self.buffer {
            Some(b) => b.len(),
            None => 0,
        }
    }

    /// What one training step did: everything except the policy is
    /// untouched; with no buffer, or fewer stored transitions than the
    /// batch size, it is a total no-op that succeeds; otherwise exactly
    /// one batch of `batch_size` transitions, sampled from the stored
    /// ones, was handed to the policy's learning update exactly once,
    /// whose own `learned` relation ties the old policy, the batch, the
    /// new policy and the result.
    #[verifier::opaque]
    pub open spec fn train_step_rel(
        pre: Self,
        post: Self,
        batch_size: usize,
        r: Result<(), RlError>,
    ) -> bool {
        &&& post.env_model() == pre.env_model()
        &&& post.obs_model() == pre.obs_model()
        &&& post.returns_model() == pre.returns_model()
        &&& post.has_buffer() == pre.has_buffer()
        &&& post.buffer_history() == pre.buffer_history()
        &&& post.buffer_stored() == pre.buffer_stored()
        &&& post.buffer_size() == pre.buffer_size()
        &&& post.buffer_capacity() == pre.buffer_capacity()
        &&& ((!pre.has_buffer() || pre.buffer_size() < batch_size) ==> (post == pre && r is Ok))
        &&& ((pre.has_buffer() && pre.buffer_size() >= batch_size) ==> exists|
            b: Batch<V::Observation, V::Action>,
        |
            {
                &&& #[trigger] ReplayBuffer::<V::Observation, V::Action>::sampled_from(
                    b,
                    pre.buffer_stored(),
                    batch_size as int,
                )
                &&& P::learned(pre.policy_model(), b, post.policy_model(), r)
            })
    }

    /// Sample one batch and delegate to the policy's learning update
    /// exactly once — unless the buffer is absent or holds fewer than
    /// `batch_size` transitions, in which case nothing at all happens:
    /// an expected condition during warm-up, not an error. The
    /// environment, the observations, the accumulators and the buffer
    /// are never touched.
    pub fn train_step(&mut self, batch_size: usize) -> (r: Result<(), RlError>)
        requires
            old(self).inv(),
        ensures
            final(self).inv(),
            Self::train_step_rel(*old(self), *final(self), batch_size, r),
    {
        proof {
            reveal(Collector::train_step_rel);
        }
        match &self.buffer {
            Some(buf) => {
                if buf.len() >= batch_size {
                    let batch = match buf.sample(batch_size) {
                        Ok(b) => b,
                        Err(_) => {
                            proof {
                                assert(false);
                            }
                            return Err(RlError::InsufficientData);
                        },
                    };
                    let res = self.policy.learn(&batch);
                    proof {
                        assert(ReplayBuffer::<V::Observation, V::Action>::sampled_from(
                            batch,
                            old(self).buffer_stored(),
                            batch_size as int,
                        ));
                        assert(P::learned(
                            old(self).policy_model(),
                            batch,
                            self.policy_model(),
                            res,
                        ));
                    }
                    res
                } else {
                    Ok(())
                }
            },
            None => Ok(()),
        }
    }
}

/// The ceiling of `steps / n` is the smallest iteration count whose
/// total slot count reaches `steps`.
proof fn lemma_ceil_div(steps: int, n: int)
    requires
        n >= 1,
        steps >= 1,
    ensures
        ({
            let k = steps / n + if steps % n != 0 {
                1int
            } else {
                0int
            };
            &&& k >= 1
            &&& k <= steps
            &&& k * n >= steps
            &&& (k - 1) * n < steps
        }),
{
    lemma_fundamental_div_mod(steps, n);
    lemma_mod_bound(steps, n);
    let q = steps / n;
    let r = steps % n;
    assert(steps == n * q + r);
    assert(q >= 0) by (nonlinear_arith)
        requires
            n >= 1,
            steps >= 1,
            steps == n * q + r,
            0 <= r < n,
    ;
    if r == 0 {
        assert(q * n == steps && (q - 1) * n == steps - n && 1 <= q <= steps) by (nonlinear_arith)
            requires
                n >= 1,
                q >= 0,
                steps == n * q + r,
                r == 0,
                steps >= 1,
        ;
    } else {
        assert((q + 1) * n >= steps + 1 && q * n < steps && q + 1 <= steps) by (nonlinear_arith)
            requires
                n >= 1,
                q >= 0,
                steps == n * q + r,
                0 < r < n,
        ;
    }
}

} // verus!
