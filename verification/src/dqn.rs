use crate::batch::Batch;
use crate::errors::RlError;
use crate::model::QNet;
use crate::policy::Policy;
use crate::rng::{random_below, random_ratio};
use crate::tensor::{
    argmax_rows, copy_vars, cpu_device, error_text, gather_actions, index_matrix, new_adamw,
    new_varmap, opt_backward_step, real_matrix, row_max, scalar_real, tensor_add, tensor_detach,
    tensor_div, tensor_mean_all, tensor_mul, tensor_mul_broadcast, tensor_sqr, tensor_sub,
};
use candle_core::{Device, Tensor};
use candle_nn::{AdamW, VarMap};
use vstd::prelude::*;

verus! {

/// Maps a tensor-library error into the core's numerical-failure kind.
fn num_err(e: candle_core::Error) -> (r: RlError)
    ensures
        r matches RlError::NumericFailure(_),
{
    RlError::NumericFailure(error_text(&e))
}

/// The epsilon-greedy mix: per entry, the uniformly drawn action where
/// the exploration coin came up, the greedy one everywhere else.
pub open spec fn mixed(greedy: Seq<u32>, explore: Seq<bool>, randoms: Seq<u32>) -> Seq<u32> {
    Seq::new(
        greedy.len(),
        |i: int|
            if explore[i] {
                randoms[i]
            } else {
                greedy[i]
            },
    )
}

/// The chosen action indices, as the signed values the policy returns.
pub open spec fn as_actions(chosen: Seq<u32>) -> Seq<i64> {
    Seq::new(chosen.len(), |i: int| chosen[i] as i64)
}

/// The observation rows of the first `k` batch entries, laid out one
/// after the other: what the tensor boundary is handed as a matrix.
pub open spec fn flat_prefix(rows: Seq<Vec<i64>>, k: int) -> Seq<i64>
    decreases k,
{
    if k <= 0 {
        Seq::empty()
    } else {
        flat_prefix(rows, k - 1) + rows[k - 1]@
    }
}

/// What one successful selection did, witnessed by the greedy argmax
/// choices and the per-entry exploration draws: every draw is a valid
/// action, the exploration coin follows the rate at its boundaries, and
/// the returned actions are exactly the epsilon-greedy mix.
pub open spec fn selection_post(
    acts: Seq<i64>,
    n_obs: int,
    out_dim: int,
    eps_num: int,
    eps_den: int,
    greedy: Seq<u32>,
    explore: Seq<bool>,
    randoms: Seq<u32>,
) -> bool {
    &&& greedy.len() == n_obs
    &&& explore.len() == n_obs
    &&& randoms.len() == n_obs
    &&& (forall|i: int| 0 <= i < n_obs ==> (#[trigger] greedy[i]) < out_dim)
    &&& (forall|i: int| 0 <= i < n_obs ==> (#[trigger] randoms[i]) < out_dim)
    &&& (eps_num == 0 ==> forall|i: int| 0 <= i < n_obs ==> !(#[trigger] explore[i]))
    &&& (eps_num == eps_den ==> forall|i: int| 0 <= i < n_obs ==> (#[trigger] explore[i]))
    &&& acts == as_actions(mixed(greedy, explore, randoms))
}

/// Applies the epsilon-greedy override: entry `i` of the result is the
/// random draw where `explore[i]` holds and the greedy choice otherwise.
pub fn epsilon_mix(greedy: &Vec<u32>, explore: &Vec<bool>, randoms: &Vec<u32>) -> (r: Vec<u32>)
    requires
        explore@.len() == greedy@.len(),
        randoms@.len() == greedy@.len(),
    ensures
        r@ == mixed(greedy@, explore@, randoms@),
{
    let n = greedy.len();
    let mut out: Vec<u32> = Vec::with_capacity(n);
    let mut i: usize = 0;
    while i < n
        invariant
            i <= n,
            n == greedy@.len(),
            explore@.len() == n,
            randoms@.len() == n,
            out@.len() == i,
            forall|w: int|
                0 <= w < i ==> #[trigger] out@[w] == (if explore@[w] {
                    randoms@[w]
                } else {
                    greedy@[w]
                }),
        decreases n - i,
    {
        if explore[i] {
            out.push(randoms[i]);
        } else {
            out.push(greedy[i]);
        }
        i = i + 1;
    }
    proof {
        assert(out@ =~= mixed(greedy@, explore@, randoms@));
    }
    out
}

/// With exploration rate zero no override ever happens: selection is
/// exactly the greedy argmax choice, deterministic in the value
/// estimates.
pub proof fn lemma_no_exploration_is_greedy(greedy: Seq<u32>, explore: Seq<bool>, randoms: Seq<u32>)
    requires
        explore.len() == greedy.len(),
        randoms.len() == greedy.len(),
        forall|i: int| 0 <= i < explore.len() ==> !explore[i],
    ensures
        mixed(greedy, explore, randoms) == greedy,
{
    assert(mixed(greedy, explore, randoms) =~= greedy);
}

/// With exploration rate one every entry is the uniform draw: the value
/// estimates do not influence the selection at all.
pub proof fn lemma_full_exploration_ignores_values(
    g1: Seq<u32>,
    g2: Seq<u32>,
    explore: Seq<bool>,
    randoms: Seq<u32>,
)
    requires
        explore.len() == g1.len(),
        randoms.len() == g1.len(),
        g2.len() == g1.len(),
        forall|i: int| 0 <= i < explore.len() ==> explore[i],
    ensures
        mixed(g1, explore, randoms) == randoms,
        mixed(g1, explore, randoms) == mixed(g2, explore, randoms),
{
    assert(mixed(g1, explore, randoms) =~= randoms);
    assert(mixed(g2, explore, randoms) =~= randoms);
}

/// The deep Q-learning policy: an online parameter set used for action
/// selection and the current value estimate, and a target set used only
/// for the bootstrapped target, copied from the online set by a hard
/// sync whenever `update_count` is a multiple of the sync period at the
/// start of a learning call.
///
/// The parameter sets themselves are opaque tensors; the version
/// counters model their identity: `online_version` counts attempted
/// optimizer steps on the online set, and `target_version` is the online
/// version the target set was last copied from. The target set changes
/// only in the hard sync, so `target_version == online_version` says the
/// two sets hold the same bits.
///
/// Discount factor, exploration rate and the fixed-point unit are
/// ratios and scales of integers, fixed at construction: `gamma =
/// gamma_num / gamma_den`, `epsilon = eps_num / eps_den`, and every
/// observation and reward value is an integer multiple of `1 / scale`.
pub struct DQNPolicy {
    q_net: QNet,
    target_q_net: QNet,
    varmap: VarMap,
    target_varmap: VarMap,
    optimizer: AdamW,
    device: Device,
    in_dim: usize,
    out_dim: usize,
    gamma_num: u32,
    gamma_den: u32,
    eps_num: u32,
    eps_den: u32,
    scale: u32,
    gamma_t: Tensor,
    scale_t: Tensor,
    target_update_freq: usize,
    update_count: usize,
    online_version: usize,
    target_version: usize,
}

impl DQNPolicy {
    pub closed spec fn wf(self) -> bool {
        &&& 1 <= self.gamma_den
        &&& self.gamma_num <= self.gamma_den
        &&& 1 <= self.eps_den
        &&& self.eps_num <= self.eps_den
        &&& 1 <= self.scale
        &&& 1 <= self.target_update_freq
        &&& 1 <= self.out_dim <= u32::MAX
        &&& self.target_version <= self.online_version
    }

    pub closed spec fn update_count_spec(self) -> int {
        self.update_count as int
    }

    pub closed spec fn target_period(self) -> int {
        self.target_update_freq as int
    }

    pub closed spec fn online_version_spec(self) -> int {
        self.online_version as int
    }

    pub closed spec fn target_version_spec(self) -> int {
        self.target_version as int
    }

    /// The target set is bit-for-bit the online set.
    pub open spec fn target_synced(self) -> bool {
        self.target_version_spec() == self.online_version_spec()
    }

    pub closed spec fn out_dim_spec(self) -> int {
        self.out_dim as int
    }

    pub closed spec fn eps_num_spec(self) -> int {
        self.eps_num as int
    }

    pub closed spec fn eps_den_spec(self) -> int {
        self.eps_den as int
    }

    pub closed spec fn hyper(self) -> (int, int, int, int, int, int, int, int) {
        (
            self.gamma_num as int,
            self.gamma_den as int,
            self.eps_num as int,
            self.eps_den as int,
            self.scale as int,
            self.target_update_freq as int,
            self.in_dim as int,
            self.out_dim as int,
        )
    }

    /// Builds the online and target networks over separate parameter
    /// sets, the optimizer over the online set only, and performs the
    /// initial hard sync, so the two sets are identical at time zero.
    pub fn new(
        in_dim: usize,
        hidden_dim: usize,
        out_dim: usize,
        gamma_num: u32,
        gamma_den: u32,
        eps_num: u32,
        eps_den: u32,
        scale: u32,
    ) -> (r: Result<Self, RlError>)
        requires
            1 <= gamma_den,
            gamma_num <= gamma_den,
            1 <= eps_den,
            eps_num <= eps_den,
            1 <= scale,
            1 <= out_dim <= u32::MAX,
        ensures
            r matches Ok(p) ==> {
                &&& p.wf()
                &&& p.update_count_spec() == 0
                &&& p.online_version_spec() == 0
                &&& p.target_synced()
                &&& p.target_period() == 100
                &&& p.hyper() == (
                    gamma_num as int,
                    gamma_den as int,
                    eps_num as int,
                    eps_den as int,
                    scale as int,
                    100int,
                    in_dim as int,
                    out_dim as int,
                )
                &&& p.eps_num_spec() == eps_num
                &&& p.eps_den_spec() == eps_den
            },
    {
        let device = cpu_device();
        let varmap = new_varmap();
        let q_net = match QNet::new(in_dim, hidden_dim, out_dim, &varmap, &device) {
            Ok(n) => n,
            Err(e) => {
                return Err(num_err(e));
            },
        };
        let mut target_varmap = new_varmap();
        let target_q_net = match QNet::new(in_dim, hidden_dim, out_dim, &target_varmap, &device) {
            Ok(n) => n,
            Err(e) => {
                return Err(num_err(e));
            },
        };
        let optimizer = match new_adamw(&varmap) {
            Ok(o) => o,
            Err(e) => {
                return Err(num_err(e));
            },
        };
        let gn = match scalar_real(gamma_num, &device) {
            Ok(t) => t,
            Err(e) => {
                return Err(num_err(e));
            },
        };
        let gd = match scalar_real(gamma_den, &device) {
            Ok(t) => t,
            Err(e) => {
                return Err(num_err(e));
            },
        };
        let gamma_t = match tensor_div(&gn, &gd) {
            Ok(t) => t,
            Err(e) => {
                return Err(num_err(e));
            },
        };
        let scale_t = match scalar_real(scale, &device) {
            Ok(t) => t,
            Err(e) => {
                return Err(num_err(e));
            },
        };
        // initial hard sync: target equals online at time zero
        match copy_vars(&varmap, &mut target_varmap) {
            Ok(()) => {},
            Err(e) => {
                return Err(num_err(e));
            },
        }
        Ok(
            DQNPolicy {
                q_net,
                target_q_net,
                varmap,
                target_varmap,
                optimizer,
                device,
                in_dim,
                out_dim,
                gamma_num,
                gamma_den,
                eps_num,
                eps_den,
                scale,
                gamma_t,
                scale_t,
                target_update_freq: 100,
                update_count: 0,
                online_version: 0,
                target_version: 0,
            },
        )
    }

    /// Hard sync: copy every online parameter into the target set. Only
    /// this operation ever writes the target set.
    fn sync_target(&mut self) -> (r: Result<(), RlError>)
        requires
            old(self).wf(),
        ensures
            final(self).wf(),
            final(self).hyper() == old(self).hyper(),
            final(self).update_count_spec() == old(self).update_count_spec(),
            final(self).online_version_spec() == old(self).online_version_spec(),
            r is Ok ==> final(self).target_version_spec() == old(self).online_version_spec(),
            r is Err ==> final(self).target_version_spec() == old(self).target_version_spec(),
    {
        match copy_vars(&self.varmap, &mut self.target_varmap) {
            Ok(()) => {
                self.target_version = self.online_version;
                Ok(())
            },
            Err(e) => Err(num_err(e)),
        }
    }

    /// The parameter set used for action selection and learning.
    pub fn online_vars(&self) -> &VarMap {
        &self.varmap
    }

    /// The delayed snapshot used for bootstrapped targets.
    pub fn target_vars(&self) -> &VarMap {
        &self.target_varmap
    }

    pub fn update_count(&self) -> (c: usize)
        ensures
            c == self.update_count_spec(),
    {
        self.update_count
    }

    /// Epsilon-greedy action selection: the online network's value
    /// estimates give one greedy action per observation (the argmax,
    /// earliest index on ties); each is then independently overridden by
    /// a uniformly random action with probability `eps_num / eps_den`.
    pub fn forward(&self, obs: &Vec<Vec<i64>>) -> (r: Result<Vec<i64>, RlError>)
        requires
            self.wf(),
        ensures
            r matches Ok(acts) ==> {
                &&& acts@.len() == obs@.len()
                &&& (forall|i: int|
                    0 <= i < acts@.len() ==> 0 <= #[trigger] acts@[i] < self.out_dim_spec())
                &&& exists|greedy: Seq<u32>, explore: Seq<bool>, randoms: Seq<u32>|
                    #[trigger] selection_post(
                        acts@,
                        obs@.len() as int,
                        self.out_dim_spec(),
                        self.eps_num_spec(),
                        self.eps_den_spec(),
                        greedy,
                        explore,
                        randoms,
                    )
            },
    {
        let b = obs.len();
        let mut flat: Vec<i64> = Vec::new();
        let mut i: usize = 0;
        while i < b
            invariant
                i <= b,
                b == obs@.len(),
            decreases b - i,
        {
            let row = &obs[i];
            let mut j: usize = 0;
            let m = row.len();
            while j < m
                invariant
                    j <= m,
                    m == row@.len(),
                decreases m - j,
            {
                flat.push(row[j]);
                j = j + 1;
            }
            i = i + 1;
        }
        let xt = match real_matrix(flat, b, self.in_dim, &self.device) {
            Ok(t) => t,
            Err(e) => {
                return Err(num_err(e));
            },
        };
        let xt = match tensor_div(&xt, &self.scale_t) {
            Ok(t) => t,
            Err(e) => {
                return Err(num_err(e));
            },
        };
        let q = match self.q_net.forward(&xt) {
            Ok(t) => t,
            Err(e) => {
                return Err(num_err(e));
            },
        };
        let greedy = match argmax_rows(&q) {
            Ok(v) => v,
            Err(e) => {
                return Err(num_err(e));
            },
        };
        if greedy.len() != b {
            return Err(RlError::NumericFailure("value row count mismatch".to_string()));
        }
        let mut g: usize = 0;
        while g < b
            invariant
                g <= b,
                self.wf(),
                greedy@.len() == b,
                forall|t: int| 0 <= t < g ==> (#[trigger] greedy@[t]) < self.out_dim_spec(),
            decreases b - g,
        {
            if greedy[g] >= self.out_dim as u32 {
                return Err(RlError::NumericFailure("greedy action out of range".to_string()));
            }
            g = g + 1;
        }
        let mut explore: Vec<bool> = Vec::with_capacity(b);
        let mut randoms: Vec<u32> = Vec::with_capacity(b);
        let mut w: usize = 0;
        while w < b
            invariant
                w <= b,
                explore@.len() == w,
                randoms@.len() == w,
                self.wf(),
                self.eps_num_spec() == 0 ==> forall|t: int|
                    0 <= t < w ==> !(#[trigger] explore@[t]),
                self.eps_num_spec() == self.eps_den_spec() ==> forall|t: int|
                    0 <= t < w ==> (#[trigger] explore@[t]),
                forall|t: int| 0 <= t < w ==> (#[trigger] randoms@[t]) < self.out_dim_spec(),
            decreases b - w,
        {
            explore.push(random_ratio(self.eps_num, self.eps_den));
            randoms.push(random_below(self.out_dim as u32));
            w = w + 1;
        }
        let chosen = epsilon_mix(&greedy, &explore, &randoms);
        let mut acts: Vec<i64> = Vec::with_capacity(b);
        let mut v: usize = 0;
        while v < b
            invariant
                v <= b,
                chosen@.len() == b,
                acts@.len() == v,
                forall|t: int| 0 <= t < v ==> #[trigger] acts@[t] == chosen@[t] as i64,
            decreases b - v,
        {
            acts.push(chosen[v] as i64);
            v = v + 1;
        }
        proof {
            assert(acts@ =~= as_actions(chosen@));
            assert(selection_post(
                acts@,
                obs@.len() as int,
                self.out_dim_spec(),
                self.eps_num_spec(),
                self.eps_den_spec(),
                greedy@,
                explore@,
                randoms@,
            ));
            assert forall|t: int| 0 <= t < acts@.len() implies 0 <= #[trigger] acts@[t]
                < self.out_dim_spec() by {
                assert(acts@[t] == mixed(greedy@, explore@, randoms@)[t] as i64);
            }
        }
        Ok(acts)
    }

    /// One learning update from a sampled batch, following the protocol:
    /// hard-sync the target set if `update_count` is a multiple of the
    /// period (so the very first call always syncs); compute the
    /// bootstrapped target `reward + gamma * (1 - done) * max` from the
    /// target network, detached so no gradient flows through it; gather
    /// the online estimate of each taken action; regress with a mean
    /// squared error; apply one optimizer step to the online set only;
    /// and finally increment `update_count` — the version counters say
    /// exactly when the target set last matched the online one.
    pub fn learn(&mut self, batch: &Batch<Vec<i64>, i64>) -> (r: Result<(), RlError>)
        requires
            old(self).wf(),
            batch.well_formed(),
        ensures
            final(self).wf(),
            final(self).hyper() == old(self).hyper(),
            r is Ok ==> {
                &&& final(self).update_count_spec() == old(self).update_count_spec() + 1
                &&& final(self).online_version_spec() == old(self).online_version_spec() + 1
                &&& (old(self).update_count_spec() % old(self).target_period() == 0
                    ==> final(self).target_version_spec() == old(self).online_version_spec())
                &&& (old(self).update_count_spec() % old(self).target_period() != 0
                    ==> final(self).target_version_spec() == old(self).target_version_spec())
            },
            r is Err ==> final(self).update_count_spec() == old(self).update_count_spec(),
            r is Ok ==> forall|i: int|
                0 <= i < batch.act@.len() ==> 0 <= #[trigger] batch.act@[i] <= u32::MAX,
    {
        if self.update_count == usize::MAX || self.online_version == usize::MAX {
            return Err(RlError::NumericFailure("update counter exhausted".to_string()));
        }
        if self.update_count % self.target_update_freq == 0 {
            match self.sync_target() {
                Ok(()) => {},
                Err(e) => {
                    return Err(e);
                },
            }
        }
        let b = batch.len();

        let mut flat_obs: Vec<i64> = Vec::new();
        let mut flat_next: Vec<i64> = Vec::new();
        let mut acts_u32: Vec<u32> = Vec::new();
        let mut rews: Vec<i64> = Vec::new();
        let mut notdone: Vec<i64> = Vec::new();
        let ghost snap = *self;
        let mut i: usize = 0;
        while i < b
            invariant
                i <= b,
                b == batch.obs@.len(),
                batch.well_formed(),
                *self == snap,
                self.wf(),
                self.hyper() == old(self).hyper(),
                self.update_count_spec() == old(self).update_count_spec(),
                flat_obs@ == flat_prefix(batch.obs@, i as int),
                flat_next@ == flat_prefix(batch.obs_next@, i as int),
                acts_u32@ == Seq::new(i as nat, |w: int| batch.act@[w] as u32),
                forall|w: int| 0 <= w < i ==> 0 <= #[trigger] batch.act@[w] <= u32::MAX,
                rews@ == batch.rew@.take(i as int),
                notdone@ == Seq::new(
                    i as nat,
                    |w: int|
                        if batch.done@[w] {
                            0i64
                        } else {
                            1i64
                        },
                ),
            decreases b - i,
        {
            let ghost obs_flat_pre = flat_obs@;
            let row = &batch.obs[i];
            let mut j: usize = 0;
            let m = row.len();
            while j < m
                invariant
                    j <= m,
                    m == row@.len(),
                    flat_obs@ == obs_flat_pre + row@.take(j as int),
                decreases m - j,
            {
                flat_obs.push(row[j]);
                j = j + 1;
                proof {
                    assert(flat_obs@ =~= obs_flat_pre + row@.take(j as int));
                }
            }
            proof {
                assert(row@.take(m as int) =~= row@);
                assert(flat_obs@ == flat_prefix(batch.obs@, i + 1));
            }
            let ghost next_flat_pre = flat_next@;
            let row = &batch.obs_next[i];
            let mut j: usize = 0;
            let m = row.len();
            while j < m
                invariant
                    j <= m,
                    m == row@.len(),
                    flat_next@ == next_flat_pre + row@.take(j as int),
                decreases m - j,
            {
                flat_next.push(row[j]);
                j = j + 1;
                proof {
                    assert(flat_next@ =~= next_flat_pre + row@.take(j as int));
                }
            }
            proof {
                assert(row@.take(m as int) =~= row@);
                assert(flat_next@ == flat_prefix(batch.obs_next@, i + 1));
            }
            let a = batch.act[i];
            if a < 0 || a > u32::MAX as i64 {
                return Err(RlError::NumericFailure("action index out of range".to_string()));
            }
            acts_u32.push(a as u32);
            rews.push(batch.rew[i]);
            notdone.push(
                if batch.done[i] {
                    0
                } else {
                    1
                },
            );
            i = i + 1;
            proof {
                assert(acts_u32@ =~= Seq::new(i as nat, |w: int| batch.act@[w] as u32));
                assert(rews@ =~= batch.rew@.take(i as int));
                assert(notdone@ =~= Seq::new(
                    i as nat,
                    |w: int|
                        if batch.done@[w] {
                            0i64
                        } else {
                            1i64
                        },
                ));
            }
        }
        proof {
            // the data handed to the tensor boundary is exactly the batch,
            // flattened and converted
            assert(flat_obs@ == flat_prefix(batch.obs@, b as int));
            assert(flat_next@ == flat_prefix(batch.obs_next@, b as int));
            assert(rews@ =~= batch.rew@);
        }

        let obs_t = match real_matrix(flat_obs, b, self.in_dim, &self.device) {
            Ok(t) => t,
            Err(e) => {
                return Err(num_err(e));
            },
        };
        let obs_t = match tensor_div(&obs_t, &self.scale_t) {
            Ok(t) => t,
            Err(e) => {
                return Err(num_err(e));
            },
        };
        let next_t = match real_matrix(flat_next, b, self.in_dim, &self.device) {
            Ok(t) => t,
            Err(e) => {
                return Err(num_err(e));
            },
        };
        let next_t = match tensor_div(&next_t, &self.scale_t) {
            Ok(t) => t,
            Err(e) => {
                return Err(num_err(e));
            },
        };
        let act_t = match index_matrix(acts_u32, b, 1, &self.device) {
            Ok(t) => t,
            Err(e) => {
                return Err(num_err(e));
            },
        };
        let rew_t = match real_matrix(rews, b, 1, &self.device) {
            Ok(t) => t,
            Err(e) => {
                return Err(num_err(e));
            },
        };
        let rew_t = match tensor_div(&rew_t, &self.scale_t) {
            Ok(t) => t,
            Err(e) => {
                return Err(num_err(e));
            },
        };
        let nd_t = match real_matrix(notdone, b, 1, &self.device) {
            Ok(t) => t,
            Err(e) => {
                return Err(num_err(e));
            },
        };

        // bootstrapped target from the target network, detached
        let next_q = match self.target_q_net.forward(&next_t) {
            Ok(t) => t,
            Err(e) => {
                return Err(num_err(e));
            },
        };
        let next_q = tensor_detach(&next_q);
        let max_next_q = match row_max(&next_q, b) {
            Ok(t) => t,
            Err(e) => {
                return Err(num_err(e));
            },
        };
        let masked = match tensor_mul(&max_next_q, &nd_t) {
            Ok(t) => t,
            Err(e) => {
                return Err(num_err(e));
            },
        };
        let discounted = match tensor_mul_broadcast(&masked, &self.gamma_t) {
            Ok(t) => t,
            Err(e) => {
                return Err(num_err(e));
            },
        };
        let target_q = match tensor_add(&discounted, &rew_t) {
            Ok(t) => t,
            Err(e) => {
                return Err(num_err(e));
            },
        };
        let target_q = tensor_detach(&target_q);

        // current estimate: the online value of each taken action
        let q_values = match self.q_net.forward(&obs_t) {
            Ok(t) => t,
            Err(e) => {
                return Err(num_err(e));
            },
        };
        let current_q = match gather_actions(&q_values, &act_t) {
            Ok(t) => t,
            Err(e) => {
                return Err(num_err(e));
            },
        };

        // mean squared error and one optimizer step on the online set
        let diff = match tensor_sub(&current_q, &target_q) {
            Ok(t) => t,
            Err(e) => {
                return Err(num_err(e));
            },
        };
        let sq = match tensor_sqr(&diff) {
            Ok(t) => t,
            Err(e) => {
                return Err(num_err(e));
            },
        };
        let loss = match tensor_mean_all(&sq) {
            Ok(t) => t,
            Err(e) => {
                return Err(num_err(e));
            },
        };
        self.online_version = self.online_version + 1;
        match opt_backward_step(&mut self.optimizer, &loss) {
            Ok(()) => {},
            Err(e) => {
                return Err(num_err(e));
            },
        }
        self.update_count = self.update_count + 1;
        Ok(())
    }
}

impl Policy for DQNPolicy {
    type Observation = Vec<i64>;

    type Action = i64;

    open spec fn inv(&self) -> bool {
        self.wf()
    }

    /// A learning call follows the update protocol: hyperparameters are
    /// immutable; on success the update counter and the online version
    /// advance by one, the target set was copied from the online set
    /// exactly when the counter was a multiple of the period at entry,
    /// and every action in the batch was a valid index; on failure the
    /// update counter is untouched.
    open spec fn learned(
        pre: Self,
        batch: Batch<Vec<i64>, i64>,
        post: Self,
        r: Result<(), RlError>,
    ) -> bool {
        &&& post.hyper() == pre.hyper()
        &&& (r is Ok ==> {
            &&& post.update_count_spec() == pre.update_count_spec() + 1
            &&& post.online_version_spec() == pre.online_version_spec() + 1
            &&& (pre.update_count_spec() % pre.target_period() == 0
                ==> post.target_version_spec() == pre.online_version_spec())
            &&& (pre.update_count_spec() % pre.target_period() != 0
                ==> post.target_version_spec() == pre.target_version_spec())
            &&& (forall|i: int|
                0 <= i < batch.act@.len() ==> 0 <= #[trigger] batch.act@[i] <= u32::MAX)
        })
        &&& (r is Err ==> post.update_count_spec() == pre.update_count_spec())
    }

    fn forward(&mut self, obs: &Vec<Vec<i64>>) -> (r: Result<Vec<i64>, RlError>)
        ensures
            *final(self) == *old(self),
    {
        DQNPolicy::forward(self, obs)
    }

    fn learn(&mut self, batch: &Batch<Vec<i64>, i64>) -> (r: Result<(), RlError>) {
        DQNPolicy::learn(self, batch)
    }
}

} // verus!
