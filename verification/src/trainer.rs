use crate::collector::Collector;
use crate::errors::RlError;
use crate::policy::Policy;
use crate::venv::VectorEnv;
use vstd::prelude::*;

verus! {

/// Thin orchestration on top of the collector: an epoch loop that
/// collects experience and triggers one learning step per epoch, with a
/// short warm-up collection first.
pub struct Trainer<V: VectorEnv, P> {
    collector: Collector<V, P>,
    max_epochs: usize,
    step_per_epoch: usize,
    batch_size: usize,
}

impl<V, P> Trainer<V, P> where
    V: VectorEnv,
    P: Policy<Observation = V::Observation, Action = V::Action>,
    V::Observation: Clone,
    V::Action: Clone,
 {
    pub closed spec fn collector_model(self) -> Collector<V, P> {
        self.collector
    }

    pub closed spec fn max_epochs_spec(self) -> usize {
        self.max_epochs
    }

    pub closed spec fn step_per_epoch_spec(self) -> usize {
        self.step_per_epoch
    }

    pub closed spec fn batch_size_spec(self) -> usize {
        self.batch_size
    }

    pub closed spec fn inv(self) -> bool {
        self.collector.inv()
    }

    pub fn new(
        collector: Collector<V, P>,
        max_epochs: usize,
        step_per_epoch: usize,
        batch_size: usize,
    ) -> (t: Self)
        requires
            collector.inv(),
        ensures
            t.inv(),
            t.collector_model() == collector,
            t.max_epochs_spec() == max_epochs,
            t.step_per_epoch_spec() == step_per_epoch,
            t.batch_size_spec() == batch_size,
    {
        Self { collector, max_epochs, step_per_epoch, batch_size }
    }

    /// One epoch's witness: a collect of `spe` transitions succeeded and
    /// took `pre` to `mid` returning `rets`, then one train_step with
    /// `bs` took `mid` to `post` and succeeded.
    #[verifier::opaque]
    pub open spec fn epoch_wit(
        pre: Collector<V, P>,
        mid: Collector<V, P>,
        post: Collector<V, P>,
        rets: Seq<i64>,
        r: Result<(), RlError>,
        spe: usize,
        bs: usize,
    ) -> bool {
        &&& Collector::collect_ensures(pre, mid, spe, rets)
        &&& Collector::train_step_rel(mid, post, bs, r)
        &&& r is Ok
    }

    /// One epoch: a successful collect of `spe` transitions followed by
    /// exactly one successful train_step with `bs`.
    pub open spec fn epoch_step(
        pre: Collector<V, P>,
        post: Collector<V, P>,
        spe: usize,
        bs: usize,
    ) -> bool {
        exists|mid: Collector<V, P>, rets: Seq<i64>, r: Result<(), RlError>|
            #[trigger] Self::epoch_wit(pre, mid, post, rets, r, spe, bs)
    }

    /// The collector state at the start of epoch `j`: the warm-up state,
    /// or the one the previous epoch left behind.
    pub open spec fn state_before(
        start: Collector<V, P>,
        states: Seq<Collector<V, P>>,
        j: int,
    ) -> Collector<V, P> {
        if j <= 0 {
            start
        } else {
            states[j - 1]
        }
    }

    /// Epoch by epoch, each state in `states` is reached from the
    /// previous one by exactly one epoch.
    pub open spec fn epochs_run(
        start: Collector<V, P>,
        states: Seq<Collector<V, P>>,
        spe: usize,
        bs: usize,
    ) -> bool {
        forall|j: int|
            0 <= j < states.len() ==> Self::epoch_step(
                Self::state_before(start, states, j),
                #[trigger] states[j],
                spe,
                bs,
            )
    }

    /// What a successful training run did, witnessed by the collector
    /// state `warm` after the initial warm-up collect (which returned
    /// `wrets`) and the per-epoch states `states`.
    pub open spec fn train_wit(
        pre: Self,
        post: Self,
        warm: Collector<V, P>,
        wrets: Seq<i64>,
        states: Seq<Collector<V, P>>,
    ) -> bool {
        &&& Collector::collect_ensures(pre.collector_model(), warm, 10usize, wrets)
        &&& states.len() == pre.max_epochs_spec()
        &&& Self::epochs_run(warm, states, pre.step_per_epoch_spec(), pre.batch_size_spec())
        &&& post.collector_model() == Self::state_before(warm, states, states.len() as int)
    }

    /// A successful run is one warm-up collect of 10 transitions followed
    /// by exactly `max_epochs` epochs, each one collect of
    /// `step_per_epoch` then one train_step of `batch_size`, in order;
    /// the configuration itself never changes.
    pub open spec fn train_post(pre: Self, post: Self, r: Result<(), RlError>) -> bool {
        &&& post.max_epochs_spec() == pre.max_epochs_spec()
        &&& post.step_per_epoch_spec() == pre.step_per_epoch_spec()
        &&& post.batch_size_spec() == pre.batch_size_spec()
        &&& (r is Ok ==> exists|
            warm: Collector<V, P>,
            wrets: Seq<i64>,
            states: Seq<Collector<V, P>>,
        | #[trigger] Self::train_wit(pre, post, warm, wrets, states))
    }

    /// Collect a short warm-up, then for each epoch collect
    /// `step_per_epoch` transitions and trigger one learning step. Any
    /// failure of the policy, an environment or the learning update ends
    /// the run with that error.
    #[verifier::rlimit(100)]
    pub fn train(&mut self) -> (r: Result<(), RlError>)
        requires
            old(self).inv(),
        ensures
            r is Ok ==> final(self).inv(),
            Self::train_post(*old(self), *final(self), r),
    {
        let warm_rets = match self.collector.collect(10) {
            Ok(v) => v,
            Err(e) => {
                return Err(e);
            },
        };
        let ghost warm = self.collector;
        let ghost wrets = warm_rets@;
        let ghost mut states: Seq<Collector<V, P>> = Seq::empty();
        let mut epoch: usize = 0;
        while epoch < self.max_epochs
            invariant
                self.collector.inv(),
                epoch <= self.max_epochs,
                self.max_epochs == old(self).max_epochs_spec(),
                self.step_per_epoch == old(self).step_per_epoch_spec(),
                self.batch_size == old(self).batch_size_spec(),
                Collector::collect_ensures(old(self).collector_model(), warm, 10usize, wrets),
                states.len() == epoch,
                Self::epochs_run(warm, states, self.step_per_epoch, self.batch_size),
                self.collector == Self::state_before(warm, states, epoch as int),
            decreases self.max_epochs - epoch,
        {
            let ghost pre_c = self.collector;
            let rets = match self.collector.collect(self.step_per_epoch) {
                Ok(v) => v,
                Err(e) => {
                    return Err(e);
                },
            };
            let ghost mid_c = self.collector;
            let ts = self.collector.train_step(self.batch_size);
            let ghost ts_g = ts;
            match ts {
                Ok(()) => {},
                Err(e) => {
                    return Err(e);
                },
            }
            let ghost post_c = self.collector;
            epoch = epoch + 1;
            proof {
                reveal(Trainer::epoch_wit);
                assert(Self::epoch_wit(
                    pre_c,
                    mid_c,
                    post_c,
                    rets@,
                    ts_g,
                    self.step_per_epoch,
                    self.batch_size,
                ));
                assert(Self::epoch_step(pre_c, post_c, self.step_per_epoch, self.batch_size));
                let prev = states;
                states = states.push(post_c);
                assert forall|j: int| 0 <= j < states.len() implies Self::epoch_step(
                    Self::state_before(warm, states, j),
                    #[trigger] states[j],
                    self.step_per_epoch,
                    self.batch_size,
                ) by {
                    if j < prev.len() {
                        assert(states[j] == prev[j]);
                        if j > 0 {
                            assert(states[j - 1] == prev[j - 1]);
                        }
                    } else {
                        assert(states[j] == post_c);
                        if j > 0 {
                            assert(states[j - 1] == prev[j - 1]);
                        }
                        assert(Self::state_before(warm, states, j) == pre_c);
                    }
                }
            }
        }
        proof {
            assert(Self::train_wit(*old(self), *self, warm, wrets, states));
            assert(Self::train_post(*old(self), *self, Ok::<(), RlError>(())));
        }
        Ok(())
    }
}

} // verus!
