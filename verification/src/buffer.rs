use crate::batch::Batch;
use crate::errors::RlError;
use crate::rng::choose_distinct;
use vstd::arithmetic::div_mod::{
    lemma_add_mod_noop, lemma_add_mod_noop_right, lemma_fundamental_div_mod,
    lemma_fundamental_div_mod_converse_mod, lemma_mod_bound, lemma_mod_multiples_vanish,
    lemma_mod_self_0, lemma_small_mod, lemma_sub_mod_noop_right,
};
use vstd::math::min;
use vstd::set_lib::{lemma_int_range, lemma_len_subset, set_int_range};
use vstd::pervasive::cloned;
use vstd::pervasive::VecAdditionalExecFns;
use vstd::prelude::*;

verus! {

/// One recorded transition, as the buffer's model sees it:
/// (observation, action, reward, done flag, next observation).
pub type Rec<O, A> = (O, A, i64, bool, O);

/// Position in the history of the last write that landed in slot `j`,
/// after `n` additions into a ring of `cap` slots. Writes hit the slots
/// round-robin, so this is the largest position below `n` congruent to
/// `j` modulo `cap`.
pub open spec fn last_write(n: int, cap: int, j: int) -> int {
    n - 1 - ((n - 1 - j) % cap)
}

/// A fixed-capacity ring store of transitions. While fewer transitions
/// than the capacity have arrived they are appended; afterwards each new
/// transition overwrites the oldest surviving slot. Sampling draws
/// uniformly, without replacement, from the stored transitions only.
///
/// The ghost `history` records every transition ever added, oldest first;
/// the invariant ties each slot of the store to the last write that
/// reached it, so the store provably holds exactly the most recent
/// `min(history.len(), capacity)` additions.
pub struct ReplayBuffer<O, A> {
    obs: Vec<O>,
    act: Vec<A>,
    rew: Vec<i64>,
    done: Vec<bool>,
    obs_next: Vec<O>,
    capacity: usize,
    index: usize,
    size: usize,
    history: Ghost<Seq<Rec<O, A>>>,
}

/// The transition at row `i` of the batch is an owned copy of `rec`.
pub open spec fn row_copies<O: Clone, A: Clone>(rec: Rec<O, A>, b: Batch<O, A>, i: int) -> bool {
    &&& cloned(rec.0, b.obs@[i])
    &&& cloned(rec.1, b.act@[i])
    &&& b.rew@[i] == rec.2
    &&& b.done@[i] == rec.3
    &&& cloned(rec.4, b.obs_next@[i])
}

impl<O: Clone, A: Clone> ReplayBuffer<O, A> {
    pub closed spec fn capacity_spec(self) -> int {
        self.capacity as int
    }

    pub closed spec fn size_spec(self) -> int {
        self.size as int
    }

    /// Every transition ever added, oldest first.
    pub closed spec fn history(self) -> Seq<Rec<O, A>> {
        self.history@
    }

    /// The transitions currently stored, in slot order.
    pub closed spec fn stored(self) -> Seq<Rec<O, A>> {
        Seq::new(
            self.size as nat,
            |j: int| (self.obs@[j], self.act@[j], self.rew@[j], self.done@[j], self.obs_next@[j]),
        )
    }

    pub closed spec fn well_formed(self) -> bool {
        &&& 1 <= self.capacity
        &&& self.obs@.len() == self.size
        &&& self.act@.len() == self.size
        &&& self.rew@.len() == self.size
        &&& self.done@.len() == self.size
        &&& self.obs_next@.len() == self.size
        &&& self.size <= self.capacity
        &&& self.size as int == min(self.history@.len() as int, self.capacity as int)
        &&& self.index as int == self.history@.len() as int % self.capacity as int
        &&& forall|j: int|
            0 <= j < self.size ==> #[trigger] self.stored()[j] == self.history@[last_write(
                self.history@.len() as int,
                self.capacity as int,
                j,
            )]
    }

    /// `b` holds exactly `k` transitions, each an owned copy of a stored
    /// one, with no stored index repeated within the draw.
    pub open spec fn sampled_from(b: Batch<O, A>, src: Seq<Rec<O, A>>, k: int) -> bool {
        &&& b.well_formed()
        &&& b.obs@.len() == k
        &&& exists|ps: Seq<int>|
            {
                &&& ps.len() == k
                &&& (forall|i: int| 0 <= i < k ==> 0 <= #[trigger] ps[i] < src.len())
                &&& (forall|i: int, j: int| 0 <= i < j < k ==> ps[i] != ps[j])
                &&& (forall|i: int| 0 <= i < k ==> row_copies(src[#[trigger] ps[i]], b, i))
            }
    }

    pub fn new(capacity: usize) -> (b: Self)
        requires
            1 <= capacity,
        ensures
            b.well_formed(),
            b.capacity_spec() == capacity,
            b.history() == Seq::<Rec<O, A>>::empty(),
            b.size_spec() == 0,
    {
        proof {
            lemma_small_mod(0, capacity as nat);
        }
        Self {
            obs: Vec::with_capacity(capacity),
            act: Vec::with_capacity(capacity),
            rew: Vec::with_capacity(capacity),
            done: Vec::with_capacity(capacity),
            obs_next: Vec::with_capacity(capacity),
            capacity,
            index: 0,
            size: 0,
            history: Ghost(Seq::empty()),
        }
    }

    /// Append while the store is not full; once it is, overwrite the slot
    /// at the write cursor and advance the cursor modulo the capacity.
    /// Never fails; the history simply grows by the new transition.
    pub fn add(&mut self, obs: O, act: A, rew: i64, done: bool, obs_next: O)
        requires
            old(self).well_formed(),
        ensures
            final(self).well_formed(),
            final(self).capacity_spec() == old(self).capacity_spec(),
            final(self).history() == old(self).history().push((obs, act, rew, done, obs_next)),
            final(self).size_spec() == min(
                old(self).size_spec() + 1,
                old(self).capacity_spec(),
            ),
    {
        let ghost t: Rec<O, A> = (obs, act, rew, done, obs_next);
        let ghost n = self.history@.len() as int;
        let ghost cap = self.capacity as int;
        proof {
            lemma_mod_bound(n, cap);
        }
        if self.size < self.capacity {
            self.obs.push(obs);
            self.act.push(act);
            self.rew.push(rew);
            self.done.push(done);
            self.obs_next.push(obs_next);
            self.size = self.size + 1;
            proof {
                // not yet full: the cursor equals the old size
                lemma_small_mod(n as nat, cap as nat);
            }
        } else {
            self.obs.set(self.index, obs);
            self.act.set(self.index, act);
            self.rew.set(self.index, rew);
            self.done.set(self.index, done);
            self.obs_next.set(self.index, obs_next);
        }
        self.index = (self.index + 1) % self.capacity;
        proof {
            self.history@ = self.history@.push(t);
            lemma_add_mod_noop_right(1, n, cap);
            if cap == 1 {
                lemma_mod_self_0(cap);
            } else {
                lemma_small_mod(1, cap as nat);
            }
            if n < cap {
                assert forall|j: int| 0 <= j < self.size implies #[trigger] self.stored()[j]
                    == self.history@[last_write(n + 1, cap, j)] by {
                    lemma_lw_append_small(n, cap, j);
                    if j < n {
                        lemma_lw_append_small(n - 1, cap, j);
                        assert(old(self).stored()[j] == old(self).history()[last_write(
                            n,
                            cap,
                            j,
                        )]);
                    }
                }
            } else {
                let ghost w = n % cap;
                assert forall|j: int| 0 <= j < self.size implies #[trigger] self.stored()[j]
                    == self.history@[last_write(n + 1, cap, j)] by {
                    lemma_lw_append_full(n, cap, j);
                    if j == w {
                        assert(self.stored()[j] == t);
                    } else {
                        assert(old(self).stored()[j] == old(self).history()[last_write(
                            n,
                            cap,
                            j,
                        )]);
                        assert(self.stored()[j] == old(self).stored()[j]);
                    }
                }
            }
        }
    }

    /// Draw `k` distinct stored transitions, uniformly without
    /// replacement, as an owned batch. Asking for more than the store
    /// holds fails with `InsufficientData`; the receiver is shared, so
    /// the attempt cannot change the buffer.
    pub fn sample(&self, k: usize) -> (r: Result<Batch<O, A>, RlError>)
        requires
            self.well_formed(),
        ensures
            k > self.size_spec() ==> r == Err::<Batch<O, A>, RlError>(RlError::InsufficientData),
            k <= self.size_spec() ==> (r matches Ok(b) && Self::sampled_from(
                b,
                self.stored(),
                k as int,
            )),
    {
        if k > self.size {
            return Err(RlError::InsufficientData);
        }
        let mut pool: Vec<usize> = Vec::new();
        let mut i: usize = 0;
        while i < self.size
            invariant
                i <= self.size,
                pool@.len() == i,
                forall|t: int| 0 <= t < i ==> #[trigger] pool@[t] == t,
            decreases self.size - i,
        {
            pool.push(i);
            i = i + 1;
        }
        let idxs = choose_distinct(&pool, k);
        let ghost ps = choose|ps: Seq<int>|
            {
                &&& ps.len() == k
                &&& (forall|u: int|
                    0 <= u < k ==> 0 <= #[trigger] ps[u] < pool@.len() && idxs@[u] == pool@[ps[u]])
                &&& (forall|u: int, v: int| 0 <= u < v < k ==> ps[u] != ps[v])
            };
        proof {
            assert forall|u: int| 0 <= u < k implies 0 <= #[trigger] idxs@[u] < self.size by {
                assert(idxs@[u] == pool@[ps[u]]);
            }
        }
        let mut b_obs: Vec<O> = Vec::with_capacity(k);
        let mut b_act: Vec<A> = Vec::with_capacity(k);
        let mut b_rew: Vec<i64> = Vec::with_capacity(k);
        let mut b_done: Vec<bool> = Vec::with_capacity(k);
        let mut b_obs_next: Vec<O> = Vec::with_capacity(k);
        let mut u: usize = 0;
        while u < k
            invariant
                u <= k,
                k <= self.size,
                self.well_formed(),
                idxs@.len() == k,
                forall|w: int| 0 <= w < k ==> 0 <= #[trigger] idxs@[w] < self.size,
                b_obs@.len() == u,
                b_act@.len() == u,
                b_rew@.len() == u,
                b_done@.len() == u,
                b_obs_next@.len() == u,
                forall|w: int|
                    0 <= w < u ==> cloned(self.stored()[idxs@[w] as int].0, #[trigger] b_obs@[w]),
                forall|w: int|
                    0 <= w < u ==> cloned(self.stored()[idxs@[w] as int].1, #[trigger] b_act@[w]),
                forall|w: int| 0 <= w < u ==> #[trigger] b_rew@[w] == self.stored()[idxs@[w] as int].2,
                forall|w: int|
                    0 <= w < u ==> #[trigger] b_done@[w] == self.stored()[idxs@[w] as int].3,
                forall|w: int|
                    0 <= w < u ==> cloned(
                        self.stored()[idxs@[w] as int].4,
                        #[trigger] b_obs_next@[w],
                    ),
            decreases k - u,
        {
            let idx = idxs[u];
            b_obs.push(self.obs[idx].clone());
            b_act.push(self.act[idx].clone());
            b_rew.push(self.rew[idx]);
            b_done.push(self.done[idx]);
            b_obs_next.push(self.obs_next[idx].clone());
            u = u + 1;
        }
        let b = Batch::new(b_obs, b_act, b_rew, b_done, b_obs_next);
        proof {
            let qs = Seq::new(k as nat, |w: int| idxs@[w] as int);
            assert forall|w: int| 0 <= w < k implies row_copies(
                self.stored()[#[trigger] qs[w]],
                b,
                w,
            ) by {}
            assert(Self::sampled_from(b, self.stored(), k as int));
        }
        Ok(b)
    }

    pub fn len(&self) -> (n: usize)
        ensures
            n == self.size_spec(),
    {
        self.size
    }

    pub fn is_empty(&self) -> (e: bool)
        ensures
            e <==> self.size_spec() == 0,
    {
        self.size == 0
    }

    /// `qs` names, for every position of `src`, a batch row that copies
    /// it: an inverse of the drawn positions.
    pub open spec fn inverse_draw(qs: Seq<int>, b: Batch<O, A>, src: Seq<Rec<O, A>>) -> bool {
        &&& qs.len() == src.len()
        &&& forall|j: int|
            0 <= j < src.len() ==> 0 <= #[trigger] qs[j] < src.len() && row_copies(
                src[j],
                b,
                qs[j],
            )
    }

    /// A draw of everything is a permutation of the store: the drawn
    /// positions are distinct and cover the whole range, so besides each
    /// batch row copying some stored transition, every stored transition
    /// is copied by some batch row, named by an inverse index map.
    pub proof fn lemma_full_sample_is_permutation(b: Batch<O, A>, src: Seq<Rec<O, A>>)
        requires
            Self::sampled_from(b, src, src.len() as int),
        ensures
            exists|qs: Seq<int>| #[trigger] Self::inverse_draw(qs, b, src),
    {
        let n = src.len() as int;
        let ps = choose|ps: Seq<int>|
            {
                &&& ps.len() == n
                &&& (forall|i: int| 0 <= i < n ==> 0 <= #[trigger] ps[i] < src.len())
                &&& (forall|i: int, j: int| 0 <= i < j < n ==> ps[i] != ps[j])
                &&& (forall|i: int| 0 <= i < n ==> row_copies(src[#[trigger] ps[i]], b, i))
            };
        let qs = Seq::new(src.len(), |j: int| choose|i: int| 0 <= i < n && ps[i] == j);
        assert forall|j: int| 0 <= j < src.len() implies 0 <= #[trigger] qs[j] < src.len()
            && row_copies(src[j], b, qs[j]) by {
            lemma_distinct_covers(ps, n, j);
            assert(0 <= qs[j] < n && ps[qs[j]] == j);
            assert(row_copies(src[ps[qs[j]]], b, qs[j]));
        }
        assert(Self::inverse_draw(qs, b, src));
    }

    /// The reported length is the smaller of the number of transitions
    /// ever added and the capacity.
    pub proof fn lemma_size(self)
        requires
            self.well_formed(),
        ensures
            self.size_spec() == min(self.history().len() as int, self.capacity_spec()),
    {
    }

    /// Slot `j` holds one of the most recent `size` additions: the last
    /// write that reached it.
    pub open spec fn slot_is_recent(self, j: int) -> bool {
        let i = last_write(self.history().len() as int, self.capacity_spec(), j);
        &&& self.history().len() - self.size_spec() <= i < self.history().len()
        &&& self.stored()[j] == self.history()[i]
    }

    /// The store holds exactly the most recent `min(n, capacity)` of the
    /// `n` transitions ever added: every slot holds a recent transition,
    /// and every recent transition sits in the slot its position selects.
    pub proof fn lemma_holds_most_recent(self)
        requires
            self.well_formed(),
        ensures
            self.size_spec() == min(self.history().len() as int, self.capacity_spec()),
            forall|j: int| 0 <= j < self.size_spec() ==> #[trigger] self.slot_is_recent(j),
            forall|i: int|
                self.history().len() - self.size_spec() <= i < self.history().len()
                    ==> #[trigger] self.stored()[i % self.capacity_spec()] == self.history()[i],
    {
        let n = self.history().len() as int;
        let cap = self.capacity_spec();
        assert forall|j: int| 0 <= j < self.size_spec() implies #[trigger] self.slot_is_recent(
            j,
        ) by {
            lemma_lw_range(n, cap, j);
            assert(self.stored()[j] == self.history()[last_write(n, cap, j)]);
        }
        assert forall|i: int| n - self.size_spec() <= i < n implies #[trigger] self.stored()[i
            % cap] == self.history()[i] by {
            lemma_lw_inverse(n, cap, i);
            assert(self.stored()[i % cap] == self.history()[last_write(n, cap, i % cap)]);
        }
    }
}

/// The pigeonhole fact behind a full draw: `n` distinct values within
/// `[0, n)` cover every value of `[0, n)`.
proof fn lemma_distinct_covers(ps: Seq<int>, n: int, v: int)
    requires
        ps.len() == n,
        forall|i: int| 0 <= i < n ==> 0 <= #[trigger] ps[i] < n,
        forall|i: int, j: int| 0 <= i < j < n ==> ps[i] != ps[j],
        0 <= v < n,
    ensures
        exists|i: int| 0 <= i < n && #[trigger] ps[i] == v,
{
    broadcast use vstd::set::group_set_axioms;

    if forall|i: int| 0 <= i < n ==> #[trigger] ps[i] != v {
        // then the n distinct values would fit into the n - 1 others
        assert forall|i: int, j: int|
            0 <= i < n && 0 <= j < n && i != j implies ps[i] != ps[j] by {
            if i < j {
            } else {
                assert(ps[j] != ps[i]);
            }
        }
        assert(ps.no_duplicates());
        ps.unique_seq_to_set();
        let range = set_int_range(0, n);
        lemma_int_range(0, n);
        let small = range.remove(v);
        assert forall|x: int| ps.to_set().contains(x) implies small.contains(x) by {
            let i = choose|i: int| 0 <= i < ps.len() && ps[i] == x;
            assert(0 <= ps[i] < n && ps[i] != v);
        }
        assert(ps.to_set().subset_of(small));
        assert(range.contains(v));
        assert(small.len() == n - 1);
        lemma_len_subset(ps.to_set(), small);
        assert(false);
    }
}

/// After one more addition into a ring that is not yet full, the last
/// write to each occupied slot `j` is the addition `j` itself.
proof fn lemma_lw_append_small(n: int, cap: int, j: int)
    requires
        0 < cap,
        0 <= j <= n,
        n < cap,
    ensures
        last_write(n + 1, cap, j) == j,
{
    lemma_small_mod((n - j) as nat, cap as nat);
}

/// After one more addition into a full ring, the overwritten slot now
/// holds the newest entry and every other slot keeps its last write.
proof fn lemma_lw_append_full(n: int, cap: int, j: int)
    requires
        0 < cap,
        0 <= j < cap,
        cap <= n,
    ensures
        j == n % cap ==> last_write(n + 1, cap, j) == n,
        j != n % cap ==> last_write(n + 1, cap, j) == last_write(n, cap, j),
{
    lemma_mod_bound(n, cap);
    if j == n % cap {
        lemma_fundamental_div_mod(n, cap);
        lemma_mod_multiples_vanish(n / cap, 0, cap);
        lemma_small_mod(0, cap as nat);
        assert((n - j) % cap == 0);
    } else {
        let d = (n - 1 - j) % cap;
        lemma_mod_bound(n - 1 - j, cap);
        lemma_add_mod_noop(n - 1 - j, 1, cap);
        lemma_mod_self_0(cap);
        if cap > 1 {
            lemma_small_mod(1, cap as nat);
        }
        if d + 1 == cap {
            // then j would be the cursor slot, contradicting the branch
            lemma_small_mod(0, cap as nat);
            assert((n - j) % cap == 0);
            lemma_fundamental_div_mod(n - j, cap);
            let q = (n - j) / cap;
            assert(n - j == cap * q);
            assert(n == q * cap + j) by (nonlinear_arith)
                requires
                    n - j == cap * q,
            ;
            lemma_fundamental_div_mod_converse_mod(n, cap, q, j);
            assert(false);
        } else {
            lemma_small_mod((d + 1) as nat, cap as nat);
            assert((n - j) % cap == d + 1);
        }
    }
}

/// The last write to an occupied slot lies among the most recent
/// `min(n, cap)` additions.
proof fn lemma_lw_range(n: int, cap: int, j: int)
    requires
        0 < cap,
        0 <= j < min(n, cap),
    ensures
        n - min(n, cap) <= last_write(n, cap, j) < n,
{
    lemma_mod_bound(n - 1 - j, cap);
    if n < cap {
        lemma_small_mod((n - 1 - j) as nat, cap as nat);
    }
}

/// Each of the most recent `min(n, cap)` additions is the last write to
/// the slot its position selects.
proof fn lemma_lw_inverse(n: int, cap: int, i: int)
    requires
        0 < cap,
        0 <= i < n,
        n - cap <= i,
    ensures
        0 <= i % cap < min(n, cap),
        last_write(n, cap, i % cap) == i,
{
    lemma_mod_bound(i, cap);
    if n < cap {
        lemma_small_mod(i as nat, cap as nat);
        lemma_small_mod((n - 1 - i) as nat, cap as nat);
    } else {
        lemma_sub_mod_noop_right(n - 1, i, cap);
        lemma_small_mod((n - 1 - i) as nat, cap as nat);
        assert((n - 1 - i % cap) % cap == n - 1 - i);
    }
}

} // verus!
