use rand::Rng;
use vstd::prelude::*;

verus! {

/// `r` consists of `amount` entries of `pool`, taken at distinct positions.
pub open spec fn distinct_choice(r: Seq<usize>, pool: Seq<usize>, amount: int) -> bool {
    &&& r.len() == amount
    &&& exists|ps: Seq<int>|
        {
            &&& ps.len() == amount
            &&& (forall|i: int| 0 <= i < amount ==> 0 <= #[trigger] ps[i] < pool.len() && r[i] == pool[ps[i]])
            &&& (forall|i: int, j: int| 0 <= i < j < amount ==> ps[i] != ps[j])
        }
}

/// Relies on rand's `SliceRandom::choose_multiple`: with `amount` at most the
/// slice's length it yields exactly `amount` elements, taken at distinct
/// positions of the slice (sampling without replacement), in random order.
#[verifier::external_body]
pub(crate) fn choose_distinct(pool: &Vec<usize>, amount: usize) -> (r: Vec<usize>)
    requires
        amount <= pool@.len(),
    ensures
        distinct_choice(r@, pool@, amount as int),
{
    let mut rng = rand::thread_rng();
    rand::seq::SliceRandom::choose_multiple(pool.as_slice(), &mut rng, amount)
        .cloned()
        .collect()
}

/// Relies on rand's `Rng::gen_ratio`: a Bernoulli draw that is true with
/// probability `num / den`. Its source panics unless `0 < den` and
/// `num <= den`; with `num == den` it always returns true, and with
/// `num == 0` always false.
#[verifier::external_body]
pub(crate) fn random_ratio(num: u32, den: u32) -> (r: bool)
    requires
        0 < den,
        num <= den,
    ensures
        num == 0 ==> !r,
        num == den ==> r,
{
    rand::thread_rng().gen_ratio(num, den)
}

/// Relies on rand's `Rng::gen_range`: a uniform draw from `0..n`. Its source
/// panics on an empty range, so `n` must be positive; the result is below
/// `n`.
#[verifier::external_body]
pub(crate) fn random_below(n: u32) -> (r: u32)
    requires
        0 < n,
    ensures
        r < n,
{
    rand::thread_rng().gen_range(0..n)
}

} // verus!
