use vstd::prelude::*;

verus! {

/// The sum of a sequence of weights.
pub open spec fn seq_sum(s: Seq<u64>) -> int
    decreases s.len(),
{
    if s.len() == 0 {
        0
    } else {
        seq_sum(s.drop_last()) + s.last()
    }
}

/// The sum of a sequence whose elements are all at most `bound` is at most
/// `bound` times its length.
pub proof fn lemma_seq_sum_bound(s: Seq<u64>, bound: int)
    requires
        forall|i: int| 0 <= i < s.len() ==> #[trigger] s[i] <= bound,
    ensures
        seq_sum(s) <= bound * s.len(),
    decreases s.len(),
{
    if s.len() > 0 {
        lemma_seq_sum_bound(s.drop_last(), bound);
        assert(seq_sum(s.drop_last()) <= bound * (s.len() - 1)) by (nonlinear_arith)
            requires
                seq_sum(s.drop_last()) <= bound * s.drop_last().len(),
                s.drop_last().len() == s.len() - 1,
        ;
        assert(bound * (s.len() - 1) + bound == bound * s.len()) by (nonlinear_arith);
    }
}

/// Draws one index at random, each index `i` weighted by `weights[i]`.
///
/// Relies on `rand::distributions::WeightedIndex` together with
/// `rand::thread_rng`: `WeightedIndex::new` succeeds for a non-empty list
/// of positive weights whose sum does not overflow, and `sample` returns
/// the index of one of the weights, each index drawn with probability
/// proportional to its weight. The result depends on the thread's random
/// number generator, so nothing more than its range is promised.
#[verifier::external_body]
pub(crate) fn draw_weighted_index(weights: &Vec<u64>) -> (r: usize)
    requires
        weights@.len() > 0,
        forall|i: int| 0 <= i < weights@.len() ==> #[trigger] weights@[i] >= 1,
        seq_sum(weights@) <= u64::MAX,
    ensures
        r < weights@.len(),
{
    let dist = rand::distributions::WeightedIndex::new(weights.iter()).unwrap();
    rand::prelude::Distribution::sample(&dist, &mut rand::thread_rng())
}

} // verus!
