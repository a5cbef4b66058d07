use crate::random::draw_below;
use crate::scale::ScaleSet;
use crate::stats::{lemma_pick_weight_bounds, pick_weights_of, Stat, Stats, WEIGHT_UNIT};
use rand::rngs::StdRng;
use vstd::prelude::*;

verus! {

/// Sum of a weight sequence.
pub open spec fn sum_weights(w: Seq<u64>) -> int
    decreases w.len(),
{
    if w.len() == 0 {
        0
    } else {
        sum_weights(w.drop_last()) + w.last()
    }
}

/// The draw `r` falls in the slot of index `i`: at or past the weights before `i`,
/// and below those through `i`.
pub open spec fn in_slot(w: Seq<u64>, i: int, r: int) -> bool {
    &&& 0 <= i < w.len()
    &&& sum_weights(w.take(i)) <= r
    &&& r < sum_weights(w.take(i + 1))
}

/// Index `i` is what some draw in `[0, sum)` selects from `w`.
pub open spec fn reachable_by_draw(w: Seq<u64>, i: int) -> bool {
    exists|r: int| 0 <= r < sum_weights(w) && #[trigger] in_slot(w, i, r)
}

proof fn lemma_sum_take_step(w: Seq<u64>, i: int)
    requires
        0 <= i < w.len(),
    ensures
        sum_weights(w.take(i + 1)) == sum_weights(w.take(i)) + w[i],
{
    assert(w.take(i + 1).drop_last() =~= w.take(i));
}

proof fn lemma_sum_take_le(w: Seq<u64>, i: int)
    requires
        0 <= i <= w.len(),
    ensures
        sum_weights(w.take(i)) <= sum_weights(w),
    decreases w.len() - i,
{
    if i == w.len() {
        assert(w.take(i) =~= w);
    } else {
        lemma_sum_take_step(w, i);
        lemma_sum_take_le(w, i + 1);
    }
}

proof fn lemma_sum_nonneg(w: Seq<u64>)
    ensures
        sum_weights(w) >= 0,
    decreases w.len(),
{
    if w.len() > 0 {
        lemma_sum_nonneg(w.drop_last());
    }
}

proof fn lemma_sum_bounded(w: Seq<u64>, hi: int)
    requires
        forall|j: int| 0 <= j < w.len() ==> #[trigger] w[j] <= hi,
    ensures
        sum_weights(w) <= w.len() * hi,
    decreases w.len(),
{
    if w.len() > 0 {
        lemma_sum_bounded(w.drop_last(), hi);
        assert(w.len() * hi == (w.len() - 1) * hi + hi) by (nonlinear_arith);
    }
}

proof fn lemma_sum_positive(w: Seq<u64>)
    requires
        w.len() > 0,
        forall|j: int| 0 <= j < w.len() ==> #[trigger] w[j] > 0,
    ensures
        sum_weights(w) > 0,
    decreases w.len(),
{
    if w.len() > 1 {
        lemma_sum_positive(w.drop_last());
    } else {
        assert(sum_weights(w.drop_last()) == 0);
    }
}

/// With positive weights no index is excluded: each one is selected by the
/// draws in a non-empty part of `[0, sum)`.
pub proof fn lemma_every_index_reachable(w: Seq<u64>, i: int)
    requires
        0 <= i < w.len(),
        forall|j: int| 0 <= j < w.len() ==> #[trigger] w[j] > 0,
    ensures
        reachable_by_draw(w, i),
{
    let r = sum_weights(w.take(i));
    lemma_sum_take_step(w, i);
    lemma_sum_take_le(w, i + 1);
    lemma_sum_nonneg(w.take(i));
    assert(in_slot(w, i, r));
}

/// Every note of a drill keeps a chance of being selected, whatever its record.
pub proof fn lemma_every_note_reachable(stats: Seq<Stat>, i: int)
    requires
        0 <= i < stats.len(),
    ensures
        reachable_by_draw(pick_weights_of(stats), i),
{
    let w = pick_weights_of(stats);
    assert forall|j: int| 0 <= j < w.len() implies #[trigger] w[j] > 0 by {
        lemma_pick_weight_bounds(stats[j]);
    }
    lemma_every_index_reachable(w, i);
}

/// The index whose slot holds `draw`: the first `i` with `draw` below the
/// weights summed through `i`.
pub fn pick_index(weights: &[u64], draw: u64) -> (i: usize)
    requires
        draw < sum_weights(weights@),
        sum_weights(weights@) <= u64::MAX,
    ensures
        in_slot(weights@, i as int, draw as int),
{
    let ghost w = weights@;
    let mut acc: u64 = 0;
    let mut i: usize = 0;
    proof {
        assert(w.take(0) =~= Seq::<u64>::empty());
    }
    loop
        invariant
            w == weights@,
            i < w.len(),
            acc == sum_weights(w.take(i as int)),
            acc <= draw,
            draw < sum_weights(w),
            sum_weights(w) <= u64::MAX,
        decreases w.len() - i,
    {
        proof {
            lemma_sum_take_step(w, i as int);
            lemma_sum_take_le(w, i as int + 1);
        }
        acc = acc + weights[i];
        if draw < acc {
            return i;
        }
        i = i + 1;
        proof {
            if i == w.len() {
                assert(w.take(i as int) =~= w);
            }
        }
    }
}

/// Roulette-wheel choice: draws uniformly below the sum of `weights` and returns
/// the index whose slot holds the draw, with the item there.
pub fn choose_biased<'a, T>(rng: &mut StdRng, items: &'a [T], weights: &[u64]) -> (r: (
    usize,
    &'a T,
))
    requires
        weights@.len() > 0,
        weights@.len() <= items@.len(),
        forall|j: int| 0 <= j < weights@.len() ==> #[trigger] weights@[j] > 0,
        sum_weights(weights@) <= u64::MAX,
    ensures
        r.0 < weights@.len(),
        *r.1 == items@[r.0 as int],
        reachable_by_draw(weights@, r.0 as int),
{
    let mut range: u64 = 0;
    let mut i: usize = 0;
    while i < weights.len()
        invariant
            i <= weights@.len(),
            range == sum_weights(weights@.take(i as int)),
            sum_weights(weights@) <= u64::MAX,
        decreases weights@.len() - i,
    {
        proof {
            lemma_sum_take_step(weights@, i as int);
            lemma_sum_take_le(weights@, i as int + 1);
        }
        range = range + weights[i];
        i = i + 1;
    }
    proof {
        assert(weights@.take(i as int) =~= weights@);
        lemma_sum_positive(weights@);
    }
    let draw = draw_below(rng, range);
    let k = pick_index(weights, draw);
    proof {
        assert(in_slot(weights@, k as int, draw as int));
    }
    (k, &items[k])
}

/// Picks the next note to quiz: weighted by each note's statistics, so weak
/// notes come up more often while every note keeps a chance.
pub fn select(rng: &mut StdRng, scale: &ScaleSet, stats: &Stats) -> (r: (usize, i32))
    requires
        scale.wf(),
        stats@.len() == scale@.len(),
    ensures
        r.0 < scale@.len(),
        r.1 == scale@[r.0 as int],
        reachable_by_draw(pick_weights_of(stats@), r.0 as int),
{
    let weights = stats.weights();
    proof {
        assert forall|j: int| 0 <= j < weights@.len() implies #[trigger] weights@[j] > 0
            && weights@[j] <= 5 * WEIGHT_UNIT / 4 by {
            lemma_pick_weight_bounds(stats@[j]);
        }
        lemma_sum_bounded(weights@, 5 * WEIGHT_UNIT / 4);
        assert(weights@.len() * (5 * WEIGHT_UNIT / 4) <= 13 * (5 * WEIGHT_UNIT / 4)) by (nonlinear_arith)
            requires
                weights@.len() <= 13,
        ;
    }
    let (i, note) = choose_biased(rng, scale.notes(), weights.as_slice());
    (i, *note)
}

} // verus!
