//! Bounded, bias-aware random winner selection.
//!
//! A draw is accepted when it falls in the largest sub-range of the 32-bit
//! domain evenly divisible by the ticket count, which removes modulo bias;
//! rejected draws are retried with the next seed up to a configured budget,
//! after which the last draw is used anyway (best-effort fairness).

use vstd::prelude::*;

use crate::random::RandomSource;
use crate::random::generate_random_number;
use crate::random::spec_draw;

verus! {

/// A draw is accepted when it lies below the largest multiple of `total`
/// that fits in the 32-bit domain.
pub open spec fn accepts(draw: u32, total: u32) -> bool
    recommends
        total > 0,
{
    draw < u32::MAX - u32::MAX % total
}

/// The seed of the last draw the retry budget admits: seeds run from zero,
/// and at least one draw is always made.
pub open spec fn last_seed(budget: u32) -> int {
    if budget == 0 {
        0
    } else {
        budget - 1
    }
}

/// The first seed at or after `k` whose draw is accepted, or `last` when no
/// earlier one is.
pub open spec fn used_seed_from<R: RandomSource>(rng: &R, total: u32, last: int, k: int) -> int
    decreases last - k,
{
    if k >= last {
        last
    } else if accepts(spec_draw(rng, k as u32), total) {
        k
    } else {
        used_seed_from(rng, total, last, k + 1)
    }
}

/// The seed whose draw decides the winning ticket: the first accepted draw,
/// or the last drawn seed when the whole budget is rejected.
pub open spec fn used_seed<R: RandomSource>(rng: &R, total: u32, budget: u32) -> int {
    used_seed_from(rng, total, last_seed(budget), 0)
}

/// The ticket `choose_ticket` selects, as a function of the randomness
/// source: the used draw, reduced modulo the ticket count.
pub open spec fn spec_choose_ticket<R: RandomSource>(rng: &R, total: u32, budget: u32) -> Option<
    u32,
> {
    if total == 0 {
        None
    } else {
        Some((spec_draw(rng, used_seed(rng, total, budget) as u32) % total) as u32)
    }
}

/// Randomly choose a winning ticket from among `total` tickets, retrying
/// rejected draws at most `max_generate_random` times. Returns `None` exactly
/// when there are no tickets; otherwise the ticket is in `[0, total)`.
pub fn choose_ticket<R: RandomSource>(rng: &R, total: u32, max_generate_random: u32) -> (r: Option<
    u32,
>)
    ensures
        r == spec_choose_ticket(rng, total, max_generate_random),
        r is Some <==> total > 0,
        r is Some ==> r.unwrap() < total,
{
    if total == 0 {
        return None;
    }
    let threshold = u32::MAX - u32::MAX % total;
    let ghost last = last_seed(max_generate_random);
    let mut random_number = generate_random_number(rng, 0);
    let mut i: u32 = 1;
    while i < max_generate_random && random_number >= threshold
        invariant
            total > 0,
            threshold == u32::MAX - u32::MAX % total,
            1 <= i,
            i - 1 <= last,
            last == last_seed(max_generate_random),
            random_number == spec_draw(rng, (i - 1) as u32),
            used_seed_from(rng, total, last, 0) == used_seed_from(rng, total, last, i - 1),
        decreases max_generate_random - i,
    {
        random_number = generate_random_number(rng, i);
        i = i + 1;
    }
    proof {
        if random_number < threshold {
            assert(used_seed_from(rng, total, last, i - 1) == i - 1);
        } else {
            assert(i - 1 == last);
            assert(used_seed_from(rng, total, last, last) == last);
        }
    }
    Some(random_number % total)
}

/// Rejection sampling never accepts a biased draw: the used draw either lies
/// in the unbiased sub-range, or the whole retry budget was rejected and the
/// last draw is used best-effort. Every seed before the used one was
/// rejected.
pub proof fn lemma_rejection_sampling_unbiased<R: RandomSource>(rng: &R, total: u32, budget: u32)
    requires
        total > 0,
    ensures
        accepts(spec_draw(rng, used_seed(rng, total, budget) as u32), total) || used_seed(
            rng,
            total,
            budget,
        ) == last_seed(budget),
        forall|k: int|
            0 <= k < used_seed(rng, total, budget) ==> !accepts(
                #[trigger] spec_draw(rng, k as u32),
                total,
            ),
        0 <= used_seed(rng, total, budget) <= last_seed(budget),
{
    lemma_used_seed_from(rng, total, last_seed(budget), 0);
}

proof fn lemma_used_seed_from<R: RandomSource>(rng: &R, total: u32, last: int, k: int)
    requires
        0 <= k <= last,
    ensures
        accepts(spec_draw(rng, used_seed_from(rng, total, last, k) as u32), total)
            || used_seed_from(rng, total, last, k) == last,
        forall|j: int|
            k <= j < used_seed_from(rng, total, last, k) ==> !accepts(
                #[trigger] spec_draw(rng, j as u32),
                total,
            ),
        k <= used_seed_from(rng, total, last, k) <= last,
    decreases last - k,
{
    if k < last && !accepts(spec_draw(rng, k as u32), total) {
        lemma_used_seed_from(rng, total, last, k + 1);
    }
}

/// Selection is reproducible: two sources that yield the same draws select
/// the same ticket.
pub proof fn lemma_selection_reproducible<R1: RandomSource, R2: RandomSource>(
    rng1: &R1,
    rng2: &R2,
    total: u32,
    budget: u32,
)
    requires
        forall|seed: u32| spec_draw(rng1, seed) == spec_draw(rng2, seed),
    ensures
        spec_choose_ticket(rng1, total, budget) == spec_choose_ticket(rng2, total, budget),
{
    lemma_used_seed_same(rng1, rng2, total, last_seed(budget), 0);
}

proof fn lemma_used_seed_same<R1: RandomSource, R2: RandomSource>(
    rng1: &R1,
    rng2: &R2,
    total: u32,
    last: int,
    k: int,
)
    requires
        forall|seed: u32| spec_draw(rng1, seed) == spec_draw(rng2, seed),
        0 <= k <= last,
    ensures
        used_seed_from(rng1, total, last, k) == used_seed_from(rng2, total, last, k),
    decreases last - k,
{
    if k < last && !accepts(spec_draw(rng1, k as u32), total) {
        lemma_used_seed_same(rng1, rng2, total, last, k + 1);
    }
}

} // verus!
