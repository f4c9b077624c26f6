//! Exact arithmetic on skill ratings.
//!
//! A session's average rating is the rational `skill_sum / player_count`.
//! Rather than rounding, distances between a requester's rating and two
//! such averages are compared by cross-multiplication, which is exact.

use vstd::prelude::*;
use vstd::math::abs;

use crate::MAX_PLAYERS;
use crate::models::SessionIndex;

verus! {

/// Sum of a sequence of ratings, as a mathematical integer.
pub open spec fn sum_of(s: Seq<u64>) -> int
    decreases s.len(),
{
    if s.len() == 0 {
        0
    } else {
        sum_of(s.drop_last()) + s.last()
    }
}

pub proof fn lemma_sum_of_bound(s: Seq<u64>)
    ensures
        0 <= sum_of(s) <= s.len() * (u64::MAX as int),
    decreases s.len(),
{
    if s.len() > 0 {
        lemma_sum_of_bound(s.drop_last());
    }
}

/// Adds up the given ratings. The occupancy cap keeps the count small, so
/// the sum always fits the accumulator.
pub fn sum_ratings(ratings: &Vec<u64>) -> (total: u128)
    requires
        ratings@.len() <= MAX_PLAYERS,
    ensures
        total as int == sum_of(ratings@),
{
    let mut total: u128 = 0;
    let mut i: usize = 0;
    while i < ratings.len()
        invariant
            i <= ratings@.len() <= MAX_PLAYERS,
            total as int == sum_of(ratings@.take(i as int)),
        decreases ratings@.len() - i,
    {
        proof {
            lemma_sum_of_bound(ratings@.take(i as int));
            assert(ratings@.take(i as int + 1).drop_last() =~= ratings@.take(i as int));
            assert(ratings@.take(i as int + 1).last() == ratings@[i as int]);
        }
        total = total + ratings[i] as u128;
        i = i + 1;
    }
    proof {
        assert(ratings@.take(ratings@.len() as int) =~= ratings@);
    }
    total
}

/// Scaled distance between `rating` and the average of `row`: the absolute
/// difference multiplied by `row.player_count` to clear the denominator.
pub open spec fn dist_num(rating: int, row: SessionIndex) -> int {
    abs(rating * (row.player_count as int) - (row.skill_sum as int)) as int
}

/// `a`'s average is at least as close to `rating` as `b`'s, compared by
/// cross-multiplication of the scaled distances.
pub open spec fn closer_le(rating: int, a: SessionIndex, b: SessionIndex) -> bool {
    dist_num(rating, a) * (b.player_count as int) <= dist_num(rating, b) * (a.player_count as int)
}

/// `a`'s average is strictly closer to `rating` than `b`'s.
pub open spec fn closer_lt(rating: int, a: SessionIndex, b: SessionIndex) -> bool {
    dist_num(rating, a) * (b.player_count as int) < dist_num(rating, b) * (a.player_count as int)
}

/// The closeness order chains: strictly closer than `b`, which is at least
/// as close as `c`, is strictly closer than `c`.
pub proof fn lemma_closer_lt_le_trans(rating: int, a: SessionIndex, b: SessionIndex, c: SessionIndex)
    requires
        a.player_count > 0,
        b.player_count > 0,
        c.player_count > 0,
        closer_lt(rating, a, b),
        closer_le(rating, b, c),
    ensures
        closer_lt(rating, a, c),
{
    let da = dist_num(rating, a);
    let db = dist_num(rating, b);
    let dc = dist_num(rating, c);
    let ca = a.player_count as int;
    let cb = b.player_count as int;
    let cc = c.player_count as int;
    assert(da * cc < dc * ca) by (nonlinear_arith)
        requires
            da >= 0,
            db >= 0,
            dc >= 0,
            ca > 0,
            cb > 0,
            cc > 0,
            da * cb < db * ca,
            db * cc <= dc * cb,
    ;
}

/// Decides `closer_lt` for two well-formed rows, exactly.
pub fn strictly_closer(rating: u64, a: &SessionIndex, b: &SessionIndex) -> (r: bool)
    requires
        a.wf(),
        b.wf(),
    ensures
        r == closer_lt(rating as int, *a, *b),
{
    proof {
        lemma_scaled_rating_bounds(rating as int, *a);
        lemma_scaled_rating_bounds(rating as int, *b);
    }
    let pa: u128 = (rating as u128) * (a.player_count as u128);
    let da: u128 = if pa >= a.skill_sum { pa - a.skill_sum } else { a.skill_sum - pa };
    let pb: u128 = (rating as u128) * (b.player_count as u128);
    let db: u128 = if pb >= b.skill_sum { pb - b.skill_sum } else { b.skill_sum - pb };
    proof {
        lemma_dist_product_bounds(da as int, b.player_count as int);
        lemma_dist_product_bounds(db as int, a.player_count as int);
    }
    da * (b.player_count as u128) < db * (a.player_count as u128)
}

/// Bounds the cleared-denominator products of a well-formed row, so that the
/// exec comparison can be carried out without overflow.
proof fn lemma_scaled_rating_bounds(rating: int, row: SessionIndex)
    requires
        0 <= rating <= u64::MAX,
        row.wf(),
    ensures
        0 <= rating * (row.player_count as int) <= MAX_PLAYERS * (u64::MAX as int),
        0 <= row.skill_sum <= MAX_PLAYERS * (u64::MAX as int),
        dist_num(rating, row) <= MAX_PLAYERS * (u64::MAX as int),
{
    let c = row.player_count as int;
    assert(rating * c <= MAX_PLAYERS * (u64::MAX as int) && rating * c >= 0) by (nonlinear_arith)
        requires
            0 <= rating <= u64::MAX,
            0 <= c <= MAX_PLAYERS,
    ;
    assert((row.skill_sum as int) <= MAX_PLAYERS * (u64::MAX as int)) by (nonlinear_arith)
        requires
            (row.skill_sum as int) <= c * (u64::MAX as int),
            0 <= c <= MAX_PLAYERS,
    ;
}

proof fn lemma_dist_product_bounds(d: int, c: int)
    requires
        0 <= d <= MAX_PLAYERS * (u64::MAX as int),
        0 <= c <= MAX_PLAYERS,
    ensures
        0 <= d * c <= MAX_PLAYERS * (MAX_PLAYERS * (u64::MAX as int)),
{
    assert(0 <= d * c <= MAX_PLAYERS * (MAX_PLAYERS * (u64::MAX as int))) by (nonlinear_arith)
        requires
            0 <= d <= MAX_PLAYERS * (u64::MAX as int),
            0 <= c <= MAX_PLAYERS,
    ;
}

} // verus!
