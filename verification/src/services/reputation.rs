//! Reputation: points from votes received and cast.
//!
//!   - upvote on a user's article, question or answer: +10
//!   - downvote on it: -2
//!   - each downvote the user casts: -1
//!   - upvote on a fork of the user's article: +5
//!   - comment votes: no effect
//!
//! Reputation never goes below zero.

use vstd::prelude::*;

verus! {

/// Points for a vote received on a user's content.
pub open spec fn content_vote_points(value: int) -> int {
    if value > 0 {
        10
    } else if value < 0 {
        -2
    } else {
        0
    }
}

/// Points for a vote received on a fork of a user's article.
pub open spec fn fork_vote_points(value: int) -> int {
    if value > 0 {
        5
    } else {
        0
    }
}

/// Sum of points of a list of vote values.
pub open spec fn sum_points(values: Seq<i32>, fork: bool) -> int
    decreases values.len(),
{
    if values.len() == 0 {
        0
    } else {
        sum_points(values.drop_last(), fork) + if fork {
            fork_vote_points(values.last() as int)
        } else {
            content_vote_points(values.last() as int)
        }
    }
}

/// Points for a vote received on a user's content.
pub fn content_vote_value(value: i32) -> (r: i64)
    ensures
        r == content_vote_points(value as int),
{
    if value > 0 {
        10
    } else if value < 0 {
        -2
    } else {
        0
    }
}

/// A user's reputation from the points of content votes received, the
/// number of downvotes cast, and the points of fork votes received;
/// never negative.
pub open spec fn reputation_of(content_points: int, downvotes_cast: int, fork_points: int) -> int {
    let t = content_points - downvotes_cast + fork_points;
    if t < 0 {
        0
    } else {
        t
    }
}

pub fn reputation_total(content_points: i64, downvotes_cast: i64, fork_points: i64) -> (r: i64)
    requires
        i64::MIN <= content_points - downvotes_cast <= i64::MAX,
        i64::MIN <= content_points - downvotes_cast + fork_points <= i64::MAX,
    ensures
        r == reputation_of(content_points as int, downvotes_cast as int, fork_points as int),
{
    let t = content_points - downvotes_cast + fork_points;
    if t < 0 {
        0
    } else {
        t
    }
}

/// Reputation of a user from the values of all votes concerned: votes on
/// their content, downvotes they cast, votes on forks of their articles.
pub fn reputation_from_votes(content_votes: &[i32], downvotes_cast: u32, fork_votes: &[i32]) -> (r:
    i64)
    requires
        content_votes@.len() <= u32::MAX,
        fork_votes@.len() <= u32::MAX,
    ensures
        r == reputation_of(
            sum_points(content_votes@, false),
            downvotes_cast as int,
            sum_points(fork_votes@, true),
        ),
{
    let mut c: i64 = 0;
    let mut i: usize = 0;
    while i < content_votes.len()
        invariant
            i <= content_votes@.len() <= u32::MAX,
            c == sum_points(content_votes@.take(i as int), false),
            -2 * i <= c <= 10 * i,
        decreases content_votes@.len() - i,
    {
        assert(content_votes@.take(i + 1).drop_last() =~= content_votes@.take(i as int));
        c = c + content_vote_value(content_votes[i]);
        i = i + 1;
    }
    assert(content_votes@.take(i as int) =~= content_votes@);
    let mut f: i64 = 0;
    let mut k: usize = 0;
    while k < fork_votes.len()
        invariant
            k <= fork_votes@.len() <= u32::MAX,
            f == sum_points(fork_votes@.take(k as int), true),
            0 <= f <= 5 * k,
        decreases fork_votes@.len() - k,
    {
        assert(fork_votes@.take(k + 1).drop_last() =~= fork_votes@.take(k as int));
        if fork_votes[k] > 0 {
            f = f + 5;
        }
        k = k + 1;
    }
    assert(fork_votes@.take(k as int) =~= fork_votes@);
    reputation_total(c, downvotes_cast as i64, f)
}

/// Reputation is never negative.
pub proof fn lemma_reputation_nonnegative(c: int, d: int, f: int)
    ensures
        reputation_of(c, d, f) >= 0,
{
}

/// One more vote received on a user's content: an upvote raises their
/// reputation, by 10 unless it was held at zero; a downvote never raises
/// it, lowers it while it is positive, and takes exactly 2 from a
/// reputation of at least 2; a zero vote changes nothing.
pub proof fn lemma_content_vote_effect(content: Seq<i32>, downvotes: int, forks: Seq<i32>, v: i32)
    ensures
        ({
            let before = reputation_of(sum_points(content, false), downvotes, sum_points(forks, true));
            let after = reputation_of(sum_points(content.push(v), false), downvotes, sum_points(forks, true));
            &&& v > 0 ==> after >= before
            &&& v > 0 && before > 0 ==> after == before + 10
            &&& v < 0 ==> after <= before
            &&& v < 0 && before > 0 ==> after < before
            &&& v < 0 && before >= 2 ==> after == before - 2
            &&& v == 0 ==> after == before
        }),
{
    assert(content.push(v).drop_last() =~= content);
}

/// One more vote received on a fork of a user's article: an upvote raises
/// their reputation, by 5 unless it was held at zero; any other vote
/// changes nothing.
pub proof fn lemma_fork_vote_effect(content: Seq<i32>, downvotes: int, forks: Seq<i32>, v: i32)
    ensures
        ({
            let before = reputation_of(sum_points(content, false), downvotes, sum_points(forks, true));
            let after = reputation_of(sum_points(content, false), downvotes, sum_points(forks.push(v), true));
            &&& v > 0 ==> after >= before
            &&& v > 0 && before > 0 ==> after == before + 5
            &&& v <= 0 ==> after == before
        }),
{
    assert(forks.push(v).drop_last() =~= forks);
}

/// Casting one more downvote never raises a user's reputation and costs
/// exactly one point while it is positive.
pub proof fn lemma_downvote_cast_cost(content: Seq<i32>, downvotes: int, forks: Seq<i32>)
    ensures
        ({
            let before = reputation_of(sum_points(content, false), downvotes, sum_points(forks, true));
            let after = reputation_of(sum_points(content, false), downvotes + 1, sum_points(forks, true));
            &&& after <= before
            &&& before > 0 ==> after == before - 1
        }),
{
}

} // verus!
