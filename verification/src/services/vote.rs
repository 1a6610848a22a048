//! Votes: the canonical target of a vote, what casting a value does, and
//! the completion of a batch of vote summaries.

use vstd::prelude::*;

use crate::text::{chars_of, starts_with, str_eq};

verus! {

#[derive(Debug, Clone)]
pub struct VoteSummary {
    pub target_uri: String,
    pub score: i64,
    pub upvotes: i64,
    pub downvotes: i64,
}

/// A target already in the synthetic article form is its own canonical
/// key; others are looked up.
pub fn is_canonical_vote_target(target_uri: &str) -> (r: bool)
    ensures
        r == crate::text::has_prefix(target_uri@, "nightboat://article/"@),
{
    let v = chars_of(target_uri);
    let p = chars_of("nightboat://article/");
    starts_with(v.as_slice(), p.as_slice())
}

/// What casting a vote does.
#[derive(Debug, Clone, Copy, PartialEq, Eq, Structural)]
pub enum VoteAction {
    /// A zero vote withdraws the voter's vote.
    Withdraw,
    /// Any other value, clamped to `-1..=1`, is stored.
    Store(i32),
}

pub fn vote_action(value: i32) -> (r: VoteAction)
    ensures
        value == 0 ==> r == VoteAction::Withdraw,
        value > 0 ==> r == VoteAction::Store(1),
        value < 0 ==> r == VoteAction::Store(-1i32),
{
    if value == 0 {
        VoteAction::Withdraw
    } else if value > 0 {
        VoteAction::Store(1)
    } else {
        VoteAction::Store(-1)
    }
}

pub open spec fn summary_view(v: VoteSummary) -> (Seq<char>, i64, i64, i64) {
    (v.target_uri@, v.score, v.upvotes, v.downvotes)
}

/// Whether some summary is for `uri`.
pub open spec fn has_summary(rows: Seq<VoteSummary>, uri: Seq<char>) -> bool {
    exists|i: int| 0 <= i < rows.len() && (#[trigger] rows[i]).target_uri@ == uri
}

/// Zero summaries for the asked targets that have no votes, in the order
/// asked.
pub open spec fn zero_summaries(rows: Seq<VoteSummary>, targets: Seq<String>) -> Seq<(Seq<char>, i64, i64, i64)>
    decreases targets.len(),
{
    if targets.len() == 0 {
        Seq::empty()
    } else {
        zero_summaries(rows, targets.drop_last()) + if has_summary(rows, targets.last()@) {
            Seq::empty()
        } else {
            seq![(targets.last()@, 0i64, 0i64, 0i64)]
        }
    }
}

/// The summaries that have votes, then a zero summary for every asked
/// target without any.
pub fn complete_vote_summaries(rows: Vec<VoteSummary>, targets: &Vec<String>) -> (r: Vec<VoteSummary>)
    ensures
        r@.map_values(|v: VoteSummary| summary_view(v)) == rows@.map_values(
            |v: VoteSummary| summary_view(v),
        ) + zero_summaries(rows@, targets@),
{
    let ghost found = rows@;
    let n = rows.len();
    let mut all = rows;
    let ghost base = all@.map_values(|v: VoteSummary| summary_view(v));
    let mut i: usize = 0;
    assert(targets@.take(0) =~= Seq::<String>::empty());
    assert(all@.map_values(|v: VoteSummary| summary_view(v)) =~= base + zero_summaries(found, targets@.take(0)));
    while i < targets.len()
        invariant
            i <= targets@.len(),
            n == found.len(),
            all@.len() >= found.len(),
            forall|l: int| 0 <= l < found.len() ==> all@[l] == found[l],
            base == found.map_values(|v: VoteSummary| summary_view(v)),
            all@.map_values(|v: VoteSummary| summary_view(v)) == base + zero_summaries(found, targets@.take(i as int)),
        decreases targets@.len() - i,
    {
        let ghost t = targets@.take(i + 1);
        assert(t.drop_last() =~= targets@.take(i as int));
        assert(t.last() == targets@[i as int]);
        let hit = has_summary_exec_prefix(&all, n, targets[i].as_str(), Ghost(found));
        if !hit {
            let ghost before = all@.map_values(|v: VoteSummary| summary_view(v));
            all.push(VoteSummary { target_uri: targets[i].clone(), score: 0, upvotes: 0, downvotes: 0 });
            assert(all@.map_values(|v: VoteSummary| summary_view(v)) =~= before.push((targets@[i as int]@, 0i64, 0i64, 0i64)));
        }
        i = i + 1;
        assert(all@.map_values(|v: VoteSummary| summary_view(v)) =~= base + zero_summaries(found, targets@.take(i as int)));
    }
    assert(targets@.take(i as int) =~= targets@);
    all
}

fn has_summary_exec_prefix(rows: &Vec<VoteSummary>, n: usize, uri: &str, Ghost(found): Ghost<Seq<VoteSummary>>) -> (r: bool)
    requires
        n == found.len(),
        n <= rows@.len(),
        forall|l: int| 0 <= l < found.len() ==> rows@[l] == found[l],
    ensures
        r == has_summary(found, uri@),
{
    let mut i: usize = 0;
    while i < n
        invariant
            i <= n,
            n == found.len(),
            n <= rows@.len(),
            forall|l: int| 0 <= l < found.len() ==> rows@[l] == found[l],
            forall|l: int| 0 <= l < i ==> (#[trigger] found[l]).target_uri@ != uri@,
        decreases n - i,
    {
        if str_eq(rows[i].target_uri.as_str(), uri) {
            assert(found[i as int].target_uri@ == uri@);
            return true;
        }
        i = i + 1;
    }
    false
}

/// A zero summary is added exactly for each asked target that has no
/// summary, and for no other.
pub proof fn lemma_zero_summaries_members(rows: Seq<VoteSummary>, targets: Seq<String>, x: (Seq<char>, i64, i64, i64))
    ensures
        zero_summaries(rows, targets).contains(x) <==> exists|i: int|
            0 <= i < targets.len() && !has_summary(rows, (#[trigger] targets[i])@) && x == (targets[i]@, 0i64, 0i64, 0i64),
    decreases targets.len(),
{
    if targets.len() > 0 {
        let n = targets.len() - 1;
        let pre = targets.drop_last();
        lemma_zero_summaries_members(rows, pre, x);
        let tail = if has_summary(rows, targets.last()@) {
            Seq::empty()
        } else {
            seq![(targets.last()@, 0i64, 0i64, 0i64)]
        };
        let zp = zero_summaries(rows, pre);
        assert(zero_summaries(rows, targets) == zp + tail);
        if zero_summaries(rows, targets).contains(x) {
            let k = choose|k: int| 0 <= k < (zp + tail).len() && (zp + tail)[k] == x;
            if k < zp.len() {
                assert(zp[k] == x);
                assert(zp.contains(x));
                let i = choose|i: int| 0 <= i < pre.len() && !has_summary(rows, (#[trigger] pre[i])@) && x == (pre[i]@, 0i64, 0i64, 0i64);
                assert(targets[i] == pre[i]);
            } else {
                assert(targets[n] == targets.last());
            }
        }
        if exists|i: int| 0 <= i < targets.len() && !has_summary(rows, (#[trigger] targets[i])@) && x == (targets[i]@, 0i64, 0i64, 0i64) {
            let i = choose|i: int| 0 <= i < targets.len() && !has_summary(rows, (#[trigger] targets[i])@) && x == (targets[i]@, 0i64, 0i64, 0i64);
            if i < n {
                assert(pre[i] == targets[i]);
                let k = choose|k: int| 0 <= k < zp.len() && zp[k] == x;
                assert((zp + tail)[k] == x);
            } else {
                assert((zp + tail)[zp.len() as int] == x);
            }
        }
    }
}

} // verus!
