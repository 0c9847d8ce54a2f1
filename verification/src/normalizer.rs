//! The model of the vote normalizer: what the raw ledger of votes collapses
//! to, and the facts about it that the rest of the library builds on.
//!
//! Pledges are counted in minor units. A denomination that starts with `u`
//! already is one; any other is scaled by a million and gains that prefix.
//! The normalized ledger then holds one pledge per voter and proposal: the
//! sum of all that the voter pledged to it.

use crate::state::{CoinView, VoteView};
use vstd::prelude::*;

verus! {

/// The number of minor units in one unit.
pub const MICRO: u128 = 1_000_000;

/// Whether a denomination names minor units.
pub open spec fn is_micro(denom: Seq<char>) -> bool {
    denom.len() > 0 && denom[0] == 'u'
}

/// The minor-unit denomination that belongs to `denom`.
pub open spec fn micro_denom(denom: Seq<char>) -> Seq<char> {
    if is_micro(denom) {
        denom
    } else {
        seq!['u'] + denom
    }
}

/// The quantity of `coin` in minor units.
pub open spec fn micro_amount(coin: CoinView) -> nat {
    if is_micro(coin.denom) {
        coin.amount
    } else {
        coin.amount * MICRO as nat
    }
}

/// `coin` in minor units.
pub open spec fn micro(coin: CoinView) -> CoinView {
    CoinView { denom: micro_denom(coin.denom), amount: micro_amount(coin) }
}

/// The sum of `amounts`.
pub open spec fn sum(amounts: Seq<nat>) -> nat
    decreases amounts.len(),
{
    if amounts.len() == 0 {
        0
    } else {
        sum(amounts.drop_last()) + amounts.last()
    }
}

/// What each vote pledges, in minor units.
pub open spec fn micro_amounts(votes: Seq<VoteView>) -> Seq<nat> {
    Seq::new(votes.len(), |i: int| micro_amount(votes[i].amount[0]))
}

/// Every vote came with funds.
pub open spec fn funded(votes: Seq<VoteView>) -> bool {
    forall|i: int| 0 <= i < votes.len() ==> (#[trigger] votes[i]).amount.len() > 0
}

/// Whether `vote` is `voter`'s pledge to `proposal`.
pub open spec fn pledges_to(vote: VoteView, voter: Seq<u8>, proposal: nat) -> bool {
    vote.voter == voter && vote.proposal == proposal
}

/// All that `voter` pledged to `proposal`, in minor units.
pub open spec fn pledged(votes: Seq<VoteView>, voter: Seq<u8>, proposal: nat) -> nat
    decreases votes.len(),
{
    if votes.len() == 0 {
        0
    } else if pledges_to(votes.last(), voter, proposal) {
        pledged(votes.drop_last(), voter, proposal) + micro_amount(votes.last().amount[0])
    } else {
        pledged(votes.drop_last(), voter, proposal)
    }
}

/// The minor-unit denomination of `voter`'s latest pledge to `proposal`.
pub open spec fn pledged_denom(votes: Seq<VoteView>, voter: Seq<u8>, proposal: nat) -> Seq<char>
    decreases votes.len(),
{
    if votes.len() == 0 {
        Seq::empty()
    } else if pledges_to(votes.last(), voter, proposal) {
        micro_denom(votes.last().amount[0].denom)
    } else {
        pledged_denom(votes.drop_last(), voter, proposal)
    }
}

/// The voter and proposal of each pledge, each pair once, in the order in
/// which the pairs first appear.
pub open spec fn pledgers(votes: Seq<VoteView>) -> Seq<(Seq<u8>, nat)>
    decreases votes.len(),
{
    if votes.len() == 0 {
        Seq::empty()
    } else {
        let earlier = pledgers(votes.drop_last());
        let pair = (votes.last().voter, votes.last().proposal);
        if earlier.contains(pair) {
            earlier
        } else {
            earlier.push(pair)
        }
    }
}

/// The one pledge that stands for all of `voter`'s pledges to `proposal`.
pub open spec fn collapsed(votes: Seq<VoteView>, voter: Seq<u8>, proposal: nat) -> VoteView {
    VoteView {
        voter,
        proposal,
        amount: seq![
            CoinView {
                denom: pledged_denom(votes, voter, proposal),
                amount: pledged(votes, voter, proposal),
            },
        ],
    }
}

/// The normalized ledger: one pledge per voter and proposal, in the order in
/// which the pairs first appear, each carrying the pair's total.
pub open spec fn normalized_votes(votes: Seq<VoteView>) -> Seq<VoteView> {
    Seq::new(
        pledgers(votes).len(),
        |i: int| collapsed(votes, pledgers(votes)[i].0, pledgers(votes)[i].1),
    )
}

/// Every total of the normalized ledger is a `u128`.
pub open spec fn votes_fit(votes: Seq<VoteView>) -> bool {
    forall|voter: Seq<u8>, proposal: nat| #[trigger]
        pledged(votes, voter, proposal) <= u128::MAX
}

/// Every pledge's pair is among the pledgers, and every pledger pledged.
pub proof fn lemma_pledgers_cover(votes: Seq<VoteView>)
    ensures
        forall|i: int|
            0 <= i < votes.len() ==> pledgers(votes).contains(
                ((#[trigger] votes[i]).voter, votes[i].proposal),
            ),
        forall|j: int|
            0 <= j < pledgers(votes).len() ==> exists|i: int|
                0 <= i < votes.len() && pledges_to(
                    votes[i],
                    (#[trigger] pledgers(votes)[j]).0,
                    pledgers(votes)[j].1,
                ),
    decreases votes.len(),
{
    if votes.len() > 0 {
        let earlier = votes.drop_last();
        lemma_pledgers_cover(earlier);
        let pair = (votes.last().voter, votes.last().proposal);
        assert forall|i: int| 0 <= i < votes.len() implies pledgers(votes).contains(
            ((#[trigger] votes[i]).voter, votes[i].proposal),
        ) by {
            if i < votes.len() - 1 {
                let at = choose|at: int|
                    0 <= at < pledgers(earlier).len() && pledgers(earlier)[at] == (
                        earlier[i].voter,
                        earlier[i].proposal,
                    );
                assert(pledgers(votes)[at] == (votes[i].voter, votes[i].proposal));
            } else if !pledgers(earlier).contains(pair) {
                assert(pledgers(votes)[pledgers(earlier).len() as int] == pair);
            }
        }
        assert forall|j: int| 0 <= j < pledgers(votes).len() implies exists|i: int|
            0 <= i < votes.len() && pledges_to(
                votes[i],
                (#[trigger] pledgers(votes)[j]).0,
                pledgers(votes)[j].1,
            ) by {
            if j < pledgers(earlier).len() {
                let i = choose|i: int|
                    0 <= i < earlier.len() && pledges_to(
                        earlier[i],
                        pledgers(earlier)[j].0,
                        pledgers(earlier)[j].1,
                    );
                assert(pledges_to(votes[i], pledgers(votes)[j].0, pledgers(votes)[j].1));
            } else {
                assert(pledges_to(votes.last(), pledgers(votes)[j].0, pledgers(votes)[j].1));
            }
        }
    }
}

/// No pair is listed twice among the pledgers.
pub proof fn lemma_pledgers_distinct(votes: Seq<VoteView>)
    ensures
        forall|i: int, j: int|
            0 <= i < j < pledgers(votes).len() ==> pledgers(votes)[i] != pledgers(votes)[j],
    decreases votes.len(),
{
    if votes.len() > 0 {
        let earlier = pledgers(votes.drop_last());
        lemma_pledgers_distinct(votes.drop_last());
        assert forall|i: int, j: int| 0 <= i < j < pledgers(votes).len() implies pledgers(
            votes,
        )[i] != pledgers(votes)[j] by {
            if j >= earlier.len() {
                assert(earlier.contains(earlier[i]));
            }
        }
    }
}

/// Someone who is not among the pledgers pledged nothing.
pub proof fn lemma_absent_pledged_nothing(votes: Seq<VoteView>, voter: Seq<u8>, proposal: nat)
    requires
        !pledgers(votes).contains((voter, proposal)),
    ensures
        pledged(votes, voter, proposal) == 0,
    decreases votes.len(),
{
    if votes.len() > 0 {
        let earlier = votes.drop_last();
        lemma_pledgers_cover(votes);
        if pledgers(earlier).contains((voter, proposal)) {
            let at = choose|at: int|
                0 <= at < pledgers(earlier).len() && pledgers(earlier)[at] == (voter, proposal);
            assert(pledgers(votes)[at] == (voter, proposal));
        }
        lemma_absent_pledged_nothing(earlier, voter, proposal);
    }
}

/// A total only grows as the ledger does.
pub proof fn lemma_pledged_grows(votes: Seq<VoteView>, n: int, voter: Seq<u8>, proposal: nat)
    requires
        0 <= n <= votes.len(),
    ensures
        pledged(votes.take(n), voter, proposal) <= pledged(votes, voter, proposal),
    decreases votes.len() - n,
{
    if n < votes.len() {
        lemma_pledged_grows(votes, n + 1, voter, proposal);
        assert(votes.take(n + 1).drop_last() =~= votes.take(n));
    } else {
        assert(votes.take(n) =~= votes);
    }
}

/// What one more pledge does to the totals.
pub proof fn lemma_pledged_push(votes: Seq<VoteView>, vote: VoteView)
    ensures
        pledgers(votes.push(vote)) == if pledgers(votes).contains((vote.voter, vote.proposal)) {
            pledgers(votes)
        } else {
            pledgers(votes).push((vote.voter, vote.proposal))
        },
        forall|voter: Seq<u8>, proposal: nat|
            #![trigger pledged(votes.push(vote), voter, proposal)]
            #![trigger pledged_denom(votes.push(vote), voter, proposal)]
            if pledges_to(vote, voter, proposal) {
                &&& pledged(votes.push(vote), voter, proposal) == pledged(votes, voter, proposal)
                    + micro_amount(vote.amount[0])
                &&& pledged_denom(votes.push(vote), voter, proposal) == micro_denom(
                    vote.amount[0].denom,
                )
            } else {
                &&& pledged(votes.push(vote), voter, proposal) == pledged(votes, voter, proposal)
                &&& pledged_denom(votes.push(vote), voter, proposal) == pledged_denom(
                    votes,
                    voter,
                    proposal,
                )
            },
{
    assert(votes.push(vote).drop_last() =~= votes);
}

/// A pledge by a pair that pledged before is added to that pair's entry, and
/// the entry takes the new pledge's denomination.
pub proof fn lemma_normalized_again(votes: Seq<VoteView>, vote: VoteView, at: int)
    requires
        0 <= at < pledgers(votes).len(),
        pledgers(votes)[at] == (vote.voter, vote.proposal),
    ensures
        normalized_votes(votes.push(vote)) == normalized_votes(votes).update(
            at,
            VoteView {
                voter: vote.voter,
                proposal: vote.proposal,
                amount: seq![
                    CoinView {
                        denom: micro_denom(vote.amount[0].denom),
                        amount: normalized_votes(votes)[at].amount[0].amount + micro_amount(
                            vote.amount[0],
                        ),
                    },
                ],
            },
        ),
{
    lemma_pledged_push(votes, vote);
    lemma_pledgers_distinct(votes);
}

/// A pledge by a pair that has not pledged before becomes a new entry at the
/// end.
pub proof fn lemma_normalized_first(votes: Seq<VoteView>, vote: VoteView)
    requires
        !pledgers(votes).contains((vote.voter, vote.proposal)),
    ensures
        normalized_votes(votes.push(vote)) == normalized_votes(votes).push(
            VoteView {
                voter: vote.voter,
                proposal: vote.proposal,
                amount: seq![micro(vote.amount[0])],
            },
        ),
{
    lemma_pledged_push(votes, vote);
    lemma_absent_pledged_nothing(votes, vote.voter, vote.proposal);
}

/// A quantity of minor units counts as it is. Any other is multiplied by a
/// million, and its denomination gains the prefix of minor units.
pub proof fn lemma_micro(coin: CoinView)
    ensures
        is_micro(coin.denom) ==> micro(coin) == coin,
        !is_micro(coin.denom) ==> micro(coin).amount == coin.amount * 1_000_000 && micro(
            coin,
        ).denom == seq!['u'] + coin.denom,
        is_micro(micro(coin).denom),
{
}

/// Whoever pledged has one entry in the normalized ledger, at the position
/// that is returned, and no other: the collapse of all that they pledged.
pub proof fn lemma_one_entry_per_pair(votes: Seq<VoteView>, voter: Seq<u8>, proposal: nat) -> (at:
    int)
    requires
        exists|i: int| 0 <= i < votes.len() && pledges_to(votes[i], voter, proposal),
    ensures
        0 <= at < normalized_votes(votes).len(),
        normalized_votes(votes)[at] == collapsed(votes, voter, proposal),
        forall|other: int|
            0 <= other < normalized_votes(votes).len() && other != at ==> !pledges_to(
                #[trigger] normalized_votes(votes)[other],
                voter,
                proposal,
            ),
{
    lemma_pledgers_cover(votes);
    lemma_pledgers_distinct(votes);
    let i = choose|i: int| 0 <= i < votes.len() && pledges_to(votes[i], voter, proposal);
    assert(pledgers(votes).contains((votes[i].voter, votes[i].proposal)));
    choose|at: int| 0 <= at < pledgers(votes).len() && pledgers(votes)[at] == (voter, proposal)
}

/// Every entry of the normalized ledger stands for someone who pledged.
pub proof fn lemma_entries_pledged(votes: Seq<VoteView>, at: int)
    requires
        0 <= at < normalized_votes(votes).len(),
    ensures
        exists|i: int|
            0 <= i < votes.len() && pledges_to(
                votes[i],
                normalized_votes(votes)[at].voter,
                normalized_votes(votes)[at].proposal,
            ),
{
    lemma_pledgers_cover(votes);
    let pair = pledgers(votes)[at];
    assert(normalized_votes(votes)[at] == collapsed(votes, pair.0, pair.1));
}

/// Where every pledge is `voter`'s to `proposal`, they are the only pledger,
/// and their total is the sum of all pledges.
proof fn lemma_sole_pledger(votes: Seq<VoteView>, voter: Seq<u8>, proposal: nat)
    requires
        forall|i: int| 0 <= i < votes.len() ==> pledges_to(#[trigger] votes[i], voter, proposal),
    ensures
        votes.len() > 0 ==> pledgers(votes) == seq![(voter, proposal)],
        pledged(votes, voter, proposal) == sum(micro_amounts(votes)),
    decreases votes.len(),
{
    if votes.len() > 0 {
        let earlier = votes.drop_last();
        lemma_sole_pledger(earlier, voter, proposal);
        assert(micro_amounts(votes).drop_last() =~= micro_amounts(earlier));
        if earlier.len() > 0 {
            assert(pledgers(earlier)[0] == (voter, proposal));
        }
    }
}

/// Any number of pledges by one voter to one proposal collapse into a single
/// pledge. It carries the sum of their quantities in minor units, in the
/// minor-unit denomination of the latest of them.
pub proof fn lemma_one_pair_collapses(votes: Seq<VoteView>)
    requires
        votes.len() > 0,
        funded(votes),
        forall|i: int|
            0 <= i < votes.len() ==> pledges_to(
                #[trigger] votes[i],
                votes[0].voter,
                votes[0].proposal,
            ),
    ensures
        normalized_votes(votes) == seq![
            VoteView {
                voter: votes[0].voter,
                proposal: votes[0].proposal,
                amount: seq![
                    CoinView {
                        denom: micro_denom(votes.last().amount[0].denom),
                        amount: sum(micro_amounts(votes)),
                    },
                ],
            },
        ],
{
    let voter = votes[0].voter;
    let proposal = votes[0].proposal;
    lemma_sole_pledger(votes, voter, proposal);
}

} // verus!
