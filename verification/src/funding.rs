//! The model of the quadratic distribution: how a budget of matching funds is
//! split among the proposals of a round.
//!
//! A proposal's ideal share is the square of the sum of the integer square
//! roots of the pledges to it. What the ideal share exceeds the pledges by is
//! the subsidy the proposal asks for. One factor, the same for every
//! proposal, scales the subsidies so that together they spend the budget. All
//! of it is integer arithmetic, with floor division.

use crate::normalizer::{
    funded, lemma_pledgers_cover, micro_amount, micro_denom, normalized_votes, pledgers,
    pledges_to, sum, votes_fit, MICRO,
};
use crate::sqrt::lemma_isqrt;
use crate::sqrt::isqrt;
use crate::state::{CoinView, DistributionView, ProposalView, VoteView};
use vstd::prelude::*;

verus! {

/// The pledges to proposal `id` in a normalized ledger, in the ledger's order.
pub open spec fn pledges(ledger: Seq<VoteView>, id: nat) -> Seq<nat>
    decreases ledger.len(),
{
    if ledger.len() == 0 {
        Seq::empty()
    } else if ledger.last().proposal == id {
        pledges(ledger.drop_last(), id).push(ledger.last().amount[0].amount)
    } else {
        pledges(ledger.drop_last(), id)
    }
}

/// `amounts` as natural numbers.
pub open spec fn nats(amounts: Seq<u128>) -> Seq<nat> {
    Seq::new(amounts.len(), |i: int| amounts[i] as nat)
}

/// The sum of the integer square roots of `amounts`.
pub open spec fn root_sum(amounts: Seq<nat>) -> nat
    decreases amounts.len(),
{
    if amounts.len() == 0 {
        0
    } else {
        root_sum(amounts.drop_last()) + isqrt(amounts.last())
    }
}

/// The ideal share of a proposal with these pledges.
pub open spec fn ideal(amounts: Seq<nat>) -> nat {
    root_sum(amounts) * root_sum(amounts)
}

/// The subsidy such a proposal asks for: what its ideal share exceeds its
/// pledges by, and nothing where it does not.
pub open spec fn subsidy(amounts: Seq<nat>) -> nat {
    if ideal(amounts) > sum(amounts) {
        (ideal(amounts) - sum(amounts)) as nat
    } else {
        0
    }
}

/// The subsidies that all proposals ask for, together.
pub open spec fn subsidy_demand(ledger: Seq<VoteView>, proposals: Seq<ProposalView>) -> nat
    decreases proposals.len(),
{
    if proposals.len() == 0 {
        0
    } else {
        subsidy_demand(ledger, proposals.drop_last()) + subsidy(
            pledges(ledger, proposals.last().id),
        )
    }
}

/// The factor that scales the subsidies to the budget, in millionths. It is
/// zero where there is no budget.
pub open spec fn constraint_factor(demand: nat, budget: nat) -> nat {
    if budget == 0 {
        0
    } else {
        MICRO as nat * demand / budget
    }
}

/// The share a proposal with these pledges is paid: its pledges and its
/// scaled subsidy, or its pledges alone where the factor is zero.
pub open spec fn actual(amounts: Seq<nat>, factor: nat) -> nat {
    if factor == 0 {
        sum(amounts)
    } else {
        MICRO as nat * subsidy(amounts) / factor + sum(amounts)
    }
}

/// `amounts` as coins of one denomination.
pub open spec fn coins_of(amounts: Seq<nat>, denom: Seq<char>) -> Seq<CoinView> {
    Seq::new(amounts.len(), |i: int| CoinView { denom, amount: amounts[i] })
}

/// The distribution of one proposal.
pub open spec fn distribution(
    ledger: Seq<VoteView>,
    proposal: ProposalView,
    factor: nat,
    denom: Seq<char>,
) -> DistributionView {
    let amounts = pledges(ledger, proposal.id);
    DistributionView {
        proposal: proposal.id,
        recipient: proposal.recipient,
        votes: coins_of(amounts, denom),
        distribution_ideal: CoinView { denom, amount: ideal(amounts) },
        subsidy_ideal: CoinView { denom, amount: subsidy(amounts) },
        distribution_actual: CoinView { denom, amount: actual(amounts, factor) },
        subsidy_actual: CoinView { denom, amount: (actual(amounts, factor) - sum(amounts)) as nat },
    }
}

/// The factor for a round with these votes, proposals and budget.
pub open spec fn round_factor(
    votes: Seq<VoteView>,
    proposals: Seq<ProposalView>,
    budget: CoinView,
) -> nat {
    constraint_factor(subsidy_demand(normalized_votes(votes), proposals), micro_amount(budget))
}

/// The distributions of a round: one for each proposal, in the proposals'
/// order, each in the budget's minor-unit denomination.
pub open spec fn distributions(
    votes: Seq<VoteView>,
    proposals: Seq<ProposalView>,
    budget: CoinView,
) -> Seq<DistributionView> {
    Seq::new(
        proposals.len(),
        |i: int|
            distribution(
                normalized_votes(votes),
                proposals[i],
                round_factor(votes, proposals, budget),
                micro_denom(budget.denom),
            ),
    )
}

/// The distributions can be computed: there is a budget, every vote came with
/// funds, and every quantity on the way is a `u128`.
pub open spec fn distributable(
    votes: Seq<VoteView>,
    proposals: Seq<ProposalView>,
    budget: Seq<CoinView>,
) -> bool {
    &&& budget.len() > 0
    &&& funded(votes)
    &&& votes_fit(votes)
    &&& micro_amount(budget[0]) <= u128::MAX
    &&& forall|i: int|
        0 <= i < proposals.len() ==> {
            &&& ideal(pledges(normalized_votes(votes), (#[trigger] proposals[i]).id)) <= u128::MAX
            &&& sum(pledges(normalized_votes(votes), proposals[i].id)) <= u128::MAX
        }
    &&& MICRO as nat * subsidy_demand(normalized_votes(votes), proposals) <= u128::MAX
    &&& forall|i: int|
        0 <= i < proposals.len() ==> actual(
            pledges(normalized_votes(votes), (#[trigger] proposals[i]).id),
            round_factor(votes, proposals, budget[0]),
        ) <= u128::MAX
}

/// A sum only grows as amounts are added.
pub proof fn lemma_sum_grows(amounts: Seq<nat>, n: int)
    requires
        0 <= n <= amounts.len(),
    ensures
        sum(amounts.take(n)) <= sum(amounts),
        root_sum(amounts.take(n)) <= root_sum(amounts),
    decreases amounts.len() - n,
{
    if n < amounts.len() {
        lemma_sum_grows(amounts, n + 1);
        assert(amounts.take(n + 1).drop_last() =~= amounts.take(n));
    } else {
        assert(amounts.take(n) =~= amounts);
    }
}

/// The demand only grows as proposals are added, and is at least what each
/// proposal asks for.
pub proof fn lemma_demand_grows(ledger: Seq<VoteView>, proposals: Seq<ProposalView>, n: int)
    requires
        0 <= n <= proposals.len(),
    ensures
        subsidy_demand(ledger, proposals.take(n)) <= subsidy_demand(ledger, proposals),
        n < proposals.len() ==> subsidy(pledges(ledger, proposals[n].id)) <= subsidy_demand(
            ledger,
            proposals,
        ),
    decreases proposals.len() - n,
{
    if n < proposals.len() {
        lemma_demand_grows(ledger, proposals, n + 1);
        assert(proposals.take(n + 1).drop_last() =~= proposals.take(n));
    } else {
        assert(proposals.take(n) =~= proposals);
    }
}

/// There is one distribution for each proposal, in the proposals' order,
/// whatever the votes are.
pub proof fn lemma_one_distribution_each(
    votes: Seq<VoteView>,
    proposals: Seq<ProposalView>,
    budget: CoinView,
)
    ensures
        distributions(votes, proposals, budget).len() == proposals.len(),
        forall|i: int|
            0 <= i < proposals.len() ==> {
                &&& (#[trigger] distributions(votes, proposals, budget)[i]).proposal
                    == proposals[i].id
                &&& distributions(votes, proposals, budget)[i].recipient == proposals[i].recipient
            },
{
}

/// A ledger without a pledge to a proposal gives that proposal no pledges.
pub proof fn lemma_no_pledges(ledger: Seq<VoteView>, id: nat)
    requires
        forall|j: int| 0 <= j < ledger.len() ==> (#[trigger] ledger[j]).proposal != id,
    ensures
        pledges(ledger, id) == Seq::<nat>::empty(),
    decreases ledger.len(),
{
    if ledger.len() > 0 {
        lemma_no_pledges(ledger.drop_last(), id);
    }
}

/// A proposal that nobody voted for still has its distribution: without
/// votes, and with nothing as each of its four quantities.
pub proof fn lemma_unvoted_proposal(
    votes: Seq<VoteView>,
    proposals: Seq<ProposalView>,
    budget: CoinView,
    i: int,
)
    requires
        0 <= i < proposals.len(),
        forall|j: int| 0 <= j < votes.len() ==> (#[trigger] votes[j]).proposal != proposals[i].id,
    ensures
        distributions(votes, proposals, budget)[i] == (DistributionView {
            proposal: proposals[i].id,
            recipient: proposals[i].recipient,
            votes: Seq::empty(),
            distribution_ideal: CoinView { denom: micro_denom(budget.denom), amount: 0 },
            subsidy_ideal: CoinView { denom: micro_denom(budget.denom), amount: 0 },
            distribution_actual: CoinView { denom: micro_denom(budget.denom), amount: 0 },
            subsidy_actual: CoinView { denom: micro_denom(budget.denom), amount: 0 },
        }),
{
    let ledger = normalized_votes(votes);
    let id = proposals[i].id;
    lemma_pledgers_cover(votes);
    assert forall|j: int| 0 <= j < ledger.len() implies (#[trigger] ledger[j]).proposal != id by {
        let pair = pledgers(votes)[j];
        let from = choose|from: int|
            0 <= from < votes.len() && pledges_to(votes[from], pair.0, pair.1);
        assert(votes[from].proposal == ledger[j].proposal);
    }
    lemma_no_pledges(ledger, id);
    let amounts = pledges(ledger, id);
    let factor = round_factor(votes, proposals, budget);
    assert(root_sum(amounts) == 0 && sum(amounts) == 0);
    assert(ideal(amounts) == 0) by (nonlinear_arith)
        requires
            ideal(amounts) == root_sum(amounts) * root_sum(amounts),
            root_sum(amounts) == 0,
    ;
    assert(actual(amounts, factor) == 0) by {
        if factor != 0 {
            assert(MICRO as nat * 0 / factor == 0) by (nonlinear_arith)
                requires
                    factor > 0,
            ;
        }
    }
    assert(coins_of(amounts, micro_denom(budget.denom)) =~= Seq::<CoinView>::empty());
}

/// A proposal with a single pledge asks for no subsidy, whatever the budget:
/// the square of a square root does not exceed what it is the root of. Its
/// share is its pledge.
pub proof fn lemma_single_pledge(amount: nat, factor: nat)
    ensures
        ideal(seq![amount]) <= amount,
        subsidy(seq![amount]) == 0,
        actual(seq![amount], factor) == amount,
{
    let amounts = seq![amount];
    assert(amounts.drop_last() =~= Seq::<nat>::empty());
    assert(amounts.last() == amount);
    assert(root_sum(amounts.drop_last()) == 0 && sum(amounts.drop_last()) == 0);
    lemma_isqrt(amount, 0);
    assert(root_sum(amounts) == isqrt(amount));
    assert(sum(amounts) == amount);
    if factor != 0 {
        assert(MICRO as nat * 0 / factor == 0) by (nonlinear_arith)
            requires
                factor > 0,
        ;
    }
}

/// A share is never less than the pledges it comes from, and the subsidy
/// that is paid is what the share exceeds them by.
pub proof fn lemma_share_covers_pledges(
    ledger: Seq<VoteView>,
    proposal: ProposalView,
    factor: nat,
    denom: Seq<char>,
)
    ensures
        distribution(ledger, proposal, factor, denom).distribution_actual.amount >= sum(
            pledges(ledger, proposal.id),
        ),
        distribution(ledger, proposal, factor, denom).distribution_actual.amount
            == distribution(ledger, proposal, factor, denom).subsidy_actual.amount + sum(
            pledges(ledger, proposal.id),
        ),
{
}

} // verus!
