//! The round's persistent record and the values it is made of.

use vstd::prelude::*;

verus! {

/// An account in the host's internal, fixed-length form.
#[derive(Debug, PartialEq)]
pub struct CanonicalAddr(pub Vec<u8>);

impl Clone for CanonicalAddr {
    fn clone(&self) -> (copy: Self)
        ensures
            copy@ == self@,
    {
        let copy = CanonicalAddr(self.0.clone());
        copy
    }
}

impl View for CanonicalAddr {
    type V = Seq<u8>;

    open spec fn view(&self) -> Seq<u8> {
        self.0@
    }
}

impl DeepView for CanonicalAddr {
    type V = Seq<u8>;

    open spec fn deep_view(&self) -> Seq<u8> {
        self@
    }
}

/// An account in the form shown to people.
#[derive(Debug, PartialEq)]
pub struct HumanAddr(pub String);

impl Clone for HumanAddr {
    fn clone(&self) -> (copy: Self)
        ensures
            copy@ == self@,
    {
        HumanAddr(self.0.clone())
    }
}

impl View for HumanAddr {
    type V = Seq<char>;

    open spec fn view(&self) -> Seq<char> {
        self.0@
    }
}

impl DeepView for HumanAddr {
    type V = Seq<char>;

    open spec fn deep_view(&self) -> Seq<char> {
        self@
    }
}

/// A quantity of one denomination.
#[derive(Debug, PartialEq)]
pub struct Coin {
    pub denom: String,
    pub amount: u128,
}

impl Clone for Coin {
    fn clone(&self) -> (copy: Self)
        ensures
            copy@ == self@,
    {
        Coin { denom: self.denom.clone(), amount: self.amount }
    }
}

/// The mathematical model of a [`Coin`].
pub struct CoinView {
    pub denom: Seq<char>,
    pub amount: nat,
}

impl View for Coin {
    type V = CoinView;

    open spec fn view(&self) -> CoinView {
        CoinView { denom: self.denom@, amount: self.amount as nat }
    }
}

impl DeepView for Coin {
    type V = CoinView;

    open spec fn deep_view(&self) -> CoinView {
        self@
    }
}

/// A funding request.
#[derive(Debug, PartialEq)]
pub struct Proposal {
    /// The number of proposals that existed when this one was created.
    pub id: u32,
    pub name: String,
    /// Where the proposal's share is paid.
    pub recipient: CanonicalAddr,
    pub description: String,
    pub tags: String,
}

impl Clone for Proposal {
    fn clone(&self) -> (copy: Self)
        ensures
            copy@ == self@,
    {
        Proposal {
            id: self.id,
            name: self.name.clone(),
            recipient: self.recipient.clone(),
            description: self.description.clone(),
            tags: self.tags.clone(),
        }
    }
}

/// The mathematical model of a [`Proposal`].
pub struct ProposalView {
    pub id: nat,
    pub name: Seq<char>,
    pub recipient: Seq<u8>,
    pub description: Seq<char>,
    pub tags: Seq<char>,
}

impl View for Proposal {
    type V = ProposalView;

    open spec fn view(&self) -> ProposalView {
        ProposalView {
            id: self.id as nat,
            name: self.name@,
            recipient: self.recipient@,
            description: self.description@,
            tags: self.tags@,
        }
    }
}

impl DeepView for Proposal {
    type V = ProposalView;

    open spec fn deep_view(&self) -> ProposalView {
        self@
    }
}

/// A pledge of value to one proposal.
#[derive(Debug, PartialEq)]
pub struct Vote {
    pub voter: CanonicalAddr,
    /// The id of the proposal pledged to.
    pub proposal: u32,
    /// The funds that came with the request; only the first entry counts.
    pub amount: Vec<Coin>,
}

impl Clone for Vote {
    fn clone(&self) -> (copy: Self)
        ensures
            copy@ == self@,
    {
        let mut amount: Vec<Coin> = Vec::new();
        let mut i: usize = 0;
        while i < self.amount.len()
            invariant
                i <= self.amount.len(),
                amount.len() == i,
                forall|j: int| 0 <= j < i ==> amount[j]@ == self.amount[j]@,
            decreases self.amount.len() - i,
        {
            amount.push(self.amount[i].clone());
            i += 1;
        }
        assert(amount.deep_view() =~= self.amount.deep_view());
        Vote { voter: self.voter.clone(), proposal: self.proposal, amount }
    }
}

/// The mathematical model of a [`Vote`].
pub struct VoteView {
    pub voter: Seq<u8>,
    pub proposal: nat,
    pub amount: Seq<CoinView>,
}

impl View for Vote {
    type V = VoteView;

    open spec fn view(&self) -> VoteView {
        VoteView {
            voter: self.voter@,
            proposal: self.proposal as nat,
            amount: self.amount.deep_view(),
        }
    }
}

impl DeepView for Vote {
    type V = VoteView;

    open spec fn deep_view(&self) -> VoteView {
        self@
    }
}

/// One proposal's share of a round, computed on demand.
#[derive(Clone, Debug, PartialEq)]
pub struct Distribution {
    pub proposal: u32,
    pub recipient: CanonicalAddr,
    /// The pledges to the proposal, one per voter, in minor units.
    pub votes: Vec<Coin>,
    pub distribution_ideal: Coin,
    pub subsidy_ideal: Coin,
    pub distribution_actual: Coin,
    pub subsidy_actual: Coin,
}

/// The mathematical model of a [`Distribution`].
pub struct DistributionView {
    pub proposal: nat,
    pub recipient: Seq<u8>,
    pub votes: Seq<CoinView>,
    pub distribution_ideal: CoinView,
    pub subsidy_ideal: CoinView,
    pub distribution_actual: CoinView,
    pub subsidy_actual: CoinView,
}

impl View for Distribution {
    type V = DistributionView;

    open spec fn view(&self) -> DistributionView {
        DistributionView {
            proposal: self.proposal as nat,
            recipient: self.recipient@,
            votes: self.votes.deep_view(),
            distribution_ideal: self.distribution_ideal@,
            subsidy_ideal: self.subsidy_ideal@,
            distribution_actual: self.distribution_actual@,
            subsidy_actual: self.subsidy_actual@,
        }
    }
}

impl DeepView for Distribution {
    type V = DistributionView;

    open spec fn deep_view(&self) -> DistributionView {
        self@
    }
}

/// The whole round: its configuration, its windows and its two ledgers.
#[derive(Clone, Debug, PartialEq)]
pub struct State {
    /// The round's administrator.
    pub owner: CanonicalAddr,
    pub name: String,
    /// Who may propose; empty means anyone.
    pub proposer_whitelist: Vec<CanonicalAddr>,
    /// Who may vote; empty means anyone.
    pub voter_whitelist: Vec<CanonicalAddr>,
    pub proposal_period_start: Option<u64>,
    pub proposal_period_end: Option<u64>,
    pub voting_period_start: Option<u64>,
    pub voting_period_end: Option<u64>,
    pub proposals: Vec<Proposal>,
    pub votes: Vec<Vote>,
}

/// The mathematical model of a [`State`].
pub struct StateView {
    pub owner: Seq<u8>,
    pub name: Seq<char>,
    pub proposer_whitelist: Seq<Seq<u8>>,
    pub voter_whitelist: Seq<Seq<u8>>,
    pub proposal_period_start: Option<u64>,
    pub proposal_period_end: Option<u64>,
    pub voting_period_start: Option<u64>,
    pub voting_period_end: Option<u64>,
    pub proposals: Seq<ProposalView>,
    pub votes: Seq<VoteView>,
}

impl StateView {
    /// Proposal ids count up from zero in creation order, and every vote is
    /// for a proposal that exists.
    pub open spec fn wf(self) -> bool {
        &&& forall|i: int| 0 <= i < self.proposals.len() ==> (#[trigger] self.proposals[i]).id == i
        &&& forall|i: int|
            0 <= i < self.votes.len() ==> (#[trigger] self.votes[i]).proposal
                < self.proposals.len()
    }
}

impl View for State {
    type V = StateView;

    open spec fn view(&self) -> StateView {
        StateView {
            owner: self.owner@,
            name: self.name@,
            proposer_whitelist: self.proposer_whitelist.deep_view(),
            voter_whitelist: self.voter_whitelist.deep_view(),
            proposal_period_start: self.proposal_period_start,
            proposal_period_end: self.proposal_period_end,
            voting_period_start: self.voting_period_start,
            voting_period_end: self.voting_period_end,
            proposals: self.proposals.deep_view(),
            votes: self.votes.deep_view(),
        }
    }
}

impl State {
    /// See [`StateView::wf`].
    pub open spec fn wf(&self) -> bool {
        self@.wf()
    }
}

} // verus!
