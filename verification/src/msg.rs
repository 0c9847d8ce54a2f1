//! Requests and answers.
//!
//! Accounts arrive in canonical form: converting an address between its
//! display form and its canonical form is the host's business, and where the
//! host's answer may be that an address has no other form, the answer is handed
//! in as an `Option`.

use crate::state::{
    CanonicalAddr, Coin, CoinView, Distribution, DistributionView, HumanAddr, Proposal,
    ProposalView, Vote, VoteView,
};
use vstd::prelude::*;

verus! {

/// What the host reports of the block a request runs in.
#[derive(Clone, Copy, Debug, PartialEq)]
pub struct Env {
    /// Block time in seconds.
    pub time: u64,
}

/// Who sent a request, and the funds that came with it.
#[derive(Clone, Debug, PartialEq)]
pub struct MessageInfo {
    pub sender: CanonicalAddr,
    pub sent_funds: Vec<Coin>,
}

/// The mathematical model of a [`MessageInfo`].
pub struct MessageInfoView {
    pub sender: Seq<u8>,
    pub sent_funds: Seq<CoinView>,
}

impl View for MessageInfo {
    type V = MessageInfoView;

    open spec fn view(&self) -> MessageInfoView {
        MessageInfoView { sender: self.sender@, sent_funds: self.sent_funds.deep_view() }
    }
}

/// What a round is set up with. Each whitelist holds, for every address that
/// was listed, its canonical form, or `None` where it has none.
#[derive(Clone, Debug, PartialEq)]
pub struct InitMsg {
    pub name: String,
    pub proposer_whitelist: Vec<Option<CanonicalAddr>>,
    pub voter_whitelist: Vec<Option<CanonicalAddr>>,
    pub proposal_period_start: Option<u64>,
    pub proposal_period_end: Option<u64>,
    pub voting_period_start: Option<u64>,
    pub voting_period_end: Option<u64>,
}

/// The answer to a round being set up: the transfers to carry out. There are
/// none.
#[derive(Clone, Debug, PartialEq)]
pub struct InitResponse {
    pub messages: Vec<Transfer>,
}

impl Default for InitResponse {
    fn default() -> (response: InitResponse)
        ensures
            response.messages@.len() == 0,
    {
        InitResponse { messages: Vec::new() }
    }
}

/// A request that may change the round.
#[derive(Clone, Debug, PartialEq)]
pub enum HandleMsg {
    StartProposalPeriod { time: Option<u64> },
    EndProposalPeriod { time: Option<u64> },
    StartVotingPeriod { time: Option<u64> },
    EndVotingPeriod { time: Option<u64> },
    CreateProposal { name: String, recipient: CanonicalAddr, description: String, tags: String },
    CreateVote { proposal_id: u32 },
    CheckDistributions {  },
    DistributeFunds {  },
}

/// The mathematical model of a [`HandleMsg`].
pub enum HandleMsgView {
    StartProposalPeriod { time: Option<u64> },
    EndProposalPeriod { time: Option<u64> },
    StartVotingPeriod { time: Option<u64> },
    EndVotingPeriod { time: Option<u64> },
    CreateProposal {
        name: Seq<char>,
        recipient: Seq<u8>,
        description: Seq<char>,
        tags: Seq<char>,
    },
    CreateVote { proposal_id: u32 },
    CheckDistributions,
    DistributeFunds,
}

impl View for HandleMsg {
    type V = HandleMsgView;

    open spec fn view(&self) -> HandleMsgView {
        match *self {
            HandleMsg::StartProposalPeriod { time } => HandleMsgView::StartProposalPeriod { time },
            HandleMsg::EndProposalPeriod { time } => HandleMsgView::EndProposalPeriod { time },
            HandleMsg::StartVotingPeriod { time } => HandleMsgView::StartVotingPeriod { time },
            HandleMsg::EndVotingPeriod { time } => HandleMsgView::EndVotingPeriod { time },
            HandleMsg::CreateProposal {
                name,
                recipient,
                description,
                tags,
            } => HandleMsgView::CreateProposal {
                name: name@,
                recipient: recipient@,
                description: description@,
                tags: tags@,
            },
            HandleMsg::CreateVote { proposal_id } => HandleMsgView::CreateVote { proposal_id },
            HandleMsg::CheckDistributions {  } => HandleMsgView::CheckDistributions,
            HandleMsg::DistributeFunds {  } => HandleMsgView::DistributeFunds,
        }
    }
}

/// The content of a request to create a proposal.
#[derive(Clone, Debug, PartialEq)]
pub struct CreateProposal {
    pub name: String,
    pub recipient: CanonicalAddr,
    pub description: String,
    pub tags: String,
}

/// The answer to a created proposal: the id it was given.
#[derive(Clone, Copy, Debug, PartialEq)]
pub struct CreateProposalResponse {
    pub proposal_id: u32,
}

/// The answer to a check of the distributions.
#[derive(Clone, Debug, PartialEq)]
pub struct CheckDistributionsResponse {
    pub distributions: Vec<Distribution>,
}

/// An instruction to pay `amount` to `recipient`.
#[derive(Clone, Debug, PartialEq)]
pub struct Transfer {
    pub recipient: CanonicalAddr,
    pub amount: Coin,
}

/// The mathematical model of a [`Transfer`].
pub struct TransferView {
    pub recipient: Seq<u8>,
    pub amount: CoinView,
}

impl View for Transfer {
    type V = TransferView;

    open spec fn view(&self) -> TransferView {
        TransferView { recipient: self.recipient@, amount: self.amount@ }
    }
}

impl DeepView for Transfer {
    type V = TransferView;

    open spec fn deep_view(&self) -> TransferView {
        self@
    }
}

/// What a handled request hands back besides its transfers.
#[derive(Clone, Debug, PartialEq)]
pub enum ResponseData {
    CreateProposal(CreateProposalResponse),
    CheckDistributions(CheckDistributionsResponse),
}

/// The mathematical model of a [`ResponseData`].
pub enum ResponseDataView {
    CreateProposal { proposal_id: u32 },
    CheckDistributions { distributions: Seq<DistributionView> },
}

impl View for ResponseData {
    type V = ResponseDataView;

    open spec fn view(&self) -> ResponseDataView {
        match *self {
            ResponseData::CreateProposal(created) => ResponseDataView::CreateProposal {
                proposal_id: created.proposal_id,
            },
            ResponseData::CheckDistributions(checked) => ResponseDataView::CheckDistributions {
                distributions: checked.distributions.deep_view(),
            },
        }
    }
}

impl DeepView for ResponseData {
    type V = ResponseDataView;

    open spec fn deep_view(&self) -> ResponseDataView {
        self@
    }
}

/// The answer to a handled request: the transfers to carry out, and data.
#[derive(Clone, Debug, PartialEq)]
pub struct HandleResponse {
    pub messages: Vec<Transfer>,
    pub data: Option<ResponseData>,
}

/// The mathematical model of a [`HandleResponse`].
pub struct HandleResponseView {
    pub messages: Seq<TransferView>,
    pub data: Option<ResponseDataView>,
}

impl View for HandleResponse {
    type V = HandleResponseView;

    open spec fn view(&self) -> HandleResponseView {
        HandleResponseView { messages: self.messages.deep_view(), data: self.data.deep_view() }
    }
}

impl HandleResponseView {
    /// The answer that carries nothing.
    pub open spec fn empty() -> HandleResponseView {
        HandleResponseView { messages: Seq::empty(), data: None }
    }
}

impl Default for HandleResponse {
    fn default() -> (response: HandleResponse)
        ensures
            response@ == HandleResponseView::empty(),
    {
        let response = HandleResponse { messages: Vec::new(), data: None };
        assert(response@.messages =~= Seq::empty());
        response
    }
}

/// A request that only reads the round.
#[derive(Clone, Copy, Debug, PartialEq)]
pub enum QueryMsg {
    GetState {  },
    ProposalList {  },
    ProposalState { proposal_id: u32 },
}

/// The round's configuration, with its whitelists in display form.
#[derive(Clone, Debug, PartialEq)]
pub struct StateResponse {
    pub name: String,
    pub proposer_whitelist: Vec<HumanAddr>,
    pub voter_whitelist: Vec<HumanAddr>,
    pub proposal_period_start: Option<u64>,
    pub proposal_period_end: Option<u64>,
    pub voting_period_start: Option<u64>,
    pub voting_period_end: Option<u64>,
}

/// The mathematical model of a [`StateResponse`].
pub struct StateResponseView {
    pub name: Seq<char>,
    pub proposer_whitelist: Seq<Seq<char>>,
    pub voter_whitelist: Seq<Seq<char>>,
    pub proposal_period_start: Option<u64>,
    pub proposal_period_end: Option<u64>,
    pub voting_period_start: Option<u64>,
    pub voting_period_end: Option<u64>,
}

impl View for StateResponse {
    type V = StateResponseView;

    open spec fn view(&self) -> StateResponseView {
        StateResponseView {
            name: self.name@,
            proposer_whitelist: self.proposer_whitelist.deep_view(),
            voter_whitelist: self.voter_whitelist.deep_view(),
            proposal_period_start: self.proposal_period_start,
            proposal_period_end: self.proposal_period_end,
            voting_period_start: self.voting_period_start,
            voting_period_end: self.voting_period_end,
        }
    }
}

/// All proposals of the round.
#[derive(Clone, Debug, PartialEq)]
pub struct ProposalListResponse {
    pub proposals: Vec<Proposal>,
}

/// One proposal and the votes for it.
#[derive(Clone, Debug, PartialEq)]
pub struct ProposalStateResponse {
    pub proposal: Proposal,
    pub votes: Vec<Vote>,
}

/// The mathematical model of a [`ProposalStateResponse`].
pub struct ProposalStateView {
    pub proposal: ProposalView,
    pub votes: Seq<VoteView>,
}

impl View for ProposalStateResponse {
    type V = ProposalStateView;

    open spec fn view(&self) -> ProposalStateView {
        ProposalStateView { proposal: self.proposal@, votes: self.votes.deep_view() }
    }
}

/// The answer to a query.
#[derive(Clone, Debug, PartialEq)]
pub enum QueryResponse {
    State(StateResponse),
    ProposalList(ProposalListResponse),
    ProposalState(ProposalStateResponse),
}

/// The mathematical model of a [`QueryResponse`].
pub enum QueryResponseView {
    State(StateResponseView),
    ProposalList { proposals: Seq<ProposalView> },
    ProposalState(ProposalStateView),
}

impl View for QueryResponse {
    type V = QueryResponseView;

    open spec fn view(&self) -> QueryResponseView {
        match *self {
            QueryResponse::State(state) => QueryResponseView::State(state@),
            QueryResponse::ProposalList(list) => QueryResponseView::ProposalList {
                proposals: list.proposals.deep_view(),
            },
            QueryResponse::ProposalState(found) => QueryResponseView::ProposalState(found@),
        }
    }
}

} // verus!
