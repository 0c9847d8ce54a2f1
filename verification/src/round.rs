//! The model of a round's requests: for each request, the state it leaves
//! behind and the answer it gets, as a function of the state it finds.
//!
//! A round passes through four windows in order: before proposals, proposals,
//! before voting, voting. Which one it is in is read off the clock and the
//! four boundaries of the state, never stored. Every check of a request is
//! made before anything is written, so a request that is refused leaves the
//! state as it found it.

use crate::error::ErrorView;
use crate::funding::{distributable, distributions};
use crate::msg::{
    HandleMsgView, HandleResponseView, MessageInfoView, ProposalStateView, QueryMsg,
    QueryResponseView, ResponseDataView, StateResponseView, TransferView,
};
use crate::state::{CoinView, DistributionView, ProposalView, StateView, VoteView};
use vstd::prelude::*;

verus! {

/// What sending one transfer costs, in minor units.
pub const SEND_COST: u128 = 1000;

/// A period has started once its start is set and reached.
pub open spec fn started(time: u64, start: Option<u64>) -> bool {
    start is Some && time >= start->0
}

/// A period has ended once its end is set and passed.
pub open spec fn ended(time: u64, end: Option<u64>) -> bool {
    end is Some && time > end->0
}

/// A period is open from its start up to and including its end.
pub open spec fn in_period(time: u64, start: Option<u64>, end: Option<u64>) -> bool {
    started(time, start) && !ended(time, end)
}

/// An empty list admits everyone, any other list its members.
pub open spec fn is_authorized(addr: Seq<u8>, list: Seq<Seq<u8>>) -> bool {
    list.len() == 0 || list.contains(addr)
}

/// The time a transition is set to: the one given, else now.
pub open spec fn moment(time: Option<u64>, now: u64) -> u64 {
    match time {
        Some(time) => time,
        None => now,
    }
}

/// What a request left behind: the state after it, and its answer.
pub struct Handled {
    pub state: StateView,
    pub response: Result<HandleResponseView, ErrorView>,
}

/// A request turned down: the state stays, the answer is `error`.
pub open spec fn refused(state: StateView, error: ErrorView) -> Handled {
    Handled { state, response: Err(error) }
}

/// The caller is not on the list named `list_type`.
pub open spec fn unauthorized(list_type: &str) -> ErrorView {
    ErrorView::Unauthorized { list_type: list_type@ }
}

/// The request is not legal in this period; `period_type` names the one it
/// needs.
pub open spec fn invalid_period(period_type: &str) -> ErrorView {
    ErrorView::InvalidPeriod { period_type: period_type@ }
}

/// The owner opens the proposal window, unless it has opened already.
pub open spec fn start_proposal_period(
    state: StateView,
    now: u64,
    sender: Seq<u8>,
    time: Option<u64>,
) -> Handled {
    if !is_authorized(sender, seq![state.owner]) {
        refused(state, unauthorized("admin"))
    } else if started(now, state.proposal_period_start) {
        refused(state, invalid_period("pre-proposal"))
    } else {
        Handled {
            state: StateView { proposal_period_start: Some(moment(time, now)), ..state },
            response: Ok(HandleResponseView::empty()),
        }
    }
}

/// The owner closes the proposal window while it is open.
pub open spec fn end_proposal_period(
    state: StateView,
    now: u64,
    sender: Seq<u8>,
    time: Option<u64>,
) -> Handled {
    if !is_authorized(sender, seq![state.owner]) {
        refused(state, unauthorized("admin"))
    } else if !in_period(now, state.proposal_period_start, state.proposal_period_end) {
        refused(state, invalid_period("proposal"))
    } else {
        Handled {
            state: StateView { proposal_period_end: Some(moment(time, now)), ..state },
            response: Ok(HandleResponseView::empty()),
        }
    }
}

/// The owner opens the voting window once the proposal window has closed,
/// unless voting has opened already.
pub open spec fn start_voting_period(
    state: StateView,
    now: u64,
    sender: Seq<u8>,
    time: Option<u64>,
) -> Handled {
    if !is_authorized(sender, seq![state.owner]) {
        refused(state, unauthorized("admin"))
    } else if !ended(now, state.proposal_period_end) || started(now, state.voting_period_start) {
        refused(state, invalid_period("pre-voting"))
    } else {
        Handled {
            state: StateView { voting_period_start: Some(moment(time, now)), ..state },
            response: Ok(HandleResponseView::empty()),
        }
    }
}

/// The owner closes the voting window while it is open.
pub open spec fn end_voting_period(
    state: StateView,
    now: u64,
    sender: Seq<u8>,
    time: Option<u64>,
) -> Handled {
    if !is_authorized(sender, seq![state.owner]) {
        refused(state, unauthorized("admin"))
    } else if !in_period(now, state.voting_period_start, state.voting_period_end) {
        refused(state, invalid_period("voting"))
    } else {
        Handled {
            state: StateView { voting_period_end: Some(moment(time, now)), ..state },
            response: Ok(HandleResponseView::empty()),
        }
    }
}

/// Whether a proposal by `sender` is accepted at `now`.
pub open spec fn may_propose(state: StateView, now: u64, sender: Seq<u8>) -> bool {
    is_authorized(sender, state.proposer_whitelist) && in_period(
        now,
        state.proposal_period_start,
        state.proposal_period_end,
    )
}

/// A proposer adds a proposal while the proposal window is open. The
/// proposal's id is the number of proposals there were.
pub open spec fn create_proposal(
    state: StateView,
    now: u64,
    sender: Seq<u8>,
    recipient: Seq<u8>,
    name: Seq<char>,
    description: Seq<char>,
    tags: Seq<char>,
) -> Handled {
    if !is_authorized(sender, state.proposer_whitelist) {
        refused(state, unauthorized("proposer"))
    } else if !in_period(now, state.proposal_period_start, state.proposal_period_end) {
        refused(state, invalid_period("proposal"))
    } else {
        Handled {
            state: StateView {
                proposals: state.proposals.push(
                    ProposalView { id: state.proposals.len(), name, recipient, description, tags },
                ),
                ..state
            },
            response: Ok(
                HandleResponseView {
                    messages: Seq::empty(),
                    data: Some(
                        ResponseDataView::CreateProposal {
                            proposal_id: state.proposals.len() as u32,
                        },
                    ),
                },
            ),
        }
    }
}

/// A voter pledges the funds of the request to an existing proposal while the
/// voting window is open.
pub open spec fn create_vote(
    state: StateView,
    now: u64,
    sender: Seq<u8>,
    funds: Seq<CoinView>,
    proposal_id: u32,
) -> Handled {
    if !is_authorized(sender, state.voter_whitelist) {
        refused(state, unauthorized("voter"))
    } else if !in_period(now, state.voting_period_start, state.voting_period_end) {
        refused(state, invalid_period("voting"))
    } else if proposal_id >= state.proposals.len() {
        refused(state, ErrorView::InvalidProposal { id: proposal_id })
    } else {
        Handled {
            state: StateView {
                votes: state.votes.push(
                    VoteView { voter: sender, proposal: proposal_id as nat, amount: funds },
                ),
                ..state
            },
            response: Ok(HandleResponseView::empty()),
        }
    }
}

/// Whether the distributions may be looked at at `now`: once the proposal
/// window has closed.
pub open spec fn may_check(state: StateView, now: u64) -> bool {
    ended(now, state.proposal_period_end)
}

/// Anyone looks at the distributions once the proposal window has closed.
/// `balance` is what the host answered when asked for the round's funds; the
/// budget is the first coin of it.
pub open spec fn check_distributions(
    state: StateView,
    now: u64,
    balance: Result<Seq<CoinView>, ErrorView>,
) -> Handled {
    if !may_check(state, now) {
        refused(state, invalid_period("post-proposal"))
    } else {
        match balance {
            Err(error) => refused(state, error),
            Ok(funds) => Handled {
                state,
                response: Ok(
                    HandleResponseView {
                        messages: Seq::empty(),
                        data: Some(
                            ResponseDataView::CheckDistributions {
                                distributions: distributions(
                                    state.votes,
                                    state.proposals,
                                    funds[0],
                                ),
                            },
                        ),
                    },
                ),
            },
        }
    }
}

/// The transfers that pay out `shares`: to each recipient whose share exceeds
/// `cost`, the share less `cost`; to the others nothing.
pub open spec fn transfers(shares: Seq<DistributionView>, cost: nat) -> Seq<TransferView>
    decreases shares.len(),
{
    if shares.len() == 0 {
        Seq::empty()
    } else if shares.last().distribution_actual.amount > cost {
        transfers(shares.drop_last(), cost).push(
            TransferView {
                recipient: shares.last().recipient,
                amount: CoinView {
                    denom: shares.last().distribution_actual.denom,
                    amount: (shares.last().distribution_actual.amount - cost) as nat,
                },
            },
        )
    } else {
        transfers(shares.drop_last(), cost)
    }
}

/// Whether `sender` may have the funds paid out at `now`: the owner, once the
/// voting window has closed.
pub open spec fn may_distribute(state: StateView, now: u64, sender: Seq<u8>) -> bool {
    is_authorized(sender, seq![state.owner]) && in_period(
        now,
        state.voting_period_end,
        Some(u64::MAX),
    )
}

/// The owner has the funds paid out once the voting window has closed.
pub open spec fn distribute_funds(
    state: StateView,
    now: u64,
    sender: Seq<u8>,
    balance: Result<Seq<CoinView>, ErrorView>,
) -> Handled {
    if !is_authorized(sender, seq![state.owner]) {
        refused(state, unauthorized("admin"))
    } else if !in_period(now, state.voting_period_end, Some(u64::MAX)) {
        refused(state, invalid_period("voting"))
    } else {
        match balance {
            Err(error) => refused(state, error),
            Ok(funds) => Handled {
                state,
                response: Ok(
                    HandleResponseView {
                        messages: transfers(
                            distributions(state.votes, state.proposals, funds[0]),
                            SEND_COST as nat,
                        ),
                        data: None,
                    },
                ),
            },
        }
    }
}

/// What a request does to the round.
pub open spec fn handled(
    state: StateView,
    now: u64,
    info: MessageInfoView,
    msg: HandleMsgView,
    balance: Result<Seq<CoinView>, ErrorView>,
) -> Handled {
    match msg {
        HandleMsgView::StartProposalPeriod { time } => start_proposal_period(
            state,
            now,
            info.sender,
            time,
        ),
        HandleMsgView::EndProposalPeriod { time } => end_proposal_period(
            state,
            now,
            info.sender,
            time,
        ),
        HandleMsgView::StartVotingPeriod { time } => start_voting_period(
            state,
            now,
            info.sender,
            time,
        ),
        HandleMsgView::EndVotingPeriod { time } => end_voting_period(
            state,
            now,
            info.sender,
            time,
        ),
        HandleMsgView::CreateProposal { name, recipient, description, tags } => create_proposal(
            state,
            now,
            info.sender,
            recipient,
            name,
            description,
            tags,
        ),
        HandleMsgView::CreateVote { proposal_id } => create_vote(
            state,
            now,
            info.sender,
            info.sent_funds,
            proposal_id,
        ),
        HandleMsgView::CheckDistributions => check_distributions(state, now, balance),
        HandleMsgView::DistributeFunds => distribute_funds(state, now, info.sender, balance),
    }
}

/// The request can be carried out on this machine: a proposal that is
/// accepted gets an id that is a `u32`, and distributions that are asked for
/// can be computed.
pub open spec fn in_reach(
    state: StateView,
    now: u64,
    info: MessageInfoView,
    msg: HandleMsgView,
    balance: Result<Seq<CoinView>, ErrorView>,
) -> bool {
    match msg {
        HandleMsgView::CreateProposal { .. } => may_propose(state, now, info.sender)
            ==> state.proposals.len() <= u32::MAX,
        HandleMsgView::CheckDistributions => may_check(state, now) && balance is Ok
            ==> distributable(state.votes, state.proposals, balance->Ok_0),
        HandleMsgView::DistributeFunds => may_distribute(state, now, info.sender) && balance is Ok
            ==> distributable(state.votes, state.proposals, balance->Ok_0),
        _ => true,
    }
}

/// The addresses that the host's codec could convert, in their order.
pub open spec fn resolved<T>(outcomes: Seq<Option<T>>) -> Seq<T>
    decreases outcomes.len(),
{
    if outcomes.len() == 0 {
        Seq::empty()
    } else {
        match outcomes.last() {
            Some(address) => resolved(outcomes.drop_last()).push(address),
            None => resolved(outcomes.drop_last()),
        }
    }
}

/// The round as it is set up: owned by `owner`, with the whitelists' entries
/// that have a canonical form, and with no proposals and no votes.
pub open spec fn initial(
    owner: Seq<u8>,
    name: Seq<char>,
    proposers: Seq<Option<Seq<u8>>>,
    voters: Seq<Option<Seq<u8>>>,
    proposal_period_start: Option<u64>,
    proposal_period_end: Option<u64>,
    voting_period_start: Option<u64>,
    voting_period_end: Option<u64>,
) -> StateView {
    StateView {
        owner,
        name,
        proposer_whitelist: resolved(proposers),
        voter_whitelist: resolved(voters),
        proposal_period_start,
        proposal_period_end,
        voting_period_start,
        voting_period_end,
        proposals: Seq::empty(),
        votes: Seq::empty(),
    }
}

/// The round's configuration. `proposers` and `voters` are the whitelists'
/// entries in display form, `None` where an entry has none.
pub open spec fn state_response(
    state: StateView,
    proposers: Seq<Option<Seq<char>>>,
    voters: Seq<Option<Seq<char>>>,
) -> StateResponseView {
    StateResponseView {
        name: state.name,
        proposer_whitelist: resolved(proposers),
        voter_whitelist: resolved(voters),
        proposal_period_start: state.proposal_period_start,
        proposal_period_end: state.proposal_period_end,
        voting_period_start: state.voting_period_start,
        voting_period_end: state.voting_period_end,
    }
}

/// The first proposal with this id.
pub open spec fn find_proposal(proposals: Seq<ProposalView>, id: nat) -> Option<ProposalView>
    decreases proposals.len(),
{
    if proposals.len() == 0 {
        None
    } else if proposals[0].id == id {
        Some(proposals[0])
    } else {
        find_proposal(proposals.drop_first(), id)
    }
}

/// The votes for proposal `id`, in the ledger's order.
pub open spec fn votes_for(votes: Seq<VoteView>, id: nat) -> Seq<VoteView> {
    votes.filter(|vote: VoteView| vote.proposal == id)
}

/// One proposal and the votes for it, if there is such a proposal.
pub open spec fn proposal_state(state: StateView, id: u32) -> Result<ProposalStateView, ErrorView> {
    match find_proposal(state.proposals, id as nat) {
        Some(proposal) => Ok(
            ProposalStateView { proposal, votes: votes_for(state.votes, id as nat) },
        ),
        None => Err(ErrorView::InvalidProposal { id }),
    }
}

/// The answer to a query.
pub open spec fn queried(
    state: StateView,
    msg: QueryMsg,
    proposers: Seq<Option<Seq<char>>>,
    voters: Seq<Option<Seq<char>>>,
) -> Result<QueryResponseView, ErrorView> {
    match msg {
        QueryMsg::GetState {  } => Ok(
            QueryResponseView::State(state_response(state, proposers, voters)),
        ),
        QueryMsg::ProposalList {  } => Ok(
            QueryResponseView::ProposalList { proposals: state.proposals },
        ),
        QueryMsg::ProposalState { proposal_id } => match proposal_state(state, proposal_id) {
            Ok(found) => Ok(QueryResponseView::ProposalState(found)),
            Err(error) => Err(error),
        },
    }
}

/// An empty whitelist admits everyone.
pub proof fn lemma_open_list_admits_all(addr: Seq<u8>, list: Seq<Seq<u8>>)
    requires
        list.len() == 0,
    ensures
        is_authorized(addr, list),
{
}

/// A list of one admits that one and nobody else.
pub proof fn lemma_list_of_one(addr: Seq<u8>, member: Seq<u8>)
    ensures
        is_authorized(addr, seq![member]) <==> addr == member,
{
    assert(seq![member][0] == member);
}

/// A period whose start is not set is not open. A period whose end is set
/// and passed is not open. A period is open exactly when its start is set and
/// reached and its end is not both set and passed.
pub proof fn lemma_open_period(time: u64, start: Option<u64>, end: Option<u64>)
    ensures
        start is None ==> !in_period(time, start, end),
        end is Some && time > end->0 ==> !in_period(time, start, end),
        in_period(time, start, end) <==> start is Some && time >= start->0 && !(end is Some
            && time > end->0),
{
}

/// A request that is refused leaves the round as it was.
pub proof fn lemma_refused_changes_nothing(
    state: StateView,
    now: u64,
    info: MessageInfoView,
    msg: HandleMsgView,
    balance: Result<Seq<CoinView>, ErrorView>,
)
    ensures
        handled(state, now, info, msg, balance).response is Err ==> handled(
            state,
            now,
            info,
            msg,
            balance,
        ).state == state,
{
}

/// No request breaks the round's order: after it, proposal ids still count up
/// from zero and every vote is still for a proposal that exists.
pub proof fn lemma_handled_keeps_order(
    state: StateView,
    now: u64,
    info: MessageInfoView,
    msg: HandleMsgView,
    balance: Result<Seq<CoinView>, ErrorView>,
)
    requires
        state.wf(),
    ensures
        handled(state, now, info, msg, balance).state.wf(),
{
}

/// No request removes or changes a proposal or a vote: both ledgers only
/// grow at the end.
pub proof fn lemma_ledgers_only_grow(
    state: StateView,
    now: u64,
    info: MessageInfoView,
    msg: HandleMsgView,
    balance: Result<Seq<CoinView>, ErrorView>,
)
    ensures
        state.proposals.is_prefix_of(handled(state, now, info, msg, balance).state.proposals),
        state.votes.is_prefix_of(handled(state, now, info, msg, balance).state.votes),
{
}

/// No request changes what the round was set up with: its owner, its name
/// and its whitelists stay.
pub proof fn lemma_setup_stays(
    state: StateView,
    now: u64,
    info: MessageInfoView,
    msg: HandleMsgView,
    balance: Result<Seq<CoinView>, ErrorView>,
)
    ensures
        handled(state, now, info, msg, balance).state.owner == state.owner,
        handled(state, now, info, msg, balance).state.name == state.name,
        handled(state, now, info, msg, balance).state.proposer_whitelist
            == state.proposer_whitelist,
        handled(state, now, info, msg, balance).state.voter_whitelist == state.voter_whitelist,
{
}

/// Only the owner moves a window, and a request that moves one moves no
/// other.
pub proof fn lemma_windows_move_one_at_a_time(
    state: StateView,
    now: u64,
    info: MessageInfoView,
    msg: HandleMsgView,
    balance: Result<Seq<CoinView>, ErrorView>,
)
    ensures
        ({
            let after = handled(state, now, info, msg, balance).state;
            let moved = (if after.proposal_period_start != state.proposal_period_start {
                1nat
            } else {
                0nat
            }) + (if after.proposal_period_end != state.proposal_period_end {
                1nat
            } else {
                0nat
            }) + (if after.voting_period_start != state.voting_period_start {
                1nat
            } else {
                0nat
            }) + (if after.voting_period_end != state.voting_period_end {
                1nat
            } else {
                0nat
            });
            &&& moved <= 1
            &&& moved == 1 ==> info.sender == state.owner
        }),
{
    lemma_list_of_one(info.sender, state.owner);
}

/// A proposal that is accepted gets the number of proposals there were as its
/// id, and the answer says so.
pub proof fn lemma_created_proposal_id(
    state: StateView,
    now: u64,
    sender: Seq<u8>,
    recipient: Seq<u8>,
    name: Seq<char>,
    description: Seq<char>,
    tags: Seq<char>,
)
    requires
        may_propose(state, now, sender),
        state.proposals.len() <= u32::MAX,
    ensures
        ({
            let after = create_proposal(state, now, sender, recipient, name, description, tags);
            &&& after.state.proposals.len() == state.proposals.len() + 1
            &&& after.state.proposals.last().id == state.proposals.len()
            &&& after.response == Ok::<HandleResponseView, ErrorView>(
                HandleResponseView {
                    messages: Seq::empty(),
                    data: Some(
                        ResponseDataView::CreateProposal {
                            proposal_id: state.proposals.len() as u32,
                        },
                    ),
                },
            )
        }),
{
}

/// In a round whose ids are in order, the proposal with id `id` is the one at
/// position `id`.
pub proof fn lemma_find_proposal(proposals: Seq<ProposalView>, id: nat)
    requires
        forall|i: int| 0 <= i < proposals.len() ==> (#[trigger] proposals[i]).id == i,
    ensures
        find_proposal(proposals, id) == if id < proposals.len() {
            Some(proposals[id as int])
        } else {
            None
        },
{
    lemma_find_proposal_from(proposals, id, 0);
    assert(proposals.skip(0) =~= proposals);
}

/// The same, for the search from position `from` on.
proof fn lemma_find_proposal_from(proposals: Seq<ProposalView>, id: nat, from: int)
    requires
        forall|i: int| 0 <= i < proposals.len() ==> (#[trigger] proposals[i]).id == i,
        0 <= from <= proposals.len(),
        from <= id,
    ensures
        find_proposal(proposals.skip(from), id) == if id < proposals.len() {
            Some(proposals[id as int])
        } else {
            None
        },
    decreases proposals.len() - from,
{
    if from < proposals.len() {
        assert(proposals.skip(from)[0] == proposals[from]);
        assert(proposals.skip(from).drop_first() =~= proposals.skip(from + 1));
        if from < id {
            lemma_find_proposal_from(proposals, id, from + 1);
        }
    }
}

/// For the id of any proposal that was created, the query answers with that
/// proposal and with exactly the votes that are for it, in the ledger's order.
pub proof fn lemma_proposal_state(state: StateView, id: u32)
    requires
        state.wf(),
        id < state.proposals.len(),
    ensures
        proposal_state(state, id) == Ok::<ProposalStateView, ErrorView>(
            ProposalStateView {
                proposal: state.proposals[id as int],
                votes: votes_for(state.votes, id as nat),
            },
        ),
        forall|vote: VoteView| #[trigger]
            votes_for(state.votes, id as nat).contains(vote) <==> state.votes.contains(vote)
                && vote.proposal == id,
{
    lemma_find_proposal(state.proposals, id as nat);
    let wanted = |vote: VoteView| vote.proposal == id as nat;
    let kept = state.votes.filter(wanted);
    assert forall|vote: VoteView| #[trigger]
        votes_for(state.votes, id as nat).contains(vote) <==> state.votes.contains(vote)
            && vote.proposal == id by {
        if kept.contains(vote) {
            let at = choose|at: int| 0 <= at < kept.len() && kept[at] == vote;
            state.votes.lemma_filter_pred(wanted, at);
            state.votes.lemma_filter_contains_rev(wanted, vote);
        }
        if state.votes.contains(vote) && vote.proposal == id {
            let at = choose|at: int| 0 <= at < state.votes.len() && state.votes[at] == vote;
            state.votes.lemma_filter_contains(wanted, at);
        }
    }
}

/// Looking at the distributions changes nothing, so looking twice gives the
/// same answer twice.
pub proof fn lemma_check_twice(
    state: StateView,
    now: u64,
    info: MessageInfoView,
    balance: Result<Seq<CoinView>, ErrorView>,
)
    ensures
        ({
            let first = handled(state, now, info, HandleMsgView::CheckDistributions, balance);
            let second = handled(
                first.state,
                now,
                info,
                HandleMsgView::CheckDistributions,
                balance,
            );
            first.state == state && second == first
        }),
{
}

/// No transfer is empty, and there is at most one for each distribution.
pub proof fn lemma_transfers_pay(shares: Seq<DistributionView>, cost: nat)
    ensures
        transfers(shares, cost).len() <= shares.len(),
        forall|i: int|
            0 <= i < transfers(shares, cost).len() ==> (#[trigger] transfers(
                shares,
                cost,
            )[i]).amount.amount > 0,
    decreases shares.len(),
{
    if shares.len() > 0 {
        lemma_transfers_pay(shares.drop_last(), cost);
    }
}

} // verus!
