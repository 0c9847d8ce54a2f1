//! The operations of a round, as they run.
//!
//! Each operation is held to the model of it: [`crate::round`] says what a
//! request does to the round, [`crate::normalizer`] what the ledger of votes
//! collapses to, and [`crate::funding`] how the budget is split.

use crate::error::{ContractError, ErrorView};
use crate::funding::{
    actual, coins_of, distributable, distribution, distributions, ideal, lemma_demand_grows,
    lemma_sum_grows, nats, pledges, root_sum, round_factor, subsidy, subsidy_demand,
};
use crate::msg::{
    CheckDistributionsResponse, CreateProposalResponse, Env, HandleMsg, HandleResponse,
    HandleResponseView, InitMsg, InitResponse, MessageInfo, ProposalListResponse,
    ProposalStateResponse, ProposalStateView, QueryMsg, QueryResponse, QueryResponseView,
    ResponseData, StateResponse, Transfer,
};
use crate::normalizer::{
    collapsed, funded, is_micro, lemma_absent_pledged_nothing, lemma_normalized_again,
    lemma_normalized_first, lemma_pledged_grows, lemma_pledged_push, micro, micro_amount,
    normalized_votes, pledged, pledgers, sum, votes_fit, MICRO,
};
use crate::round::{
    check_distributions, create_proposal, create_vote, distribute_funds, end_proposal_period,
    end_voting_period, ended, find_proposal, handled, in_period, in_reach, initial,
    is_authorized, may_check, may_distribute, may_propose, proposal_state, queried, resolved,
    start_proposal_period, start_voting_period, started, state_response, transfers, votes_for,
    SEND_COST,
};
use crate::sqrt::{integer_sqrt, lemma_isqrt};
use crate::state::{
    CanonicalAddr, Coin, CoinView, Distribution, HumanAddr, Proposal, ProposalView, State, Vote,
    VoteView,
};
use vstd::prelude::*;

verus! {

/// Whether a period with this start has started: its start is set and reached.
pub fn period_started(time: u64, period_start: Option<u64>) -> (r: bool)
    ensures
        r == started(time, period_start),
{
    match period_start {
        Some(start) => time >= start,
        None => false,
    }
}

/// Whether a period with this end has ended: its end is set and passed.
pub fn period_ended(time: u64, period_end: Option<u64>) -> (r: bool)
    ensures
        r == ended(time, period_end),
{
    match period_end {
        Some(end) => time > end,
        None => false,
    }
}

/// Whether a period is open: it has started and has not ended.
pub fn validate_period(time: u64, period_start: Option<u64>, period_end: Option<u64>) -> (r: bool)
    ensures
        r == in_period(time, period_start, period_end),
{
    let started = period_started(time, period_start);
    let ended = period_ended(time, period_end);
    started && !ended
}

/// Whether two accounts are the same.
fn same_addr(a: &CanonicalAddr, b: &CanonicalAddr) -> (r: bool)
    ensures
        r == (a@ == b@),
{
    if a.0.len() != b.0.len() {
        return false;
    }
    let mut i: usize = 0;
    while i < a.0.len()
        invariant
            i <= a.0.len(),
            a.0.len() == b.0.len(),
            forall|j: int| 0 <= j < i ==> a.0[j] == b.0[j],
        decreases a.0.len() - i,
    {
        if a.0[i] != b.0[i] {
            return false;
        }
        i += 1;
    }
    assert(a@ =~= b@);
    true
}

/// Whether `addr` is on `list`.
fn is_listed(addr: &CanonicalAddr, list: &Vec<CanonicalAddr>) -> (r: bool)
    ensures
        r == list.deep_view().contains(addr@),
{
    let mut i: usize = 0;
    while i < list.len()
        invariant
            i <= list.len(),
            forall|j: int| 0 <= j < i ==> list[j]@ != addr@,
        decreases list.len() - i,
    {
        if same_addr(&list[i], addr) {
            assert(list.deep_view()[i as int] == addr@);
            return true;
        }
        i += 1;
    }
    false
}

/// Whether `list` admits `addr`: an empty list admits everyone, any other
/// list its members.
pub fn validate_sender(addr: CanonicalAddr, list: Vec<CanonicalAddr>) -> (r: bool)
    ensures
        r == is_authorized(addr@, list.deep_view()),
{
    list.is_empty() || is_listed(&addr, &list)
}

/// Whether `info` comes from the round's owner.
fn sent_by_owner(state: &State, info: &MessageInfo) -> (r: bool)
    ensures
        r == is_authorized(info.sender@, seq![state.owner@]),
{
    assert(seq![state.owner@][0] == state.owner@);
    same_addr(&info.sender, &state.owner)
}

/// Whether `info` comes from someone on `list`, or `list` is open.
fn sent_by_listed(list: &Vec<CanonicalAddr>, info: &MessageInfo) -> (r: bool)
    ensures
        r == is_authorized(info.sender@, list.deep_view()),
{
    list.is_empty() || is_listed(&info.sender, list)
}

/// The answer of a handler, as the model sees it.
pub open spec fn outcome(result: Result<HandleResponse, ContractError>) -> Result<
    HandleResponseView,
    ErrorView,
> {
    match result {
        Ok(response) => Ok(response@),
        Err(error) => Err(error@),
    }
}

/// The host's answer about the round's funds, as the model sees it.
pub open spec fn funds(balance: Result<Vec<Coin>, ContractError>) -> Result<
    Seq<CoinView>,
    ErrorView,
> {
    match balance {
        Ok(coins) => Ok(coins.deep_view()),
        Err(error) => Err(error@),
    }
}

/// The caller is not on the list named `list_type`.
fn unauthorized(list_type: &str) -> (error: ContractError)
    ensures
        error@ == crate::round::unauthorized(list_type),
{
    ContractError::Unauthorized { list_type: String::from_str(list_type) }
}

/// The request is not legal in this period.
fn invalid_period(period_type: &str) -> (error: ContractError)
    ensures
        error@ == crate::round::invalid_period(period_type),
{
    ContractError::InvalidPeriod { period_type: String::from_str(period_type) }
}

/// The canonical forms that there are, in their order.
fn resolved_canonical(outcomes: &Vec<Option<CanonicalAddr>>) -> (list: Vec<CanonicalAddr>)
    ensures
        list.deep_view() == resolved(outcomes.deep_view()),
{
    let ghost all = outcomes.deep_view();
    let mut list: Vec<CanonicalAddr> = Vec::new();
    let mut i: usize = 0;
    while i < outcomes.len()
        invariant
            i <= outcomes.len(),
            all == outcomes.deep_view(),
            list.deep_view() == resolved(all.take(i as int)),
        decreases outcomes.len() - i,
    {
        proof {
            assert(all.take(i + 1).drop_last() =~= all.take(i as int));
        }
        match &outcomes[i] {
            Some(address) => {
                list.push(address.clone());
            },
            None => {},
        }
        i += 1;
    }
    assert(all.take(i as int) =~= all);
    list
}

/// Sets up a round, and asks the host for nothing. The round's owner is the
/// sender. Each whitelist keeps the entries that have a canonical form and
/// silently drops the others. The round starts with no proposals and no
/// votes.
pub fn init(_env: Env, info: MessageInfo, msg: InitMsg) -> (made: (State, InitResponse))
    ensures
        made.1.messages@.len() == 0,
        made.0.wf(),
        made.0@ == initial(
            info.sender@,
            msg.name@,
            msg.proposer_whitelist.deep_view(),
            msg.voter_whitelist.deep_view(),
            msg.proposal_period_start,
            msg.proposal_period_end,
            msg.voting_period_start,
            msg.voting_period_end,
        ),
{
    let proposer_whitelist = resolved_canonical(&msg.proposer_whitelist);
    let voter_whitelist = resolved_canonical(&msg.voter_whitelist);
    let state = State {
        name: msg.name,
        owner: info.sender,
        proposer_whitelist,
        voter_whitelist,
        proposal_period_start: msg.proposal_period_start,
        proposal_period_end: msg.proposal_period_end,
        voting_period_start: msg.voting_period_start,
        voting_period_end: msg.voting_period_end,
        votes: Vec::new(),
        proposals: Vec::new(),
    };
    assert(state@.proposals =~= Seq::empty());
    assert(state@.votes =~= Seq::empty());
    (state, InitResponse::default())
}

/// Opens the proposal window. Only the owner may, and only while the window
/// has not opened yet; the window then opens at `time`, or now.
pub fn try_start_proposal_period(
    state: &mut State,
    env: Env,
    info: MessageInfo,
    time: Option<u64>,
) -> (result: Result<HandleResponse, ContractError>)
    ensures
        final(state)@ == start_proposal_period(old(state)@, env.time, info.sender@, time).state,
        outcome(result) == start_proposal_period(
            old(state)@,
            env.time,
            info.sender@,
            time,
        ).response,
        old(state).wf() ==> final(state).wf(),
{
    if !sent_by_owner(state, &info) {
        return Err(unauthorized("admin"));
    }
    if period_started(env.time, state.proposal_period_start) {
        return Err(invalid_period("pre-proposal"));
    }
    let start_time = match time {
        Some(time) => time,
        None => env.time,
    };
    state.proposal_period_start = Some(start_time);
    Ok(HandleResponse::default())
}

/// Closes the proposal window. Only the owner may, and only while the window
/// is open; the window then closes at `time`, or now.
pub fn try_end_proposal_period(
    state: &mut State,
    env: Env,
    info: MessageInfo,
    time: Option<u64>,
) -> (result: Result<HandleResponse, ContractError>)
    ensures
        final(state)@ == end_proposal_period(old(state)@, env.time, info.sender@, time).state,
        outcome(result) == end_proposal_period(old(state)@, env.time, info.sender@, time).response,
        old(state).wf() ==> final(state).wf(),
{
    if !sent_by_owner(state, &info) {
        return Err(unauthorized("admin"));
    }
    if !validate_period(env.time, state.proposal_period_start, state.proposal_period_end) {
        return Err(invalid_period("proposal"));
    }
    let end_time = match time {
        Some(time) => time,
        None => env.time,
    };
    state.proposal_period_end = Some(end_time);
    Ok(HandleResponse::default())
}

/// Opens the voting window. Only the owner may, and only once the proposal
/// window has closed and while voting has not opened yet; the window then
/// opens at `time`, or now.
pub fn try_start_voting_period(
    state: &mut State,
    env: Env,
    info: MessageInfo,
    time: Option<u64>,
) -> (result: Result<HandleResponse, ContractError>)
    ensures
        final(state)@ == start_voting_period(old(state)@, env.time, info.sender@, time).state,
        outcome(result) == start_voting_period(old(state)@, env.time, info.sender@, time).response,
        old(state).wf() ==> final(state).wf(),
{
    if !sent_by_owner(state, &info) {
        return Err(unauthorized("admin"));
    }
    let proposal_ended = period_ended(env.time, state.proposal_period_end);
    let voting_started = period_started(env.time, state.voting_period_start);
    if !proposal_ended || voting_started {
        return Err(invalid_period("pre-voting"));
    }
    let start_time = match time {
        Some(time) => time,
        None => env.time,
    };
    state.voting_period_start = Some(start_time);
    Ok(HandleResponse::default())
}

/// Closes the voting window. Only the owner may, and only while the window is
/// open; the window then closes at `time`, or now.
pub fn try_end_voting_period(
    state: &mut State,
    env: Env,
    info: MessageInfo,
    time: Option<u64>,
) -> (result: Result<HandleResponse, ContractError>)
    ensures
        final(state)@ == end_voting_period(old(state)@, env.time, info.sender@, time).state,
        outcome(result) == end_voting_period(old(state)@, env.time, info.sender@, time).response,
        old(state).wf() ==> final(state).wf(),
{
    if !sent_by_owner(state, &info) {
        return Err(unauthorized("admin"));
    }
    if !validate_period(env.time, state.voting_period_start, state.voting_period_end) {
        return Err(invalid_period("voting"));
    }
    let end_time = match time {
        Some(time) => time,
        None => env.time,
    };
    state.voting_period_end = Some(end_time);
    Ok(HandleResponse::default())
}

/// Adds a proposal. The sender must pass the proposer whitelist and the
/// proposal window must be open; the proposal then gets the number of
/// proposals there were as its id, and the answer carries that id.
pub fn try_create_proposal(
    state: &mut State,
    env: Env,
    info: MessageInfo,
    recipient: CanonicalAddr,
    name: String,
    description: String,
    tags: String,
) -> (result: Result<HandleResponse, ContractError>)
    requires
        may_propose(old(state)@, env.time, info.sender@) ==> old(state).proposals.len()
            <= u32::MAX,
    ensures
        final(state)@ == create_proposal(
            old(state)@,
            env.time,
            info.sender@,
            recipient@,
            name@,
            description@,
            tags@,
        ).state,
        outcome(result) == create_proposal(
            old(state)@,
            env.time,
            info.sender@,
            recipient@,
            name@,
            description@,
            tags@,
        ).response,
        old(state).wf() ==> final(state).wf(),
{
    if !sent_by_listed(&state.proposer_whitelist, &info) {
        return Err(unauthorized("proposer"));
    }
    if !validate_period(env.time, state.proposal_period_start, state.proposal_period_end) {
        return Err(invalid_period("proposal"));
    }
    let proposal_id = state.proposals.len() as u32;
    let proposal = Proposal { id: proposal_id, name, description, tags, recipient };
    let ghost before = state.proposals.deep_view();
    state.proposals.push(proposal);
    assert(state.proposals.deep_view() =~= before.push(proposal@));
    let response = HandleResponse {
        messages: Vec::new(),
        data: Some(ResponseData::CreateProposal(CreateProposalResponse { proposal_id })),
    };
    assert(response@.messages =~= Seq::empty());
    Ok(response)
}

/// Pledges the funds that came with the request to a proposal. The sender
/// must pass the voter whitelist, the voting window must be open and the
/// proposal must exist.
pub fn try_create_vote(
    state: &mut State,
    env: Env,
    info: MessageInfo,
    proposal_id: u32,
) -> (result: Result<HandleResponse, ContractError>)
    ensures
        final(state)@ == create_vote(
            old(state)@,
            env.time,
            info.sender@,
            info.sent_funds.deep_view(),
            proposal_id,
        ).state,
        outcome(result) == create_vote(
            old(state)@,
            env.time,
            info.sender@,
            info.sent_funds.deep_view(),
            proposal_id,
        ).response,
        old(state).wf() ==> final(state).wf(),
{
    if !sent_by_listed(&state.voter_whitelist, &info) {
        return Err(unauthorized("voter"));
    }
    if !validate_period(env.time, state.voting_period_start, state.voting_period_end) {
        return Err(invalid_period("voting"));
    }
    if proposal_id as usize >= state.proposals.len() {
        return Err(ContractError::InvalidProposal { id: proposal_id });
    }
    let vote = Vote { voter: info.sender, proposal: proposal_id, amount: info.sent_funds };
    let ghost before = state.votes.deep_view();
    state.votes.push(vote);
    assert(state.votes.deep_view() =~= before.push(vote@));
    Ok(HandleResponse::default())
}

/// Whether a denomination names minor units: those start with `u`.
pub fn is_coin_micro(denom: &str) -> (r: bool)
    ensures
        r == is_micro(denom@),
{
    !denom.is_empty() && denom.get_char(0) == 'u'
}

/// `coin` in minor units, unless its quantity in minor units is no `u128`.
fn to_micro(coin: &Coin) -> (r: Option<Coin>)
    ensures
        r is Some <==> micro_amount(coin@) <= u128::MAX,
        r matches Some(m) ==> m@ == micro(coin@),
{
    if is_coin_micro(coin.denom.as_str()) {
        Some(coin.clone())
    } else {
        match coin.amount.checked_mul(MICRO) {
            Some(amount) => {
                let denom = String::from_str("u").concat(coin.denom.as_str());
                proof {
                    reveal_strlit("u");
                    assert("u"@ =~= seq!['u']);
                }
                Some(Coin { denom, amount })
            },
            None => None,
        }
    }
}

/// Where in a normalized ledger `voter`'s pledge to `proposal` stands.
fn find_pledge(ledger: &Vec<Vote>, voter: &CanonicalAddr, proposal: u32) -> (r: Option<usize>)
    ensures
        match r {
            Some(at) => at < ledger.len() && ledger[at as int].voter@ == voter@
                && ledger[at as int].proposal == proposal,
            None => forall|j: int|
                0 <= j < ledger.len() ==> !(ledger[j].voter@ == voter@ && ledger[j].proposal
                    == proposal),
        },
{
    let mut i: usize = 0;
    while i < ledger.len()
        invariant
            i <= ledger.len(),
            forall|j: int|
                0 <= j < i ==> !(ledger[j].voter@ == voter@ && ledger[j].proposal == proposal),
        decreases ledger.len() - i,
    {
        if ledger[i].proposal == proposal && same_addr(&ledger[i].voter, voter) {
            return Some(i);
        }
        i += 1;
    }
    None
}

/// The normalized ledger of `votes`, unless a vote came without funds or a
/// total is no `u128`.
pub fn checked_normalized_votes(votes: &[Vote]) -> (r: Option<Vec<Vote>>)
    ensures
        r is Some <==> funded(votes.deep_view()) && votes_fit(votes.deep_view()),
        r matches Some(ledger) ==> ledger.deep_view() == normalized_votes(votes.deep_view()),
{
    let ghost all = votes.deep_view();
    let mut ledger: Vec<Vote> = Vec::new();
    let mut i: usize = 0;
    while i < votes.len()
        invariant
            i <= votes.len(),
            all == votes.deep_view(),
            funded(all.take(i as int)),
            ledger.deep_view() == normalized_votes(all.take(i as int)),
        decreases votes.len() - i,
    {
        let vote = &votes[i];
        let ghost seen = all.take(i as int);
        proof {
            assert(all.take(i + 1) =~= seen.push(vote@));
            lemma_pledged_push(seen, vote@);
            lemma_pledged_grows(all, i + 1, vote@.voter, vote@.proposal);
        }
        if vote.amount.len() == 0 {
            return None;
        }
        let coin = match to_micro(&vote.amount[0]) {
            Some(coin) => coin,
            None => {
                return None;
            },
        };
        match find_pledge(&ledger, &vote.voter, vote.proposal) {
            Some(at) => {
                proof {
                    assert(ledger.deep_view().len() == ledger.len());
                    assert(ledger.deep_view()[at as int] == ledger[at as int]@);
                    assert(ledger[at as int]@.amount.len() == 1);
                    lemma_normalized_again(seen, vote@, at as int);
                }
                let sum = match ledger[at].amount[0].amount.checked_add(coin.amount) {
                    Some(sum) => sum,
                    None => {
                        return None;
                    },
                };
                let merged = Vote {
                    voter: vote.voter.clone(),
                    proposal: vote.proposal,
                    amount: vec![Coin { denom: coin.denom, amount: sum }],
                };
                let ghost before = ledger.deep_view();
                ledger.set(at, merged);
                assert(merged@.amount =~= seq![
                    CoinView {
                        denom: micro(vote@.amount[0]).denom,
                        amount: (before[at as int].amount[0].amount + micro_amount(
                            vote@.amount[0],
                        )) as nat,
                    },
                ]);
            },
            None => {
                proof {
                    assert forall|j: int| 0 <= j < pledgers(seen).len() implies pledgers(seen)[j]
                        != (vote@.voter, vote@.proposal) by {
                        assert(ledger.deep_view().len() == ledger.len());
                        assert(ledger.deep_view()[j] == ledger[j]@);
                    }
                    lemma_normalized_first(seen, vote@);
                }
                let first = Vote {
                    voter: vote.voter.clone(),
                    proposal: vote.proposal,
                    amount: vec![coin],
                };
                ledger.push(first);
                assert(first@.amount =~= seq![micro(vote@.amount[0])]);
            },
        }
        i += 1;
    }
    proof {
        assert(all.take(i as int) =~= all);
        assert forall|voter: Seq<u8>, proposal: nat| #[trigger]
            pledged(all, voter, proposal) <= u128::MAX by {
            if pledgers(all).contains((voter, proposal)) {
                let at = choose|at: int|
                    0 <= at < pledgers(all).len() && pledgers(all)[at] == (voter, proposal);
                assert(ledger.deep_view()[at] == ledger[at]@);
                assert(ledger[at]@.amount.len() == 1);
                assert(ledger[at]@.amount[0] == ledger[at].amount[0]@);
            } else {
                lemma_absent_pledged_nothing(all, voter, proposal);
            }
        }
    }
    Some(ledger)
}

/// Collapses the raw ledger into one pledge per voter and proposal, in minor
/// units: each pledge of the result carries the sum of what its voter pledged
/// to its proposal.
pub fn get_normalized_votes(votes: &[Vote]) -> (ledger: Vec<Vote>)
    requires
        funded(votes.deep_view()),
        votes_fit(votes.deep_view()),
    ensures
        ledger.deep_view() == normalized_votes(votes.deep_view()),
{
    checked_normalized_votes(votes).unwrap()
}

/// The pledges to proposal `id` in a normalized ledger.
fn pledges_to_proposal(ledger: &Vec<Vote>, id: u32) -> (amounts: Vec<u128>)
    requires
        forall|j: int| 0 <= j < ledger.len() ==> ledger[j].amount.len() > 0,
    ensures
        nats(amounts@) == pledges(ledger.deep_view(), id as nat),
{
    let ghost all = ledger.deep_view();
    let mut amounts: Vec<u128> = Vec::new();
    let mut i: usize = 0;
    while i < ledger.len()
        invariant
            i <= ledger.len(),
            all == ledger.deep_view(),
            forall|j: int| 0 <= j < ledger.len() ==> ledger[j].amount.len() > 0,
            nats(amounts@) == pledges(all.take(i as int), id as nat),
        decreases ledger.len() - i,
    {
        proof {
            assert(all.take(i + 1).drop_last() =~= all.take(i as int));
        }
        if ledger[i].proposal == id {
            amounts.push(ledger[i].amount[0].amount);
        }
        i += 1;
    }
    assert(all.take(i as int) =~= all);
    amounts
}

/// The sum of `amounts`, unless it is no `u128`.
fn checked_sum(amounts: &Vec<u128>) -> (r: Option<u128>)
    ensures
        r is Some <==> sum(nats(amounts@)) <= u128::MAX,
        r matches Some(total) ==> total == sum(nats(amounts@)),
{
    let ghost all = nats(amounts@);
    let mut total: u128 = 0;
    let mut i: usize = 0;
    while i < amounts.len()
        invariant
            i <= amounts.len(),
            all == nats(amounts@),
            total == sum(all.take(i as int)),
        decreases amounts.len() - i,
    {
        proof {
            assert(all.take(i + 1).drop_last() =~= all.take(i as int));
            lemma_sum_grows(all, i + 1);
        }
        total = match total.checked_add(amounts[i]) {
            Some(total) => total,
            None => {
                return None;
            },
        };
        i += 1;
    }
    assert(all.take(i as int) =~= all);
    Some(total)
}

/// The sum of the integer square roots of `amounts`, unless it is no `u128`.
fn checked_root_sum(amounts: &Vec<u128>) -> (r: Option<u128>)
    ensures
        r is Some <==> root_sum(nats(amounts@)) <= u128::MAX,
        r matches Some(total) ==> total == root_sum(nats(amounts@)),
{
    let ghost all = nats(amounts@);
    let mut total: u128 = 0;
    let mut i: usize = 0;
    while i < amounts.len()
        invariant
            i <= amounts.len(),
            all == nats(amounts@),
            total == root_sum(all.take(i as int)),
        decreases amounts.len() - i,
    {
        let root = integer_sqrt(amounts[i]);
        proof {
            assert(all.take(i + 1).drop_last() =~= all.take(i as int));
            lemma_sum_grows(all, i + 1);
            lemma_isqrt(amounts[i as int] as nat, root as nat);
        }
        total = match total.checked_add(root) {
            Some(total) => total,
            None => {
                return None;
            },
        };
        i += 1;
    }
    assert(all.take(i as int) =~= all);
    Some(total)
}

/// What a proposal's pledges come to before the budget is looked at.
struct Ideal {
    proposal: u32,
    recipient: CanonicalAddr,
    votes: Vec<u128>,
    total_votes: u128,
    distribution_ideal: u128,
    subsidy_ideal: u128,
}

impl Ideal {
    /// Whether this is what `proposal`'s pledges in `ledger` come to.
    spec fn is_of(&self, ledger: Seq<VoteView>, proposal: ProposalView) -> bool {
        &&& self.proposal == proposal.id
        &&& self.recipient@ == proposal.recipient
        &&& nats(self.votes@) == pledges(ledger, proposal.id)
        &&& self.total_votes == sum(pledges(ledger, proposal.id))
        &&& self.distribution_ideal == ideal(pledges(ledger, proposal.id))
        &&& self.subsidy_ideal == subsidy(pledges(ledger, proposal.id))
    }
}

/// What `proposal`'s pledges in a normalized ledger come to, unless their sum
/// or the proposal's ideal share is no `u128`.
fn ideal_of(ledger: &Vec<Vote>, proposal: &Proposal) -> (r: Option<Ideal>)
    requires
        forall|j: int| 0 <= j < ledger.len() ==> ledger[j].amount.len() > 0,
    ensures
        r is Some <==> ideal(pledges(ledger.deep_view(), proposal@.id)) <= u128::MAX && sum(
            pledges(ledger.deep_view(), proposal@.id),
        ) <= u128::MAX,
        r matches Some(found) ==> found.is_of(ledger.deep_view(), proposal@),
{
    let votes = pledges_to_proposal(ledger, proposal.id);
    let ghost amounts = pledges(ledger.deep_view(), proposal@.id);
    let roots = match checked_root_sum(&votes) {
        Some(roots) => roots,
        None => {
            assert(root_sum(amounts) * root_sum(amounts) > u128::MAX) by (nonlinear_arith)
                requires
                    root_sum(amounts) > u128::MAX,
            ;
            return None;
        },
    };
    let distribution_ideal = match roots.checked_mul(roots) {
        Some(square) => square,
        None => {
            return None;
        },
    };
    let total_votes = match checked_sum(&votes) {
        Some(total) => total,
        None => {
            return None;
        },
    };
    let subsidy_ideal = if distribution_ideal > total_votes {
        distribution_ideal - total_votes
    } else {
        0
    };
    Some(
        Ideal {
            proposal: proposal.id,
            recipient: proposal.recipient.clone(),
            votes,
            total_votes,
            distribution_ideal,
            subsidy_ideal,
        },
    )
}

/// The share that is paid for `found` at `factor`, unless it is no `u128`.
fn actual_of(found: &Ideal, factor: u128) -> (r: Option<u128>)
    requires
        found.total_votes == sum(nats(found.votes@)),
        found.subsidy_ideal == subsidy(nats(found.votes@)),
        MICRO as nat * found.subsidy_ideal <= u128::MAX,
    ensures
        r is Some <==> actual(nats(found.votes@), factor as nat) <= u128::MAX,
        r matches Some(share) ==> share == actual(nats(found.votes@), factor as nat),
{
    if factor == 0 {
        Some(found.total_votes)
    } else {
        (MICRO * found.subsidy_ideal / factor).checked_add(found.total_votes)
    }
}

/// `amounts` as coins of one denomination.
fn coins_from(amounts: &Vec<u128>, denom: &String) -> (coins: Vec<Coin>)
    ensures
        coins.deep_view() == coins_of(nats(amounts@), denom@),
{
    let mut coins: Vec<Coin> = Vec::new();
    let mut i: usize = 0;
    while i < amounts.len()
        invariant
            i <= amounts.len(),
            coins.len() == i,
            forall|j: int|
                0 <= j < i ==> coins[j]@ == (CoinView {
                    denom: denom@,
                    amount: amounts[j] as nat,
                }),
        decreases amounts.len() - i,
    {
        coins.push(Coin { denom: denom.clone(), amount: amounts[i] });
        i += 1;
    }
    coins
}

/// The distributions of a round, unless they cannot be computed.
#[verifier::loop_isolation(false)]
pub fn checked_calculate_distributions(
    votes: &[Vote],
    proposals: &Vec<Proposal>,
    budget_constraint: &Vec<Coin>,
) -> (r: Option<Vec<Distribution>>)
    ensures
        r is Some <==> distributable(
            votes.deep_view(),
            proposals.deep_view(),
            budget_constraint.deep_view(),
        ),
        r matches Some(shares) ==> shares.deep_view() == distributions(
            votes.deep_view(),
            proposals.deep_view(),
            budget_constraint[0]@,
        ),
{
    if budget_constraint.len() == 0 {
        return None;
    }
    let budget = match to_micro(&budget_constraint[0]) {
        Some(budget) => budget,
        None => {
            return None;
        },
    };
    let unique_votes = match checked_normalized_votes(votes) {
        Some(ledger) => ledger,
        None => {
            return None;
        },
    };
    let ghost raw = votes.deep_view();
    let ghost ledger = normalized_votes(raw);
    let ghost asked = proposals.deep_view();
    proof {
        assert(unique_votes.deep_view().len() == unique_votes.len());
        assert forall|j: int| 0 <= j < unique_votes.len() implies unique_votes[j].amount.len()
            > 0 by {
            assert(unique_votes.deep_view()[j] == unique_votes[j]@);
            assert(unique_votes[j]@.amount.len() == 1);
        }
    }
    let mut ideal_results: Vec<Ideal> = Vec::new();
    let mut demand: u128 = 0;
    let mut i: usize = 0;
    while i < proposals.len()
        invariant
            i <= proposals.len(),
            ideal_results.len() == i,
            forall|j: int| 0 <= j < i ==> (#[trigger] ideal_results[j]).is_of(ledger, asked[j]),
            demand == subsidy_demand(ledger, asked.take(i as int)),
        decreases proposals.len() - i,
    {
        proof {
            assert(asked.take(i + 1).drop_last() =~= asked.take(i as int));
            lemma_demand_grows(ledger, asked, i + 1);
        }
        let found = match ideal_of(&unique_votes, &proposals[i]) {
            Some(found) => found,
            None => {
                return None;
            },
        };
        demand = match demand.checked_add(found.subsidy_ideal) {
            Some(demand) => demand,
            None => {
                assert(MICRO as nat * subsidy_demand(ledger, asked) > u128::MAX)
                    by (nonlinear_arith)
                    requires
                        subsidy_demand(ledger, asked) > u128::MAX,
                        MICRO == 1_000_000,
                ;
                return None;
            },
        };
        ideal_results.push(found);
        i += 1;
    }
    proof {
        assert(asked.take(i as int) =~= asked);
        assert forall|j: int| 0 <= j < asked.len() implies {
            &&& ideal(pledges(ledger, (#[trigger] asked[j]).id)) <= u128::MAX
            &&& sum(pledges(ledger, asked[j].id)) <= u128::MAX
        } by {
            assert(ideal_results[j].is_of(ledger, asked[j]));
        }
    }
    let scaled_demand = match MICRO.checked_mul(demand) {
        Some(scaled) => scaled,
        None => {
            return None;
        },
    };
    let constraint_factor: u128 = if budget.amount == 0 {
        0
    } else {
        scaled_demand / budget.amount
    };
    let mut shares: Vec<Distribution> = Vec::new();
    let mut i: usize = 0;
    while i < ideal_results.len()
        invariant
            i <= ideal_results.len(),
            shares.len() == i,
            forall|j: int|
                0 <= j < i ==> (#[trigger] shares[j])@ == distribution(
                    ledger,
                    asked[j],
                    constraint_factor as nat,
                    budget@.denom,
                ),
            forall|j: int|
                0 <= j < i ==> actual(
                    pledges(ledger, (#[trigger] asked[j]).id),
                    constraint_factor as nat,
                ) <= u128::MAX,
        decreases ideal_results.len() - i,
    {
        let found = &ideal_results[i];
        proof {
            lemma_demand_grows(ledger, asked, i as int);
            assert(MICRO as nat * found.subsidy_ideal <= MICRO as nat * subsidy_demand(
                ledger,
                asked,
            )) by (nonlinear_arith)
                requires
                    found.subsidy_ideal <= subsidy_demand(ledger, asked),
            ;
        }
        let distribution_actual = match actual_of(found, constraint_factor) {
            Some(share) => share,
            None => {
                return None;
            },
        };
        let subsidy_actual = distribution_actual - found.total_votes;
        shares.push(
            Distribution {
                proposal: found.proposal,
                recipient: found.recipient.clone(),
                votes: coins_from(&found.votes, &budget.denom),
                distribution_ideal: Coin {
                    denom: budget.denom.clone(),
                    amount: found.distribution_ideal,
                },
                subsidy_ideal: Coin { denom: budget.denom.clone(), amount: found.subsidy_ideal },
                distribution_actual: Coin {
                    denom: budget.denom.clone(),
                    amount: distribution_actual,
                },
                subsidy_actual: Coin { denom: budget.denom.clone(), amount: subsidy_actual },
            },
        );
        i += 1;
    }
    Some(shares)
}

/// Splits the budget among the proposals: one distribution for each proposal,
/// in the proposals' order, whether or not anyone pledged to it. The budget is
/// the first coin of `budget_constraint`.
pub fn calculate_distributions(
    votes: Vec<Vote>,
    proposals: Vec<Proposal>,
    budget_constraint: Vec<Coin>,
) -> (shares: Vec<Distribution>)
    requires
        distributable(votes.deep_view(), proposals.deep_view(), budget_constraint.deep_view()),
    ensures
        shares.len() == proposals.len(),
        shares.deep_view() == distributions(
            votes.deep_view(),
            proposals.deep_view(),
            budget_constraint[0]@,
        ),
{
    let shares = checked_calculate_distributions(
        votes.as_slice(),
        &proposals,
        &budget_constraint,
    ).unwrap();
    assert(shares.deep_view().len() == shares.len());
    shares
}

/// Computes the distributions without paying anything, unless they are asked
/// for and cannot be computed.
fn checked_check_distributions(
    state: &State,
    env: Env,
    balance: Result<Vec<Coin>, ContractError>,
) -> (result: Option<Result<HandleResponse, ContractError>>)
    ensures
        result is Some <==> (may_check(state@, env.time) && balance is Ok ==> distributable(
            state@.votes,
            state@.proposals,
            funds(balance)->Ok_0,
        )),
        result matches Some(answer) ==> outcome(answer) == check_distributions(
            state@,
            env.time,
            funds(balance),
        ).response,
{
    if !period_ended(env.time, state.proposal_period_end) {
        return Some(Err(invalid_period("post-proposal")));
    }
    let budget = match balance {
        Ok(budget) => budget,
        Err(error) => {
            return Some(Err(error));
        },
    };
    let distributions = match checked_calculate_distributions(
        state.votes.as_slice(),
        &state.proposals,
        &budget,
    ) {
        Some(distributions) => distributions,
        None => {
            return None;
        },
    };
    let response = HandleResponse {
        messages: Vec::new(),
        data: Some(
            ResponseData::CheckDistributions(CheckDistributionsResponse { distributions }),
        ),
    };
    assert(response@.messages =~= Seq::empty());
    Some(Ok(response))
}

/// Computes the distributions without paying anything. Anyone may ask, once
/// the proposal window has closed. `balance` is the host's answer about the
/// funds the round holds: the budget is its first coin, and its failure is
/// handed on.
pub fn try_check_distributions(
    state: &State,
    env: Env,
    _info: MessageInfo,
    balance: Result<Vec<Coin>, ContractError>,
) -> (result: Result<HandleResponse, ContractError>)
    requires
        may_check(state@, env.time) && balance is Ok ==> distributable(
            state@.votes,
            state@.proposals,
            funds(balance)->Ok_0,
        ),
    ensures
        outcome(result) == check_distributions(state@, env.time, funds(balance)).response,
{
    checked_check_distributions(state, env, balance).unwrap()
}

/// Turns distributions into transfers: to each recipient whose share exceeds
/// the cost of a transfer, the share less that cost. A share that does not
/// exceed it is not paid, so no transfer is ever empty.
pub fn send_distributions(distributions: Vec<Distribution>) -> (response: HandleResponse)
    ensures
        response@.messages == transfers(distributions.deep_view(), SEND_COST as nat),
        response@.data is None,
{
    let ghost shares = distributions.deep_view();
    let mut messages: Vec<Transfer> = Vec::new();
    let mut i: usize = 0;
    while i < distributions.len()
        invariant
            i <= distributions.len(),
            shares == distributions.deep_view(),
            messages.deep_view() == transfers(shares.take(i as int), SEND_COST as nat),
        decreases distributions.len() - i,
    {
        let share = &distributions[i];
        proof {
            assert(shares.take(i + 1).drop_last() =~= shares.take(i as int));
        }
        if share.distribution_actual.amount > SEND_COST {
            let transfer = Transfer {
                recipient: share.recipient.clone(),
                amount: Coin {
                    denom: share.distribution_actual.denom.clone(),
                    amount: share.distribution_actual.amount - SEND_COST,
                },
            };
            messages.push(transfer);
        }
        i += 1;
    }
    assert(shares.take(i as int) =~= shares);
    HandleResponse { messages, data: None }
}

/// Has the funds paid out, unless the distributions are asked for and cannot
/// be computed.
fn checked_distribute_funds(
    state: &State,
    env: Env,
    info: MessageInfo,
    balance: Result<Vec<Coin>, ContractError>,
) -> (result: Option<Result<HandleResponse, ContractError>>)
    ensures
        result is Some <==> (may_distribute(state@, env.time, info.sender@) && balance is Ok
            ==> distributable(state@.votes, state@.proposals, funds(balance)->Ok_0)),
        result matches Some(answer) ==> outcome(answer) == distribute_funds(
            state@,
            env.time,
            info.sender@,
            funds(balance),
        ).response,
{
    if !sent_by_owner(state, &info) {
        return Some(Err(unauthorized("admin")));
    }
    if !validate_period(env.time, state.voting_period_end, Some(u64::MAX)) {
        return Some(Err(invalid_period("voting")));
    }
    let budget = match balance {
        Ok(budget) => budget,
        Err(error) => {
            return Some(Err(error));
        },
    };
    let distributions = match checked_calculate_distributions(
        state.votes.as_slice(),
        &state.proposals,
        &budget,
    ) {
        Some(distributions) => distributions,
        None => {
            return None;
        },
    };
    Some(Ok(send_distributions(distributions)))
}

/// Has the funds paid out. Only the owner may, and only once the voting
/// window has closed. `balance` is the host's answer about the funds the
/// round holds: the budget is its first coin, and its failure is handed on.
pub fn try_distribute_funds(
    state: &State,
    env: Env,
    info: MessageInfo,
    balance: Result<Vec<Coin>, ContractError>,
) -> (result: Result<HandleResponse, ContractError>)
    requires
        may_distribute(state@, env.time, info.sender@) && balance is Ok ==> distributable(
            state@.votes,
            state@.proposals,
            funds(balance)->Ok_0,
        ),
    ensures
        outcome(result) == distribute_funds(
            state@,
            env.time,
            info.sender@,
            funds(balance),
        ).response,
{
    checked_distribute_funds(state, env, info, balance).unwrap()
}

/// Carries out one request on the round. A request that is refused leaves
/// the round as it was.
pub fn handle(
    state: &mut State,
    env: Env,
    info: MessageInfo,
    msg: HandleMsg,
    balance: Result<Vec<Coin>, ContractError>,
) -> (result: Result<HandleResponse, ContractError>)
    requires
        in_reach(old(state)@, env.time, info@, msg@, funds(balance)),
    ensures
        final(state)@ == handled(old(state)@, env.time, info@, msg@, funds(balance)).state,
        outcome(result) == handled(old(state)@, env.time, info@, msg@, funds(balance)).response,
        old(state).wf() ==> final(state).wf(),
{
    match msg {
        HandleMsg::StartProposalPeriod { time } => try_start_proposal_period(
            state,
            env,
            info,
            time,
        ),
        HandleMsg::EndProposalPeriod { time } => try_end_proposal_period(state, env, info, time),
        HandleMsg::StartVotingPeriod { time } => try_start_voting_period(state, env, info, time),
        HandleMsg::EndVotingPeriod { time } => try_end_voting_period(state, env, info, time),
        HandleMsg::CreateProposal { name, recipient, description, tags } => try_create_proposal(
            state,
            env,
            info,
            recipient,
            name,
            description,
            tags,
        ),
        HandleMsg::CreateVote { proposal_id } => try_create_vote(state, env, info, proposal_id),
        HandleMsg::CheckDistributions {  } => try_check_distributions(state, env, info, balance),
        HandleMsg::DistributeFunds {  } => try_distribute_funds(state, env, info, balance),
    }
}

/// Carries out one request on the round, unless the request is out of this
/// machine's reach: `None` says so, and the round is then as it was.
pub fn checked_handle(
    state: &mut State,
    env: Env,
    info: MessageInfo,
    msg: HandleMsg,
    balance: Result<Vec<Coin>, ContractError>,
) -> (result: Option<Result<HandleResponse, ContractError>>)
    ensures
        result is Some <==> in_reach(old(state)@, env.time, info@, msg@, funds(balance)),
        result matches Some(answer) ==> {
            &&& final(state)@ == handled(old(state)@, env.time, info@, msg@, funds(balance)).state
            &&& outcome(answer) == handled(
                old(state)@,
                env.time,
                info@,
                msg@,
                funds(balance),
            ).response
        },
        result is None ==> final(state)@ == old(state)@,
        old(state).wf() ==> final(state).wf(),
{
    match msg {
        HandleMsg::CreateProposal { name, recipient, description, tags } => {
            if state.proposals.len() > u32::MAX as usize && sent_by_listed(
                &state.proposer_whitelist,
                &info,
            ) && validate_period(
                env.time,
                state.proposal_period_start,
                state.proposal_period_end,
            ) {
                None
            } else {
                Some(try_create_proposal(state, env, info, recipient, name, description, tags))
            }
        },
        HandleMsg::CheckDistributions {  } => checked_check_distributions(state, env, balance),
        HandleMsg::DistributeFunds {  } => checked_distribute_funds(state, env, info, balance),
        other => Some(handle(state, env, info, other, balance)),
    }
}

/// The display forms that there are, in their order.
fn resolved_human(outcomes: &Vec<Option<HumanAddr>>) -> (list: Vec<HumanAddr>)
    ensures
        list.deep_view() == resolved(outcomes.deep_view()),
{
    let ghost all = outcomes.deep_view();
    let mut list: Vec<HumanAddr> = Vec::new();
    let mut i: usize = 0;
    while i < outcomes.len()
        invariant
            i <= outcomes.len(),
            all == outcomes.deep_view(),
            list.deep_view() == resolved(all.take(i as int)),
        decreases outcomes.len() - i,
    {
        proof {
            assert(all.take(i + 1).drop_last() =~= all.take(i as int));
        }
        match &outcomes[i] {
            Some(address) => {
                list.push(address.clone());
            },
            None => {},
        }
        i += 1;
    }
    assert(all.take(i as int) =~= all);
    list
}

/// The round's configuration. `proposers` and `voters` are the whitelists'
/// entries in display form, `None` where an entry has none; those are left
/// out of the answer.
pub fn query_state(
    state: &State,
    proposers: Vec<Option<HumanAddr>>,
    voters: Vec<Option<HumanAddr>>,
) -> (response: StateResponse)
    ensures
        response@ == state_response(state@, proposers.deep_view(), voters.deep_view()),
{
    StateResponse {
        name: state.name.clone(),
        proposer_whitelist: resolved_human(&proposers),
        voter_whitelist: resolved_human(&voters),
        proposal_period_start: state.proposal_period_start,
        proposal_period_end: state.proposal_period_end,
        voting_period_start: state.voting_period_start,
        voting_period_end: state.voting_period_end,
    }
}

/// All proposals of the round, in the order of their ids.
pub fn query_proposal_list(state: &State) -> (response: ProposalListResponse)
    ensures
        response.proposals.deep_view() == state@.proposals,
{
    let mut proposals: Vec<Proposal> = Vec::new();
    let mut i: usize = 0;
    while i < state.proposals.len()
        invariant
            i <= state.proposals.len(),
            proposals.len() == i,
            forall|j: int| 0 <= j < i ==> proposals[j]@ == state.proposals[j]@,
        decreases state.proposals.len() - i,
    {
        proposals.push(state.proposals[i].clone());
        i += 1;
    }
    ProposalListResponse { proposals }
}

/// One proposal and the votes for it; fails where no proposal has this id.
pub fn query_proposal_state(state: &State, proposal_id: u32) -> (result: Result<
    ProposalStateResponse,
    ContractError,
>)
    ensures
        match result {
            Ok(found) => Ok::<ProposalStateView, ErrorView>(found@),
            Err(error) => Err(error@),
        } == proposal_state(state@, proposal_id),
{
    let ghost asked = state@.proposals;
    let mut found: Option<Proposal> = None;
    let mut i: usize = 0;
    assert(asked.skip(0) =~= asked);
    while i < state.proposals.len() && found.is_none()
        invariant
            i <= state.proposals.len(),
            asked == state.proposals.deep_view(),
            match found {
                Some(proposal) => find_proposal(asked, proposal_id as nat) == Some(proposal@),
                None => find_proposal(asked, proposal_id as nat) == find_proposal(
                    asked.skip(i as int),
                    proposal_id as nat,
                ),
            },
        decreases state.proposals.len() - i + if found is None { 1nat } else { 0nat },
    {
        proof {
            assert(asked.skip(i as int).drop_first() =~= asked.skip(i + 1));
        }
        if state.proposals[i].id == proposal_id {
            found = Some(state.proposals[i].clone());
        } else {
            i += 1;
        }
    }
    let proposal = match found {
        Some(proposal) => proposal,
        None => {
            return Err(ContractError::InvalidProposal { id: proposal_id });
        },
    };
    let ghost all = state@.votes;
    let mut votes: Vec<Vote> = Vec::new();
    let mut i: usize = 0;
    while i < state.votes.len()
        invariant
            i <= state.votes.len(),
            all == state.votes.deep_view(),
            votes.deep_view() == votes_for(all.take(i as int), proposal_id as nat),
        decreases state.votes.len() - i,
    {
        proof {
            broadcast use Seq::lemma_filter_push;

            assert(all.take(i + 1) =~= all.take(i as int).push(state.votes[i as int]@));
        }
        if state.votes[i].proposal == proposal_id {
            votes.push(state.votes[i].clone());
        }
        i += 1;
    }
    assert(all.take(i as int) =~= all);
    Ok(ProposalStateResponse { proposal, votes })
}

/// Answers a query; the round is only read. `proposers` and `voters` are the
/// whitelists' entries in display form, `None` where an entry has none.
pub fn query(
    state: &State,
    _env: Env,
    msg: QueryMsg,
    proposers: Vec<Option<HumanAddr>>,
    voters: Vec<Option<HumanAddr>>,
) -> (result: Result<QueryResponse, ContractError>)
    ensures
        match result {
            Ok(response) => Ok::<QueryResponseView, ErrorView>(response@),
            Err(error) => Err(error@),
        } == queried(state@, msg, proposers.deep_view(), voters.deep_view()),
{
    match msg {
        QueryMsg::GetState {  } => Ok(QueryResponse::State(query_state(state, proposers, voters))),
        QueryMsg::ProposalList {  } => Ok(QueryResponse::ProposalList(query_proposal_list(state))),
        QueryMsg::ProposalState { proposal_id } => match query_proposal_state(
            state,
            proposal_id,
        ) {
            Ok(found) => Ok(QueryResponse::ProposalState(found)),
            Err(error) => Err(error),
        },
    }
}

} // verus!
