use funding_contract::contract::{calculate_distributions, checked_calculate_distributions};
use funding_contract::state::{CanonicalAddr, Coin, Distribution, Proposal, Vote};

fn coin(amount: u128, denom: &str) -> Coin {
    Coin { denom: denom.to_string(), amount }
}

fn vote(voter: u8, proposal: u32, amount: u128, denom: &str) -> Vote {
    Vote { voter: CanonicalAddr(vec![voter; 4]), proposal, amount: vec![coin(amount, denom)] }
}

fn proposal(id: u32) -> Proposal {
    Proposal {
        id,
        name: format!("Proposal {}", id),
        recipient: CanonicalAddr(vec![100 + id as u8; 4]),
        description: String::new(),
        tags: String::new(),
    }
}

fn share(
    id: u32,
    votes: &[u128],
    ideal: u128,
    subsidy_ideal: u128,
    actual: u128,
    subsidy_actual: u128,
    denom: &str,
) -> Distribution {
    Distribution {
        proposal: id,
        recipient: CanonicalAddr(vec![100 + id as u8; 4]),
        votes: votes.iter().map(|amount| coin(*amount, denom)).collect(),
        distribution_ideal: coin(ideal, denom),
        subsidy_ideal: coin(subsidy_ideal, denom),
        distribution_actual: coin(actual, denom),
        subsidy_actual: coin(subsidy_actual, denom),
    }
}

#[test]
fn shares_follow_the_formulas() {
    // Pledges 1 and 4 give roots 1 and 2, an ideal share of 9 and a subsidy
    // of 4; pledges 9 and 16 give roots 3 and 4, 49 and 24. The demand is 28,
    // the budget 50, the factor 1000000 * 28 / 50 = 560000.
    let votes = vec![
        vote(1, 0, 1, "uearth"),
        vote(2, 0, 4, "uearth"),
        vote(3, 1, 9, "uearth"),
        vote(1, 1, 16, "uearth"),
    ];
    let result = calculate_distributions(votes, vec![proposal(0), proposal(1)], vec![coin(50, "ushell")]);
    assert_eq!(
        result,
        vec![
            share(0, &[1, 4], 9, 4, 1_000_000 * 4 / 560_000 + 5, 7, "ushell"),
            share(1, &[9, 16], 49, 24, 1_000_000 * 24 / 560_000 + 25, 42, "ushell"),
        ]
    );
    assert_eq!(result[0].distribution_actual.amount, 12);
    assert_eq!(result[1].distribution_actual.amount, 67);
}

#[test]
fn roots_are_rounded_down() {
    // Roots of 2, 3 and 8 are 1, 1 and 2: the ideal share is 16.
    let votes = vec![vote(1, 0, 2, "uearth"), vote(2, 0, 3, "uearth"), vote(3, 0, 8, "uearth")];
    let result = calculate_distributions(votes, vec![proposal(0)], vec![coin(3, "ushell")]);
    // demand 3, budget 3, factor 1000000: the subsidy is paid as asked.
    assert_eq!(result, vec![share(0, &[2, 3, 8], 16, 3, 16, 3, "ushell")]);
}

#[test]
fn a_proposal_without_votes_has_an_empty_share() {
    let votes = vec![vote(1, 0, 1, "uearth"), vote(2, 0, 4, "uearth")];
    let result =
        calculate_distributions(votes, vec![proposal(0), proposal(1), proposal(2)], vec![coin(8, "ushell")]);
    assert_eq!(result.len(), 3);
    assert_eq!(result[1], share(1, &[], 0, 0, 0, 0, "ushell"));
    assert_eq!(result[2], share(2, &[], 0, 0, 0, 0, "ushell"));
    // demand 4, budget 8, factor 500000: the subsidy of 4 is paid as 8.
    assert_eq!(result[0], share(0, &[1, 4], 9, 4, 13, 8, "ushell"));
}

#[test]
fn no_proposals_no_shares() {
    let votes = vec![vote(1, 0, 1, "uearth")];
    assert_eq!(calculate_distributions(votes, Vec::new(), vec![coin(8, "ushell")]), Vec::new());
}

#[test]
fn no_votes_every_share_empty() {
    let result =
        calculate_distributions(Vec::new(), vec![proposal(0), proposal(1)], vec![coin(8, "shell")]);
    assert_eq!(
        result,
        vec![share(0, &[], 0, 0, 0, 0, "ushell"), share(1, &[], 0, 0, 0, 0, "ushell")]
    );
}

#[test]
fn a_single_pledge_asks_for_nothing() {
    // The root of 10 is 3: the ideal share of 9 is less than the pledge.
    let result =
        calculate_distributions(vec![vote(1, 0, 10, "uearth")], vec![proposal(0)], vec![coin(50, "ushell")]);
    assert_eq!(result, vec![share(0, &[10], 9, 0, 10, 0, "ushell")]);
}

#[test]
fn without_demand_shares_are_the_pledges() {
    // Every proposal has one voter, so nothing is asked for and the factor
    // is zero.
    let votes = vec![vote(1, 0, 16, "uearth"), vote(2, 1, 25, "uearth")];
    let result = calculate_distributions(votes, vec![proposal(0), proposal(1)], vec![coin(50, "ushell")]);
    assert_eq!(
        result,
        vec![share(0, &[16], 16, 0, 16, 0, "ushell"), share(1, &[25], 25, 0, 25, 0, "ushell")]
    );
}

#[test]
fn without_budget_shares_are_the_pledges() {
    let votes = vec![vote(1, 0, 1, "uearth"), vote(2, 0, 4, "uearth")];
    let result = calculate_distributions(votes, vec![proposal(0)], vec![coin(0, "ushell")]);
    assert_eq!(result, vec![share(0, &[1, 4], 9, 4, 5, 0, "ushell")]);
}

#[test]
fn a_demand_too_small_for_the_budget_is_not_scaled() {
    // demand 4, budget 4000001: the factor 4000000 / 4000001 is zero.
    let votes = vec![vote(1, 0, 1, "uearth"), vote(2, 0, 4, "uearth")];
    let result = calculate_distributions(votes.clone(), vec![proposal(0)], vec![coin(4_000_001, "ushell")]);
    assert_eq!(result, vec![share(0, &[1, 4], 9, 4, 5, 0, "ushell")]);
    // budget 4000000: the factor is one, and the subsidy a million times 4.
    let result = calculate_distributions(votes, vec![proposal(0)], vec![coin(4_000_000, "ushell")]);
    assert_eq!(result, vec![share(0, &[1, 4], 9, 4, 4_000_005, 4_000_000, "ushell")]);
}

#[test]
fn a_budget_in_whole_units_is_scaled() {
    let votes = vec![vote(1, 0, 1, "uearth"), vote(2, 0, 4, "uearth")];
    let whole = calculate_distributions(votes.clone(), vec![proposal(0)], vec![coin(2, "shell")]);
    let minor = calculate_distributions(votes, vec![proposal(0)], vec![coin(2_000_000, "ushell")]);
    assert_eq!(whole, minor);
    // factor 1000000 * 4 / 2000000 = 2
    assert_eq!(whole, vec![share(0, &[1, 4], 9, 4, 2_000_005, 2_000_000, "ushell")]);
}

#[test]
fn only_the_first_coin_of_the_budget_counts() {
    let votes = vec![vote(1, 0, 1, "uearth"), vote(2, 0, 4, "uearth")];
    let one = calculate_distributions(votes.clone(), vec![proposal(0)], vec![coin(8, "ushell")]);
    let two = calculate_distributions(
        votes,
        vec![proposal(0)],
        vec![coin(8, "ushell"), coin(1_000, "umars")],
    );
    assert_eq!(one, two);
}

#[test]
fn shares_are_named_after_the_budget() {
    let votes = vec![vote(1, 0, 1, "earth")];
    let result = calculate_distributions(votes, vec![proposal(0)], vec![coin(8, "shell")]);
    assert_eq!(result, vec![share(0, &[1_000_000], 1_000_000, 0, 1_000_000, 0, "ushell")]);
}

#[test]
fn repeated_pledges_count_once_with_their_sum() {
    // 3 and 6 by one voter count as 9, with root 3, not as roots 1 and 2.
    let votes = vec![vote(1, 0, 3, "uearth"), vote(2, 0, 16, "uearth"), vote(1, 0, 6, "uearth")];
    let result = calculate_distributions(votes, vec![proposal(0)], vec![coin(24, "ushell")]);
    // ideal (3 + 4)^2 = 49, pledges 25, demand 24, factor 1000000.
    assert_eq!(result, vec![share(0, &[9, 16], 49, 24, 49, 24, "ushell")]);
}

#[test]
fn proposals_are_matched_by_id_not_by_position() {
    let votes = vec![vote(1, 7, 4, "uearth"), vote(2, 7, 4, "uearth"), vote(1, 3, 9, "uearth")];
    let result = calculate_distributions(votes, vec![proposal(3), proposal(7)], vec![coin(8, "ushell")]);
    // proposal 7: ideal 16, pledges 8, subsidy 8; factor 1000000.
    assert_eq!(
        result,
        vec![share(3, &[9], 9, 0, 9, 0, "ushell"), share(7, &[4, 4], 16, 8, 16, 8, "ushell")]
    );
}

#[test]
fn the_same_round_gives_the_same_shares() {
    let votes = vec![
        vote(1, 0, 1, "earth"),
        vote(2, 0, 4, "earth"),
        vote(3, 1, 9, "earth"),
        vote(1, 1, 16, "earth"),
    ];
    let proposals = vec![proposal(0), proposal(1)];
    let budget = vec![coin(50, "shell")];
    let first = calculate_distributions(votes.clone(), proposals.clone(), budget.clone());
    let second = calculate_distributions(votes, proposals, budget);
    assert_eq!(first, second);
}

#[test]
fn checked_distributions_agree_where_all_fits() {
    let votes = vec![vote(1, 0, 1, "earth"), vote(2, 0, 4, "earth")];
    let proposals = vec![proposal(0)];
    let budget = vec![coin(50, "shell")];
    assert_eq!(
        checked_calculate_distributions(&votes, &proposals, &budget),
        Some(calculate_distributions(votes.clone(), proposals.clone(), budget.clone()))
    );
}

#[test]
fn checked_distributions_need_a_budget() {
    let votes = vec![vote(1, 0, 1, "earth")];
    assert_eq!(checked_calculate_distributions(&votes, &vec![proposal(0)], &Vec::new()), None);
}

#[test]
fn checked_distributions_need_funded_votes() {
    let votes = vec![Vote { voter: CanonicalAddr(vec![1; 4]), proposal: 0, amount: Vec::new() }];
    assert_eq!(
        checked_calculate_distributions(&votes, &vec![proposal(0)], &vec![coin(1, "ushell")]),
        None
    );
}

#[test]
fn checked_distributions_refuse_a_budget_beyond_u128() {
    let votes = vec![vote(1, 0, 1, "uearth")];
    assert_eq!(
        checked_calculate_distributions(&votes, &vec![proposal(0)], &vec![coin(u128::MAX, "shell")]),
        None
    );
    assert!(checked_calculate_distributions(
        &votes,
        &vec![proposal(0)],
        &vec![coin(u128::MAX, "ushell")]
    )
    .is_some());
}

#[test]
fn checked_distributions_refuse_an_ideal_share_beyond_u128() {
    // Two pledges of 2^126 have roots of 2^63 each; the square of their sum
    // is 2^128.
    let votes = vec![vote(1, 0, 1 << 126, "uearth"), vote(2, 0, 1 << 126, "uearth")];
    assert_eq!(
        checked_calculate_distributions(&votes, &vec![proposal(0)], &vec![coin(1, "ushell")]),
        None
    );
    // Nobody asks about proposal 0: nothing is squared.
    assert!(checked_calculate_distributions(&votes, &vec![proposal(1)], &vec![coin(1, "ushell")])
        .is_some());
}

#[test]
fn checked_distributions_refuse_a_scaled_demand_beyond_u128() {
    // Pledges of 2^124 and 2^124: roots 2^62 each, ideal 2^126, pledges
    // 2^125, demand 2^125; a million times that is beyond u128.
    let votes = vec![vote(1, 0, 1 << 124, "uearth"), vote(2, 0, 1 << 124, "uearth")];
    assert_eq!(
        checked_calculate_distributions(&votes, &vec![proposal(0)], &vec![coin(1, "ushell")]),
        None
    );
}

#[test]
fn checked_distributions_refuse_a_share_beyond_u128() {
    // Two pledges of the square of 13043817825332782: the ideal share is
    // four such squares, the pledges are two, the demand is two. A million
    // demands still are a u128; at a budget of just that the factor is one,
    // and a million subsidies and the pledges are no u128.
    let root: u128 = 13_043_817_825_332_782;
    let pledge = root * root;
    let votes = vec![vote(1, 0, pledge, "uearth"), vote(2, 0, pledge, "uearth")];
    let scaled_demand = 1_000_000 * (2 * pledge);
    assert_eq!(
        checked_calculate_distributions(&votes, &vec![proposal(0)], &vec![coin(scaled_demand, "ushell")]),
        None
    );
    // At half that budget the factor is two, and all is well.
    let halved = checked_calculate_distributions(
        &votes,
        &vec![proposal(0)],
        &vec![coin(scaled_demand / 2, "ushell")],
    )
    .unwrap();
    assert_eq!(halved[0].distribution_ideal.amount, 4 * pledge);
    assert_eq!(halved[0].subsidy_ideal.amount, 2 * pledge);
    assert_eq!(halved[0].distribution_actual.amount, 500_000 * (2 * pledge) + 2 * pledge);
    assert_eq!(halved[0].subsidy_actual.amount, 500_000 * (2 * pledge));
}
