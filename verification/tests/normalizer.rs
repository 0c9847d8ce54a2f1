use funding_contract::contract::{checked_normalized_votes, get_normalized_votes, is_coin_micro};
use funding_contract::state::{CanonicalAddr, Coin, Vote};

fn pledge(voter: u8, proposal: u32, amount: u128, denom: &str) -> Vote {
    Vote {
        voter: CanonicalAddr(vec![voter; 4]),
        proposal,
        amount: vec![Coin { denom: denom.to_string(), amount }],
    }
}

fn minor(amount: u128, denom: &str) -> Vec<Coin> {
    vec![Coin { denom: denom.to_string(), amount }]
}

#[test]
fn minor_unit_denominations_start_with_u() {
    assert!(is_coin_micro("uearth"));
    assert!(is_coin_micro("u"));
    assert!(!is_coin_micro("earth"));
    assert!(!is_coin_micro("Uearth"));
    assert!(!is_coin_micro(""));
    assert!(!is_coin_micro("eu"));
}

#[test]
fn minor_unit_pledge_counts_as_it_is() {
    let ledger = get_normalized_votes(&[pledge(1, 0, 17, "uearth")]);
    assert_eq!(ledger, vec![pledge(1, 0, 17, "uearth")]);
}

#[test]
fn whole_unit_pledge_is_scaled_and_prefixed() {
    let ledger = get_normalized_votes(&[pledge(1, 0, 17, "earth")]);
    assert_eq!(ledger, vec![pledge(1, 0, 17_000_000, "uearth")]);
}

#[test]
fn pledges_of_one_pair_add_up() {
    let votes = vec![
        pledge(1, 3, 5, "uearth"),
        pledge(1, 3, 7, "uearth"),
        pledge(1, 3, 11, "uearth"),
        pledge(1, 3, 13, "uearth"),
    ];
    let ledger = get_normalized_votes(&votes);
    assert_eq!(ledger, vec![pledge(1, 3, 36, "uearth")]);
}

#[test]
fn pledges_of_one_pair_add_up_across_units() {
    let votes = vec![pledge(1, 3, 5, "uearth"), pledge(1, 3, 2, "earth")];
    let ledger = get_normalized_votes(&votes);
    assert_eq!(ledger, vec![pledge(1, 3, 2_000_005, "uearth")]);
}

#[test]
fn pairs_stand_in_order_of_first_appearance() {
    let votes = vec![
        pledge(2, 1, 1, "uearth"),
        pledge(1, 1, 2, "uearth"),
        pledge(2, 0, 4, "uearth"),
        pledge(1, 1, 8, "uearth"),
        pledge(2, 1, 16, "uearth"),
    ];
    let ledger = get_normalized_votes(&votes);
    assert_eq!(
        ledger,
        vec![pledge(2, 1, 17, "uearth"), pledge(1, 1, 10, "uearth"), pledge(2, 0, 4, "uearth")]
    );
}

#[test]
fn same_voter_on_two_proposals_stays_apart() {
    let votes = vec![pledge(1, 0, 3, "uearth"), pledge(1, 1, 4, "uearth")];
    assert_eq!(get_normalized_votes(&votes), votes);
}

#[test]
fn two_voters_on_one_proposal_stay_apart() {
    let votes = vec![pledge(1, 0, 3, "uearth"), pledge(2, 0, 4, "uearth")];
    assert_eq!(get_normalized_votes(&votes), votes);
}

#[test]
fn entry_takes_the_denomination_of_the_latest_pledge() {
    let votes = vec![pledge(1, 0, 3, "earth"), pledge(1, 0, 4, "umars")];
    assert_eq!(get_normalized_votes(&votes), vec![pledge(1, 0, 3_000_004, "umars")]);
}

#[test]
fn only_the_first_coin_of_a_pledge_counts() {
    let mut vote = pledge(1, 0, 3, "uearth");
    vote.amount.push(Coin { denom: "umars".to_string(), amount: 100 });
    assert_eq!(get_normalized_votes(&[vote]), vec![pledge(1, 0, 3, "uearth")]);
}

#[test]
fn empty_ledger_normalizes_to_nothing() {
    assert_eq!(get_normalized_votes(&[]), Vec::<Vote>::new());
    assert_eq!(checked_normalized_votes(&[]), Some(Vec::new()));
}

#[test]
fn checked_normalizer_agrees_where_all_fits() {
    let votes = vec![pledge(1, 0, 3, "earth"), pledge(1, 0, 4, "earth"), pledge(2, 0, 1, "uearth")];
    assert_eq!(checked_normalized_votes(&votes), Some(get_normalized_votes(&votes)));
}

#[test]
fn checked_normalizer_refuses_a_pledge_without_funds() {
    let votes = vec![
        pledge(1, 0, 3, "earth"),
        Vote { voter: CanonicalAddr(vec![2; 4]), proposal: 0, amount: Vec::new() },
    ];
    assert_eq!(checked_normalized_votes(&votes), None);
}

#[test]
fn checked_normalizer_refuses_a_quantity_beyond_u128() {
    assert_eq!(checked_normalized_votes(&[pledge(1, 0, u128::MAX, "earth")]), None);
    assert_eq!(
        checked_normalized_votes(&[pledge(1, 0, u128::MAX, "uearth")]),
        Some(vec![pledge(1, 0, u128::MAX, "uearth")])
    );
    let largest = u128::MAX / 1_000_000;
    assert_eq!(
        checked_normalized_votes(&[pledge(1, 0, largest, "earth")]),
        Some(vec![pledge(1, 0, largest * 1_000_000, "uearth")])
    );
    assert_eq!(checked_normalized_votes(&[pledge(1, 0, largest + 1, "earth")]), None);
}

#[test]
fn checked_normalizer_refuses_a_total_beyond_u128() {
    let votes = vec![pledge(1, 0, u128::MAX, "uearth"), pledge(1, 0, 1, "uearth")];
    assert_eq!(checked_normalized_votes(&votes), None);
    let apart = vec![pledge(1, 0, u128::MAX, "uearth"), pledge(2, 0, 1, "uearth")];
    assert_eq!(checked_normalized_votes(&apart), Some(apart.clone()));
}

#[test]
fn normalizing_twice_changes_nothing_more() {
    let votes = vec![pledge(1, 0, 3, "earth"), pledge(1, 0, 4, "earth"), pledge(2, 1, 1, "uearth")];
    let once = get_normalized_votes(&votes);
    assert_eq!(get_normalized_votes(&once), once);
    assert_eq!(once[0].amount, minor(7_000_000, "uearth"));
}
