use consultation::Decimal;
use consultation::DelegationError;
use consultation::VoteDelegation;

const OWNER_BADGE: u64 = 1;
const FAR_FUTURE: i64 = i64::MAX / 2;

fn frac(thousandths: u64) -> Decimal {
    Decimal::from_thousandths(thousandths)
}

#[test]
fn test_vote_delegation_instantiate() {
    let delegation = VoteDelegation::instantiate(OWNER_BADGE);
    assert!(delegation.get_delegations(10).is_empty());
    assert_eq!(delegation.get_delegatee_delegators(20, 10), None);
}

#[test]
fn test_make_delegation() {
    let mut delegation = VoteDelegation::instantiate(OWNER_BADGE);
    let delegator: u64 = 10;
    let delegatee: u64 = 20;

    delegation
        .make_delegation(delegator, delegatee, frac(500), FAR_FUTURE, 0)
        .unwrap();

    assert_eq!(
        delegation.get_delegatee_delegators(delegatee, delegator),
        Some(frac(500))
    );
}

#[test]
fn test_remove_delegation() {
    let mut delegation = VoteDelegation::instantiate(OWNER_BADGE);
    let delegator: u64 = 10;
    let delegatee: u64 = 20;

    delegation
        .make_delegation(delegator, delegatee, frac(500), FAR_FUTURE, 0)
        .unwrap();
    delegation.remove_delegation(delegator, delegatee, 0).unwrap();

    assert_eq!(delegation.get_delegatee_delegators(delegatee, delegator), None);
    assert!(delegation.get_delegations(delegator).is_empty());
}

#[test]
fn test_cannot_delegate_more_than_100_percent() {
    let mut delegation = VoteDelegation::instantiate(OWNER_BADGE);
    let delegator: u64 = 10;

    // First delegation of 60%
    delegation
        .make_delegation(delegator, 20, frac(600), FAR_FUTURE, 0)
        .unwrap();

    // Second delegation of 50% should fail (60% + 50% > 100%)
    let second = delegation.make_delegation(delegator, 30, frac(500), FAR_FUTURE, 0);
    assert_eq!(second.unwrap_err(), DelegationError::AllocationExceeded);
}

#[test]
fn test_cannot_delegate_to_self() {
    let mut delegation = VoteDelegation::instantiate(OWNER_BADGE);
    let r = delegation.make_delegation(10, 10, frac(500), FAR_FUTURE, 0);
    assert_eq!(r.unwrap_err(), DelegationError::SelfDelegation);
}

#[test]
fn test_delegation_minimum_fraction() {
    let mut delegation = VoteDelegation::instantiate(OWNER_BADGE);

    // Less than the minimum (0.005 < 0.01) fails
    let below = delegation.make_delegation(10, 20, frac(5), FAR_FUTURE, 0);
    assert_eq!(below.unwrap_err(), DelegationError::InvalidFraction);

    // Exactly the minimum (0.01) succeeds
    delegation.make_delegation(10, 20, frac(10), FAR_FUTURE, 0).unwrap();
}

#[test]
fn test_fraction_just_below_minimum() {
    // 0.009 is below the 0.01 minimum
    let mut delegation = VoteDelegation::instantiate(OWNER_BADGE);
    let r = delegation.make_delegation(10, 20, frac(9), FAR_FUTURE, 0);
    assert_eq!(r.unwrap_err(), DelegationError::InvalidFraction);
}

#[test]
fn test_fraction_above_one() {
    let mut delegation = VoteDelegation::instantiate(OWNER_BADGE);
    let r = delegation.make_delegation(10, 20, frac(1_001), FAR_FUTURE, 0);
    assert_eq!(r.unwrap_err(), DelegationError::InvalidFraction);
}

#[test]
fn test_expiry_must_be_in_the_future() {
    let mut delegation = VoteDelegation::instantiate(OWNER_BADGE);
    let at_now = delegation.make_delegation(10, 20, frac(500), 1_000, 1_000);
    assert_eq!(at_now.unwrap_err(), DelegationError::InvalidExpiry);
    let in_past = delegation.make_delegation(10, 20, frac(500), 999, 1_000);
    assert_eq!(in_past.unwrap_err(), DelegationError::InvalidExpiry);
}

#[test]
fn test_allocation_boundary_is_inclusive() {
    // 0.6 to B, then 0.5 to C fails, but 0.4 to C reaches 1.0 exactly.
    let mut delegation = VoteDelegation::instantiate(OWNER_BADGE);
    let a: u64 = 10;
    let b: u64 = 20;
    let c: u64 = 30;

    delegation.make_delegation(a, b, frac(600), FAR_FUTURE, 0).unwrap();

    let too_much = delegation.make_delegation(a, c, frac(500), FAR_FUTURE, 0);
    assert_eq!(too_much.unwrap_err(), DelegationError::AllocationExceeded);

    delegation.make_delegation(a, c, frac(400), FAR_FUTURE, 0).unwrap();
    assert_eq!(delegation.get_delegatee_delegators(b, a), Some(frac(600)));
    assert_eq!(delegation.get_delegatee_delegators(c, a), Some(frac(400)));
}

#[test]
fn test_redelegation_replaces_previous_entry() {
    let mut delegation = VoteDelegation::instantiate(OWNER_BADGE);
    let delegator: u64 = 10;
    let delegatee: u64 = 20;

    delegation
        .make_delegation(delegator, delegatee, frac(300), FAR_FUTURE, 0)
        .unwrap();
    delegation
        .make_delegation(delegator, delegatee, frac(700), FAR_FUTURE, 0)
        .unwrap();

    let list = delegation.get_delegations(delegator);
    assert_eq!(list.len(), 1);
    assert_eq!(list[0].delegatee, delegatee);
    assert_eq!(list[0].fraction, frac(700));
    assert_eq!(
        delegation.get_delegatee_delegators(delegatee, delegator),
        Some(frac(700))
    );

    // The replacement does not add up: 0.7 stored, so 0.3 more still fits.
    delegation.make_delegation(delegator, 30, frac(300), FAR_FUTURE, 0).unwrap();
}

#[test]
fn test_expired_entries_cleaned_on_next_delegation() {
    let mut delegation = VoteDelegation::instantiate(OWNER_BADGE);
    let a: u64 = 10;
    let b: u64 = 20;
    let c: u64 = 30;

    delegation.make_delegation(a, b, frac(600), 100, 0).unwrap();

    // Before any cleanup the expired entry is still reported on both paths.
    assert_eq!(delegation.get_delegatee_delegators(b, a), Some(frac(600)));
    assert_eq!(delegation.get_delegations(a).len(), 1);

    // The next delegation by the same delegator, after expiry, drops it from
    // both indexes — and the expired 0.6 no longer counts against the sum.
    delegation.make_delegation(a, c, frac(900), FAR_FUTURE, 200).unwrap();

    assert_eq!(delegation.get_delegatee_delegators(b, a), None);
    let list = delegation.get_delegations(a);
    assert_eq!(list.len(), 1);
    assert_eq!(list[0].delegatee, c);
}

#[test]
fn test_expired_entries_cleaned_on_removal() {
    let mut delegation = VoteDelegation::instantiate(OWNER_BADGE);
    let a: u64 = 10;
    let b: u64 = 20;
    let c: u64 = 30;

    delegation.make_delegation(a, b, frac(300), 100, 0).unwrap();
    delegation.make_delegation(a, c, frac(300), FAR_FUTURE, 0).unwrap();

    // Removing the still-valid delegation to C after B's expiry also cleans
    // up B's expired entry.
    delegation.remove_delegation(a, c, 200).unwrap();

    assert_eq!(delegation.get_delegatee_delegators(b, a), None);
    assert_eq!(delegation.get_delegatee_delegators(c, a), None);
    assert!(delegation.get_delegations(a).is_empty());
}

#[test]
fn test_removing_expired_target_succeeds() {
    let mut delegation = VoteDelegation::instantiate(OWNER_BADGE);

    delegation.make_delegation(10, 20, frac(300), 100, 0).unwrap();

    // The entry has expired, but it still counts as found and is removed.
    delegation.remove_delegation(10, 20, 200).unwrap();
    assert_eq!(delegation.get_delegatee_delegators(20, 10), None);
    assert!(delegation.get_delegations(10).is_empty());
}

#[test]
fn test_remove_delegation_errors() {
    let mut delegation = VoteDelegation::instantiate(OWNER_BADGE);

    // No record at all for this delegator
    let unknown = delegation.remove_delegation(10, 20, 0);
    assert_eq!(unknown.unwrap_err(), DelegationError::NotFound);

    delegation.make_delegation(10, 20, frac(500), FAR_FUTURE, 0).unwrap();

    // A record exists, but no entry aimed at this delegatee
    let wrong_target = delegation.remove_delegation(10, 30, 0);
    assert_eq!(wrong_target.unwrap_err(), DelegationError::DelegationNotFound);

    // A failed removal left the record untouched
    assert_eq!(delegation.get_delegatee_delegators(20, 10), Some(frac(500)));
}

#[test]
fn test_delegation_count_limit() {
    let mut delegation = VoteDelegation::instantiate(OWNER_BADGE);
    let delegator: u64 = 10;

    // 50 delegations of 0.01 each (sum 0.5) fill the count limit.
    for n in 0..50u64 {
        delegation
            .make_delegation(delegator, 100 + n, frac(10), FAR_FUTURE, 0)
            .unwrap();
    }
    assert_eq!(delegation.get_delegations(delegator).len(), 50);

    let one_more = delegation.make_delegation(delegator, 999, frac(10), FAR_FUTURE, 0);
    assert_eq!(one_more.unwrap_err(), DelegationError::TooManyDelegations);

    // Replacing an existing delegatee is still allowed at the limit.
    delegation.make_delegation(delegator, 100, frac(20), FAR_FUTURE, 0).unwrap();
    assert_eq!(delegation.get_delegations(delegator).len(), 50);
}

#[test]
fn test_failed_delegation_changes_nothing() {
    let mut delegation = VoteDelegation::instantiate(OWNER_BADGE);
    let a: u64 = 10;
    let b: u64 = 20;
    let c: u64 = 30;

    delegation.make_delegation(a, b, frac(600), 100, 0).unwrap();

    // This attempt fails on the fraction check at instant 200; the expired
    // entry to B must survive, because cleanup only commits with success.
    let bad = delegation.make_delegation(a, c, frac(5), FAR_FUTURE, 200);
    assert_eq!(bad.unwrap_err(), DelegationError::InvalidFraction);
    assert_eq!(delegation.get_delegatee_delegators(b, a), Some(frac(600)));
    assert_eq!(delegation.get_delegations(a).len(), 1);
}

#[test]
fn test_delegation_event_contents() {
    let mut delegation = VoteDelegation::instantiate(OWNER_BADGE);

    let created = delegation.make_delegation(10, 20, frac(250), 5_000, 0).unwrap();
    assert_eq!(created.delegator, 10);
    assert_eq!(created.delegatee, 20);
    assert_eq!(created.fraction, frac(250));
    assert_eq!(created.valid_until, 5_000);

    let removed = delegation.remove_delegation(10, 20, 0).unwrap();
    assert_eq!(removed.delegator, 10);
    assert_eq!(removed.delegatee, 20);
}

#[test]
fn test_decimal_from_thousandths() {
    assert_eq!(Decimal::from_thousandths(500).attos, 500_000_000_000_000_000);
    assert_eq!(Decimal::from_thousandths(10).attos, 10_000_000_000_000_000);
    assert_eq!(Decimal::from_thousandths(1_000).attos, 1_000_000_000_000_000_000);
    assert_eq!(Decimal::zero().attos, 0);
    assert_eq!(Decimal::one(), Decimal::from_thousandths(1_000));
}

#[test]
fn test_delegations_are_independent_per_delegator() {
    let mut delegation = VoteDelegation::instantiate(OWNER_BADGE);

    // Two delegators may each allocate their full weight to the same
    // delegatee.
    delegation.make_delegation(10, 30, frac(1_000), FAR_FUTURE, 0).unwrap();
    delegation.make_delegation(20, 30, frac(1_000), FAR_FUTURE, 0).unwrap();

    assert_eq!(delegation.get_delegatee_delegators(30, 10), Some(frac(1_000)));
    assert_eq!(delegation.get_delegatee_delegators(30, 20), Some(frac(1_000)));

    // One delegator's cleanup never touches the other's entries.
    delegation.remove_delegation(10, 30, 0).unwrap();
    assert_eq!(delegation.get_delegatee_delegators(30, 10), None);
    assert_eq!(delegation.get_delegatee_delegators(30, 20), Some(frac(1_000)));
}
