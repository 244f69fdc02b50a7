//! Scenario and edge-case coverage: validation errors, funding caps,
//! maturity gating, return claims, indexes and derived statistics.

use agrocoin::{AgroCoinContract, Error, Principal};

const MONTH: u64 = 30 * 24 * 3600;

fn new_initialized() -> (AgroCoinContract, Principal) {
    let mut c = AgroCoinContract::new();
    let admin = Principal(1);
    c.initialize(admin, true).unwrap();
    (c, admin)
}

fn standard_project(c: &mut AgroCoinContract, owner: Principal) -> u64 {
    c.create_project(
        owner,
        true,
        "Granja".to_string(),
        "Riego por goteo".to_string(),
        1000000i128,
        10000i128,
        1800u32,
        12u32,
        50,
    )
    .unwrap()
}

#[test]
fn initialize_twice_fails() {
    let (mut c, admin) = new_initialized();
    assert_eq!(c.initialize(admin, true), Err(Error::AlreadyInitialized));
    assert_eq!(c.initialize(Principal(9), true), Err(Error::AlreadyInitialized));
}

#[test]
fn initialize_unauthorized_fails() {
    let mut c = AgroCoinContract::new();
    assert_eq!(c.initialize(Principal(1), false), Err(Error::Unauthorized));
    assert!(c.initialize(Principal(1), true).is_ok());
}

#[test]
fn create_project_validates_each_parameter() {
    let (mut c, _admin) = new_initialized();
    let owner = Principal(2);
    let name = || "n".to_string();
    let desc = || "d".to_string();
    assert_eq!(
        c.create_project(owner, false, name(), desc(), 1000, 10, 100, 12, 0),
        Err(Error::Unauthorized)
    );
    assert_eq!(
        c.create_project(owner, true, name(), desc(), 0, 10, 100, 12, 0),
        Err(Error::InvalidParameter)
    );
    assert_eq!(
        c.create_project(owner, true, name(), desc(), -5, 10, 100, 12, 0),
        Err(Error::InvalidParameter)
    );
    assert_eq!(
        c.create_project(owner, true, name(), desc(), 1000, 0, 100, 12, 0),
        Err(Error::InvalidParameter)
    );
    assert_eq!(
        c.create_project(owner, true, name(), desc(), 1000, 1001, 100, 12, 0),
        Err(Error::InvalidParameter)
    );
    assert_eq!(
        c.create_project(owner, true, name(), desc(), 1000, 10, 10001, 12, 0),
        Err(Error::InvalidParameter)
    );
    assert_eq!(
        c.create_project(owner, true, name(), desc(), 1000, 10, 100, 0, 0),
        Err(Error::InvalidParameter)
    );
    assert_eq!(
        c.create_project(owner, true, name(), desc(), 1000, 10, 100, 61, 0),
        Err(Error::InvalidParameter)
    );
    // Nothing was allocated by the failed attempts.
    assert_eq!(c.get_project_count(), 0);
    let id = c.create_project(owner, true, name(), desc(), 1000, 10, 10000, 60, 7).unwrap();
    assert_eq!(id, 1);
    let p = c.get_project(1).unwrap();
    assert_eq!(p.created_at, 7);
    assert_eq!(p.min_investment, 10);
}

#[test]
fn project_ids_are_sequential() {
    let (mut c, _admin) = new_initialized();
    let a = Principal(2);
    let b = Principal(3);
    assert_eq!(standard_project(&mut c, a), 1);
    assert_eq!(standard_project(&mut c, b), 2);
    assert_eq!(standard_project(&mut c, a), 3);
    assert_eq!(c.get_project_count(), 3);
    assert_eq!(c.get_user_projects(a), vec![1, 3]);
    assert_eq!(c.get_user_projects(b), vec![2]);
    assert_eq!(c.get_user_projects(Principal(99)), Vec::<u64>::new());
}

#[test]
fn invest_half_then_full() {
    let (mut c, _admin) = new_initialized();
    let pid = standard_project(&mut c, Principal(2));
    let investor = Principal(3);

    c.invest(investor, true, pid, 500000, 100).unwrap();
    assert_eq!(c.get_project(pid).unwrap().current_funding, 500000);
    assert_eq!(c.get_project(pid).unwrap().is_funded, false);
    assert_eq!(c.get_investment(investor, pid).unwrap().amount, 500000);

    c.invest(investor, true, pid, 500000, 200).unwrap();
    assert_eq!(c.get_project(pid).unwrap().current_funding, 1000000);
    assert_eq!(c.get_project(pid).unwrap().is_funded, true);
    let inv = c.get_investment(investor, pid).unwrap();
    assert_eq!(inv.amount, 1000000);
    // The maturity anchor stays at the first contribution's time.
    assert_eq!(inv.timestamp, 100);
    assert_eq!(inv.claimed_returns, 0);
}

#[test]
fn invest_validation_errors() {
    let (mut c, admin) = new_initialized();
    let pid = standard_project(&mut c, Principal(2));
    let investor = Principal(3);

    assert_eq!(c.invest(investor, false, pid, 50000, 0), Err(Error::Unauthorized));
    assert_eq!(c.invest(investor, true, pid, 0, 0), Err(Error::InvalidParameter));
    assert_eq!(c.invest(investor, true, pid, -3, 0), Err(Error::InvalidParameter));
    assert_eq!(c.invest(investor, true, 2, 50000, 0), Err(Error::NotFound));
    assert_eq!(c.invest(investor, true, 0, 50000, 0), Err(Error::NotFound));
    assert_eq!(c.invest(investor, true, pid, 9999, 0), Err(Error::BelowMinimum));
    // The minimum applies to each contribution, not the running aggregate.
    c.invest(investor, true, pid, 10000, 0).unwrap();
    assert_eq!(c.invest(investor, true, pid, 9999, 0), Err(Error::BelowMinimum));
    assert_eq!(c.invest(investor, true, pid, 990001, 0), Err(Error::ExceedsGoal));
    // Exactly the remaining capacity is accepted.
    c.invest(investor, true, pid, 990000, 0).unwrap();
    assert_eq!(c.get_project(pid).unwrap().is_funded, true);
    assert_eq!(c.invest(investor, true, pid, 10000, 0), Err(Error::AlreadyFunded));

    let pid2 = standard_project(&mut c, Principal(2));
    c.pause_project(admin, true, pid2).unwrap();
    assert_eq!(c.invest(investor, true, pid2, 50000, 0), Err(Error::InactiveProject));
}

#[test]
fn rejected_investment_changes_nothing() {
    let (mut c, _admin) = new_initialized();
    let pid = standard_project(&mut c, Principal(2));
    let investor = Principal(3);

    assert_eq!(c.invest(investor, true, pid, 1500000, 0), Err(Error::ExceedsGoal));
    assert_eq!(c.get_project(pid).unwrap().current_funding, 0);
    assert!(c.get_investment(investor, pid).is_err());
    assert_eq!(c.get_user_investments(investor), Vec::<u64>::new());
}

#[test]
fn claim_flow_and_gates() {
    let (mut c, _admin) = new_initialized();
    let pid = standard_project(&mut c, Principal(2));
    let investor = Principal(3);

    c.invest(investor, true, pid, 500000, 1000).unwrap();
    assert_eq!(c.claim_returns(investor, true, pid, 2000), Err(Error::NotYetFunded));

    c.invest(investor, true, pid, 500000, 2000).unwrap();
    // Funded, but not yet mature: 12 months must pass since the *first*
    // contribution.
    assert_eq!(
        c.claim_returns(investor, true, pid, 1000 + 12 * MONTH - 1),
        Err(Error::DurationNotComplete)
    );
    // 18.00 % of the aggregate 1,000,000.
    assert_eq!(c.claim_returns(investor, true, pid, 1000 + 12 * MONTH), Ok(180000));
    let inv = c.get_investment(investor, pid).unwrap();
    assert_eq!(inv.claimed_returns, 180000);
    // Immediately afterwards nothing new is available.
    assert_eq!(
        c.claim_returns(investor, true, pid, 1000 + 12 * MONTH),
        Err(Error::NoReturnsAvailable)
    );
    assert_eq!(
        c.claim_returns(investor, true, pid, 1000 + 50 * MONTH),
        Err(Error::NoReturnsAvailable)
    );
}

#[test]
fn claim_lookup_and_authorization_errors() {
    let (mut c, _admin) = new_initialized();
    let pid = standard_project(&mut c, Principal(2));
    let investor = Principal(3);
    let outsider = Principal(4);

    assert_eq!(c.claim_returns(investor, false, pid, 0), Err(Error::Unauthorized));
    assert_eq!(c.claim_returns(investor, true, 9, 0), Err(Error::NotFound));
    c.invest(investor, true, pid, 1000000, 100).unwrap();
    // Funded, but the outsider holds no record.
    assert_eq!(c.claim_returns(outsider, true, pid, 100 + 12 * MONTH), Err(Error::NotFound));
}

#[test]
fn zero_entitlement_reports_no_returns() {
    let (mut c, _admin) = new_initialized();
    let owner = Principal(2);
    let investor = Principal(3);
    let pid = c
        .create_project(owner, true, "n".to_string(), "d".to_string(), 1000, 10, 0, 12, 0)
        .unwrap();
    c.invest(investor, true, pid, 1000, 0).unwrap();
    // With a 0 bps rate nothing is ever entitled; the empty entitlement is
    // reported before the maturity gate is even consulted.
    assert_eq!(c.claim_returns(investor, true, pid, 0), Err(Error::NoReturnsAvailable));
    assert_eq!(c.claim_returns(investor, true, pid, 100 * MONTH), Err(Error::NoReturnsAvailable));
}

#[test]
fn entitlement_rounds_down() {
    let (mut c, _admin) = new_initialized();
    let owner = Principal(2);
    let investor = Principal(3);
    // 9999 * 1 / 10000 rounds down to 0; 19999 * 1 / 10000 to 1.
    let small = c
        .create_project(owner, true, "n".to_string(), "d".to_string(), 9999, 1, 1, 1, 0)
        .unwrap();
    c.invest(investor, true, small, 9999, 0).unwrap();
    assert_eq!(c.claim_returns(investor, true, small, 2 * MONTH), Err(Error::NoReturnsAvailable));
    let large = c
        .create_project(owner, true, "n".to_string(), "d".to_string(), 19999, 1, 1, 1, 0)
        .unwrap();
    c.invest(investor, true, large, 19999, 0).unwrap();
    assert_eq!(c.claim_returns(investor, true, large, 2 * MONTH), Ok(1));
}

#[test]
fn pause_requires_the_recorded_admin() {
    let (mut c, admin) = new_initialized();
    let pid = standard_project(&mut c, Principal(2));

    assert_eq!(c.pause_project(Principal(8), true, pid), Err(Error::Unauthorized));
    assert_eq!(c.get_project(pid).unwrap().is_active, true);
    assert_eq!(c.pause_project(admin, false, pid), Err(Error::Unauthorized));
    assert_eq!(c.get_project(pid).unwrap().is_active, true);
    assert_eq!(c.pause_project(admin, true, 9), Err(Error::NotFound));

    c.pause_project(admin, true, pid).unwrap();
    assert_eq!(c.get_project(pid).unwrap().is_active, false);
    // Pausing touches neither funding nor the funded flag.
    assert_eq!(c.get_project(pid).unwrap().current_funding, 0);
    assert_eq!(c.get_project(pid).unwrap().is_funded, false);
}

#[test]
fn pause_before_initialization_fails() {
    let mut c = AgroCoinContract::new();
    assert_eq!(c.pause_project(Principal(1), true, 1), Err(Error::NotInitialized));
}

#[test]
fn withdraw_reports_funding_to_the_owner_only() {
    let (mut c, _admin) = new_initialized();
    let owner = Principal(2);
    let investor = Principal(3);
    let pid = standard_project(&mut c, owner);

    assert_eq!(c.withdraw_funds(owner, true, pid), Err(Error::NotYetFunded));
    c.invest(investor, true, pid, 1000000, 0).unwrap();
    assert_eq!(c.withdraw_funds(owner, false, pid), Err(Error::Unauthorized));
    assert_eq!(c.withdraw_funds(investor, true, pid), Err(Error::Unauthorized));
    assert_eq!(c.withdraw_funds(owner, true, 9), Err(Error::NotFound));
    assert_eq!(c.withdraw_funds(owner, true, pid), Ok(1000000));
    // No withdrawal bookkeeping exists: the figure repeats.
    assert_eq!(c.withdraw_funds(owner, true, pid), Ok(1000000));
}

#[test]
fn project_stats_derive_from_the_project() {
    let (mut c, _admin) = new_initialized();
    let pid = standard_project(&mut c, Principal(2));
    c.invest(Principal(3), true, pid, 500000, 0).unwrap();

    let stats = c.get_project_stats(pid).unwrap();
    assert_eq!(stats.funding_percentage, 5000);
    assert_eq!(stats.days_remaining, 360);
    assert_eq!(stats.total_investors, 1);
    assert!(c.get_project_stats(9).is_err());
}

#[test]
fn user_investment_index_deduplicates() {
    let (mut c, _admin) = new_initialized();
    let owner = Principal(2);
    let investor = Principal(3);
    let p1 = standard_project(&mut c, owner);
    let p2 = standard_project(&mut c, owner);

    c.invest(investor, true, p2, 10000, 0).unwrap();
    c.invest(investor, true, p1, 10000, 0).unwrap();
    c.invest(investor, true, p1, 10000, 0).unwrap();
    // Ids appear once each, in first-contribution order.
    assert_eq!(c.get_user_investments(investor), vec![p2, p1]);
    assert_eq!(c.get_user_investments(owner), Vec::<u64>::new());
}

#[test]
fn lookups_on_absent_keys() {
    let (c, _admin) = new_initialized();
    assert!(c.get_project(1).is_err());
    assert!(c.get_investment(Principal(3), 1).is_err());
    assert_eq!(c.get_project_count(), 0);
}

#[test]
fn error_messages_name_the_kind() {
    assert_eq!(Error::ExceedsGoal.message(), "investment exceeds funding goal");
    assert_eq!(Error::DurationNotComplete.message(), "project duration not completed");
}
