//! The contract's core flows: initialization, project creation, investing,
//! full funding, over-investment and pausing.

use agrocoin::{AgroCoinContract, Error, Principal};

fn setup_with_project() -> (AgroCoinContract, Principal, Principal) {
    let mut c = AgroCoinContract::new();
    let admin = Principal(1);
    let producer = Principal(2);
    c.initialize(admin, true).unwrap();
    let id = c
        .create_project(
            producer,
            true,
            "Test Project".to_string(),
            "Test Description".to_string(),
            1000000i128,
            10000i128,
            1800u32,
            12u32,
            0,
        )
        .unwrap();
    assert_eq!(id, 1);
    (c, admin, producer)
}

#[test]
fn test_initialize_contract() {
    let mut c = AgroCoinContract::new();
    let admin = Principal(1);
    c.initialize(admin, true).unwrap();

    assert_eq!(c.get_project_count(), 0);
}

#[test]
fn test_create_project() {
    let mut c = AgroCoinContract::new();
    let admin = Principal(1);
    let producer = Principal(2);
    c.initialize(admin, true).unwrap();

    let project_id = c
        .create_project(
            producer,
            true,
            "Cultivos Org\u{e1}nicos".to_string(),
            "Proyecto de agricultura org\u{e1}nica sostenible".to_string(),
            1000000i128,
            10000i128,
            1800u32,
            12u32,
            0,
        )
        .unwrap();

    assert_eq!(project_id, 1);
    assert_eq!(c.get_project_count(), 1);

    let project = c.get_project(project_id).unwrap();
    assert_eq!(project.owner, producer);
    assert_eq!(project.funding_goal, 1000000i128);
    assert_eq!(project.current_funding, 0);
    assert_eq!(project.is_active, true);
    assert_eq!(project.is_funded, false);
}

#[test]
fn test_invest_in_project() {
    let (mut c, _admin, _producer) = setup_with_project();
    let investor = Principal(3);

    c.invest(investor, true, 1, 500000i128, 100).unwrap();

    let project = c.get_project(1).unwrap();
    assert_eq!(project.current_funding, 500000i128);
    assert_eq!(project.is_funded, false);

    let investment = c.get_investment(investor, 1).unwrap();
    assert_eq!(investment.amount, 500000i128);
    assert_eq!(investment.investor, investor);
}

#[test]
fn test_full_funding() {
    let (mut c, _admin, _producer) = setup_with_project();
    let investor = Principal(3);

    c.invest(investor, true, 1, 1000000i128, 100).unwrap();

    let project = c.get_project(1).unwrap();
    assert_eq!(project.current_funding, 1000000i128);
    assert_eq!(project.is_funded, true);
}

#[test]
fn test_over_invest() {
    let (mut c, _admin, _producer) = setup_with_project();
    let investor = Principal(3);

    let r = c.invest(investor, true, 1, 1500000i128, 100);
    assert_eq!(r, Err(Error::ExceedsGoal));
    assert_eq!(c.get_project(1).unwrap().current_funding, 0);
}

#[test]
fn test_pause_project() {
    let (mut c, admin, _producer) = setup_with_project();

    c.pause_project(admin, true, 1).unwrap();

    let project = c.get_project(1).unwrap();
    assert_eq!(project.is_active, false);
}
