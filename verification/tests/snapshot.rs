use bounty_board::table::Table;
use bounty_board::{
    Authorization, Bounty, BountyStatus, DeveloperProfile, Error, FreelanceBountyPlatform,
    Principal, PrincipalKind, Row, Snapshot,
};

fn account(n: u8) -> Principal {
    Principal::new(PrincipalKind::Account, [n; 32])
}

fn contract(n: u8) -> Principal {
    Principal::new(PrincipalKind::Contract, [n; 32])
}

fn text(s: &str) -> Vec<u8> {
    s.as_bytes().to_vec()
}

fn profile(n: u8) -> Row<DeveloperProfile> {
    Row {
        key: account(n),
        value: DeveloperProfile {
            address: account(n),
            skills: vec![text("rust")],
            bio: text("bio"),
            completed_bounties: 0,
            rating: 0,
        },
    }
}

fn bounty(id: u64, company: u8, status: BountyStatus, developer: Option<u8>) -> Bounty {
    Bounty {
        id,
        company: account(company),
        title: text("title"),
        description: text("description"),
        required_skills: Vec::new(),
        payment_amount: 10,
        payment_token: contract(9),
        status,
        assigned_developer: developer.map(account),
        created_at: 1,
        deadline: 2,
    }
}

fn list(owner: u8, ids: &[u64]) -> Row<Vec<u64>> {
    Row { key: account(owner), value: ids.to_vec() }
}

/// Two companies, one developer, three bounties: a sound set of records.
fn records() -> Snapshot {
    Snapshot {
        custody: contract(100),
        developers: vec![profile(7)],
        bounties: vec![
            bounty(1, 1, BountyStatus::Open, None),
            bounty(2, 2, BountyStatus::Submitted, Some(7)),
            bounty(3, 1, BountyStatus::Completed, Some(7)),
        ],
        company_bounties: vec![list(1, &[1, 3]), list(2, &[2])],
        developer_bounties: vec![list(7, &[3, 2])],
    }
}

#[test]
fn table_keeps_the_last_value_written() {
    let mut table: Table<u32> = Table::new();
    assert_eq!(table.len(), 0);
    assert!(!table.contains(&account(1)));
    table.set(account(1), 10);
    table.set(account(2), 20);
    table.set(account(1), 11);
    assert_eq!(table.len(), 2);
    assert_eq!(table.get(&account(1)), Some(&11));
    assert_eq!(table.get(&account(2)), Some(&20));
    assert_eq!(table.get(&account(3)), None);
    assert_eq!(table.row(0).key, account(1));
    assert_eq!(table.take(&account(1)), Some(11));
    assert_eq!(table.take(&account(1)), None);
    assert!(!table.contains(&account(1)));
    let rows = table.into_rows();
    assert_eq!(rows.len(), 1);
    assert_eq!(rows[0].key, account(2));
    assert_eq!(rows[0].value, 20);
}

#[test]
fn table_from_rows_needs_distinct_keys() {
    let rows = vec![Row { key: account(1), value: 1u8 }, Row { key: account(2), value: 2 }];
    let table = Table::from_rows(rows).unwrap();
    assert_eq!(table.get(&account(2)), Some(&2));
    let twice = vec![
        Row { key: account(1), value: 1u8 },
        Row { key: account(2), value: 2 },
        Row { key: account(1), value: 3 },
    ];
    assert!(Table::from_rows(twice).is_none());
    assert!(Table::<u8>::from_rows(Vec::new()).is_some());
}

#[test]
fn sound_records_are_restored() {
    let platform = FreelanceBountyPlatform::restore(records()).unwrap();
    assert_eq!(platform.custody(), contract(100));
    assert_eq!(platform.bounty_counter(), 3);
    assert_eq!(platform.get_bounty(2).unwrap().status, BountyStatus::Submitted);
    assert_eq!(platform.get_bounty(3).unwrap().assigned_developer, Some(account(7)));
    assert_eq!(platform.get_company_bounties(&account(1)), vec![1, 3]);
    assert_eq!(platform.get_company_bounties(&account(2)), vec![2]);
    assert_eq!(platform.get_developer_bounties(&account(7)), vec![3, 2]);
    assert_eq!(platform.get_developer(&account(7)), Some(&profile(7).value));
}

#[test]
fn restored_ledger_goes_on() {
    let mut platform = FreelanceBountyPlatform::restore(records()).unwrap();
    let dev = account(7);
    assert_eq!(platform.assign_bounty(&Authorization::of(dev), 1, dev), Ok(()));
    assert_eq!(platform.get_developer_bounties(&dev), vec![3, 2, 1]);
    let id = platform
        .create_bounty(
            &Authorization::of(account(2)),
            account(2),
            text("t"),
            text("d"),
            Vec::new(),
            5,
            contract(9),
            0,
            0,
            true,
        )
        .unwrap();
    assert_eq!(id, 4);
    assert_eq!(platform.get_company_bounties(&account(2)), vec![2, 4]);
}

#[test]
fn snapshot_round_trip() {
    let platform = FreelanceBountyPlatform::restore(records()).unwrap();
    let written = platform.into_snapshot();
    assert_eq!(written.custody, contract(100));
    assert_eq!(written.bounties, records().bounties);
    assert_eq!(written.developers.len(), 1);
    assert_eq!(written.developers[0].value, profile(7).value);
    assert_eq!(written.company_bounties.len(), 2);
    assert_eq!(written.company_bounties[0].value, vec![1, 3]);
    assert_eq!(written.developer_bounties[0].key, account(7));
    assert_eq!(written.developer_bounties[0].value, vec![3, 2]);
    let again = FreelanceBountyPlatform::restore(written).unwrap();
    assert_eq!(again.bounty_counter(), 3);
    assert_eq!(again.get_developer_bounties(&account(7)), vec![3, 2]);
}

#[test]
fn empty_snapshot_is_the_empty_ledger() {
    let written = FreelanceBountyPlatform::new(contract(100)).into_snapshot();
    assert!(written.developers.is_empty());
    assert!(written.bounties.is_empty());
    assert!(written.company_bounties.is_empty());
    assert!(written.developer_bounties.is_empty());
    let platform = FreelanceBountyPlatform::restore(written).unwrap();
    assert_eq!(platform.bounty_counter(), 0);
}

#[test]
fn records_with_a_wrong_identifier_are_refused() {
    let mut s = records();
    s.bounties[1].id = 5;
    assert!(FreelanceBountyPlatform::restore(s).is_none());
}

#[test]
fn records_with_an_inconsistent_bounty_are_refused() {
    let mut s = records();
    s.bounties[0].status = BountyStatus::Assigned;
    assert!(FreelanceBountyPlatform::restore(s).is_none());

    let mut s = records();
    s.bounties[0].status = BountyStatus::Cancelled;
    assert!(FreelanceBountyPlatform::restore(s).is_some());
}

#[test]
fn records_with_an_unregistered_developer_are_refused() {
    let mut s = records();
    s.developers.clear();
    assert!(FreelanceBountyPlatform::restore(s).is_none());
}

#[test]
fn records_with_a_misfiled_profile_are_refused() {
    let mut s = records();
    s.developers[0].value.address = account(8);
    assert!(FreelanceBountyPlatform::restore(s).is_none());
}

#[test]
fn records_with_two_rows_for_one_principal_are_refused() {
    let mut s = records();
    s.developers.push(profile(7));
    assert!(FreelanceBountyPlatform::restore(s).is_none());

    let mut s = records();
    s.company_bounties = vec![list(1, &[1, 3]), list(2, &[2]), list(2, &[])];
    assert!(FreelanceBountyPlatform::restore(s).is_none());

    let mut s = records();
    s.developer_bounties = vec![list(7, &[3, 2]), list(7, &[3, 2])];
    assert!(FreelanceBountyPlatform::restore(s).is_none());
}

#[test]
fn records_with_a_wrong_company_index_are_refused() {
    for lists in [
        vec![list(1, &[1]), list(2, &[2])],
        vec![list(1, &[3, 1]), list(2, &[2])],
        vec![list(1, &[1, 3, 3]), list(2, &[2])],
        vec![list(1, &[1, 2, 3]), list(2, &[2])],
        vec![list(1, &[1, 3, 4]), list(2, &[2])],
        vec![list(1, &[0, 1, 3]), list(2, &[2])],
        vec![list(1, &[1, 3])],
    ] {
        let mut s = records();
        s.company_bounties = lists;
        assert!(FreelanceBountyPlatform::restore(s).is_none());
    }
    let mut s = records();
    s.company_bounties.push(list(5, &[]));
    assert!(FreelanceBountyPlatform::restore(s).is_some());
}

#[test]
fn records_with_a_wrong_developer_index_are_refused() {
    for lists in [
        vec![list(7, &[3])],
        vec![list(7, &[3, 2, 3])],
        vec![list(7, &[3, 2, 1])],
        vec![list(7, &[3, 2, 9])],
        vec![list(7, &[3, 2]), list(8, &[2])],
        vec![],
    ] {
        let mut s = records();
        s.developer_bounties = lists;
        assert!(FreelanceBountyPlatform::restore(s).is_none());
    }
    let mut s = records();
    s.developer_bounties = vec![list(7, &[2, 3])];
    assert!(FreelanceBountyPlatform::restore(s).is_some());
}

#[test]
fn a_full_counter_does_not_stand_in_the_way_of_a_refusal() {
    let mut s = records();
    s.developers[0].value.completed_bounties = u32::MAX;
    let mut platform = FreelanceBountyPlatform::restore(s).unwrap();
    let company = account(1);
    // A payout that failed raises no counter.
    let other = account(2);
    assert_eq!(
        platform.approve_and_release(&Authorization::of(other), 2, other, false),
        Err(Error::TransferFailed)
    );
    assert_eq!(platform.get_bounty(2).unwrap().status, BountyStatus::Submitted);
    // Bounty 3 is completed: approving it again is refused on its state.
    assert_eq!(
        platform.approve_and_release(&Authorization::of(company), 3, company, true),
        Err(Error::InvalidState)
    );
    // Bounty 2 belongs to another company.
    assert_eq!(
        platform.approve_and_release(&Authorization::of(company), 2, company, true),
        Err(Error::Unauthorized)
    );
    assert_eq!(
        platform.approve_and_release(&Authorization::of(company), 8, company, true),
        Err(Error::NotFound)
    );
    assert_eq!(platform.get_developer(&account(7)).unwrap().completed_bounties, u32::MAX);
    assert_eq!(platform.get_bounty(3).unwrap().status, BountyStatus::Completed);
}
