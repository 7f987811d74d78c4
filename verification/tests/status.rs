use bounty_board::BountyStatus;

#[test]
fn test_bounty_status_comparison() {
    let status1 = BountyStatus::Open;
    let status2 = BountyStatus::Open;
    let status3 = BountyStatus::Assigned;

    assert!(status1 == status2);
    assert!(status1 != status3);
}
