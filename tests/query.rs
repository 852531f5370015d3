use bounty_escrow::{Address, BountyEscrowContract, EscrowFilter, EscrowStatus, Pagination};

fn create_test_env() -> (BountyEscrowContract, Address) {
    let mut client = BountyEscrowContract::new(Address(100));
    let admin = Address(1);
    client.init(admin, Address(2)).unwrap();
    (client, admin)
}

fn no_filter() -> EscrowFilter {
    EscrowFilter { status: None, depositor: None, min_amount: None, max_amount: None, start_time: None, end_time: None }
}

#[test]
fn test_get_bounties_filtering() {
    let (mut client, _admin) = create_test_env();
    let depositor1 = Address(10);
    let depositor2 = Address(20);

    let now = 0u64;
    let deadline1 = now + 1000;
    let deadline2 = now + 2000;

    client.lock_funds(&vec![depositor1], depositor1, 1, 100, deadline1, now).unwrap();
    client.lock_funds(&vec![depositor1], depositor1, 2, 200, deadline2, now).unwrap();
    client.lock_funds(&vec![depositor2], depositor2, 3, 300, deadline2, now).unwrap();

    let filter_dep1 = EscrowFilter { depositor: Some(depositor1), ..no_filter() };
    let bounds = Pagination { start_index: 0, limit: 10 };
    let bounties_dep1 = client.get_bounties(&filter_dep1, &bounds);
    assert_eq!(bounties_dep1.len(), 2);
    assert_eq!(bounties_dep1[0].0, 1);
    assert_eq!(bounties_dep1[1].0, 2);

    let filter_amt = EscrowFilter { min_amount: Some(250), ..no_filter() };
    let bounties_amt = client.get_bounties(&filter_amt, &bounds);
    assert_eq!(bounties_amt.len(), 1);
    assert_eq!(bounties_amt[0].0, 3);

    let filter_time = EscrowFilter { start_time: Some(deadline1 + 100), ..no_filter() };
    let bounties_time = client.get_bounties(&filter_time, &bounds);
    assert_eq!(bounties_time.len(), 2);

    let filter_status = EscrowFilter { status: Some(EscrowStatus::Locked), ..no_filter() };
    let bounties_status = client.get_bounties(&filter_status, &bounds);
    assert_eq!(bounties_status.len(), 3);
}

#[test]
fn test_get_stats() {
    let (mut client, admin) = create_test_env();
    let depositor = Address(10);
    let now = 0u64;

    client.lock_funds(&vec![depositor], depositor, 1, 100, now + 1000, now).unwrap();
    client.lock_funds(&vec![depositor], depositor, 2, 200, now + 2000, now).unwrap();

    let stats = client.get_stats();
    assert_eq!(stats.total_bounties, 2);
    assert_eq!(stats.total_locked_amount, 300);
    assert_eq!(stats.total_released_amount, 0);

    client.release_funds(&vec![admin], 1, Address(30), None, now, 300).unwrap();

    let stats_after = client.get_stats();
    assert_eq!(stats_after.total_locked_amount, 200);
    assert_eq!(stats_after.total_released_amount, 100);
}

#[test]
fn test_pagination() {
    let (mut client, _admin) = create_test_env();
    let depositor = Address(10);
    let now = 0u64;

    for i in 1..=5u64 {
        client.lock_funds(&vec![depositor], depositor, i, 100, now + 1000, now).unwrap();
    }

    let filter_none = no_filter();

    let page1 = client.get_bounties(&filter_none, &Pagination { start_index: 0, limit: 2 });
    assert_eq!(page1.len(), 2);
    assert_eq!(page1[0].0, 1);
    assert_eq!(page1[1].0, 2);

    let page2 = client.get_bounties(&filter_none, &Pagination { start_index: 2, limit: 2 });
    assert_eq!(page2.len(), 2);
    assert_eq!(page2[0].0, 3);
    assert_eq!(page2[1].0, 4);

    let page3 = client.get_bounties(&filter_none, &Pagination { start_index: 4, limit: 2 });
    assert_eq!(page3.len(), 1);
    assert_eq!(page3[0].0, 5);
}

#[test]
fn test_large_dataset_pagination() {
    let (mut client, _admin) = create_test_env();
    let depositor = Address(10);
    let now = 0u64;

    for i in 1..=10u64 {
        client.lock_funds(&vec![depositor], depositor, i, 100, now + 1000, now).unwrap();
    }

    let filter_none = no_filter();

    let page = client.get_bounties(&filter_none, &Pagination { start_index: 3, limit: 3 });
    assert_eq!(page.len(), 3);
    assert_eq!(page[0].0, 4);
    assert_eq!(page[2].0, 6);

    let last_page = client.get_bounties(&filter_none, &Pagination { start_index: 8, limit: 5 });
    assert_eq!(last_page.len(), 2);
    assert_eq!(last_page[0].0, 9);

    let stats = client.get_stats();
    assert_eq!(stats.total_bounties, 10);
    assert_eq!(stats.total_locked_amount, 1000);
}

#[test]
fn filters_combine_and_windows_past_the_end_are_empty() {
    let (mut client, admin) = create_test_env();
    let depositor = Address(10);
    client.lock_funds(&vec![depositor], depositor, 1, 100, 1000, 0).unwrap();
    client.lock_funds(&vec![depositor], depositor, 2, 400, 3000, 0).unwrap();
    client.lock_funds(&vec![depositor], depositor, 3, 900, 2000, 0).unwrap();
    client.release_funds(&vec![admin], 3, Address(30), Some(100), 0, 1400).unwrap();

    let f = EscrowFilter { min_amount: Some(150), max_amount: Some(800), end_time: Some(3000), ..no_filter() };
    let r = client.get_bounties(&f, &Pagination { start_index: 0, limit: 10 });
    assert_eq!(r.len(), 1);
    assert_eq!(r[0].0, 2);
    assert_eq!(r[0].1.amount, 400);

    let partial = EscrowFilter { status: Some(EscrowStatus::PartiallyReleased), ..no_filter() };
    let r = client.get_bounties(&partial, &Pagination { start_index: 0, limit: 10 });
    assert_eq!(r.len(), 1);
    assert_eq!(r[0].0, 3);
    assert_eq!(r[0].1.remaining_amount, 800);
    assert_eq!(r[0].1.payout_history.len(), 1);

    assert!(client.get_bounties(&no_filter(), &Pagination { start_index: 3, limit: 10 }).is_empty());
    assert!(client.get_bounties(&no_filter(), &Pagination { start_index: 0, limit: 0 }).is_empty());
    let stats = client.get_stats();
    assert_eq!(stats.total_locked_amount, 1300);
    assert_eq!(stats.total_released_amount, 100);
    assert_eq!(stats.total_refunded_amount, 0);
}
