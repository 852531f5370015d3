use bounty_escrow::{
    distinct_depositors, Address, BountyEscrowContract, Error, EscrowStatus, LockFundsItem, ReleaseFundsItem, Transfer,
};

const CUSTODY: Address = Address(100);

fn setup() -> (BountyEscrowContract, Address) {
    let mut c = BountyEscrowContract::new(CUSTODY);
    let admin = Address(1);
    c.init(admin, Address(2)).unwrap();
    (c, admin)
}

fn item(bounty_id: u64, depositor: u64, amount: i128) -> LockFundsItem {
    LockFundsItem { bounty_id, depositor: Address(depositor), amount, deadline: 1000 }
}

#[test]
fn batch_lock_opens_every_escrow() {
    let (mut c, _admin) = setup();
    let items = vec![item(1, 10, 100), item(2, 11, 200), item(3, 10, 300)];
    let (summary, transfers) = c.batch_lock_funds(&vec![Address(10), Address(11)], &items, 0).unwrap();
    assert_eq!(summary.count, 3);
    assert_eq!(summary.total_amount, 600);
    assert_eq!(summary.timestamp, 0);
    assert_eq!(transfers.len(), 3);
    assert_eq!(transfers[1], Transfer { from: Address(11), to: CUSTODY, amount: 200 });
    assert_eq!(c.registry, vec![1, 2, 3]);
    assert_eq!(c.get_escrow_info(3).unwrap().status, EscrowStatus::Locked);
    assert_eq!(c.get_escrow_info(3).unwrap().depositor, Address(10));
}

#[test]
fn batch_lock_is_all_or_nothing() {
    let (mut c, _admin) = setup();
    let d = Address(10);
    c.lock_funds(&vec![d], d, 5, 50, 1000, 0).unwrap();
    let signers = vec![d];
    let cases = vec![
        (vec![item(1, 10, 100), item(1, 10, 100)], Error::DuplicateBountyId),
        (vec![item(1, 10, 100), item(2, 10, 0)], Error::InvalidAmount),
        (vec![item(1, 10, 100), item(5, 10, 10)], Error::BountyExists),
        (vec![item(1, 10, 100), item(2, 12, 10)], Error::Unauthorized),
        (vec![item(1, 10, i128::MAX), item(2, 10, 1)], Error::InvalidAmount),
        (vec![], Error::InvalidBatchSize),
    ];
    for (items, expected) in cases {
        assert_eq!(c.batch_lock_funds(&signers, &items, 0), Err(expected));
        assert_eq!(c.registry, vec![5]);
        assert!(c.get_escrow_info(1).is_err());
    }
    let late = vec![LockFundsItem { bounty_id: 1, depositor: d, amount: 5, deadline: 0 }];
    assert_eq!(c.batch_lock_funds(&signers, &late, 0), Err(Error::InvalidDeadline));
    let too_many: Vec<LockFundsItem> = (0..101u64).map(|i| item(100 + i, 10, 1)).collect();
    assert_eq!(c.batch_lock_funds(&signers, &too_many, 0), Err(Error::InvalidBatchSize));
    let largest: Vec<LockFundsItem> = (0..100u64).map(|i| item(100 + i, 10, 1)).collect();
    assert_eq!(c.batch_lock_funds(&signers, &largest, 0).unwrap().0.count, 100);
}

#[test]
fn batch_release_pays_out_everything_listed() {
    let (mut c, admin) = setup();
    let d = Address(10);
    c.lock_funds(&vec![d], d, 1, 100, 1000, 0).unwrap();
    c.lock_funds(&vec![d], d, 2, 200, 1000, 0).unwrap();
    c.lock_funds(&vec![d], d, 3, 300, 1000, 0).unwrap();
    let items = vec![
        ReleaseFundsItem { bounty_id: 3, contributor: Address(30) },
        ReleaseFundsItem { bounty_id: 1, contributor: Address(31) },
    ];
    let (summary, transfers) = c.batch_release_funds(&vec![admin], &items, 0, 600).unwrap();
    assert_eq!(summary.count, 2);
    assert_eq!(summary.total_amount, 400);
    assert_eq!(
        transfers,
        vec![
            Transfer { from: CUSTODY, to: Address(30), amount: 300 },
            Transfer { from: CUSTODY, to: Address(31), amount: 100 },
        ]
    );
    assert_eq!(c.get_escrow_info(1).unwrap().status, EscrowStatus::Released);
    assert_eq!(c.get_escrow_info(2).unwrap().status, EscrowStatus::Locked);
    assert_eq!(c.get_escrow_info(3).unwrap().remaining_amount, 0);
}

#[test]
fn batch_release_is_all_or_nothing() {
    let (mut c, admin) = setup();
    let d = Address(10);
    c.lock_funds(&vec![d], d, 1, 100, 1000, 0).unwrap();
    c.lock_funds(&vec![d], d, 2, 200, 1000, 0).unwrap();
    c.release_funds(&vec![admin], 2, Address(30), None, 0, 300).unwrap();
    let r = |id: u64| ReleaseFundsItem { bounty_id: id, contributor: Address(40) };
    assert_eq!(c.batch_release_funds(&vec![admin], &vec![r(1), r(1)], 0, 1000), Err(Error::DuplicateBountyId));
    assert_eq!(c.batch_release_funds(&vec![admin], &vec![r(1), r(2)], 0, 1000), Err(Error::FundsNotLocked));
    assert_eq!(c.batch_release_funds(&vec![admin], &vec![r(1), r(9)], 0, 1000), Err(Error::BountyNotFound));
    assert_eq!(c.batch_release_funds(&vec![admin], &vec![r(1)], 0, 99), Err(Error::InsufficientFunds));
    assert_eq!(c.batch_release_funds(&vec![d], &vec![r(1)], 0, 1000), Err(Error::Unauthorized));
    assert_eq!(c.batch_release_funds(&vec![admin], &vec![], 0, 1000), Err(Error::InvalidBatchSize));
    let e = c.get_escrow_info(1).unwrap();
    assert_eq!(e.status, EscrowStatus::Locked);
    assert_eq!(e.remaining_amount, 100);
}

#[test]
fn batch_release_charges_the_release_fee() {
    let (mut c, admin) = setup();
    let collector = Address(50);
    c.update_fee_config(&vec![admin], None, Some(1000), Some(collector), Some(true), 0).unwrap();
    let d = Address(10);
    c.lock_funds(&vec![d], d, 1, 1000, 1000, 0).unwrap();
    let items = vec![ReleaseFundsItem { bounty_id: 1, contributor: Address(30) }];
    let (_, transfers) = c.batch_release_funds(&vec![admin], &items, 0, 1000).unwrap();
    assert_eq!(
        transfers,
        vec![
            Transfer { from: CUSTODY, to: Address(30), amount: 900 },
            Transfer { from: CUSTODY, to: collector, amount: 100 },
        ]
    );
}

#[test]
fn each_depositor_is_listed_once() {
    let items = vec![item(1, 10, 1), item(2, 11, 1), item(3, 10, 1), item(4, 12, 1), item(5, 11, 1)];
    assert_eq!(distinct_depositors(&items), vec![Address(10), Address(11), Address(12)]);
    assert!(distinct_depositors(&vec![]).is_empty());
}
