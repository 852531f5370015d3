use bounty_escrow::{Address, BountyEscrowContract, Error, EscrowStatus, RefundMode, Transfer};

const CUSTODY: Address = Address(100);

fn setup() -> (BountyEscrowContract, Address) {
    let mut c = BountyEscrowContract::new(CUSTODY);
    let admin = Address(1);
    c.init(admin, Address(2)).unwrap();
    (c, admin)
}

#[test]
fn lock_creates_a_locked_registered_escrow_once() {
    let (mut c, _admin) = setup();
    let d = Address(10);
    let t = c.lock_funds(&vec![d], d, 42, 5000, 100, 0).unwrap();
    assert_eq!(t, vec![Transfer { from: d, to: CUSTODY, amount: 5000 }]);
    let e = c.get_escrow_info(42).unwrap();
    assert_eq!(e.status, EscrowStatus::Locked);
    assert_eq!(e.amount, 5000);
    assert_eq!(e.remaining_amount, 5000);
    assert_eq!(c.registry, vec![42]);
    assert_eq!(c.lock_funds(&vec![d], d, 42, 7, 100, 0), Err(Error::BountyExists));
    assert_eq!(c.registry, vec![42]);
}

#[test]
fn lock_rejections() {
    let mut fresh = BountyEscrowContract::new(CUSTODY);
    let d = Address(10);
    assert_eq!(fresh.lock_funds(&vec![d], d, 1, 10, 100, 0), Err(Error::NotInitialized));
    let (mut c, _admin) = setup();
    assert_eq!(c.lock_funds(&vec![d], d, 1, 0, 100, 0), Err(Error::InvalidAmount));
    assert_eq!(c.lock_funds(&vec![d], d, 1, -5, 100, 0), Err(Error::InvalidAmount));
    assert_eq!(c.lock_funds(&vec![d], d, 1, 10, 50, 50), Err(Error::InvalidDeadline));
    assert_eq!(c.lock_funds(&vec![Address(11)], d, 1, 10, 100, 0), Err(Error::Unauthorized));
    assert!(c.get_escrow_info(1).is_err());
}

#[test]
fn lock_limits_apply() {
    let (mut c, admin) = setup();
    let d = Address(10);
    c.update_config_limits(&vec![admin], Some(1000), Some(10), Some(500), Some(100), 0).unwrap();
    assert_eq!(c.lock_funds(&vec![d], d, 1, 5, 200, 0), Err(Error::InvalidAmount));
    assert_eq!(c.lock_funds(&vec![d], d, 1, 5000, 200, 0), Err(Error::InvalidAmount));
    assert_eq!(c.lock_funds(&vec![d], d, 1, 50, 50, 0), Err(Error::InvalidDeadline));
    assert_eq!(c.lock_funds(&vec![d], d, 1, 50, 600, 0), Err(Error::InvalidDeadline));
    assert!(c.lock_funds(&vec![d], d, 1, 50, 300, 0).is_ok());
}

#[test]
fn scenario_partial_then_full_release() {
    let (mut c, admin) = setup();
    let d = Address(10);
    let worker = Address(20);
    let now = 0u64;
    c.lock_funds(&vec![d], d, 7, 10_000, now + 1000, now).unwrap();

    let t = c.release_funds(&vec![admin], 7, worker, Some(4_000), now, 10_000).unwrap();
    assert_eq!(t, vec![Transfer { from: CUSTODY, to: worker, amount: 4_000 }]);
    let e = c.get_escrow_info(7).unwrap();
    assert_eq!(e.status, EscrowStatus::PartiallyReleased);
    assert_eq!(e.remaining_amount, 6_000);

    c.release_funds(&vec![admin], 7, worker, Some(6_000), now, 6_000).unwrap();
    let e = c.get_escrow_info(7).unwrap();
    assert_eq!(e.status, EscrowStatus::Released);
    assert_eq!(e.remaining_amount, 0);
    assert_eq!(e.payout_history.len(), 2);

    assert_eq!(c.release_funds(&vec![admin], 7, worker, None, now, 0), Err(Error::FundsNotLocked));
}

#[test]
fn release_rejections() {
    let (mut c, admin) = setup();
    let d = Address(10);
    c.lock_funds(&vec![d], d, 1, 1000, 100, 0).unwrap();
    assert_eq!(c.release_funds(&vec![d], 1, d, None, 0, 1000), Err(Error::Unauthorized));
    assert_eq!(c.release_funds(&vec![admin], 2, d, None, 0, 1000), Err(Error::BountyNotFound));
    assert_eq!(c.release_funds(&vec![admin], 1, d, Some(0), 0, 1000), Err(Error::InvalidAmount));
    assert_eq!(c.release_funds(&vec![admin], 1, d, Some(1001), 0, 2000), Err(Error::InvalidAmount));
    assert_eq!(c.release_funds(&vec![admin], 1, d, None, 0, 999), Err(Error::InsufficientFunds));
    assert_eq!(c.get_escrow_info(1).unwrap().remaining_amount, 1000);
}

#[test]
fn fees_on_lock_and_release() {
    let (mut c, admin) = setup();
    let collector = Address(50);
    c.update_fee_config(&vec![admin], Some(250), Some(100), Some(collector), Some(true), 0).unwrap();
    let d = Address(10);
    let t = c.lock_funds(&vec![d], d, 1, 10_000, 100, 0).unwrap();
    assert_eq!(
        t,
        vec![Transfer { from: d, to: CUSTODY, amount: 9_750 }, Transfer { from: d, to: collector, amount: 250 }]
    );
    let e = c.get_escrow_info(1).unwrap();
    assert_eq!(e.amount, 9_750);
    assert_eq!(e.remaining_amount, 9_750);

    let w = Address(20);
    let t = c.release_funds(&vec![admin], 1, w, Some(1_999), 0, 9_750).unwrap();
    assert_eq!(
        t,
        vec![Transfer { from: CUSTODY, to: w, amount: 1_980 }, Transfer { from: CUSTODY, to: collector, amount: 19 }]
    );
    assert_eq!(c.get_escrow_info(1).unwrap().remaining_amount, 7_751);
}

#[test]
fn tiny_fees_round_down_to_nothing() {
    let (mut c, admin) = setup();
    c.update_fee_config(&vec![admin], Some(1), None, None, Some(true), 0).unwrap();
    let d = Address(10);
    let t = c.lock_funds(&vec![d], d, 1, 9_999, 100, 0).unwrap();
    assert_eq!(t, vec![Transfer { from: d, to: CUSTODY, amount: 9_999 }]);
}

#[test]
fn full_and_partial_refunds_wait_for_the_deadline() {
    let (mut c, _admin) = setup();
    let d = Address(10);
    c.lock_funds(&vec![d], d, 1, 1000, 100, 0).unwrap();
    assert_eq!(c.refund(1, None, None, RefundMode::Full, 99, 1000), Err(Error::DeadlineNotPassed));
    assert_eq!(c.refund(1, Some(10), None, RefundMode::Partial, 99, 1000), Err(Error::DeadlineNotPassed));

    let t = c.refund(1, Some(300), Some(Address(77)), RefundMode::Partial, 100, 1000).unwrap();
    assert_eq!(t, vec![Transfer { from: CUSTODY, to: d, amount: 300 }]);
    let e = c.get_escrow_info(1).unwrap();
    assert_eq!(e.status, EscrowStatus::PartiallyRefunded);
    assert_eq!(e.remaining_amount, 700);

    let t = c.refund(1, None, None, RefundMode::Full, 500, 700).unwrap();
    assert_eq!(t, vec![Transfer { from: CUSTODY, to: d, amount: 700 }]);
    let e = c.get_escrow_info(1).unwrap();
    assert_eq!(e.status, EscrowStatus::Refunded);
    assert_eq!(e.remaining_amount, 0);
    let history = c.get_refund_history(1).unwrap();
    assert_eq!(history.len(), 2);
    assert_eq!(history[0].amount, 300);
    assert_eq!(history[1].amount, 700);
    assert_eq!(history[1].mode, RefundMode::Full);

    assert_eq!(c.refund(1, None, None, RefundMode::Full, 500, 700), Err(Error::FundsNotLocked));
}

#[test]
fn custom_refund_before_deadline_needs_a_matching_approval_once() {
    let (mut c, admin) = setup();
    let d = Address(10);
    let to = Address(33);
    c.lock_funds(&vec![d], d, 1, 1000, 100, 0).unwrap();
    assert_eq!(c.refund(1, Some(400), Some(to), RefundMode::Custom, 10, 1000), Err(Error::RefundNotApproved));

    c.approve_refund(&vec![admin], 1, 400, to, RefundMode::Custom, 5).unwrap();
    let (can, passed, remaining, approval) = c.get_refund_eligibility(1, 10).unwrap();
    assert!(can);
    assert!(!passed);
    assert_eq!(remaining, 1000);
    assert_eq!(approval.unwrap().amount, 400);

    assert_eq!(c.refund(1, Some(399), Some(to), RefundMode::Custom, 10, 1000), Err(Error::RefundNotApproved));
    assert_eq!(c.refund(1, Some(400), Some(d), RefundMode::Custom, 10, 1000), Err(Error::RefundNotApproved));

    let t = c.refund(1, Some(400), Some(to), RefundMode::Custom, 10, 1000).unwrap();
    assert_eq!(t, vec![Transfer { from: CUSTODY, to, amount: 400 }]);
    assert_eq!(c.get_escrow_info(1).unwrap().remaining_amount, 600);

    assert_eq!(c.refund(1, Some(400), Some(to), RefundMode::Custom, 10, 600), Err(Error::RefundNotApproved));
    let (can, _, _, approval) = c.get_refund_eligibility(1, 10).unwrap();
    assert!(!can);
    assert!(approval.is_none());
}

#[test]
fn refund_and_approval_rejections() {
    let (mut c, admin) = setup();
    let d = Address(10);
    c.lock_funds(&vec![d], d, 1, 1000, 100, 0).unwrap();
    assert_eq!(c.refund(9, None, None, RefundMode::Full, 200, 1000), Err(Error::BountyNotFound));
    assert_eq!(c.refund(1, None, Some(d), RefundMode::Custom, 200, 1000), Err(Error::InvalidAmount));
    assert_eq!(c.refund(1, Some(5), None, RefundMode::Custom, 200, 1000), Err(Error::InvalidAmount));
    assert_eq!(c.refund(1, Some(1001), None, RefundMode::Partial, 200, 2000), Err(Error::InvalidAmount));
    assert_eq!(c.refund(1, None, None, RefundMode::Full, 200, 10), Err(Error::InsufficientFunds));
    assert_eq!(c.approve_refund(&vec![d], 1, 10, d, RefundMode::Custom, 0), Err(Error::Unauthorized));
    assert_eq!(c.approve_refund(&vec![admin], 2, 10, d, RefundMode::Custom, 0), Err(Error::BountyNotFound));
    assert_eq!(c.approve_refund(&vec![admin], 1, 1001, d, RefundMode::Custom, 0), Err(Error::InvalidAmount));
    assert_eq!(c.get_refund_history(2), Err(Error::BountyNotFound));
    assert!(c.get_refund_history(1).unwrap().is_empty());
}

#[test]
fn release_and_refund_share_one_escrow() {
    let (mut c, admin) = setup();
    let d = Address(10);
    c.lock_funds(&vec![d], d, 1, 1000, 100, 0).unwrap();
    c.release_funds(&vec![admin], 1, Address(20), Some(250), 0, 1000).unwrap();
    c.refund(1, Some(250), None, RefundMode::Partial, 100, 750).unwrap();
    let e = c.get_escrow_info(1).unwrap();
    assert_eq!(e.status, EscrowStatus::PartiallyRefunded);
    assert_eq!(e.remaining_amount, 500);
    let paid: i128 = e.payout_history.iter().map(|p| p.amount).sum();
    let refunded: i128 = e.refund_history.iter().map(|r| r.amount).sum();
    assert_eq!(paid + refunded + e.remaining_amount, e.amount);
    assert_eq!(c.release_funds(&vec![admin], 1, Address(20), None, 200, 500), Err(Error::FundsNotLocked));
    c.refund(1, None, None, RefundMode::Full, 100, 500).unwrap();
    assert_eq!(c.get_escrow_info(1).unwrap().status, EscrowStatus::Refunded);
}
