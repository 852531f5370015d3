use bounty_escrow::{AdminActionType, BountyEscrowContract, Address, Error};

fn create_test_env() -> (BountyEscrowContract, Address, Address) {
    let contract = BountyEscrowContract::new(Address(100));
    let admin = Address(1);
    let token = Address(2);
    (contract, admin, token)
}

#[test]
fn test_update_admin_without_timelock() {
    let (mut client, admin, token) = create_test_env();
    let new_admin = Address(3);
    client.init(admin, token).unwrap();

    assert_eq!(client.update_admin(&vec![admin], new_admin, 0), Ok(None));

    let state = client.get_contract_state().unwrap();
    assert_eq!(state.admin, new_admin);
}

#[test]
fn test_update_admin_with_timelock() {
    let (mut client, admin, token) = create_test_env();
    let new_admin = Address(3);
    client.init(admin, token).unwrap();

    client.set_time_lock_duration(&vec![admin], 1000).unwrap();
    assert_eq!(client.update_admin(&vec![admin], new_admin, 0), Ok(Some(1)));

    let action = client.get_admin_action(1).unwrap();
    assert_eq!(action.action_id, 1);
    assert_eq!(action.action_type, AdminActionType::UpdateAdmin(new_admin));
    assert!(!action.executed);

    let result = client.execute_admin_action(&vec![admin], 1, 0);
    assert!(result.is_err());

    client.execute_admin_action(&vec![admin], 1, 2000).unwrap();

    let state = client.get_contract_state().unwrap();
    assert_eq!(state.admin, new_admin);
}

#[test]
fn test_cancel_admin_action() {
    let (mut client, admin, token) = create_test_env();
    let new_admin = Address(3);
    client.init(admin, token).unwrap();
    client.set_time_lock_duration(&vec![admin], 1000).unwrap();
    client.update_admin(&vec![admin], new_admin, 0).unwrap();

    client.cancel_admin_action(&vec![admin], 1).unwrap();

    let result = client.get_admin_action(1);
    assert!(result.is_err());
}

#[test]
fn test_update_payout_key() {
    let (mut client, admin, token) = create_test_env();
    let payout_key = Address(4);
    client.init(admin, token).unwrap();

    client.update_payout_key(&vec![admin], payout_key, 0).unwrap();

    let state = client.get_contract_state().unwrap();
    assert_eq!(state.payout_key, Some(payout_key));
}

#[test]
fn test_update_payout_key_multiple_times() {
    let (mut client, admin, token) = create_test_env();
    let payout_key1 = Address(4);
    let payout_key2 = Address(5);
    client.init(admin, token).unwrap();

    client.update_payout_key(&vec![admin], payout_key1, 0).unwrap();
    let state = client.get_contract_state().unwrap();
    assert_eq!(state.payout_key, Some(payout_key1));

    client.update_payout_key(&vec![admin], payout_key2, 0).unwrap();
    let state = client.get_contract_state().unwrap();
    assert_eq!(state.payout_key, Some(payout_key2));
}

#[test]
fn test_update_config_limits() {
    let (mut client, admin, token) = create_test_env();
    client.init(admin, token).unwrap();

    client
        .update_config_limits(&vec![admin], Some(1_000_000i128), Some(1_000i128), Some(7_776_000u64), Some(86_400u64), 0)
        .unwrap();

    let state = client.get_contract_state().unwrap();
    assert_eq!(state.config_limits.max_bounty_amount, Some(1_000_000));
    assert_eq!(state.config_limits.min_bounty_amount, Some(1_000));
    assert_eq!(state.config_limits.max_deadline_duration, Some(7_776_000));
    assert_eq!(state.config_limits.min_deadline_duration, Some(86_400));
}

#[test]
fn test_update_config_limits_partial() {
    let (mut client, admin, token) = create_test_env();
    client.init(admin, token).unwrap();

    client.update_config_limits(&vec![admin], Some(1_000_000i128), None, None, Some(86_400u64), 0).unwrap();

    let state = client.get_contract_state().unwrap();
    assert_eq!(state.config_limits.max_bounty_amount, Some(1_000_000));
    assert_eq!(state.config_limits.min_bounty_amount, None);
    assert_eq!(state.config_limits.max_deadline_duration, None);
    assert_eq!(state.config_limits.min_deadline_duration, Some(86_400));
}

#[test]
fn test_get_contract_state() {
    let (mut client, admin, token) = create_test_env();
    client.init(admin, token).unwrap();

    let state = client.get_contract_state().unwrap();

    assert_eq!(state.admin, admin);
    assert_eq!(state.token, token);
    assert_eq!(state.payout_key, None);
    assert_eq!(state.is_paused, false);
    assert_eq!(state.time_lock_duration, 0);
    assert_eq!(state.contract_version, 1);
}

#[test]
fn test_get_contract_state_with_updates() {
    let (mut client, admin, token) = create_test_env();
    let payout_key = Address(4);
    client.init(admin, token).unwrap();

    client.update_payout_key(&vec![admin], payout_key, 0).unwrap();
    client.set_time_lock_duration(&vec![admin], 1000).unwrap();
    // With the time lock set, the limits change waits in the queue.
    let queued = client
        .update_config_limits(&vec![admin], Some(1_000_000i128), Some(1_000i128), Some(7_776_000u64), Some(86_400u64), 0)
        .unwrap();
    assert_eq!(queued, Some(1));
    client.execute_admin_action(&vec![admin], 1, 1000).unwrap();

    let state = client.get_contract_state().unwrap();
    assert_eq!(state.admin, admin);
    assert_eq!(state.token, token);
    assert_eq!(state.payout_key, Some(payout_key));
    assert_eq!(state.time_lock_duration, 1000);
    assert_eq!(state.config_limits.max_bounty_amount, Some(1_000_000));
}

#[test]
fn test_complete_admin_workflow() {
    let (mut client, admin, token) = create_test_env();
    let new_admin = Address(3);
    let payout_key = Address(4);

    client.init(admin, token).unwrap();
    client.set_time_lock_duration(&vec![admin], 1000).unwrap();

    // Every configuration change waits for the time lock.
    assert_eq!(client.update_payout_key(&vec![admin], payout_key, 0), Ok(Some(1)));
    assert_eq!(
        client.update_config_limits(&vec![admin], Some(1_000_000i128), Some(1_000i128), Some(7_776_000u64), Some(86_400u64), 0),
        Ok(Some(2))
    );
    assert_eq!(client.update_fee_config(&vec![admin], Some(100), Some(50), Some(payout_key), Some(true), 0), Ok(Some(3)));
    assert_eq!(client.update_admin(&vec![admin], new_admin, 0), Ok(Some(4)));

    let state = client.get_contract_state().unwrap();
    assert_eq!(state.admin, admin);
    assert_eq!(state.payout_key, None);
    assert_eq!(state.time_lock_duration, 1000);

    for id in 1..=4u64 {
        client.execute_admin_action(&vec![admin], id, 2000).unwrap();
    }

    let final_state = client.get_contract_state().unwrap();
    assert_eq!(final_state.admin, new_admin);
    assert_eq!(final_state.payout_key, Some(payout_key));
    assert_eq!(final_state.fee_config.lock_fee_rate, 100);
    assert_eq!(final_state.fee_config.release_fee_rate, 50);
    assert_eq!(final_state.config_limits.min_deadline_duration, Some(86_400));
}

#[test]
fn test_multiple_admin_actions() {
    let (mut client, admin, token) = create_test_env();
    let new_admin = Address(3);
    let payout_key = Address(4);

    client.init(admin, token).unwrap();
    client.set_time_lock_duration(&vec![admin], 1000).unwrap();

    client.update_admin(&vec![admin], new_admin, 0).unwrap();
    client.update_payout_key(&vec![admin], payout_key, 0).unwrap();

    let action = client.get_admin_action(1).unwrap();
    assert_eq!(action.action_type, AdminActionType::UpdateAdmin(new_admin));
    let action = client.get_admin_action(2).unwrap();
    assert_eq!(action.action_type, AdminActionType::UpdatePayoutKey(payout_key));

    let state = client.get_contract_state().unwrap();
    assert_eq!(state.payout_key, None);

    // The old admin runs the payout key change before handing over.
    client.execute_admin_action(&vec![admin], 2, 2000).unwrap();
    client.execute_admin_action(&vec![admin], 1, 2000).unwrap();

    let final_state = client.get_contract_state().unwrap();
    assert_eq!(final_state.admin, new_admin);
    assert_eq!(final_state.payout_key, Some(payout_key));
}

#[test]
fn scenario_time_locked_admin_change() {
    let (mut client, admin, token) = create_test_env();
    let new_admin = Address(3);
    client.init(admin, token).unwrap();
    client.set_time_lock_duration(&vec![admin], 1000).unwrap();

    let now = 500u64;
    let id = client.update_admin(&vec![admin], new_admin, now).unwrap().unwrap();
    assert_eq!(client.get_admin_action(id).unwrap().execution_time, 1500);

    assert_eq!(client.execute_admin_action(&vec![admin], id, now + 999), Err(Error::ActionNotReady));
    assert_eq!(client.get_contract_state().unwrap().admin, admin);

    assert_eq!(client.execute_admin_action(&vec![admin], id, now + 1000), Ok(()));
    assert_eq!(client.get_contract_state().unwrap().admin, new_admin);
    assert!(client.get_admin_action(id).unwrap().executed);

    assert_eq!(client.execute_admin_action(&vec![new_admin], id, now + 2000), Err(Error::ActionNotFound));
}

#[test]
fn admin_operations_need_the_admin() {
    let (mut client, admin, token) = create_test_env();
    let stranger = Address(9);
    assert_eq!(client.pause(&vec![admin]), Err(Error::NotInitialized));
    client.init(admin, token).unwrap();
    assert_eq!(client.init(admin, token), Err(Error::AlreadyInitialized));
    assert_eq!(client.update_admin(&vec![stranger], stranger, 0), Err(Error::Unauthorized));
    assert_eq!(client.update_payout_key(&vec![stranger], stranger, 0), Err(Error::Unauthorized));
    assert_eq!(client.set_time_lock_duration(&vec![stranger], 5), Err(Error::Unauthorized));
    assert_eq!(client.get_contract_state().unwrap().admin, admin);
}

#[test]
fn fee_rates_out_of_range_are_refused() {
    let (mut client, admin, token) = create_test_env();
    client.init(admin, token).unwrap();
    assert_eq!(client.update_fee_config(&vec![admin], Some(1001), None, None, None, 0), Err(Error::InvalidFeeRate));
    assert_eq!(client.update_fee_config(&vec![admin], None, Some(-1), None, None, 0), Err(Error::InvalidFeeRate));
    assert_eq!(client.update_fee_config(&vec![admin], Some(1000), Some(0), None, Some(true), 0), Ok(None));
    let fees = client.get_contract_state().unwrap().fee_config;
    assert_eq!(fees.lock_fee_rate, 1000);
    assert_eq!(fees.release_fee_rate, 0);
    assert!(fees.fee_enabled);
}

#[test]
fn time_lock_past_the_end_of_time_is_refused() {
    let (mut client, admin, token) = create_test_env();
    client.init(admin, token).unwrap();
    client.set_time_lock_duration(&vec![admin], 10).unwrap();
    assert_eq!(client.update_admin(&vec![admin], Address(3), u64::MAX - 5), Err(Error::InvalidTimeLock));
    assert_eq!(client.get_admin_action(1), Err(Error::ActionNotFound));
}

#[test]
fn executed_or_missing_actions_cannot_be_cancelled() {
    let (mut client, admin, token) = create_test_env();
    client.init(admin, token).unwrap();
    client.set_time_lock_duration(&vec![admin], 10).unwrap();
    client.update_payout_key(&vec![admin], Address(4), 0).unwrap();
    assert_eq!(client.cancel_admin_action(&vec![admin], 7), Err(Error::ActionNotFound));
    client.execute_admin_action(&vec![admin], 1, 10).unwrap();
    assert_eq!(client.cancel_admin_action(&vec![admin], 1), Err(Error::ActionNotFound));
}

#[test]
#[should_panic]
fn test_update_admin_unauthorized() {
    let (mut client, admin, token) = create_test_env();
    let unauthorized = Address(8);
    let new_admin = Address(3);
    client.init(admin, token).unwrap();

    client.update_admin(&vec![unauthorized], new_admin, 0).unwrap();
}

#[test]
#[should_panic]
fn test_update_payout_key_unauthorized() {
    let (mut client, admin, token) = create_test_env();
    let unauthorized = Address(8);
    let payout_key = Address(4);
    client.init(admin, token).unwrap();

    client.update_payout_key(&vec![unauthorized], payout_key, 0).unwrap();
}

#[test]
fn guard_blocks_nested_operations() {
    let (mut client, admin, token) = create_test_env();
    client.init(admin, token).unwrap();
    let d = Address(10);
    client.acquire_guard().unwrap();
    assert_eq!(client.acquire_guard(), Err(Error::ReentrantCall));
    assert_eq!(client.lock_funds(&vec![d], d, 1, 10, 100, 0), Err(Error::ReentrantCall));
    assert_eq!(client.refund(1, None, None, bounty_escrow::RefundMode::Full, 200, 10), Err(Error::ReentrantCall));
    client.release_guard();
    assert!(client.lock_funds(&vec![d], d, 1, 10, 100, 0).is_ok());
}
