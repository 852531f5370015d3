//! Properties that hold across operations, proved from their contracts.

use vstd::prelude::*;
use crate::batch::{has_duplicate, lock_ids, release_ids, LockFundsItem, ReleaseFundsItem};
use crate::escrow::{paid_total, payout_of, refund_amount_of, refunded_total, released, BountyEscrowContract, Escrow};
use crate::fees::{fee_of, FeeOperationType};
use crate::rate_limit::{limiter_step, sat_add, AddressState, AntiAbuseConfig};
use crate::types::{Address, Error, EscrowStatus, RefundMode, Transfer};

verus! {

/// After a successful lock the escrow is locked and registered, and any
/// further lock under the same id fails; one that passes the checks that
/// come before the id's check fails with `BountyExists`.
pub proof fn lemma_lock_registers_once(
    pre: BountyEscrowContract,
    post: BountyEscrowContract,
    depositor: Address,
    bounty_id: u64,
    amount: i128,
    deadline: u64,
    now: u64,
    signers: Seq<Address>,
    depositor2: Address,
    amount2: i128,
    deadline2: u64,
    now2: u64,
)
    requires
        pre.wf(),
        pre.lock_done(&post, depositor, bounty_id, amount, deadline, now),
    ensures
        post.escrow(bounty_id).status == EscrowStatus::Locked,
        post.registry@.contains(bounty_id),
        post.lock_error(signers, depositor2, bounty_id, amount2, deadline2, now2) is Some,
        !post.in_flight && !post.paused && signers.contains(depositor2)
            && post.limiter.verdict(depositor2, now2) is Ok && amount2 > 0 && deadline2 > now2
            && post.initialized() ==> post.lock_error(signers, depositor2, bounty_id, amount2, deadline2, now2)
            == Some(Error::BountyExists),
{
}

/// A settled escrow (released or refunded) takes no further release or
/// refund.
pub proof fn lemma_settled_escrow_is_final(
    c: BountyEscrowContract,
    signers: Seq<Address>,
    bounty_id: u64,
    amount: Option<i128>,
    recipient: Option<Address>,
    mode: RefundMode,
    now: u64,
    balance: i128,
)
    requires
        c.wf(),
        c.registry@.contains(bounty_id),
        c.escrow(bounty_id).status.is_terminal(),
    ensures
        c.release_error(signers, bounty_id, amount, now, balance) is Some,
        c.refund_error(bounty_id, amount, recipient, mode, now, balance) is Some,
{
}

/// What an escrow has paid out, by releases and refunds together, never
/// exceeds what was locked in it.
pub proof fn lemma_payouts_bounded(e: Escrow)
    requires
        e.wf(),
    ensures
        refunded_total(e.refund_history@) + paid_total(e.payout_history@) <= e.amount,
        refunded_total(e.refund_history@) + paid_total(e.payout_history@) == e.amount - e.remaining_amount,
{
}

/// Every escrow of a contract keeps its payouts within what was locked.
pub proof fn lemma_ledger_payouts_bounded(c: BountyEscrowContract, bounty_id: u64)
    requires
        c.wf(),
        c.registry@.contains(bounty_id),
    ensures
        refunded_total(c.escrow(bounty_id).refund_history@) + paid_total(c.escrow(bounty_id).payout_history@)
            <= c.escrow(bounty_id).amount,
{
    let i = c.slot(bounty_id);
    assert(c.escrows@[i].wf());
}

/// A successful release lowers what remains by exactly the amount
/// released, which is positive.
pub proof fn lemma_release_decreases(
    pre: BountyEscrowContract,
    post: Escrow,
    signers: Seq<Address>,
    bounty_id: u64,
    recipient: Address,
    amount: Option<i128>,
    now: u64,
    balance: i128,
)
    requires
        pre.wf(),
        pre.release_error(signers, bounty_id, amount, now, balance) is None,
        released(pre.escrow(bounty_id), post, payout_of(pre.escrow(bounty_id), amount), recipient, now),
    ensures
        payout_of(pre.escrow(bounty_id), amount) > 0,
        post.remaining_amount < pre.escrow(bounty_id).remaining_amount,
        pre.escrow(bounty_id).remaining_amount - post.remaining_amount == payout_of(pre.escrow(bounty_id), amount),
{
}

/// A successful refund lowers what remains by exactly the amount refunded,
/// which is positive.
pub proof fn lemma_refund_decreases(
    pre: BountyEscrowContract,
    post: BountyEscrowContract,
    bounty_id: u64,
    amount: Option<i128>,
    recipient: Option<Address>,
    mode: RefundMode,
    now: u64,
    balance: i128,
)
    requires
        pre.wf(),
        pre.refund_error(bounty_id, amount, recipient, mode, now, balance) is None,
        pre.refund_done(&post, bounty_id, amount, recipient, mode, now),
    ensures
        refund_amount_of(pre.escrow(bounty_id), amount, mode) > 0,
        post.escrow(bounty_id).remaining_amount < pre.escrow(bounty_id).remaining_amount,
        pre.escrow(bounty_id).remaining_amount - post.escrow(bounty_id).remaining_amount == refund_amount_of(
            pre.escrow(bounty_id),
            amount,
            mode,
        ),
{
}

/// Full and partial refunds of an open escrow fail with
/// `DeadlineNotPassed` before its deadline, and succeed from the deadline on
/// when the amount fits what remains and custody covers it.
pub proof fn lemma_refund_deadline(
    c: BountyEscrowContract,
    bounty_id: u64,
    amount: Option<i128>,
    recipient: Option<Address>,
    mode: RefundMode,
    now: u64,
    balance: i128,
)
    requires
        c.wf(),
        mode == RefundMode::Full || mode == RefundMode::Partial,
        !c.in_flight,
        !c.paused,
        c.registry@.contains(bounty_id),
        !c.escrow(bounty_id).status.is_terminal(),
    ensures
        now < c.escrow(bounty_id).deadline ==> c.refund_error(bounty_id, amount, recipient, mode, now, balance)
            == Some(Error::DeadlineNotPassed),
        ({
            let r = refund_amount_of(c.escrow(bounty_id), amount, mode);
            now >= c.escrow(bounty_id).deadline && 0 < r <= c.escrow(bounty_id).remaining_amount && balance >= r
                ==> c.refund_error(bounty_id, amount, recipient, mode, now, balance) is None
        }),
{
}

/// A custom refund of an open escrow before its deadline fails with
/// `RefundNotApproved` unless a live approval matches it exactly; with one
/// it succeeds (amount within what remains, custody covering it), and the
/// same refund asked again afterwards fails.
pub proof fn lemma_custom_refund_once(
    pre: BountyEscrowContract,
    post: BountyEscrowContract,
    bounty_id: u64,
    amount: i128,
    recipient: Address,
    now: u64,
    balance: i128,
    balance2: i128,
)
    requires
        pre.wf(),
        !pre.in_flight,
        !pre.paused,
        pre.registry@.contains(bounty_id),
        !pre.escrow(bounty_id).status.is_terminal(),
        now < pre.escrow(bounty_id).deadline,
    ensures
        !pre.approval_matches(bounty_id, amount as int, recipient, RefundMode::Custom) ==> pre.refund_error(
            bounty_id,
            Some(amount),
            Some(recipient),
            RefundMode::Custom,
            now,
            balance,
        ) == Some(Error::RefundNotApproved),
        pre.approval_matches(bounty_id, amount as int, recipient, RefundMode::Custom) && 0 < amount
            <= pre.escrow(bounty_id).remaining_amount && balance >= amount ==> pre.refund_error(
            bounty_id,
            Some(amount),
            Some(recipient),
            RefundMode::Custom,
            now,
            balance,
        ) is None,
        pre.refund_done(&post, bounty_id, Some(amount), Some(recipient), RefundMode::Custom, now) ==> post.refund_error(
            bounty_id,
            Some(amount),
            Some(recipient),
            RefundMode::Custom,
            now,
            balance2,
        ) is Some,
{
    if pre.refund_done(&post, bounty_id, Some(amount), Some(recipient), RefundMode::Custom, now) {
        assert(post.registry@ == pre.registry@);
        assert(post.escrow(bounty_id).deadline == pre.escrow(bounty_id).deadline);
        assert(post.approval(bounty_id) is None);
    }
}

/// A batch lock with a repeated id or a non-positive amount is refused
/// (and so, by its contract, changes nothing).
pub proof fn lemma_bad_lock_batch_refused(
    c: BountyEscrowContract,
    signers: Seq<Address>,
    items: Seq<LockFundsItem>,
    now: u64,
)
    requires
        has_duplicate(lock_ids(items)) || exists|k: int| 0 <= k < items.len() && #[trigger] items[k].amount <= 0,
    ensures
        c.batch_lock_error(signers, items, now) is Some,
{
}

/// A batch release with a repeated id, an unknown id, or an escrow that
/// may not be released is refused (and so changes nothing).
pub proof fn lemma_bad_release_batch_refused(
    c: BountyEscrowContract,
    signers: Seq<Address>,
    items: Seq<ReleaseFundsItem>,
    now: u64,
    balance: i128,
)
    requires
        has_duplicate(release_ids(items)) || exists|k: int| 0 <= k < items.len() && (!c.registry@.contains(
            #[trigger] items[k].bounty_id,
        ) || !c.escrow(items[k].bounty_id).releasable()),
    ensures
        c.batch_release_error(signers, items, now, balance) is Some,
{
}

/// With fees on at lock rate `r`, locking `A` keeps `A - floor(A*r/10000)`
/// in the escrow and sends `floor(A*r/10000)` to the fee recipient.
pub proof fn lemma_lock_fee(
    pre: BountyEscrowContract,
    post: BountyEscrowContract,
    depositor: Address,
    bounty_id: u64,
    amount: i128,
    deadline: u64,
    now: u64,
)
    requires
        pre.wf(),
        pre.fee_config.fee_enabled,
        amount > 0,
        pre.lock_done(&post, depositor, bounty_id, amount, deadline, now),
    ensures
        ({
            let fee = amount * pre.fee_config.lock_fee_rate / 10000;
            &&& pre.lock_fee(amount) == fee
            &&& post.escrow(bounty_id).amount == amount - fee
            &&& fee > 0 ==> pre.lock_transfers(depositor, amount) == seq![
                Transfer { from: depositor, to: pre.contract_address, amount: (amount - fee) as i128 },
                Transfer { from: depositor, to: pre.fee_config.fee_recipient, amount: fee as i128 },
            ]
            &&& fee == 0 ==> pre.lock_transfers(depositor, amount) == seq![
                Transfer { from: depositor, to: pre.contract_address, amount },
            ]
        }),
{
    let fee = amount * pre.fee_config.lock_fee_rate / 10000;
    assert(pre.lock_fee(amount) == fee_of(amount as int, pre.fee_config.rate_spec(FeeOperationType::Lock)));
    assert(pre.lock_transfers(depositor, amount) =~= if fee > 0 {
        seq![
            Transfer { from: depositor, to: pre.contract_address, amount: (amount - fee) as i128 },
            Transfer { from: depositor, to: pre.fee_config.fee_recipient, amount: fee as i128 },
        ]
    } else {
        seq![Transfer { from: depositor, to: pre.contract_address, amount }]
    });
}

/// The limiter's decisions on a run of calls of one address at `times`,
/// starting from what it remembered (`prior`): the state after the last
/// call, or the first refusal.
pub open spec fn replay(config: AntiAbuseConfig, prior: Option<AddressState>, times: Seq<u64>) -> Result<
    Option<AddressState>,
    Error,
>
    decreases times.len(),
{
    if times.len() == 0 {
        Ok(prior)
    } else {
        match replay(config, prior, times.drop_last()) {
            Err(e) => Err(e),
            Ok(p) => match limiter_step(config, p, times.last()) {
                Ok(s) => Ok(Some(s)),
                Err(e) => Err(e),
            },
        }
    }
}

proof fn lemma_replay_within_window(config: AntiAbuseConfig, times: Seq<u64>, k: int)
    requires
        1 <= k <= times.len(),
        k <= config.max_operations,
        forall|j: int| 0 <= j < times.len() ==> times[0] <= #[trigger] times[j] < sat_add(times[0], config.window_size),
        forall|j: int| 0 < j < times.len() ==> #[trigger] times[j] >= sat_add(times[j - 1], config.cooldown_period),
    ensures
        replay(config, None, times.subrange(0, k)) == Ok::<Option<AddressState>, Error>(Some(AddressState {
            last_operation_timestamp: times[k - 1],
            window_start_timestamp: times[0],
            operation_count: k as u32,
        })),
    decreases k,
{
    let s = times.subrange(0, k);
    assert(s.last() == times[k - 1]);
    assert(times[k - 1] < sat_add(times[0], config.window_size));
    if k == 1 {
        assert(s.drop_last() =~= seq![]);
        assert(replay(config, None, s.drop_last()) == Ok::<Option<AddressState>, Error>(None));
        assert(times[0] < sat_add(times[0], config.window_size));
    } else {
        lemma_replay_within_window(config, times, k - 1);
        assert(s.drop_last() =~= times.subrange(0, k - 1));
        assert(times[k - 1] >= sat_add(times[k - 2], config.cooldown_period));
    }
}

/// Inside one window, `max_operations` calls of one new address spaced by
/// at least the cooldown all pass, and one more is refused with
/// `RateLimitExceeded`.
pub proof fn lemma_rate_limit_exhausts(config: AntiAbuseConfig, times: Seq<u64>)
    requires
        times.len() == config.max_operations + 1,
        forall|j: int| 0 <= j < times.len() ==> times[0] <= #[trigger] times[j] < sat_add(times[0], config.window_size),
        forall|j: int| 0 < j < times.len() ==> #[trigger] times[j] >= sat_add(times[j - 1], config.cooldown_period),
    ensures
        replay(config, None, times.drop_last()) is Ok,
        replay(config, None, times) == Err::<Option<AddressState>, Error>(Error::RateLimitExceeded),
{
    let m = config.max_operations as int;
    assert(times.drop_last() =~= times.subrange(0, m));
    if m == 0 {
        assert(times.drop_last() =~= seq![]);
    } else {
        lemma_replay_within_window(config, times, m);
        assert(times[m] >= sat_add(times[m - 1], config.cooldown_period));
    }
}

/// A call that comes at least the cooldown after the address's last one,
/// inside its window and with operations left in it, passes.
pub proof fn lemma_rate_limit_after_cooldown(config: AntiAbuseConfig, s: AddressState, now: u64)
    requires
        now >= sat_add(s.last_operation_timestamp, config.cooldown_period),
        now < sat_add(s.window_start_timestamp, config.window_size),
        s.operation_count < config.max_operations,
    ensures
        limiter_step(config, Some(s), now) == Ok::<AddressState, Error>(AddressState {
            last_operation_timestamp: now,
            window_start_timestamp: s.window_start_timestamp,
            operation_count: (s.operation_count + 1) as u32,
        }),
{
}

} // verus!
