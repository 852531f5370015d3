use vstd::prelude::*;
use crate::escrow::{is_signer, BountyEscrowContract};
use crate::fees::{valid_rate, validate_fee_rate, FeeConfig};
use crate::rate_limit::AntiAbuseConfig;
use crate::types::{Address, Error, Transfer};

verus! {

/// Bounds on what a lock may ask for; `None` leaves a side open.
#[derive(Clone, Copy, Debug, PartialEq, Eq, Structural)]
pub struct ConfigLimits {
    pub max_bounty_amount: Option<i128>,
    pub min_bounty_amount: Option<i128>,
    pub max_deadline_duration: Option<u64>,
    pub min_deadline_duration: Option<u64>,
}

impl ConfigLimits {
    pub fn unlimited() -> (r: ConfigLimits)
        ensures
            r.max_bounty_amount is None,
            r.min_bounty_amount is None,
            r.max_deadline_duration is None,
            r.min_deadline_duration is None,
    {
        ConfigLimits {
            max_bounty_amount: None,
            min_bounty_amount: None,
            max_deadline_duration: None,
            min_deadline_duration: None,
        }
    }

    pub open spec fn admits_amount(self, amount: int) -> bool {
        &&& (self.min_bounty_amount matches Some(m) ==> amount >= m)
        &&& (self.max_bounty_amount matches Some(m) ==> amount <= m)
    }

    /// `duration` is the time from now to the deadline.
    pub open spec fn admits_duration(self, duration: int) -> bool {
        &&& (self.min_deadline_duration matches Some(m) ==> duration >= m)
        &&& (self.max_deadline_duration matches Some(m) ==> duration <= m)
    }

    pub fn check_amount(&self, amount: i128) -> (r: bool)
        ensures
            r == self.admits_amount(amount as int),
    {
        let low_ok = match self.min_bounty_amount {
            Some(m) => amount >= m,
            None => true,
        };
        let high_ok = match self.max_bounty_amount {
            Some(m) => amount <= m,
            None => true,
        };
        low_ok && high_ok
    }

    pub fn check_duration(&self, duration: u64) -> (r: bool)
        ensures
            r == self.admits_duration(duration as int),
    {
        let low_ok = match self.min_deadline_duration {
            Some(m) => duration >= m,
            None => true,
        };
        let high_ok = match self.max_deadline_duration {
            Some(m) => duration <= m,
            None => true,
        };
        low_ok && high_ok
    }
}

/// A configuration change, with what it changes to.
#[derive(Clone, Copy, Debug, PartialEq, Eq, Structural)]
pub enum AdminActionType {
    UpdateAdmin(Address),
    UpdatePayoutKey(Address),
    UpdateConfigLimits(ConfigLimits),
    UpdateFeeConfig(FeeConfigUpdate),
}

/// A change of the fee configuration; `None` keeps the current value.
#[derive(Clone, Copy, Debug, PartialEq, Eq, Structural)]
pub struct FeeConfigUpdate {
    pub lock_fee_rate: Option<i128>,
    pub release_fee_rate: Option<i128>,
    pub fee_recipient: Option<Address>,
    pub fee_enabled: Option<bool>,
}

impl FeeConfigUpdate {
    /// Every rate given lies in the accepted range.
    pub open spec fn valid(self) -> bool {
        &&& (self.lock_fee_rate matches Some(r) ==> valid_rate(r as int))
        &&& (self.release_fee_rate matches Some(r) ==> valid_rate(r as int))
    }

    /// `base` with the given values put in.
    pub open spec fn merged(self, base: FeeConfig) -> FeeConfig {
        FeeConfig {
            lock_fee_rate: match self.lock_fee_rate {
                Some(r) => r,
                None => base.lock_fee_rate,
            },
            release_fee_rate: match self.release_fee_rate {
                Some(r) => r,
                None => base.release_fee_rate,
            },
            fee_recipient: match self.fee_recipient {
                Some(a) => a,
                None => base.fee_recipient,
            },
            fee_enabled: match self.fee_enabled {
                Some(b) => b,
                None => base.fee_enabled,
            },
        }
    }

    pub fn merge_into(&self, base: FeeConfig) -> (r: FeeConfig)
        ensures
            r == self.merged(base),
    {
        FeeConfig {
            lock_fee_rate: match self.lock_fee_rate {
                Some(r) => r,
                None => base.lock_fee_rate,
            },
            release_fee_rate: match self.release_fee_rate {
                Some(r) => r,
                None => base.release_fee_rate,
            },
            fee_recipient: match self.fee_recipient {
                Some(a) => a,
                None => base.fee_recipient,
            },
            fee_enabled: match self.fee_enabled {
                Some(b) => b,
                None => base.fee_enabled,
            },
        }
    }
}

impl AdminActionType {
    pub open spec fn valid(self) -> bool {
        match self {
            AdminActionType::UpdateFeeConfig(u) => u.valid(),
            _ => true,
        }
    }
}

/// A queued configuration change.
#[derive(Clone, Copy, Debug, PartialEq, Eq, Structural)]
pub struct AdminAction {
    pub action_id: u64,
    pub action_type: AdminActionType,
    pub proposed_by: Address,
    pub execution_time: u64,
    pub executed: bool,
}

/// The queue of configuration changes waiting for their time lock.
pub struct ActionQueue {
    pub entries: Vec<AdminAction>,
    /// The id that the next proposal gets.
    pub next_id: u64,
}

impl ActionQueue {
    pub open spec fn wf(&self) -> bool {
        &&& forall|i: int| 0 <= i < self.entries@.len() ==> (#[trigger] self.entries@[i]).action_id < self.next_id
            && self.entries@[i].action_type.valid()
        &&& forall|i: int, j: int|
            0 <= i < j < self.entries@.len() ==> #[trigger] self.entries@[i].action_id
                != #[trigger] self.entries@[j].action_id
    }

    /// The action with id `id`, executed or not, if it was not cancelled.
    pub open spec fn get(&self, id: u64) -> Option<AdminAction> {
        if exists|i: int| 0 <= i < self.entries@.len() && self.entries@[i].action_id == id {
            Some(self.entries@[choose|i: int| 0 <= i < self.entries@.len() && self.entries@[i].action_id == id])
        } else {
            None
        }
    }

    /// The action with id `id`, if it waits to be executed.
    pub open spec fn pending(&self, id: u64) -> Option<AdminAction> {
        match self.get(id) {
            Some(a) => if a.executed {
                None
            } else {
                Some(a)
            },
            None => None,
        }
    }

    pub fn new() -> (r: ActionQueue)
        ensures
            r.wf(),
            r.next_id == 1,
            forall|id: u64| r.get(id) is None,
    {
        ActionQueue { entries: Vec::new(), next_id: 1 }
    }

    fn find(&self, id: u64) -> (r: Option<usize>)
        requires
            self.wf(),
        ensures
            match r {
                Some(i) => i < self.entries@.len() && self.entries@[i as int].action_id == id
                    && self.get(id) == Some(self.entries@[i as int]),
                None => self.get(id) is None,
            },
    {
        let mut i: usize = 0;
        while i < self.entries.len()
            invariant
                self.wf(),
                i <= self.entries@.len(),
                forall|k: int| 0 <= k < i ==> self.entries@[k].action_id != id,
            decreases self.entries@.len() - i,
        {
            if self.entries[i].action_id == id {
                proof {
                    let j = choose|j: int| 0 <= j < self.entries@.len() && self.entries@[j].action_id == id;
                    if j != i as int {
                        if j < i {
                            assert(self.entries@[j].action_id != self.entries@[i as int].action_id);
                        } else {
                            assert(self.entries@[i as int].action_id != self.entries@[j].action_id);
                        }
                    }
                }
                return Some(i);
            }
            i = i + 1;
        }
        None
    }

    pub fn lookup(&self, id: u64) -> (r: Option<AdminAction>)
        requires
            self.wf(),
        ensures
            r == self.get(id),
    {
        match self.find(id) {
            Some(i) => Some(self.entries[i]),
            None => None,
        }
    }

    /// Queues `action_type` under a fresh id, to run from `execution_time`.
    pub fn enqueue(&mut self, action_type: AdminActionType, proposed_by: Address, execution_time: u64) -> (r: u64)
        requires
            old(self).wf(),
            old(self).next_id < u64::MAX,
            action_type.valid(),
        ensures
            final(self).wf(),
            r == old(self).next_id,
            final(self).next_id == old(self).next_id + 1,
            final(self).get(r) == Some(AdminAction { action_id: r, action_type, proposed_by, execution_time, executed: false }),
            forall|id: u64| id != r ==> final(self).get(id) == old(self).get(id),
    {
        let id = self.next_id;
        let ghost before = self.entries@;
        let action = AdminAction { action_id: id, action_type, proposed_by, execution_time, executed: false };
        self.entries.push(action);
        self.next_id = id + 1;
        proof {
            let n = before.len() as int;
            assert(self.entries@[n].action_id == id);
            assert forall|other: u64| other != id implies self.get(other) == old(self).get(other) by {
                if exists|k: int| 0 <= k < before.len() && before[k].action_id == other {
                    let k = choose|k: int| 0 <= k < before.len() && before[k].action_id == other;
                    assert(self.entries@[k].action_id == other);
                }
                if exists|k: int| 0 <= k < self.entries@.len() && self.entries@[k].action_id == other {
                    let k = choose|k: int| 0 <= k < self.entries@.len() && self.entries@[k].action_id == other;
                    assert(before[k].action_id == other);
                }
            }
            let j = choose|j: int| 0 <= j < self.entries@.len() && self.entries@[j].action_id == id;
            if j != n {
                assert(before[j].action_id < id);
            }
        }
        id
    }

    /// Marks the action at `i` as executed.
    fn mark_executed(&mut self, i: usize)
        requires
            old(self).wf(),
            i < old(self).entries@.len(),
        ensures
            final(self).wf(),
            final(self).next_id == old(self).next_id,
            final(self).get(old(self).entries@[i as int].action_id)
                == Some(AdminAction { executed: true, ..old(self).entries@[i as int] }),
            forall|id: u64| id != old(self).entries@[i as int].action_id ==> final(self).get(id) == old(self).get(id),
    {
        let mut a = self.entries[i];
        let ghost before = self.entries@;
        a.executed = true;
        self.entries.set(i, a);
        proof {
            let id = a.action_id;
            assert forall|other: u64| other != id implies self.get(other) == old(self).get(other) by {
                if exists|k: int| 0 <= k < before.len() && before[k].action_id == other {
                    let k = choose|k: int| 0 <= k < before.len() && before[k].action_id == other;
                    assert(self.entries@[k].action_id == other);
                }
                if exists|k: int| 0 <= k < self.entries@.len() && self.entries@[k].action_id == other {
                    let k = choose|k: int| 0 <= k < self.entries@.len() && self.entries@[k].action_id == other;
                    assert(before[k].action_id == other);
                }
            }
            assert(self.entries@[i as int].action_id == id);
            let j = choose|j: int| 0 <= j < self.entries@.len() && self.entries@[j].action_id == id;
            if j != i as int {
                if j < i {
                    assert(before[j].action_id != before[i as int].action_id);
                } else {
                    assert(before[i as int].action_id != before[j].action_id);
                }
            }
        }
    }

    /// Drops the action at `i`.
    fn drop_at(&mut self, i: usize)
        requires
            old(self).wf(),
            i < old(self).entries@.len(),
        ensures
            final(self).wf(),
            final(self).next_id == old(self).next_id,
            final(self).get(old(self).entries@[i as int].action_id) is None,
            forall|id: u64| id != old(self).entries@[i as int].action_id ==> final(self).get(id) == old(self).get(id),
    {
        let ghost before = self.entries@;
        let ghost id = before[i as int].action_id;
        self.entries.remove(i);
        proof {
            assert forall|k: int| 0 <= k < self.entries@.len() implies
                #[trigger] self.entries@[k] == before[if k < i { k } else { k + 1 }] by {}
            assert forall|other: u64| other != id implies self.get(other) == old(self).get(other) by {
                if exists|k: int| 0 <= k < before.len() && before[k].action_id == other {
                    let k = choose|k: int| 0 <= k < before.len() && before[k].action_id == other;
                    let k2 = if k < i { k } else { k - 1 };
                    assert(self.entries@[k2].action_id == other);
                }
                if exists|k: int| 0 <= k < self.entries@.len() && self.entries@[k].action_id == other {
                    let k = choose|k: int| 0 <= k < self.entries@.len() && self.entries@[k].action_id == other;
                    let k2 = if k < i { k } else { k + 1 };
                    assert(before[k2].action_id == other);
                }
            }
            if exists|k: int| 0 <= k < self.entries@.len() && self.entries@[k].action_id == id {
                let k = choose|k: int| 0 <= k < self.entries@.len() && self.entries@[k].action_id == id;
                let k2 = if k < i { k } else { k + 1 };
                assert(before[k2].action_id == id);
                if k2 < i {
                    assert(before[k2].action_id != before[i as int].action_id);
                } else {
                    assert(before[i as int].action_id != before[k2].action_id);
                }
            }
        }
    }
}

/// The version of this contract's logic.
pub const CONTRACT_VERSION: u32 = 1;

/// The configuration of a contract, as one value.
#[derive(Clone, Copy, Debug, PartialEq, Eq, Structural)]
pub struct ContractState {
    pub admin: Address,
    pub token: Address,
    pub payout_key: Option<Address>,
    pub is_paused: bool,
    pub time_lock_duration: u64,
    pub contract_version: u32,
    pub config_limits: ConfigLimits,
    pub fee_config: FeeConfig,
}

impl BountyEscrowContract {
    /// Why an admin-only operation would refuse before looking at its
    /// arguments.
    pub open spec fn admin_error(&self, signers: Seq<Address>) -> Option<Error> {
        if !self.initialized() {
            Some(Error::NotInitialized)
        } else if !signers.contains(self.admin->Some_0) {
            Some(Error::Unauthorized)
        } else {
            None
        }
    }

    /// `post` is this contract with `t` applied, and nothing else changed
    /// but the action queue.
    pub open spec fn takes_effect(&self, post: &BountyEscrowContract, t: AdminActionType) -> bool {
        &&& post.admin == match t {
            AdminActionType::UpdateAdmin(a) => Some(a),
            _ => self.admin,
        }
        &&& post.payout_key == match t {
            AdminActionType::UpdatePayoutKey(k) => Some(k),
            _ => self.payout_key,
        }
        &&& post.config_limits == match t {
            AdminActionType::UpdateConfigLimits(l) => l,
            _ => self.config_limits,
        }
        &&& post.fee_config == match t {
            AdminActionType::UpdateFeeConfig(u) => u.merged(self.fee_config),
            _ => self.fee_config,
        }
        &&& post.contract_address == self.contract_address
        &&& post.token == self.token
        &&& post.paused == self.paused
        &&& post.in_flight == self.in_flight
        &&& post.time_lock_duration == self.time_lock_duration
        &&& post.registry@ == self.registry@
        &&& post.escrows@ == self.escrows@
        &&& post.approvals == self.approvals
        &&& post.limiter == self.limiter
    }

    fn check_admin(&self, signers: &Vec<Address>) -> (r: Result<Address, Error>)
        ensures
            match self.admin_error(signers@) {
                Some(e) => r == Err::<Address, Error>(e),
                None => r == Ok::<Address, Error>(self.admin->Some_0),
            },
    {
        match self.admin {
            None => Err(Error::NotInitialized),
            Some(a) => if is_signer(signers, a) {
                Ok(a)
            } else {
                Err(Error::Unauthorized)
            },
        }
    }

    fn apply_action(&mut self, t: AdminActionType)
        requires
            old(self).wf(),
            old(self).initialized(),
            t.valid(),
        ensures
            final(self).wf(),
            old(self).takes_effect(&*final(self), t),
            final(self).actions == old(self).actions,
    {
        match t {
            AdminActionType::UpdateAdmin(a) => self.admin = Some(a),
            AdminActionType::UpdatePayoutKey(k) => self.payout_key = Some(k),
            AdminActionType::UpdateConfigLimits(l) => self.config_limits = l,
            AdminActionType::UpdateFeeConfig(u) => self.fee_config = u.merge_into(self.fee_config),
        }
    }

    /// Applies `t` at once when no time lock is set; else queues it to run
    /// `time_lock_duration` seconds from `now` and returns its id.
    fn propose(&mut self, proposer: Address, t: AdminActionType, now: u64) -> (r: Result<Option<u64>, Error>)
        requires
            old(self).wf(),
            old(self).initialized(),
            t.valid(),
        ensures
            final(self).wf(),
            old(self).proposal_outcome(&*final(self), proposer, t, now, r),
    {
        if self.time_lock_duration == 0 {
            self.apply_action(t);
            return Ok(None);
        }
        let at = match now.checked_add(self.time_lock_duration) {
            Some(at) => at,
            None => return Err(Error::InvalidTimeLock),
        };
        if self.actions.next_id == u64::MAX {
            return Err(Error::InvalidTimeLock);
        }
        let id = self.actions.enqueue(t, proposer, at);
        Ok(Some(id))
    }

    /// What proposing `t` at `now` leads to: applied at once without a time
    /// lock; else queued under the next id to run once the lock has run
    /// out, or refused when that time or that id does not fit in 64 bits.
    pub open spec fn proposal_outcome(
        &self,
        post: &BountyEscrowContract,
        proposer: Address,
        t: AdminActionType,
        now: u64,
        r: Result<Option<u64>, Error>,
    ) -> bool {
        if self.time_lock_duration == 0 {
            r == Ok::<Option<u64>, Error>(None) && self.takes_effect(post, t) && post.actions == self.actions
        } else if now + self.time_lock_duration > u64::MAX || self.actions.next_id == u64::MAX {
            r == Err::<Option<u64>, Error>(Error::InvalidTimeLock) && *post == *self
        } else {
            let id = self.actions.next_id;
            &&& r == Ok::<Option<u64>, Error>(Some(id))
            &&& post.actions.next_id == id + 1
            &&& post.actions.get(id) == Some(AdminAction {
                action_id: id,
                action_type: t,
                proposed_by: proposer,
                execution_time: (now + self.time_lock_duration) as u64,
                executed: false,
            })
            &&& forall|other: u64| other != id ==> post.actions.get(other) == self.actions.get(other)
            &&& *post == BountyEscrowContract { actions: post.actions, ..*self }
        }
    }

    /// Sets how long configuration changes wait; zero applies them at once.
    pub fn set_time_lock_duration(&mut self, signers: &Vec<Address>, duration: u64) -> (r: Result<(), Error>)
        requires
            old(self).wf(),
        ensures
            final(self).wf(),
            match old(self).admin_error(signers@) {
                Some(e) => r == Err::<(), Error>(e) && *final(self) == *old(self),
                None => r is Ok && *final(self) == BountyEscrowContract { time_lock_duration: duration, ..*old(self) },
            },
    {
        self.check_admin(signers)?;
        self.time_lock_duration = duration;
        Ok(())
    }

    /// Stops locks, releases and refunds until `unpause`.
    pub fn pause(&mut self, signers: &Vec<Address>) -> (r: Result<(), Error>)
        requires
            old(self).wf(),
        ensures
            final(self).wf(),
            match old(self).admin_error(signers@) {
                Some(e) => r == Err::<(), Error>(e) && *final(self) == *old(self),
                None => r is Ok && *final(self) == BountyEscrowContract { paused: true, ..*old(self) },
            },
    {
        self.check_admin(signers)?;
        self.paused = true;
        Ok(())
    }

    pub fn unpause(&mut self, signers: &Vec<Address>) -> (r: Result<(), Error>)
        requires
            old(self).wf(),
        ensures
            final(self).wf(),
            match old(self).admin_error(signers@) {
                Some(e) => r == Err::<(), Error>(e) && *final(self) == *old(self),
                None => r is Ok && *final(self) == BountyEscrowContract { paused: false, ..*old(self) },
            },
    {
        self.check_admin(signers)?;
        self.paused = false;
        Ok(())
    }

    pub fn is_paused(&self) -> (r: bool)
        ensures
            r == self.paused,
    {
        self.paused
    }

    /// While paused, sweeps the whole custody `balance` to `recipient`.
    pub fn emergency_withdraw(&self, signers: &Vec<Address>, recipient: Address, balance: i128) -> (r: Result<
        Vec<Transfer>,
        Error,
    >)
        ensures
            match self.admin_error(signers@) {
                Some(e) => r == Err::<Vec<Transfer>, Error>(e),
                None => if !self.paused {
                    r == Err::<Vec<Transfer>, Error>(Error::NotPaused)
                } else if balance > 0 {
                    r is Ok && r->Ok_0@ == seq![Transfer { from: self.contract_address, to: recipient, amount: balance }]
                } else {
                    r is Ok && r->Ok_0@.len() == 0
                },
            },
    {
        self.check_admin(signers)?;
        if !self.paused {
            return Err(Error::NotPaused);
        }
        let mut transfers: Vec<Transfer> = Vec::new();
        if balance > 0 {
            transfers.push(Transfer { from: self.contract_address, to: recipient, amount: balance });
        }
        Ok(transfers)
    }

    /// Replaces the rate limiter's limits.
    pub fn set_rate_limit_config(&mut self, signers: &Vec<Address>, config: AntiAbuseConfig) -> (r: Result<(), Error>)
        requires
            old(self).wf(),
        ensures
            final(self).wf(),
            match old(self).admin_error(signers@) {
                Some(e) => r == Err::<(), Error>(e) && *final(self) == *old(self),
                None => r is Ok && final(self).limiter.config == config
                    && final(self).limiter.allow_list == old(self).limiter.allow_list
                    && final(self).limiter.states == old(self).limiter.states
                    && *final(self) == BountyEscrowContract { limiter: final(self).limiter, ..*old(self) },
            },
    {
        self.check_admin(signers)?;
        self.limiter.config = config;
        Ok(())
    }

    /// Puts `address` on the limiter's allow-list, or takes it off.
    pub fn set_whitelist(&mut self, signers: &Vec<Address>, address: Address, whitelisted: bool) -> (r: Result<(), Error>)
        requires
            old(self).wf(),
        ensures
            final(self).wf(),
            match old(self).admin_error(signers@) {
                Some(e) => r == Err::<(), Error>(e) && *final(self) == *old(self),
                None => r is Ok && final(self).limiter.allowed(address) == whitelisted
                    && (forall|b: Address| b != address ==> final(self).limiter.allowed(b) == old(self).limiter.allowed(b))
                    && final(self).limiter.config == old(self).limiter.config
                    && final(self).limiter.states == old(self).limiter.states
                    && *final(self) == BountyEscrowContract { limiter: final(self).limiter, ..*old(self) },
            },
    {
        self.check_admin(signers)?;
        self.limiter.set_allowed(address, whitelisted);
        Ok(())
    }

    /// Changes the admin, at once or through the queue.
    pub fn update_admin(&mut self, signers: &Vec<Address>, new_admin: Address, now: u64) -> (r: Result<Option<u64>, Error>)
        requires
            old(self).wf(),
        ensures
            final(self).wf(),
            match old(self).admin_error(signers@) {
                Some(e) => r == Err::<Option<u64>, Error>(e) && *final(self) == *old(self),
                None => old(self).proposal_outcome(
                    &*final(self),
                    old(self).admin->Some_0,
                    AdminActionType::UpdateAdmin(new_admin),
                    now,
                    r,
                ),
            },
    {
        let admin = self.check_admin(signers)?;
        self.propose(admin, AdminActionType::UpdateAdmin(new_admin), now)
    }

    /// Changes the payout key, at once or through the queue.
    pub fn update_payout_key(&mut self, signers: &Vec<Address>, key: Address, now: u64) -> (r: Result<Option<u64>, Error>)
        requires
            old(self).wf(),
        ensures
            final(self).wf(),
            match old(self).admin_error(signers@) {
                Some(e) => r == Err::<Option<u64>, Error>(e) && *final(self) == *old(self),
                None => old(self).proposal_outcome(
                    &*final(self),
                    old(self).admin->Some_0,
                    AdminActionType::UpdatePayoutKey(key),
                    now,
                    r,
                ),
            },
    {
        let admin = self.check_admin(signers)?;
        self.propose(admin, AdminActionType::UpdatePayoutKey(key), now)
    }

    /// Replaces the lock limits, at once or through the queue.
    pub fn update_config_limits(
        &mut self,
        signers: &Vec<Address>,
        max_bounty_amount: Option<i128>,
        min_bounty_amount: Option<i128>,
        max_deadline_duration: Option<u64>,
        min_deadline_duration: Option<u64>,
        now: u64,
    ) -> (r: Result<Option<u64>, Error>)
        requires
            old(self).wf(),
        ensures
            final(self).wf(),
            match old(self).admin_error(signers@) {
                Some(e) => r == Err::<Option<u64>, Error>(e) && *final(self) == *old(self),
                None => old(self).proposal_outcome(
                    &*final(self),
                    old(self).admin->Some_0,
                    AdminActionType::UpdateConfigLimits(
                        ConfigLimits { max_bounty_amount, min_bounty_amount, max_deadline_duration, min_deadline_duration },
                    ),
                    now,
                    r,
                ),
            },
    {
        let admin = self.check_admin(signers)?;
        let limits = ConfigLimits { max_bounty_amount, min_bounty_amount, max_deadline_duration, min_deadline_duration };
        self.propose(admin, AdminActionType::UpdateConfigLimits(limits), now)
    }

    /// Changes the given parts of the fee configuration, at once or through
    /// the queue. Rates must lie in `[0, 1000]`.
    pub fn update_fee_config(
        &mut self,
        signers: &Vec<Address>,
        lock_fee_rate: Option<i128>,
        release_fee_rate: Option<i128>,
        fee_recipient: Option<Address>,
        fee_enabled: Option<bool>,
        now: u64,
    ) -> (r: Result<Option<u64>, Error>)
        requires
            old(self).wf(),
        ensures
            final(self).wf(),
            ({
                let u = FeeConfigUpdate { lock_fee_rate, release_fee_rate, fee_recipient, fee_enabled };
                match old(self).admin_error(signers@) {
                    Some(e) => r == Err::<Option<u64>, Error>(e) && *final(self) == *old(self),
                    None => if !u.valid() {
                        r == Err::<Option<u64>, Error>(Error::InvalidFeeRate) && *final(self) == *old(self)
                    } else {
                        old(self).proposal_outcome(
                            &*final(self),
                            old(self).admin->Some_0,
                            AdminActionType::UpdateFeeConfig(u),
                            now,
                            r,
                        )
                    },
                }
            }),
    {
        let admin = self.check_admin(signers)?;
        if let Some(rate) = lock_fee_rate {
            validate_fee_rate(rate)?;
        }
        if let Some(rate) = release_fee_rate {
            validate_fee_rate(rate)?;
        }
        let u = FeeConfigUpdate { lock_fee_rate, release_fee_rate, fee_recipient, fee_enabled };
        self.propose(admin, AdminActionType::UpdateFeeConfig(u), now)
    }

    /// Runs the pending action `action_id` once its time has come.
    pub fn execute_admin_action(&mut self, signers: &Vec<Address>, action_id: u64, now: u64) -> (r: Result<(), Error>)
        requires
            old(self).wf(),
        ensures
            final(self).wf(),
            match old(self).admin_error(signers@) {
                Some(e) => r == Err::<(), Error>(e) && *final(self) == *old(self),
                None => match old(self).actions.pending(action_id) {
                    None => r == Err::<(), Error>(Error::ActionNotFound) && *final(self) == *old(self),
                    Some(a) => if now < a.execution_time {
                        r == Err::<(), Error>(Error::ActionNotReady) && *final(self) == *old(self)
                    } else {
                        &&& r is Ok
                        &&& old(self).takes_effect(&*final(self), a.action_type)
                        &&& final(self).actions.next_id == old(self).actions.next_id
                        &&& final(self).actions.get(action_id) == Some(AdminAction { executed: true, ..a })
                        &&& forall|other: u64| other != action_id ==> final(self).actions.get(other)
                            == old(self).actions.get(other)
                    },
                },
            },
    {
        self.check_admin(signers)?;
        let i = match self.actions.find(action_id) {
            None => return Err(Error::ActionNotFound),
            Some(i) => i,
        };
        let a = self.actions.entries[i];
        if a.executed {
            return Err(Error::ActionNotFound);
        }
        if now < a.execution_time {
            return Err(Error::ActionNotReady);
        }
        proof {
            assert(self.actions.entries@[i as int].action_type.valid());
        }
        self.apply_action(a.action_type);
        self.actions.mark_executed(i);
        Ok(())
    }

    /// Withdraws the pending action `action_id`.
    pub fn cancel_admin_action(&mut self, signers: &Vec<Address>, action_id: u64) -> (r: Result<(), Error>)
        requires
            old(self).wf(),
        ensures
            final(self).wf(),
            match old(self).admin_error(signers@) {
                Some(e) => r == Err::<(), Error>(e) && *final(self) == *old(self),
                None => match old(self).actions.pending(action_id) {
                    None => r == Err::<(), Error>(Error::ActionNotFound) && *final(self) == *old(self),
                    Some(a) => {
                        &&& r is Ok
                        &&& final(self).actions.get(action_id) is None
                        &&& final(self).actions.next_id == old(self).actions.next_id
                        &&& forall|other: u64| other != action_id ==> final(self).actions.get(other)
                            == old(self).actions.get(other)
                        &&& *final(self) == BountyEscrowContract { actions: final(self).actions, ..*old(self) }
                    },
                },
            },
    {
        self.check_admin(signers)?;
        let i = match self.actions.find(action_id) {
            None => return Err(Error::ActionNotFound),
            Some(i) => i,
        };
        if self.actions.entries[i].executed {
            return Err(Error::ActionNotFound);
        }
        self.actions.drop_at(i);
        Ok(())
    }

    /// The action `action_id`, executed or not, unless it was cancelled.
    pub fn get_admin_action(&self, action_id: u64) -> (r: Result<AdminAction, Error>)
        requires
            self.wf(),
        ensures
            match self.actions.get(action_id) {
                Some(a) => r == Ok::<AdminAction, Error>(a),
                None => r == Err::<AdminAction, Error>(Error::ActionNotFound),
            },
    {
        match self.actions.lookup(action_id) {
            Some(a) => Ok(a),
            None => Err(Error::ActionNotFound),
        }
    }

    /// The current configuration.
    pub fn get_contract_state(&self) -> (r: Result<ContractState, Error>)
        requires
            self.wf(),
        ensures
            match self.admin {
                None => r == Err::<ContractState, Error>(Error::NotInitialized),
                Some(admin) => r == Ok::<ContractState, Error>(ContractState {
                    admin,
                    token: self.token->Some_0,
                    payout_key: self.payout_key,
                    is_paused: self.paused,
                    time_lock_duration: self.time_lock_duration,
                    contract_version: CONTRACT_VERSION,
                    config_limits: self.config_limits,
                    fee_config: self.fee_config,
                }),
            },
    {
        match (self.admin, self.token) {
            (Some(admin), Some(token)) => Ok(ContractState {
                admin,
                token,
                payout_key: self.payout_key,
                is_paused: self.paused,
                time_lock_duration: self.time_lock_duration,
                contract_version: CONTRACT_VERSION,
                config_limits: self.config_limits,
                fee_config: self.fee_config,
            }),
            _ => Err(Error::NotInitialized),
        }
    }
}

} // verus!