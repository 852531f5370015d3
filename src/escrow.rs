use vstd::prelude::*;
use crate::admin::{ActionQueue, ConfigLimits};
use crate::fees::{FeeConfig, FeeOperationType};
use crate::rate_limit::{AntiAbuseConfig, RateLimiter};
use crate::types::{Address, Error, EscrowStatus, RefundMode, Transfer};

verus! {

/// Largest number of items in one batch.
pub const MAX_BATCH_SIZE: usize = 100;

/// One refund, as kept in an escrow's history.
#[derive(Clone, Copy, Debug, PartialEq, Eq, Structural)]
pub struct RefundRecord {
    pub amount: i128,
    pub recipient: Address,
    pub mode: RefundMode,
    pub timestamp: u64,
}

/// One release, as kept in an escrow's history.
#[derive(Clone, Copy, Debug, PartialEq, Eq, Structural)]
pub struct PayoutRecord {
    pub amount: i128,
    pub recipient: Address,
    pub timestamp: u64,
}

/// A pre-authorisation of one early custom refund.
#[derive(Clone, Copy, Debug, PartialEq, Eq, Structural)]
pub struct RefundApproval {
    pub bounty_id: u64,
    pub amount: i128,
    pub recipient: Address,
    pub mode: RefundMode,
    pub approved_by: Address,
    pub approved_at: u64,
}

/// The record of one bounty. `amount` is the value taken into custody (after
/// any lock fee); `remaining_amount` is the part of it not yet released or
/// refunded, so both count the same net value.
#[derive(Clone, Debug)]
pub struct Escrow {
    pub depositor: Address,
    pub amount: i128,
    pub status: EscrowStatus,
    pub deadline: u64,
    pub refund_history: Vec<RefundRecord>,
    pub payout_history: Vec<PayoutRecord>,
    pub remaining_amount: i128,
}

pub open spec fn refunded_total(s: Seq<RefundRecord>) -> int
    decreases s.len(),
{
    if s.len() == 0 {
        0
    } else {
        refunded_total(s.drop_last()) + s.last().amount
    }
}

pub open spec fn paid_total(s: Seq<PayoutRecord>) -> int
    decreases s.len(),
{
    if s.len() == 0 {
        0
    } else {
        paid_total(s.drop_last()) + s.last().amount
    }
}

pub proof fn lemma_refunded_push(s: Seq<RefundRecord>, r: RefundRecord)
    ensures
        refunded_total(s.push(r)) == refunded_total(s) + r.amount,
{
    assert(s.push(r).drop_last() =~= s);
}

pub proof fn lemma_paid_push(s: Seq<PayoutRecord>, p: PayoutRecord)
    ensures
        paid_total(s.push(p)) == paid_total(s) + p.amount,
{
    assert(s.push(p).drop_last() =~= s);
}

impl Escrow {
    /// What every stored escrow satisfies: the histories and what remains
    /// add up to what was locked, every recorded movement is positive, and
    /// the status agrees with what remains.
    pub open spec fn wf(&self) -> bool {
        &&& self.amount > 0
        &&& 0 <= self.remaining_amount <= self.amount
        &&& refunded_total(self.refund_history@) + paid_total(self.payout_history@) + self.remaining_amount
            == self.amount
        &&& forall|i: int| 0 <= i < self.refund_history@.len() ==> #[trigger] self.refund_history@[i].amount > 0
        &&& forall|i: int| 0 <= i < self.payout_history@.len() ==> #[trigger] self.payout_history@[i].amount > 0
        &&& (self.status == EscrowStatus::Locked ==> self.refund_history@.len() == 0
            && self.payout_history@.len() == 0)
        &&& (self.status.is_terminal() <==> self.remaining_amount == 0)
    }

    /// Whether a release may draw on this escrow.
    pub open spec fn releasable(&self) -> bool {
        self.status == EscrowStatus::Locked || self.status == EscrowStatus::PartiallyReleased
    }

    /// An exact copy, histories included.
    pub fn duplicate(&self) -> (r: Escrow)
        ensures
            r.depositor == self.depositor,
            r.amount == self.amount,
            r.status == self.status,
            r.deadline == self.deadline,
            r.refund_history@ == self.refund_history@,
            r.payout_history@ == self.payout_history@,
            r.remaining_amount == self.remaining_amount,
    {
        let mut refunds: Vec<RefundRecord> = Vec::new();
        let mut i: usize = 0;
        while i < self.refund_history.len()
            invariant
                i <= self.refund_history@.len(),
                refunds@ == self.refund_history@.subrange(0, i as int),
            decreases self.refund_history@.len() - i,
        {
            refunds.push(self.refund_history[i]);
            i = i + 1;
            assert(refunds@ =~= self.refund_history@.subrange(0, i as int));
        }
        let mut payouts: Vec<PayoutRecord> = Vec::new();
        let mut j: usize = 0;
        while j < self.payout_history.len()
            invariant
                j <= self.payout_history@.len(),
                payouts@ == self.payout_history@.subrange(0, j as int),
            decreases self.payout_history@.len() - j,
        {
            payouts.push(self.payout_history[j]);
            j = j + 1;
            assert(payouts@ =~= self.payout_history@.subrange(0, j as int));
        }
        assert(refunds@ =~= self.refund_history@);
        assert(payouts@ =~= self.payout_history@);
        Escrow {
            depositor: self.depositor,
            amount: self.amount,
            status: self.status,
            deadline: self.deadline,
            refund_history: refunds,
            payout_history: payouts,
            remaining_amount: self.remaining_amount,
        }
    }
}

/// The live refund approvals, at most one per bounty id.
pub struct ApprovalBook {
    pub entries: Vec<RefundApproval>,
}

impl ApprovalBook {
    pub open spec fn wf(&self) -> bool {
        forall|i: int, j: int|
            0 <= i < j < self.entries@.len() ==> #[trigger] self.entries@[i].bounty_id
                != #[trigger] self.entries@[j].bounty_id
    }

    /// The live approval of `id`, if any.
    pub open spec fn get(&self, id: u64) -> Option<RefundApproval> {
        if exists|i: int| 0 <= i < self.entries@.len() && self.entries@[i].bounty_id == id {
            Some(self.entries@[choose|i: int| 0 <= i < self.entries@.len() && self.entries@[i].bounty_id == id])
        } else {
            None
        }
    }

    pub fn new() -> (r: ApprovalBook)
        ensures
            r.wf(),
            forall|id: u64| r.get(id) is None,
    {
        ApprovalBook { entries: Vec::new() }
    }

    fn find(&self, id: u64) -> (r: Option<usize>)
        requires
            self.wf(),
        ensures
            match r {
                Some(i) => i < self.entries@.len() && self.entries@[i as int].bounty_id == id
                    && self.get(id) == Some(self.entries@[i as int]),
                None => self.get(id) is None,
            },
    {
        let mut i: usize = 0;
        while i < self.entries.len()
            invariant
                self.wf(),
                i <= self.entries@.len(),
                forall|k: int| 0 <= k < i ==> self.entries@[k].bounty_id != id,
            decreases self.entries@.len() - i,
        {
            if self.entries[i].bounty_id == id {
                proof {
                    let j = choose|j: int| 0 <= j < self.entries@.len() && self.entries@[j].bounty_id == id;
                    if j != i as int {
                        if j < i {
                            assert(self.entries@[j].bounty_id != self.entries@[i as int].bounty_id);
                        } else {
                            assert(self.entries@[i as int].bounty_id != self.entries@[j].bounty_id);
                        }
                    }
                }
                return Some(i);
            }
            i = i + 1;
        }
        None
    }

    /// The live approval of `id`, if any.
    pub fn lookup(&self, id: u64) -> (r: Option<RefundApproval>)
        requires
            self.wf(),
        ensures
            r == self.get(id),
    {
        match self.find(id) {
            Some(i) => Some(self.entries[i]),
            None => None,
        }
    }

    /// Makes `a` the live approval of its bounty, replacing any other.
    pub fn put(&mut self, a: RefundApproval)
        requires
            old(self).wf(),
        ensures
            final(self).wf(),
            final(self).get(a.bounty_id) == Some(a),
            forall|id: u64| id != a.bounty_id ==> final(self).get(id) == old(self).get(id),
    {
        let ghost before = self.entries@;
        match self.find(a.bounty_id) {
            Some(i) => {
                self.entries.set(i, a);
                proof {
                    assert(self.entries@[i as int].bounty_id == a.bounty_id);
                    assert forall|id: u64| id != a.bounty_id implies self.get(id) == old(self).get(id) by {
                        if exists|k: int| 0 <= k < before.len() && before[k].bounty_id == id {
                            let k = choose|k: int| 0 <= k < before.len() && before[k].bounty_id == id;
                            assert(self.entries@[k].bounty_id == id);
                        }
                        if exists|k: int| 0 <= k < self.entries@.len() && self.entries@[k].bounty_id == id {
                            let k = choose|k: int| 0 <= k < self.entries@.len() && self.entries@[k].bounty_id == id;
                            assert(before[k].bounty_id == id);
                        }
                    }
                    let j = choose|j: int| 0 <= j < self.entries@.len() && self.entries@[j].bounty_id == a.bounty_id;
                    if j != i as int {
                        if j < i {
                            assert(self.entries@[j].bounty_id != self.entries@[i as int].bounty_id);
                        } else {
                            assert(self.entries@[i as int].bounty_id != self.entries@[j].bounty_id);
                        }
                    }
                }
            },
            None => {
                self.entries.push(a);
                proof {
                    let n = before.len() as int;
                    assert(self.entries@[n].bounty_id == a.bounty_id);
                    assert forall|id: u64| id != a.bounty_id implies self.get(id) == old(self).get(id) by {
                        if exists|k: int| 0 <= k < before.len() && before[k].bounty_id == id {
                            let k = choose|k: int| 0 <= k < before.len() && before[k].bounty_id == id;
                            assert(self.entries@[k].bounty_id == id);
                        }
                        if exists|k: int| 0 <= k < self.entries@.len() && self.entries@[k].bounty_id == id {
                            let k = choose|k: int| 0 <= k < self.entries@.len() && self.entries@[k].bounty_id == id;
                            assert(before[k].bounty_id == id);
                        }
                    }
                    let j = choose|j: int| 0 <= j < self.entries@.len() && self.entries@[j].bounty_id == a.bounty_id;
                    if j != n {
                        assert(before[j].bounty_id == a.bounty_id);
                    }
                }
            },
        }
    }

    /// Removes the approval of `id`, if there is one.
    pub fn remove(&mut self, id: u64)
        requires
            old(self).wf(),
        ensures
            final(self).wf(),
            final(self).get(id) is None,
            forall|other: u64| other != id ==> final(self).get(other) == old(self).get(other),
    {
        let ghost before = self.entries@;
        match self.find(id) {
            None => {},
            Some(i) => {
                self.entries.remove(i);
                proof {
                    assert forall|k: int| 0 <= k < self.entries@.len() implies
                        #[trigger] self.entries@[k] == before[if k < i { k } else { k + 1 }] by {}
                    assert forall|other: u64| other != id implies self.get(other) == old(self).get(other) by {
                        if exists|k: int| 0 <= k < before.len() && before[k].bounty_id == other {
                            let k = choose|k: int| 0 <= k < before.len() && before[k].bounty_id == other;
                            assert(k != i);
                            let k2 = if k < i { k } else { k - 1 };
                            assert(self.entries@[k2].bounty_id == other);
                        }
                        if exists|k: int| 0 <= k < self.entries@.len() && self.entries@[k].bounty_id == other {
                            let k = choose|k: int| 0 <= k < self.entries@.len() && self.entries@[k].bounty_id == other;
                            let k2 = if k < i { k } else { k + 1 };
                            assert(before[k2].bounty_id == other);
                        }
                    }
                    if exists|k: int| 0 <= k < self.entries@.len() && self.entries@[k].bounty_id == id {
                        let k = choose|k: int| 0 <= k < self.entries@.len() && self.entries@[k].bounty_id == id;
                        let k2 = if k < i { k } else { k + 1 };
                        assert(before[k2].bounty_id == id);
                        if k2 < i {
                            assert(before[k2].bounty_id != before[i as int].bounty_id);
                        } else {
                            assert(before[i as int].bounty_id != before[k2].bounty_id);
                        }
                    }
                }
            },
        }
    }
}

/// Whether `a` is among the principals that authorised the current call.
pub fn is_signer(signers: &Vec<Address>, a: Address) -> (r: bool)
    ensures
        r == signers@.contains(a),
{
    let mut i: usize = 0;
    while i < signers.len()
        invariant
            i <= signers@.len(),
            forall|k: int| 0 <= k < i ==> signers@[k] != a,
        decreases signers@.len() - i,
    {
        if signers[i] == a {
            assert(signers@[i as int] == a);
            return true;
        }
        i = i + 1;
    }
    false
}

/// The whole state of one escrow contract.
pub struct BountyEscrowContract {
    /// The contract's own address, which holds the custodied value.
    pub contract_address: Address,
    /// `None` until `init`.
    pub admin: Option<Address>,
    pub token: Option<Address>,
    pub payout_key: Option<Address>,
    pub paused: bool,
    /// The reentrancy guard: up while an operation, or the host's transfers
    /// for one, are in progress.
    pub in_flight: bool,
    pub time_lock_duration: u64,
    pub config_limits: ConfigLimits,
    pub fee_config: FeeConfig,
    /// Every bounty id ever locked, in order of locking.
    pub registry: Vec<u64>,
    /// `escrows[i]` is the escrow of `registry[i]`.
    pub escrows: Vec<Escrow>,
    pub approvals: ApprovalBook,
    pub actions: ActionQueue,
    pub limiter: RateLimiter,
}

impl BountyEscrowContract {
    pub open spec fn wf(&self) -> bool {
        &&& (self.admin is Some <==> self.token is Some)
        &&& self.registry@.len() == self.escrows@.len()
        &&& forall|i: int, j: int|
            0 <= i < j < self.registry@.len() ==> #[trigger] self.registry@[i] != #[trigger] self.registry@[j]
        &&& forall|i: int| 0 <= i < self.escrows@.len() ==> (#[trigger] self.escrows@[i]).wf()
        &&& self.approvals.wf()
        &&& self.fee_config.wf()
        &&& self.limiter.wf()
        &&& self.actions.wf()
    }

    pub open spec fn initialized(&self) -> bool {
        self.admin is Some
    }

    pub open spec fn has(&self, id: u64) -> bool {
        self.registry@.contains(id)
    }

    /// Where the escrow of `id` is kept.
    pub open spec fn slot(&self, id: u64) -> int {
        choose|i: int| 0 <= i < self.registry@.len() && self.registry@[i] == id
    }

    pub open spec fn escrow(&self, id: u64) -> Escrow {
        self.escrows@[self.slot(id)]
    }

    pub open spec fn approval(&self, id: u64) -> Option<RefundApproval> {
        self.approvals.get(id)
    }

    /// Everything but the ledger, the approvals and the limiter's memory of
    /// addresses is as in `o`.
    pub open spec fn same_settings(&self, o: &BountyEscrowContract) -> bool {
        &&& self.contract_address == o.contract_address
        &&& self.admin == o.admin
        &&& self.token == o.token
        &&& self.payout_key == o.payout_key
        &&& self.paused == o.paused
        &&& self.in_flight == o.in_flight
        &&& self.time_lock_duration == o.time_lock_duration
        &&& self.config_limits == o.config_limits
        &&& self.fee_config == o.fee_config
        &&& self.actions == o.actions
        &&& self.limiter.config == o.limiter.config
        &&& self.limiter.allow_list@ == o.limiter.allow_list@
    }

    /// A contract that has not been initialised, holding nothing: no
    /// escrows, approvals or queued actions, fees off, no limits on locks,
    /// and the limiter at ten operations an hour, a minute apart.
    pub fn new(contract_address: Address) -> (r: BountyEscrowContract)
        ensures
            r.wf(),
            r.contract_address == contract_address,
            r.admin is None,
            r.token is None,
            r.payout_key is None,
            !r.paused,
            !r.in_flight,
            r.time_lock_duration == 0,
            r.config_limits == (ConfigLimits {
                max_bounty_amount: None,
                min_bounty_amount: None,
                max_deadline_duration: None,
                min_deadline_duration: None,
            }),
            r.fee_config == (FeeConfig { lock_fee_rate: 0, release_fee_rate: 0, fee_recipient: contract_address, fee_enabled: false }),
            r.registry@.len() == 0,
            r.escrows@.len() == 0,
            forall|id: u64| r.approval(id) is None,
            forall|id: u64| r.actions.get(id) is None,
            r.actions.next_id == 1,
            r.limiter.config == (AntiAbuseConfig { window_size: 3600, max_operations: 10, cooldown_period: 60 }),
            r.limiter.allow_list@.len() == 0,
            r.limiter.states@.len() == 0,
    {
        BountyEscrowContract {
            contract_address,
            admin: None,
            token: None,
            payout_key: None,
            paused: false,
            in_flight: false,
            time_lock_duration: 0,
            config_limits: ConfigLimits::unlimited(),
            fee_config: FeeConfig::disabled(contract_address),
            registry: Vec::new(),
            escrows: Vec::new(),
            approvals: ApprovalBook::new(),
            actions: ActionQueue::new(),
            limiter: RateLimiter::new(AntiAbuseConfig::default_limits()),
        }
    }

    /// Raises the reentrancy guard for work that the host does on behalf of
    /// an operation (the transfers it returned); while it is up, every
    /// mutating operation fails with `ReentrantCall`.
    pub fn acquire_guard(&mut self) -> (r: Result<(), Error>)
        ensures
            old(self).in_flight ==> r == Err::<(), Error>(Error::ReentrantCall) && *final(self) == *old(self),
            !old(self).in_flight ==> r is Ok && *final(self) == (BountyEscrowContract { in_flight: true, ..*old(self) }),
    {
        if self.in_flight {
            return Err(Error::ReentrantCall);
        }
        self.in_flight = true;
        Ok(())
    }

    /// Lowers the reentrancy guard.
    pub fn release_guard(&mut self)
        ensures
            *final(self) == (BountyEscrowContract { in_flight: false, ..*old(self) }),
    {
        self.in_flight = false;
    }

    /// Finds the escrow of `id`.
    pub fn find_bounty(&self, id: u64) -> (r: Option<usize>)
        requires
            self.wf(),
        ensures
            match r {
                Some(i) => self.has(id) && i as int == self.slot(id) && i < self.registry@.len()
                    && self.registry@[i as int] == id,
                None => !self.has(id),
            },
    {
        let mut i: usize = 0;
        while i < self.registry.len()
            invariant
                self.wf(),
                i <= self.registry@.len(),
                forall|k: int| 0 <= k < i ==> self.registry@[k] != id,
            decreases self.registry@.len() - i,
        {
            if self.registry[i] == id {
                proof {
                    assert(self.registry@[i as int] == id);
                    let j = self.slot(id);
                    if j != i as int {
                        if j < i {
                            assert(self.registry@[j] != self.registry@[i as int]);
                        } else {
                            assert(self.registry@[i as int] != self.registry@[j]);
                        }
                    }
                }
                return Some(i);
            }
            i = i + 1;
        }
        None
    }
}

pub open spec fn fee_transfer(from: Address, to: Address, fee: int) -> Seq<Transfer> {
    if fee > 0 {
        seq![Transfer { from, to, amount: fee as i128 }]
    } else {
        seq![]
    }
}

impl BountyEscrowContract {
    /// Why `lock_funds` would refuse, checked in this order; `None` if it
    /// would succeed.
    pub open spec fn lock_error(
        &self,
        signers: Seq<Address>,
        depositor: Address,
        bounty_id: u64,
        amount: i128,
        deadline: u64,
        now: u64,
    ) -> Option<Error> {
        if self.in_flight {
            Some(Error::ReentrantCall)
        } else if self.paused {
            Some(Error::ContractPaused)
        } else if !signers.contains(depositor) {
            Some(Error::Unauthorized)
        } else if self.limiter.verdict(depositor, now) is Err {
            Some(self.limiter.verdict(depositor, now)->Err_0)
        } else if amount <= 0 {
            Some(Error::InvalidAmount)
        } else if deadline <= now {
            Some(Error::InvalidDeadline)
        } else if !self.initialized() {
            Some(Error::NotInitialized)
        } else if self.has(bounty_id) {
            Some(Error::BountyExists)
        } else if !self.config_limits.admits_amount(amount as int) {
            Some(Error::InvalidAmount)
        } else if !self.config_limits.admits_duration(deadline - now) {
            Some(Error::InvalidDeadline)
        } else {
            None
        }
    }

    /// The fee that locking `amount` costs under the current configuration.
    pub open spec fn lock_fee(&self, amount: i128) -> int {
        self.fee_config.fee_spec(FeeOperationType::Lock, amount as int)
    }

    /// The transfers of a lock: the net value into custody, then the fee, if
    /// any, straight to the fee recipient.
    pub open spec fn lock_transfers(&self, depositor: Address, amount: i128) -> Seq<Transfer> {
        seq![Transfer {
            from: depositor,
            to: self.contract_address,
            amount: (amount - self.lock_fee(amount)) as i128,
        }] + fee_transfer(depositor, self.fee_config.fee_recipient, self.lock_fee(amount))
    }

    /// `post` is this contract after `depositor` locked `amount` under
    /// `bounty_id` at `now`: one new escrow, holding the amount less the
    /// lock fee, at the end of the registry; nothing else changed but the
    /// limiter's memory of the depositor.
    pub open spec fn lock_done(
        &self,
        post: &BountyEscrowContract,
        depositor: Address,
        bounty_id: u64,
        amount: i128,
        deadline: u64,
        now: u64,
    ) -> bool {
        let e = post.escrow(bounty_id);
        let net = amount - self.lock_fee(amount);
        &&& post.registry@ == self.registry@.push(bounty_id)
        &&& post.escrows@.len() == self.escrows@.len() + 1
        &&& forall|i: int| 0 <= i < self.escrows@.len() ==> post.escrows@[i] == self.escrows@[i]
        &&& post.has(bounty_id)
        &&& e.status == EscrowStatus::Locked
        &&& e.depositor == depositor
        &&& e.amount == net
        &&& e.remaining_amount == net
        &&& e.deadline == deadline
        &&& e.refund_history@.len() == 0
        &&& e.payout_history@.len() == 0
        &&& post.approvals == self.approvals
        &&& post.same_settings(self)
        &&& self.limiter.admitted(&post.limiter, depositor, now)
    }

    /// Sets the admin and the token. The admin also receives fees until the
    /// fee configuration says otherwise.
    pub fn init(&mut self, admin: Address, token: Address) -> (r: Result<(), Error>)
        requires
            old(self).wf(),
        ensures
            final(self).wf(),
            old(self).initialized() ==> r == Err::<(), Error>(Error::AlreadyInitialized)
                && *final(self) == *old(self),
            !old(self).initialized() ==> r is Ok && *final(self) == (BountyEscrowContract {
                admin: Some(admin),
                token: Some(token),
                fee_config: FeeConfig { fee_recipient: admin, ..old(self).fee_config },
                ..*old(self)
            }),
    {
        if self.admin.is_some() {
            return Err(Error::AlreadyInitialized);
        }
        self.admin = Some(admin);
        self.token = Some(token);
        self.fee_config.fee_recipient = admin;
        Ok(())
    }

    /// Locks `amount` from `depositor` under `bounty_id` until `deadline`.
    /// `signers` are the principals that authorised the call, `now` the
    /// ledger time. On success, the transfers to carry out.
    pub fn lock_funds(
        &mut self,
        signers: &Vec<Address>,
        depositor: Address,
        bounty_id: u64,
        amount: i128,
        deadline: u64,
        now: u64,
    ) -> (r: Result<Vec<Transfer>, Error>)
        requires
            old(self).wf(),
        ensures
            final(self).wf(),
            r is Err <==> old(self).lock_error(signers@, depositor, bounty_id, amount, deadline, now) is Some,
            r is Err ==> r->Err_0 == old(self).lock_error(signers@, depositor, bounty_id, amount, deadline, now)->Some_0
                && *final(self) == *old(self),
            r is Ok ==> old(self).lock_done(&*final(self), depositor, bounty_id, amount, deadline, now),
            r is Ok ==> r->Ok_0@ == old(self).lock_transfers(depositor, amount),
    {
        if self.in_flight {
            return Err(Error::ReentrantCall);
        }
        if self.paused {
            return Err(Error::ContractPaused);
        }
        if !is_signer(signers, depositor) {
            return Err(Error::Unauthorized);
        }
        let ghost before = *self;
        let verdict = match self.limiter.evaluate(depositor, now) {
            Err(e) => return Err(e),
            Ok(v) => v,
        };
        if amount <= 0 {
            return Err(Error::InvalidAmount);
        }
        if deadline <= now {
            return Err(Error::InvalidDeadline);
        }
        if self.admin.is_none() {
            return Err(Error::NotInitialized);
        }
        if self.find_bounty(bounty_id).is_some() {
            return Err(Error::BountyExists);
        }
        if !self.config_limits.check_amount(amount) {
            return Err(Error::InvalidAmount);
        }
        if !self.config_limits.check_duration(deadline - now) {
            return Err(Error::InvalidDeadline);
        }
        self.limiter.store(depositor, now, verdict);
        self.in_flight = true;
        let fee = self.fee_config.fee_for(FeeOperationType::Lock, amount);
        let net = amount - fee;
        let mut transfers: Vec<Transfer> = Vec::new();
        transfers.push(Transfer { from: depositor, to: self.contract_address, amount: net });
        if fee > 0 {
            transfers.push(Transfer { from: depositor, to: self.fee_config.fee_recipient, amount: fee });
        }
        let escrow = Escrow {
            depositor,
            amount: net,
            status: EscrowStatus::Locked,
            deadline,
            refund_history: Vec::new(),
            payout_history: Vec::new(),
            remaining_amount: net,
        };
        self.registry.push(bounty_id);
        self.escrows.push(escrow);
        self.in_flight = false;
        proof {
            let n = before.registry@.len() as int;
            assert(self.registry@[n] == bounty_id);
            assert(self.registry@.contains(bounty_id));
            assert(self.slot(bounty_id) == n) by {
                let j = self.slot(bounty_id);
                if j != n {
                    assert(self.registry@[j] == before.registry@[j]);
                }
            }
            assert(transfers@ =~= before.lock_transfers(depositor, amount));
        }
        Ok(transfers)
    }
}

/// The amount that a release asks for: all that remains unless given.
pub open spec fn payout_of(e: Escrow, amount: Option<i128>) -> int {
    match amount {
        Some(a) => a as int,
        None => e.remaining_amount as int,
    }
}

/// The amount that a refund asks for.
pub open spec fn refund_amount_of(e: Escrow, amount: Option<i128>, mode: RefundMode) -> int {
    match mode {
        RefundMode::Full => e.remaining_amount as int,
        RefundMode::Partial => match amount {
            Some(a) => a as int,
            None => e.remaining_amount as int,
        },
        RefundMode::Custom => match amount {
            Some(a) => a as int,
            None => 0,
        },
    }
}

/// Who a refund pays: the depositor, unless the mode is custom.
pub open spec fn refund_recipient_of(e: Escrow, recipient: Option<Address>, mode: RefundMode) -> Address {
    match mode {
        RefundMode::Custom => match recipient {
            Some(r) => r,
            None => e.depositor,
        },
        _ => e.depositor,
    }
}

/// `post` is `pre` after releasing `payout` to `recipient` at `now`.
pub open spec fn released(pre: Escrow, post: Escrow, payout: int, recipient: Address, now: u64) -> bool {
    &&& post.depositor == pre.depositor
    &&& post.amount == pre.amount
    &&& post.deadline == pre.deadline
    &&& post.remaining_amount == pre.remaining_amount - payout
    &&& post.refund_history@ == pre.refund_history@
    &&& post.payout_history@ == pre.payout_history@.push(
        PayoutRecord { amount: payout as i128, recipient, timestamp: now },
    )
    &&& post.status == if post.remaining_amount == 0 {
        EscrowStatus::Released
    } else {
        EscrowStatus::PartiallyReleased
    }
}

/// `post` is `pre` after refunding `refund` to `recipient` in `mode` at `now`.
pub open spec fn refunded(
    pre: Escrow,
    post: Escrow,
    refund: int,
    recipient: Address,
    mode: RefundMode,
    now: u64,
) -> bool {
    &&& post.depositor == pre.depositor
    &&& post.amount == pre.amount
    &&& post.deadline == pre.deadline
    &&& post.remaining_amount == pre.remaining_amount - refund
    &&& post.payout_history@ == pre.payout_history@
    &&& post.refund_history@ == pre.refund_history@.push(
        RefundRecord { amount: refund as i128, recipient, mode, timestamp: now },
    )
    &&& post.status == if post.remaining_amount == 0 {
        EscrowStatus::Refunded
    } else {
        EscrowStatus::PartiallyRefunded
    }
}

/// Two escrows hold the same values.
pub open spec fn same_escrow(a: Escrow, b: Escrow) -> bool {
    &&& a.depositor == b.depositor
    &&& a.amount == b.amount
    &&& a.status == b.status
    &&& a.deadline == b.deadline
    &&& a.refund_history@ == b.refund_history@
    &&& a.payout_history@ == b.payout_history@
    &&& a.remaining_amount == b.remaining_amount
}

impl BountyEscrowContract {
    /// `post` differs from this contract in the escrow of `id` alone.
    pub open spec fn only_escrow_changed(&self, post: &BountyEscrowContract, id: u64) -> bool {
        &&& post.registry@ == self.registry@
        &&& post.escrows@.len() == self.escrows@.len()
        &&& forall|j: int| 0 <= j < self.escrows@.len() && j != self.slot(id) ==> post.escrows@[j] == self.escrows@[j]
        &&& post.same_settings(self)
    }

    /// Why `release_funds` would refuse, checked in this order.
    pub open spec fn release_error(
        &self,
        signers: Seq<Address>,
        bounty_id: u64,
        amount: Option<i128>,
        now: u64,
        balance: i128,
    ) -> Option<Error> {
        let e = self.escrow(bounty_id);
        let payout = payout_of(e, amount);
        if self.in_flight {
            Some(Error::ReentrantCall)
        } else if self.paused {
            Some(Error::ContractPaused)
        } else if !self.initialized() {
            Some(Error::NotInitialized)
        } else if !signers.contains(self.admin->Some_0) {
            Some(Error::Unauthorized)
        } else if self.limiter.verdict(self.admin->Some_0, now) is Err {
            Some(self.limiter.verdict(self.admin->Some_0, now)->Err_0)
        } else if !self.has(bounty_id) {
            Some(Error::BountyNotFound)
        } else if !e.releasable() {
            Some(Error::FundsNotLocked)
        } else if payout <= 0 || payout > e.remaining_amount {
            Some(Error::InvalidAmount)
        } else if balance < payout {
            Some(Error::InsufficientFunds)
        } else {
            None
        }
    }

    pub open spec fn release_fee(&self, payout: int) -> int {
        self.fee_config.fee_spec(FeeOperationType::Release, payout)
    }

    /// The transfers of a release: the payout less its fee to the recipient,
    /// then the fee, if any, to the fee recipient.
    pub open spec fn release_transfers(&self, recipient: Address, payout: int) -> Seq<Transfer> {
        seq![Transfer {
            from: self.contract_address,
            to: recipient,
            amount: (payout - self.release_fee(payout)) as i128,
        }] + fee_transfer(self.contract_address, self.fee_config.fee_recipient, self.release_fee(payout))
    }

    /// The live approval of `id` is for exactly this refund.
    pub open spec fn approval_matches(&self, id: u64, amount: int, recipient: Address, mode: RefundMode) -> bool {
        match self.approval(id) {
            Some(a) => a.amount == amount && a.recipient == recipient && a.mode == mode,
            None => false,
        }
    }

    /// Why `refund` would refuse, checked in this order.
    pub open spec fn refund_error(
        &self,
        bounty_id: u64,
        amount: Option<i128>,
        recipient: Option<Address>,
        mode: RefundMode,
        now: u64,
        balance: i128,
    ) -> Option<Error> {
        let e = self.escrow(bounty_id);
        let refund = refund_amount_of(e, amount, mode);
        let to = refund_recipient_of(e, recipient, mode);
        let early = now < e.deadline;
        if self.in_flight {
            Some(Error::ReentrantCall)
        } else if self.paused {
            Some(Error::ContractPaused)
        } else if !self.has(bounty_id) {
            Some(Error::BountyNotFound)
        } else if e.status.is_terminal() {
            Some(Error::FundsNotLocked)
        } else if mode != RefundMode::Custom && early {
            Some(Error::DeadlineNotPassed)
        } else if mode == RefundMode::Custom && (amount is None || recipient is None) {
            Some(Error::InvalidAmount)
        } else if mode == RefundMode::Custom && early && !self.approval_matches(bounty_id, refund, to, mode) {
            Some(Error::RefundNotApproved)
        } else if refund <= 0 || refund > e.remaining_amount {
            Some(Error::InvalidAmount)
        } else if balance < refund {
            Some(Error::InsufficientFunds)
        } else {
            None
        }
    }

    /// `post` is this contract after the refund described, which succeeded:
    /// the escrow shrank by the refund, and an approval that allowed it
    /// before the deadline is gone.
    pub open spec fn refund_done(
        &self,
        post: &BountyEscrowContract,
        bounty_id: u64,
        amount: Option<i128>,
        recipient: Option<Address>,
        mode: RefundMode,
        now: u64,
    ) -> bool {
        let e = self.escrow(bounty_id);
        let refund = refund_amount_of(e, amount, mode);
        let to = refund_recipient_of(e, recipient, mode);
        &&& self.only_escrow_changed(post, bounty_id)
        &&& post.limiter == self.limiter
        &&& refunded(e, post.escrow(bounty_id), refund, to, mode, now)
        &&& if mode == RefundMode::Custom && now < e.deadline {
            &&& post.approval(bounty_id) is None
            &&& forall|other: u64| other != bounty_id ==> post.approval(other) == self.approval(other)
        } else {
            post.approvals == self.approvals
        }
    }

    /// Takes `payout` out of the escrow at `i` for `recipient`.
    pub(crate) fn settle_release(&mut self, i: usize, payout: i128, recipient: Address, now: u64)
        requires
            old(self).wf(),
            i < old(self).escrows@.len(),
            !old(self).escrows@[i as int].status.is_terminal(),
            0 < payout <= old(self).escrows@[i as int].remaining_amount,
        ensures
            final(self).wf(),
            final(self).registry@ == old(self).registry@,
            final(self).same_settings(old(self)),
            final(self).approvals == old(self).approvals,
            final(self).limiter == old(self).limiter,
            final(self).escrows@.len() == old(self).escrows@.len(),
            forall|j: int| 0 <= j < old(self).escrows@.len() && j != i ==> final(self).escrows@[j] == old(self).escrows@[j],
            released(old(self).escrows@[i as int], final(self).escrows@[i as int], payout as int, recipient, now),
    {
        let mut e = self.escrows[i].duplicate();
        let ghost pre = e;
        e.remaining_amount = e.remaining_amount - payout;
        e.payout_history.push(PayoutRecord { amount: payout, recipient, timestamp: now });
        e.status = if e.remaining_amount == 0 {
            EscrowStatus::Released
        } else {
            EscrowStatus::PartiallyReleased
        };
        proof {
            assert(self.escrows@[i as int].wf());
            lemma_paid_push(pre.payout_history@, PayoutRecord { amount: payout, recipient, timestamp: now });
            assert forall|k: int| 0 <= k < e.payout_history@.len() implies #[trigger] e.payout_history@[k].amount > 0 by {
                if k < pre.payout_history@.len() {
                    assert(e.payout_history@[k] == pre.payout_history@[k]);
                }
            }
        }
        self.replace_escrow(i, e);
    }

    fn replace_escrow(&mut self, i: usize, e: Escrow)
        requires
            old(self).wf(),
            i < old(self).escrows@.len(),
            e.wf(),
        ensures
            final(self).wf(),
            final(self).escrows@ == old(self).escrows@.update(i as int, e),
            final(self).registry@ == old(self).registry@,
            final(self).same_settings(old(self)),
            final(self).approvals == old(self).approvals,
            final(self).limiter == old(self).limiter,
    {
        self.escrows.set(i, e);
    }

    /// Releases `amount` (all that remains, if `None`) of the escrow of
    /// `bounty_id` to `recipient`. Only the admin may release. `balance` is
    /// what custody holds now. On success, the transfers to carry out.
    pub fn release_funds(
        &mut self,
        signers: &Vec<Address>,
        bounty_id: u64,
        recipient: Address,
        amount: Option<i128>,
        now: u64,
        balance: i128,
    ) -> (r: Result<Vec<Transfer>, Error>)
        requires
            old(self).wf(),
        ensures
            final(self).wf(),
            r is Err <==> old(self).release_error(signers@, bounty_id, amount, now, balance) is Some,
            r is Err ==> r->Err_0 == old(self).release_error(signers@, bounty_id, amount, now, balance)->Some_0
                && *final(self) == *old(self),
            r is Ok ==> {
                let payout = payout_of(old(self).escrow(bounty_id), amount);
                &&& old(self).only_escrow_changed(&*final(self), bounty_id)
                &&& released(old(self).escrow(bounty_id), final(self).escrow(bounty_id), payout, recipient, now)
                &&& final(self).approvals == old(self).approvals
                &&& old(self).limiter.admitted(&final(self).limiter, old(self).admin->Some_0, now)
                &&& r->Ok_0@ == old(self).release_transfers(recipient, payout)
            },
    {
        if self.in_flight {
            return Err(Error::ReentrantCall);
        }
        if self.paused {
            return Err(Error::ContractPaused);
        }
        let admin = match self.admin {
            None => return Err(Error::NotInitialized),
            Some(a) => a,
        };
        if !is_signer(signers, admin) {
            return Err(Error::Unauthorized);
        }
        let verdict = match self.limiter.evaluate(admin, now) {
            Err(e) => return Err(e),
            Ok(v) => v,
        };
        let i = match self.find_bounty(bounty_id) {
            None => return Err(Error::BountyNotFound),
            Some(i) => i,
        };
        let status = self.escrows[i].status;
        if status != EscrowStatus::Locked && status != EscrowStatus::PartiallyReleased {
            return Err(Error::FundsNotLocked);
        }
        let remaining = self.escrows[i].remaining_amount;
        let payout = match amount {
            Some(a) => a,
            None => remaining,
        };
        if payout <= 0 || payout > remaining {
            return Err(Error::InvalidAmount);
        }
        if balance < payout {
            return Err(Error::InsufficientFunds);
        }
        let ghost before = *self;
        self.in_flight = true;
        let fee = self.fee_config.fee_for(FeeOperationType::Release, payout);
        self.settle_release(i, payout, recipient, now);
        self.in_flight = false;
        self.limiter.store(admin, now, verdict);
        let mut transfers: Vec<Transfer> = Vec::new();
        transfers.push(Transfer { from: self.contract_address, to: recipient, amount: payout - fee });
        if fee > 0 {
            transfers.push(Transfer { from: self.contract_address, to: self.fee_config.fee_recipient, amount: fee });
        }
        proof {
            assert(transfers@ =~= before.release_transfers(recipient, payout as int));
        }
        Ok(transfers)
    }

    /// Lets the admin pre-authorise one custom refund of the escrow of
    /// `bounty_id` before its deadline, replacing any earlier approval.
    pub fn approve_refund(
        &mut self,
        signers: &Vec<Address>,
        bounty_id: u64,
        amount: i128,
        recipient: Address,
        mode: RefundMode,
        now: u64,
    ) -> (r: Result<(), Error>)
        requires
            old(self).wf(),
        ensures
            final(self).wf(),
            r is Ok <==> {
                &&& !old(self).in_flight
                &&& old(self).initialized()
                &&& signers@.contains(old(self).admin->Some_0)
                &&& old(self).has(bounty_id)
                &&& !old(self).escrow(bounty_id).status.is_terminal()
                &&& 0 < amount <= old(self).escrow(bounty_id).remaining_amount
            },
            r is Err ==> *final(self) == *old(self),
            r == Err::<(), Error>(Error::ReentrantCall) <==> old(self).in_flight,
            r == Err::<(), Error>(Error::NotInitialized) <==> !old(self).in_flight && !old(self).initialized(),
            r == Err::<(), Error>(Error::Unauthorized) <==> !old(self).in_flight && old(self).initialized()
                && !signers@.contains(old(self).admin->Some_0),
            r == Err::<(), Error>(Error::BountyNotFound) <==> !old(self).in_flight && old(self).initialized()
                && signers@.contains(old(self).admin->Some_0) && !old(self).has(bounty_id),
            r == Err::<(), Error>(Error::FundsNotLocked) <==> !old(self).in_flight && old(self).initialized()
                && signers@.contains(old(self).admin->Some_0) && old(self).has(bounty_id)
                && old(self).escrow(bounty_id).status.is_terminal(),
            r is Ok ==> {
                &&& final(self).approval(bounty_id) == Some(RefundApproval {
                    bounty_id,
                    amount,
                    recipient,
                    mode,
                    approved_by: old(self).admin->Some_0,
                    approved_at: now,
                })
                &&& forall|other: u64| other != bounty_id ==> final(self).approval(other) == old(self).approval(other)
                &&& final(self).registry@ == old(self).registry@
                &&& final(self).escrows@ == old(self).escrows@
                &&& final(self).limiter == old(self).limiter
                &&& final(self).same_settings(old(self))
            },
    {
        if self.in_flight {
            return Err(Error::ReentrantCall);
        }
        let admin = match self.admin {
            None => return Err(Error::NotInitialized),
            Some(a) => a,
        };
        if !is_signer(signers, admin) {
            return Err(Error::Unauthorized);
        }
        let i = match self.find_bounty(bounty_id) {
            None => return Err(Error::BountyNotFound),
            Some(i) => i,
        };
        if self.escrows[i].status.is_final() {
            return Err(Error::FundsNotLocked);
        }
        if amount <= 0 || amount > self.escrows[i].remaining_amount {
            return Err(Error::InvalidAmount);
        }
        self.approvals.put(RefundApproval {
            bounty_id,
            amount,
            recipient,
            mode,
            approved_by: admin,
            approved_at: now,
        });
        Ok(())
    }

    /// Refunds the escrow of `bounty_id` in `mode`: all that remains to the
    /// depositor (`Full`); `amount`, or all, to the depositor (`Partial`);
    /// `amount` to `recipient` (`Custom`). Full and partial refunds wait for
    /// the deadline; a custom refund before it needs a matching approval,
    /// which it consumes. `balance` is what custody holds now.
    pub fn refund(
        &mut self,
        bounty_id: u64,
        amount: Option<i128>,
        recipient: Option<Address>,
        mode: RefundMode,
        now: u64,
        balance: i128,
    ) -> (r: Result<Vec<Transfer>, Error>)
        requires
            old(self).wf(),
        ensures
            final(self).wf(),
            r is Err <==> old(self).refund_error(bounty_id, amount, recipient, mode, now, balance) is Some,
            r is Err ==> r->Err_0 == old(self).refund_error(bounty_id, amount, recipient, mode, now, balance)->Some_0
                && *final(self) == *old(self),
            r is Ok ==> old(self).refund_done(&*final(self), bounty_id, amount, recipient, mode, now),
            r is Ok ==> r->Ok_0@ == seq![Transfer {
                from: old(self).contract_address,
                to: refund_recipient_of(old(self).escrow(bounty_id), recipient, mode),
                amount: refund_amount_of(old(self).escrow(bounty_id), amount, mode) as i128,
            }],
    {
        if self.in_flight {
            return Err(Error::ReentrantCall);
        }
        if self.paused {
            return Err(Error::ContractPaused);
        }
        let i = match self.find_bounty(bounty_id) {
            None => return Err(Error::BountyNotFound),
            Some(i) => i,
        };
        if self.escrows[i].status.is_final() {
            return Err(Error::FundsNotLocked);
        }
        let remaining = self.escrows[i].remaining_amount;
        let depositor = self.escrows[i].depositor;
        let early = now < self.escrows[i].deadline;
        let (refund_amount, to) = match mode {
            RefundMode::Full => {
                if early {
                    return Err(Error::DeadlineNotPassed);
                }
                (remaining, depositor)
            },
            RefundMode::Partial => {
                if early {
                    return Err(Error::DeadlineNotPassed);
                }
                match amount {
                    Some(a) => (a, depositor),
                    None => (remaining, depositor),
                }
            },
            RefundMode::Custom => {
                let a = match amount {
                    Some(a) => a,
                    None => return Err(Error::InvalidAmount),
                };
                let to = match recipient {
                    Some(t) => t,
                    None => return Err(Error::InvalidAmount),
                };
                if early {
                    let ok = match self.approvals.lookup(bounty_id) {
                        Some(ap) => ap.amount == a && ap.recipient == to && ap.mode == mode,
                        None => false,
                    };
                    if !ok {
                        return Err(Error::RefundNotApproved);
                    }
                }
                (a, to)
            },
        };
        if refund_amount <= 0 || refund_amount > remaining {
            return Err(Error::InvalidAmount);
        }
        if balance < refund_amount {
            return Err(Error::InsufficientFunds);
        }
        let ghost before = *self;
        self.in_flight = true;
        if mode == RefundMode::Custom && early {
            self.approvals.remove(bounty_id);
        }
        let mut e = self.escrows[i].duplicate();
        let ghost pre = e;
        let record = RefundRecord { amount: refund_amount, recipient: to, mode, timestamp: now };
        e.remaining_amount = remaining - refund_amount;
        e.refund_history.push(record);
        e.status = if e.remaining_amount == 0 {
            EscrowStatus::Refunded
        } else {
            EscrowStatus::PartiallyRefunded
        };
        proof {
            assert(self.escrows@[i as int].wf());
            lemma_refunded_push(pre.refund_history@, record);
            assert forall|k: int| 0 <= k < e.refund_history@.len() implies #[trigger] e.refund_history@[k].amount > 0 by {
                if k < pre.refund_history@.len() {
                    assert(e.refund_history@[k] == pre.refund_history@[k]);
                }
            }
        }
        self.in_flight = false;
        self.replace_escrow(i, e);
        let mut transfers: Vec<Transfer> = Vec::new();
        transfers.push(Transfer { from: self.contract_address, to, amount: refund_amount });
        proof {
            assert(transfers@ =~= seq![Transfer {
                from: before.contract_address,
                to: refund_recipient_of(before.escrow(bounty_id), recipient, mode),
                amount: refund_amount_of(before.escrow(bounty_id), amount, mode) as i128,
            }]);
        }
        Ok(transfers)
    }
}

} // verus!