use vstd::prelude::*;
use crate::escrow::{is_signer, released, BountyEscrowContract, Escrow, MAX_BATCH_SIZE};
use crate::fees::FeeOperationType;
use crate::types::{Address, Error, EscrowStatus, Transfer};

verus! {

/// One escrow to open in a batch.
#[derive(Clone, Copy, Debug, PartialEq, Eq, Structural)]
pub struct LockFundsItem {
    pub bounty_id: u64,
    pub depositor: Address,
    pub amount: i128,
    pub deadline: u64,
}

/// One escrow to release in full in a batch.
#[derive(Clone, Copy, Debug, PartialEq, Eq, Structural)]
pub struct ReleaseFundsItem {
    pub bounty_id: u64,
    pub contributor: Address,
}

/// The summary of a batch lock.
#[derive(Clone, Copy, Debug, PartialEq, Eq, Structural)]
pub struct BatchFundsLocked {
    pub count: u32,
    pub total_amount: i128,
    pub timestamp: u64,
}

/// The summary of a batch release.
#[derive(Clone, Copy, Debug, PartialEq, Eq, Structural)]
pub struct BatchFundsReleased {
    pub count: u32,
    pub total_amount: i128,
    pub timestamp: u64,
}

pub open spec fn lock_ids(items: Seq<LockFundsItem>) -> Seq<u64> {
    items.map_values(|it: LockFundsItem| it.bounty_id)
}

pub open spec fn lock_total(items: Seq<LockFundsItem>) -> int
    decreases items.len(),
{
    if items.len() == 0 {
        0
    } else {
        lock_total(items.drop_last()) + items.last().amount
    }
}

/// Some bounty id occurs twice among `ids`.
pub open spec fn has_duplicate(ids: Seq<u64>) -> bool {
    exists|i: int, j: int| 0 <= i < j < ids.len() && ids[i] == ids[j]
}

/// The transfers of a batch lock: each item's amount into custody.
pub open spec fn batch_lock_transfers(custody: Address, items: Seq<LockFundsItem>) -> Seq<Transfer> {
    items.map_values(|it: LockFundsItem| Transfer { from: it.depositor, to: custody, amount: it.amount })
}

/// `e` is the escrow that locking `it` opens.
pub open spec fn opened(e: Escrow, it: LockFundsItem) -> bool {
    &&& e.depositor == it.depositor
    &&& e.amount == it.amount
    &&& e.remaining_amount == it.amount
    &&& e.status == EscrowStatus::Locked
    &&& e.deadline == it.deadline
    &&& e.refund_history@.len() == 0
    &&& e.payout_history@.len() == 0
}

/// The depositors of `items`, each once, in order of first appearance.
pub fn distinct_depositors(items: &Vec<LockFundsItem>) -> (r: Vec<Address>)
    ensures
        forall|i: int, j: int| 0 <= i < j < r@.len() ==> r@[i] != r@[j],
        forall|a: Address| r@.contains(a) <==> exists|k: int| 0 <= k < items@.len() && items@[k].depositor == a,
{
    let mut seen: Vec<Address> = Vec::new();
    let mut i: usize = 0;
    while i < items.len()
        invariant
            i <= items@.len(),
            forall|x: int, y: int| 0 <= x < y < seen@.len() ==> seen@[x] != seen@[y],
            forall|a: Address| seen@.contains(a) <==> exists|k: int| 0 <= k < i && items@[k].depositor == a,
        decreases items@.len() - i,
    {
        let d = items[i].depositor;
        let ghost prev = seen@;
        if !is_signer(&seen, d) {
            seen.push(d);
            assert(seen@[prev.len() as int] == d);
        }
        proof {
            assert(seen@.contains(d));
            assert forall|a: Address| seen@.contains(a) <==> exists|k: int| 0 <= k < i + 1 && items@[k].depositor == a by {
                if exists|k: int| 0 <= k < i + 1 && items@[k].depositor == a {
                    let k = choose|k: int| 0 <= k < i + 1 && items@[k].depositor == a;
                    if k == i as int {
                        assert(seen@.contains(d));
                    } else {
                        assert(prev.contains(a));
                        let x = choose|x: int| 0 <= x < prev.len() && prev[x] == a;
                        assert(seen@[x] == a);
                    }
                }
                if seen@.contains(a) {
                    let x = choose|x: int| 0 <= x < seen@.len() && seen@[x] == a;
                    if a != d {
                        assert(x < prev.len());
                        assert(prev[x] == a);
                        assert(prev.contains(a));
                    } else {
                        assert(items@[i as int].depositor == a);
                    }
                }
            }
        }
        i = i + 1;
    }
    seen
}

pub proof fn lemma_lock_total_step(items: Seq<LockFundsItem>, k: int)
    requires
        0 <= k < items.len(),
    ensures
        lock_total(items.subrange(0, k + 1)) == lock_total(items.subrange(0, k)) + items[k].amount,
{
    assert(items.subrange(0, k + 1).drop_last() =~= items.subrange(0, k));
}

pub proof fn lemma_lock_total_prefix(items: Seq<LockFundsItem>, k: int)
    requires
        0 <= k <= items.len(),
        forall|m: int| 0 <= m < items.len() ==> #[trigger] items[m].amount > 0,
    ensures
        lock_total(items.subrange(0, k)) <= lock_total(items),
    decreases items.len(),
{
    if k == items.len() {
        assert(items.subrange(0, k) =~= items);
    } else {
        let s = items.drop_last();
        assert forall|m: int| 0 <= m < s.len() implies #[trigger] s[m].amount > 0 by {
            assert(s[m] == items[m]);
        }
        lemma_lock_total_prefix(s, k);
        assert(s.subrange(0, k) =~= items.subrange(0, k));
    }
}

/// Whether some id occurs twice in `ids`.
pub fn has_duplicate_id(ids: &Vec<u64>) -> (r: bool)
    ensures
        r == has_duplicate(ids@),
{
    let mut i: usize = 0;
    while i < ids.len()
        invariant
            i <= ids@.len(),
            forall|x: int, y: int| 0 <= x < i && x < y < ids@.len() ==> ids@[x] != ids@[y],
        decreases ids@.len() - i,
    {
        let mut j: usize = i + 1;
        while j < ids.len()
            invariant
                i < ids@.len(),
                i + 1 <= j <= ids@.len(),
                forall|x: int, y: int| 0 <= x < i && x < y < ids@.len() ==> ids@[x] != ids@[y],
                forall|y: int| i < y < j ==> ids@[i as int] != ids@[y],
            decreases ids@.len() - j,
        {
            if ids[i] == ids[j] {
                assert(ids@[i as int] == ids@[j as int]);
                return true;
            }
            j = j + 1;
        }
        i = i + 1;
    }
    false
}

fn lock_item_ids(items: &Vec<LockFundsItem>) -> (r: Vec<u64>)
    ensures
        r@ == lock_ids(items@),
{
    let mut ids: Vec<u64> = Vec::new();
    let mut i: usize = 0;
    while i < items.len()
        invariant
            i <= items@.len(),
            ids@ == lock_ids(items@.subrange(0, i as int)),
        decreases items@.len() - i,
    {
        ids.push(items[i].bounty_id);
        i = i + 1;
        assert(ids@ =~= lock_ids(items@.subrange(0, i as int)));
    }
    assert(items@.subrange(0, i as int) =~= items@);
    ids
}

impl BountyEscrowContract {
    /// Why `batch_lock_funds` would refuse, checked in this order.
    pub open spec fn batch_lock_error(&self, signers: Seq<Address>, items: Seq<LockFundsItem>, now: u64) -> Option<Error> {
        if self.in_flight {
            Some(Error::ReentrantCall)
        } else if self.paused {
            Some(Error::ContractPaused)
        } else if items.len() == 0 || items.len() > MAX_BATCH_SIZE {
            Some(Error::InvalidBatchSize)
        } else if !self.initialized() {
            Some(Error::NotInitialized)
        } else if has_duplicate(lock_ids(items)) {
            Some(Error::DuplicateBountyId)
        } else if exists|k: int| 0 <= k < items.len() && self.has(#[trigger] items[k].bounty_id) {
            Some(Error::BountyExists)
        } else if (exists|k: int| 0 <= k < items.len()
            && (#[trigger] items[k].amount <= 0 || !self.config_limits.admits_amount(items[k].amount as int)))
            || lock_total(items) > i128::MAX {
            Some(Error::InvalidAmount)
        } else if exists|k: int| 0 <= k < items.len()
            && (#[trigger] items[k].deadline <= now || !self.config_limits.admits_duration(items[k].deadline - now)) {
            Some(Error::InvalidDeadline)
        } else if exists|k: int| 0 <= k < items.len() && !signers.contains(#[trigger] items[k].depositor) {
            Some(Error::Unauthorized)
        } else {
            None
        }
    }

    /// Opens one escrow per item, all or none: every item is checked before
    /// anything changes. No lock fee is charged. `signers` must hold every
    /// depositor.
    #[verifier::loop_isolation(false)]
    pub fn batch_lock_funds(&mut self, signers: &Vec<Address>, items: &Vec<LockFundsItem>, now: u64) -> (r: Result<
        (BatchFundsLocked, Vec<Transfer>),
        Error,
    >)
        requires
            old(self).wf(),
        ensures
            final(self).wf(),
            r is Err <==> old(self).batch_lock_error(signers@, items@, now) is Some,
            r is Err ==> r->Err_0 == old(self).batch_lock_error(signers@, items@, now)->Some_0
                && *final(self) == *old(self),
            r is Ok ==> {
                let n = old(self).escrows@.len();
                &&& final(self).registry@ == old(self).registry@ + lock_ids(items@)
                &&& final(self).escrows@.len() == n + items@.len()
                &&& forall|j: int| 0 <= j < n ==> final(self).escrows@[j] == old(self).escrows@[j]
                &&& forall|m: int| 0 <= m < items@.len() ==> opened(#[trigger] final(self).escrows@[n + m], items@[m])
                &&& forall|m: int| 0 <= m < items@.len() ==> final(self).has(#[trigger] items@[m].bounty_id)
                    && opened(final(self).escrow(items@[m].bounty_id), items@[m])
                &&& final(self).approvals == old(self).approvals
                &&& final(self).limiter == old(self).limiter
                &&& final(self).same_settings(old(self))
                &&& r->Ok_0.0 == BatchFundsLocked {
                    count: items@.len() as u32,
                    total_amount: lock_total(items@) as i128,
                    timestamp: now,
                }
                &&& r->Ok_0.1@ == batch_lock_transfers(old(self).contract_address, items@)
            },
    {
        if self.in_flight {
            return Err(Error::ReentrantCall);
        }
        if self.paused {
            return Err(Error::ContractPaused);
        }
        let n = items.len();
        if n == 0 || n > MAX_BATCH_SIZE {
            return Err(Error::InvalidBatchSize);
        }
        if self.admin.is_none() {
            return Err(Error::NotInitialized);
        }
        let ids = lock_item_ids(items);
        if has_duplicate_id(&ids) {
            return Err(Error::DuplicateBountyId);
        }
        let mut k: usize = 0;
        while k < n
            invariant
                self.wf(),
                n == items@.len(),
                k <= n,
                forall|m: int| 0 <= m < k ==> !self.has(#[trigger] items@[m].bounty_id),
            decreases n - k,
        {
            if self.find_bounty(items[k].bounty_id).is_some() {
                return Err(Error::BountyExists);
            }
            k = k + 1;
        }
        k = 0;
        while k < n
            invariant
                n == items@.len(),
                k <= n,
                forall|m: int| 0 <= m < k ==> #[trigger] items@[m].amount > 0
                    && self.config_limits.admits_amount(items@[m].amount as int),
            decreases n - k,
        {
            if items[k].amount <= 0 || !self.config_limits.check_amount(items[k].amount) {
                return Err(Error::InvalidAmount);
            }
            k = k + 1;
        }
        let mut total: i128 = 0;
        k = 0;
        while k < n
            invariant
                n == items@.len(),
                k <= n,
                forall|m: int| 0 <= m < n ==> #[trigger] items@[m].amount > 0,
                total == lock_total(items@.subrange(0, k as int)),
            decreases n - k,
        {
            proof {
                lemma_lock_total_step(items@, k as int);
            }
            match total.checked_add(items[k].amount) {
                Some(t) => total = t,
                None => {
                    proof {
                        lemma_lock_total_prefix(items@, k + 1);
                    }
                    return Err(Error::InvalidAmount);
                },
            }
            k = k + 1;
        }
        assert(items@.subrange(0, n as int) =~= items@);
        k = 0;
        while k < n
            invariant
                n == items@.len(),
                k <= n,
                forall|m: int| 0 <= m < k ==> !(#[trigger] items@[m].deadline <= now)
                    && self.config_limits.admits_duration(items@[m].deadline - now),
            decreases n - k,
        {
            if items[k].deadline <= now || !self.config_limits.check_duration(items[k].deadline - now) {
                return Err(Error::InvalidDeadline);
            }
            k = k + 1;
        }
        let depositors = distinct_depositors(items);
        k = 0;
        while k < depositors.len()
            invariant
                k <= depositors@.len(),
                forall|m: int| 0 <= m < k ==> signers@.contains(#[trigger] depositors@[m]),
            decreases depositors@.len() - k,
        {
            if !is_signer(signers, depositors[k]) {
                proof {
                    let d = depositors@[k as int];
                    assert(depositors@.contains(d));
                }
                return Err(Error::Unauthorized);
            }
            k = k + 1;
        }
        proof {
            assert forall|m: int| 0 <= m < n implies signers@.contains(#[trigger] items@[m].depositor) by {
                let d = items@[m].depositor;
                assert(depositors@.contains(d));
                let x = choose|x: int| 0 <= x < depositors@.len() && depositors@[x] == d;
                assert(signers@.contains(depositors@[x]));
            }
        }
        let ghost before = *self;
        let ghost base = self.registry@.len();
        self.in_flight = true;
        let mut transfers: Vec<Transfer> = Vec::new();
        k = 0;
        while k < n
            invariant
                n == items@.len(),
                k <= n,
                base == before.registry@.len(),
                before.wf(),
                !has_duplicate(lock_ids(items@)),
                forall|m: int| 0 <= m < n ==> !before.has(#[trigger] items@[m].bounty_id),
                forall|m: int| 0 <= m < n ==> #[trigger] items@[m].amount > 0,
                self.registry@ == before.registry@ + lock_ids(items@.subrange(0, k as int)),
                self.escrows@.len() == base + k,
                forall|j: int| 0 <= j < base ==> self.escrows@[j] == before.escrows@[j],
                forall|m: int| 0 <= m < k ==> opened(#[trigger] self.escrows@[base + m], items@[m]),
                self.approvals == before.approvals,
                self.limiter == before.limiter,
                self.contract_address == before.contract_address,
                self.admin == before.admin,
                self.token == before.token,
                self.payout_key == before.payout_key,
                self.paused == before.paused,
                self.in_flight,
                self.time_lock_duration == before.time_lock_duration,
                self.config_limits == before.config_limits,
                self.fee_config == before.fee_config,
                self.actions == before.actions,
                transfers@ == batch_lock_transfers(before.contract_address, items@.subrange(0, k as int)),
            decreases n - k,
        {
            let it = items[k];
            self.registry.push(it.bounty_id);
            self.escrows.push(Escrow {
                depositor: it.depositor,
                amount: it.amount,
                status: EscrowStatus::Locked,
                deadline: it.deadline,
                refund_history: Vec::new(),
                payout_history: Vec::new(),
                remaining_amount: it.amount,
            });
            transfers.push(Transfer { from: it.depositor, to: self.contract_address, amount: it.amount });
            k = k + 1;
            proof {
                assert(self.registry@ =~= before.registry@ + lock_ids(items@.subrange(0, k as int)));
                assert(transfers@ =~= batch_lock_transfers(before.contract_address, items@.subrange(0, k as int)));
                assert(opened(self.escrows@[base + (k - 1)], items@[k - 1]));
            }
        }
        self.in_flight = false;
        proof {
            assert(items@.subrange(0, n as int) =~= items@);
            let ids = lock_ids(items@);
            assert forall|x: int, y: int| 0 <= x < y < self.registry@.len() implies
                #[trigger] self.registry@[x] != #[trigger] self.registry@[y] by {
                if y < base {
                    assert(before.registry@[x] != before.registry@[y]);
                } else if x < base {
                    let m = y - base;
                    assert(self.registry@[y] == items@[m].bounty_id);
                    assert(!before.has(items@[m].bounty_id));
                    assert(self.registry@[x] == before.registry@[x]);
                } else {
                    assert(self.registry@[x] == ids[x - base]);
                    assert(self.registry@[y] == ids[y - base]);
                }
            }
            assert forall|i: int| 0 <= i < self.escrows@.len() implies (#[trigger] self.escrows@[i]).wf() by {
                if i < base {
                    assert(before.escrows@[i].wf());
                } else {
                    assert(opened(self.escrows@[base + (i - base)], items@[i - base]));
                }
            }
            assert forall|m: int| 0 <= m < n implies self.has(#[trigger] items@[m].bounty_id)
                && opened(self.escrow(items@[m].bounty_id), items@[m]) by {
                let id = items@[m].bounty_id;
                assert(self.registry@[base + m] == id);
                let j = self.slot(id);
                if j != base + m {
                    if j < base + m {
                        assert(self.registry@[j] != self.registry@[base + m]);
                    } else {
                        assert(self.registry@[base + m] != self.registry@[j]);
                    }
                }
                assert(opened(self.escrows@[base + m], items@[m]));
            }
        }
        let summary = BatchFundsLocked { count: n as u32, total_amount: total, timestamp: now };
        Ok((summary, transfers))
    }
}

pub open spec fn release_ids(items: Seq<ReleaseFundsItem>) -> Seq<u64> {
    items.map_values(|it: ReleaseFundsItem| it.bounty_id)
}

/// What the items of a batch release take out: all that remains of each.
pub open spec fn release_total(c: BountyEscrowContract, items: Seq<ReleaseFundsItem>) -> int
    decreases items.len(),
{
    if items.len() == 0 {
        0
    } else {
        release_total(c, items.drop_last()) + c.escrow(items.last().bounty_id).remaining_amount
    }
}

/// The transfers of a batch release: those of each item's release, in order.
pub open spec fn batch_release_transfers(c: BountyEscrowContract, items: Seq<ReleaseFundsItem>) -> Seq<Transfer>
    decreases items.len(),
{
    if items.len() == 0 {
        seq![]
    } else {
        batch_release_transfers(c, items.drop_last()) + c.release_transfers(
            items.last().contributor,
            c.escrow(items.last().bounty_id).remaining_amount as int,
        )
    }
}

pub proof fn lemma_release_total_prefix(c: BountyEscrowContract, items: Seq<ReleaseFundsItem>, k: int)
    requires
        0 <= k <= items.len(),
        forall|m: int| 0 <= m < items.len() ==> c.escrow(#[trigger] items[m].bounty_id).remaining_amount > 0,
    ensures
        release_total(c, items.subrange(0, k)) <= release_total(c, items),
    decreases items.len(),
{
    if k == items.len() {
        assert(items.subrange(0, k) =~= items);
    } else {
        let s = items.drop_last();
        assert forall|m: int| 0 <= m < s.len() implies c.escrow(#[trigger] s[m].bounty_id).remaining_amount > 0 by {
            assert(s[m] == items[m]);
        }
        lemma_release_total_prefix(c, s, k);
        assert(s.subrange(0, k) =~= items.subrange(0, k));
    }
}

fn release_item_ids(items: &Vec<ReleaseFundsItem>) -> (r: Vec<u64>)
    ensures
        r@ == release_ids(items@),
{
    let mut ids: Vec<u64> = Vec::new();
    let mut i: usize = 0;
    while i < items.len()
        invariant
            i <= items@.len(),
            ids@ == release_ids(items@.subrange(0, i as int)),
        decreases items@.len() - i,
    {
        ids.push(items[i].bounty_id);
        i = i + 1;
        assert(ids@ =~= release_ids(items@.subrange(0, i as int)));
    }
    assert(items@.subrange(0, i as int) =~= items@);
    ids
}

impl BountyEscrowContract {
    /// Why `batch_release_funds` would refuse, checked in this order.
    pub open spec fn batch_release_error(
        &self,
        signers: Seq<Address>,
        items: Seq<ReleaseFundsItem>,
        now: u64,
        balance: i128,
    ) -> Option<Error> {
        if self.in_flight {
            Some(Error::ReentrantCall)
        } else if self.paused {
            Some(Error::ContractPaused)
        } else if items.len() == 0 || items.len() > MAX_BATCH_SIZE {
            Some(Error::InvalidBatchSize)
        } else if !self.initialized() {
            Some(Error::NotInitialized)
        } else if !signers.contains(self.admin->Some_0) {
            Some(Error::Unauthorized)
        } else if self.limiter.verdict(self.admin->Some_0, now) is Err {
            Some(self.limiter.verdict(self.admin->Some_0, now)->Err_0)
        } else if has_duplicate(release_ids(items)) {
            Some(Error::DuplicateBountyId)
        } else if exists|k: int| 0 <= k < items.len() && !self.has(#[trigger] items[k].bounty_id) {
            Some(Error::BountyNotFound)
        } else if exists|k: int| 0 <= k < items.len() && !self.escrow(#[trigger] items[k].bounty_id).releasable() {
            Some(Error::FundsNotLocked)
        } else if release_total(*self, items) > i128::MAX {
            Some(Error::InvalidAmount)
        } else if balance < release_total(*self, items) {
            Some(Error::InsufficientFunds)
        } else {
            None
        }
    }

    /// Releases all that remains of each listed escrow to its contributor,
    /// all or none: every item is checked before anything changes. Each
    /// release is charged the release fee. Only the admin may do this.
    #[verifier::loop_isolation(false)]
    pub fn batch_release_funds(
        &mut self,
        signers: &Vec<Address>,
        items: &Vec<ReleaseFundsItem>,
        now: u64,
        balance: i128,
    ) -> (r: Result<(BatchFundsReleased, Vec<Transfer>), Error>)
        requires
            old(self).wf(),
        ensures
            final(self).wf(),
            r is Err <==> old(self).batch_release_error(signers@, items@, now, balance) is Some,
            r is Err ==> r->Err_0 == old(self).batch_release_error(signers@, items@, now, balance)->Some_0
                && *final(self) == *old(self),
            r is Ok ==> {
                &&& final(self).registry@ == old(self).registry@
                &&& final(self).escrows@.len() == old(self).escrows@.len()
                &&& forall|m: int| 0 <= m < items@.len() ==> released(
                    old(self).escrow(#[trigger] items@[m].bounty_id),
                    final(self).escrow(items@[m].bounty_id),
                    old(self).escrow(items@[m].bounty_id).remaining_amount as int,
                    items@[m].contributor,
                    now,
                )
                &&& forall|j: int| 0 <= j < old(self).escrows@.len()
                    && (forall|m: int| 0 <= m < items@.len() ==> j != old(self).slot(#[trigger] items@[m].bounty_id))
                    ==> final(self).escrows@[j] == old(self).escrows@[j]
                &&& final(self).approvals == old(self).approvals
                &&& final(self).same_settings(old(self))
                &&& old(self).limiter.admitted(&final(self).limiter, old(self).admin->Some_0, now)
                &&& r->Ok_0.0 == BatchFundsReleased {
                    count: items@.len() as u32,
                    total_amount: release_total(*old(self), items@) as i128,
                    timestamp: now,
                }
                &&& r->Ok_0.1@ == batch_release_transfers(*old(self), items@)
            },
    {
        if self.in_flight {
            return Err(Error::ReentrantCall);
        }
        if self.paused {
            return Err(Error::ContractPaused);
        }
        let n = items.len();
        if n == 0 || n > MAX_BATCH_SIZE {
            return Err(Error::InvalidBatchSize);
        }
        let admin = match self.admin {
            None => return Err(Error::NotInitialized),
            Some(a) => a,
        };
        if !is_signer(signers, admin) {
            return Err(Error::Unauthorized);
        }
        let verdict = match self.limiter.evaluate(admin, now) {
            Err(e) => return Err(e),
            Ok(v) => v,
        };
        let ids = release_item_ids(items);
        if has_duplicate_id(&ids) {
            return Err(Error::DuplicateBountyId);
        }
        let mut k: usize = 0;
        while k < n
            invariant
                k <= n,
                forall|m: int| 0 <= m < k ==> self.has(#[trigger] items@[m].bounty_id),
            decreases n - k,
        {
            if self.find_bounty(items[k].bounty_id).is_none() {
                return Err(Error::BountyNotFound);
            }
            k = k + 1;
        }
        k = 0;
        while k < n
            invariant
                k <= n,
                forall|m: int| 0 <= m < k ==> self.escrow(#[trigger] items@[m].bounty_id).releasable(),
            decreases n - k,
        {
            let i = self.find_bounty(items[k].bounty_id).unwrap();
            let status = self.escrows[i].status;
            if status != EscrowStatus::Locked && status != EscrowStatus::PartiallyReleased {
                return Err(Error::FundsNotLocked);
            }
            k = k + 1;
        }
        proof {
            assert forall|m: int| 0 <= m < n implies self.escrow(#[trigger] items@[m].bounty_id).remaining_amount > 0 by {
                assert(self.escrow(items@[m].bounty_id).releasable());
                let j = self.slot(items@[m].bounty_id);
                assert(self.registry@.contains(items@[m].bounty_id));
                assert(self.escrows@[j].wf());
            }
        }
        let mut total: i128 = 0;
        k = 0;
        while k < n
            invariant
                k <= n,
                total == release_total(*self, items@.subrange(0, k as int)),
            decreases n - k,
        {
            let i = self.find_bounty(items[k].bounty_id).unwrap();
            proof {
                assert(items@.subrange(0, k + 1).drop_last() =~= items@.subrange(0, k as int));
            }
            match total.checked_add(self.escrows[i].remaining_amount) {
                Some(t) => total = t,
                None => {
                    proof {
                        lemma_release_total_prefix(*self, items@, k + 1);
                    }
                    return Err(Error::InvalidAmount);
                },
            }
            k = k + 1;
        }
        assert(items@.subrange(0, n as int) =~= items@);
        if balance < total {
            return Err(Error::InsufficientFunds);
        }
        let ghost before = *self;
        self.in_flight = true;
        let mut transfers: Vec<Transfer> = Vec::new();
        k = 0;
        while k < n
            invariant
                k <= n,
                self.wf(),
                self.registry@ == before.registry@,
                self.escrows@.len() == before.escrows@.len(),
                self.approvals == before.approvals,
                self.limiter == before.limiter,
                self.contract_address == before.contract_address,
                self.admin == before.admin,
                self.token == before.token,
                self.payout_key == before.payout_key,
                self.paused == before.paused,
                self.in_flight,
                self.time_lock_duration == before.time_lock_duration,
                self.config_limits == before.config_limits,
                self.fee_config == before.fee_config,
                self.actions == before.actions,
                forall|m: int| 0 <= m < k ==> released(
                    before.escrow(#[trigger] items@[m].bounty_id),
                    self.escrow(items@[m].bounty_id),
                    before.escrow(items@[m].bounty_id).remaining_amount as int,
                    items@[m].contributor,
                    now,
                ),
                forall|m: int| k <= m < n ==> self.escrow(#[trigger] items@[m].bounty_id) == before.escrow(items@[m].bounty_id),
                forall|j: int| 0 <= j < before.escrows@.len()
                    && (forall|m: int| 0 <= m < k ==> j != before.slot(#[trigger] items@[m].bounty_id))
                    ==> self.escrows@[j] == before.escrows@[j],
                transfers@ == batch_release_transfers(before, items@.subrange(0, k as int)),
            decreases n - k,
        {
            let it = items[k];
            let i = self.find_bounty(it.bounty_id).unwrap();
            let payout = self.escrows[i].remaining_amount;
            proof {
                assert(self.escrows@[i as int].wf());
                assert(self.escrow(it.bounty_id) == before.escrow(it.bounty_id));
            }
            let fee = self.fee_config.fee_for(FeeOperationType::Release, payout);
            let ghost mid = *self;
            self.settle_release(i, payout, it.contributor, now);
            transfers.push(Transfer { from: self.contract_address, to: it.contributor, amount: payout - fee });
            if fee > 0 {
                transfers.push(Transfer { from: self.contract_address, to: self.fee_config.fee_recipient, amount: fee });
            }
            proof {
                let ik = i as int;
                assert forall|a: u64, b: u64| before.has(a) && before.has(b) && a != b implies
                    before.slot(a) != before.slot(b) by {
                    assert(before.registry@[before.slot(a)] == a);
                    assert(before.registry@[before.slot(b)] == b);
                }
                assert forall|m: int| 0 <= m < n && m != k implies items@[m].bounty_id != it.bounty_id by {
                    let ids = release_ids(items@);
                    if m < k {
                        assert(ids[m] != ids[k as int]);
                    } else {
                        assert(ids[k as int] != ids[m]);
                    }
                }
                assert(items@.subrange(0, k + 1).drop_last() =~= items@.subrange(0, k as int));
                assert(transfers@ =~= batch_release_transfers(before, items@.subrange(0, k + 1)));
            }
            k = k + 1;
        }
        self.in_flight = false;
        self.limiter.store(admin, now, verdict);
        let summary = BatchFundsReleased { count: n as u32, total_amount: total, timestamp: now };
        Ok((summary, transfers))
    }
}

} // verus!