use vstd::prelude::*;
use crate::escrow::{paid_total, refunded_total, same_escrow, BountyEscrowContract, Escrow, PayoutRecord, RefundApproval, RefundRecord};
use crate::types::{Address, Error, EscrowStatus};

verus! {

/// Which escrows a query wants; each given field must match.
#[derive(Clone, Copy, Debug, PartialEq, Eq, Structural)]
pub struct EscrowFilter {
    pub status: Option<EscrowStatus>,
    pub depositor: Option<Address>,
    /// Least locked amount.
    pub min_amount: Option<i128>,
    /// Greatest locked amount.
    pub max_amount: Option<i128>,
    /// Earliest deadline.
    pub start_time: Option<u64>,
    /// Latest deadline.
    pub end_time: Option<u64>,
}

/// A window onto the matches: skip `start_index`, then take up to `limit`.
#[derive(Clone, Copy, Debug, PartialEq, Eq, Structural)]
pub struct Pagination {
    pub start_index: u64,
    pub limit: u32,
}

/// Totals over the whole ledger.
#[derive(Clone, Copy, Debug, PartialEq, Eq, Structural)]
pub struct EscrowStats {
    pub total_bounties: u64,
    /// What is still held, over all escrows.
    pub total_locked_amount: i128,
    /// What releases paid out, over all escrows.
    pub total_released_amount: i128,
    /// What refunds paid out, over all escrows.
    pub total_refunded_amount: i128,
}

impl EscrowFilter {
    pub open spec fn admits(self, e: Escrow) -> bool {
        &&& (self.status matches Some(s) ==> e.status == s)
        &&& (self.depositor matches Some(d) ==> e.depositor == d)
        &&& (self.min_amount matches Some(m) ==> e.amount >= m)
        &&& (self.max_amount matches Some(m) ==> e.amount <= m)
        &&& (self.start_time matches Some(t) ==> e.deadline >= t)
        &&& (self.end_time matches Some(t) ==> e.deadline <= t)
    }

    pub fn check(&self, e: &Escrow) -> (r: bool)
        ensures
            r == self.admits(*e),
    {
        let status_ok = match self.status {
            Some(s) => e.status == s,
            None => true,
        };
        let depositor_ok = match self.depositor {
            Some(d) => e.depositor == d,
            None => true,
        };
        let min_ok = match self.min_amount {
            Some(m) => e.amount >= m,
            None => true,
        };
        let max_ok = match self.max_amount {
            Some(m) => e.amount <= m,
            None => true,
        };
        let start_ok = match self.start_time {
            Some(t) => e.deadline >= t,
            None => true,
        };
        let end_ok = match self.end_time {
            Some(t) => e.deadline <= t,
            None => true,
        };
        status_ok && depositor_ok && min_ok && max_ok && start_ok && end_ok
    }
}

/// The positions among the first `n` escrows that `f` admits, in order.
pub open spec fn matching(escrows: Seq<Escrow>, f: EscrowFilter, n: int) -> Seq<int>
    decreases n,
{
    if n <= 0 {
        seq![]
    } else if f.admits(escrows[n - 1]) {
        matching(escrows, f, n - 1).push(n - 1)
    } else {
        matching(escrows, f, n - 1)
    }
}

pub open spec fn min_int(a: int, b: int) -> int {
    if a < b {
        a
    } else {
        b
    }
}

/// The part of `s` that the window `p` shows.
pub open spec fn window<A>(s: Seq<A>, p: Pagination) -> Seq<A> {
    s.subrange(min_int(p.start_index as int, s.len() as int), min_int(p.start_index + p.limit, s.len() as int))
}

/// `x` capped at the largest `i128`.
pub open spec fn capped(x: int) -> int {
    if x > i128::MAX {
        i128::MAX as int
    } else {
        x
    }
}

pub open spec fn locked_sum(escrows: Seq<Escrow>) -> int
    decreases escrows.len(),
{
    if escrows.len() == 0 {
        0
    } else {
        locked_sum(escrows.drop_last()) + escrows.last().remaining_amount
    }
}

pub open spec fn released_sum(escrows: Seq<Escrow>) -> int
    decreases escrows.len(),
{
    if escrows.len() == 0 {
        0
    } else {
        released_sum(escrows.drop_last()) + paid_total(escrows.last().payout_history@)
    }
}

pub open spec fn refunded_sum(escrows: Seq<Escrow>) -> int
    decreases escrows.len(),
{
    if escrows.len() == 0 {
        0
    } else {
        refunded_sum(escrows.drop_last()) + refunded_total(escrows.last().refund_history@)
    }
}

pub proof fn lemma_paid_prefix(s: Seq<PayoutRecord>, k: int)
    requires
        0 <= k <= s.len(),
        forall|i: int| 0 <= i < s.len() ==> #[trigger] s[i].amount > 0,
    ensures
        0 <= paid_total(s.subrange(0, k)) <= paid_total(s),
    decreases s.len(),
{
    if k == s.len() {
        assert(s.subrange(0, k) =~= s);
        if s.len() > 0 {
            lemma_paid_prefix(s.drop_last(), k - 1);
            assert(s.drop_last().subrange(0, k - 1) =~= s.drop_last());
        }
    } else {
        let t = s.drop_last();
        assert forall|i: int| 0 <= i < t.len() implies #[trigger] t[i].amount > 0 by {
            assert(t[i] == s[i]);
        }
        lemma_paid_prefix(t, k);
        assert(t.subrange(0, k) =~= s.subrange(0, k));
        lemma_paid_prefix(t, t.len() as int);
        assert(t.subrange(0, t.len() as int) =~= t);
    }
}

pub proof fn lemma_refunded_prefix(s: Seq<RefundRecord>, k: int)
    requires
        0 <= k <= s.len(),
        forall|i: int| 0 <= i < s.len() ==> #[trigger] s[i].amount > 0,
    ensures
        0 <= refunded_total(s.subrange(0, k)) <= refunded_total(s),
    decreases s.len(),
{
    if k == s.len() {
        assert(s.subrange(0, k) =~= s);
        if s.len() > 0 {
            lemma_refunded_prefix(s.drop_last(), k - 1);
            assert(s.drop_last().subrange(0, k - 1) =~= s.drop_last());
        }
    } else {
        let t = s.drop_last();
        assert forall|i: int| 0 <= i < t.len() implies #[trigger] t[i].amount > 0 by {
            assert(t[i] == s[i]);
        }
        lemma_refunded_prefix(t, k);
        assert(t.subrange(0, k) =~= s.subrange(0, k));
        lemma_refunded_prefix(t, t.len() as int);
        assert(t.subrange(0, t.len() as int) =~= t);
    }
}

/// `acc + x`, capped at the largest `i128`.
fn add_capped(acc: i128, x: i128) -> (r: i128)
    requires
        acc >= 0,
        x >= 0,
    ensures
        r == capped(acc + x),
{
    match acc.checked_add(x) {
        Some(v) => v,
        None => i128::MAX,
    }
}

/// The total paid out of one well-formed escrow.
fn paid_out(e: &Escrow) -> (r: i128)
    requires
        e.wf(),
    ensures
        r == paid_total(e.payout_history@),
{
    let ghost h = e.payout_history@;
    proof {
        lemma_paid_prefix(h, h.len() as int);
        lemma_refunded_prefix(e.refund_history@, e.refund_history@.len() as int);
        assert(h.subrange(0, h.len() as int) =~= h);
        assert(e.refund_history@.subrange(0, e.refund_history@.len() as int) =~= e.refund_history@);
    }
    let mut total: i128 = 0;
    let mut i: usize = 0;
    while i < e.payout_history.len()
        invariant
            e.wf(),
            h == e.payout_history@,
            i <= h.len(),
            total == paid_total(h.subrange(0, i as int)),
            paid_total(h) <= e.amount,
        decreases h.len() - i,
    {
        proof {
            assert(h.subrange(0, i + 1).drop_last() =~= h.subrange(0, i as int));
            lemma_paid_prefix(h, i + 1);
        }
        total = total + e.payout_history[i].amount;
        i = i + 1;
    }
    assert(h.subrange(0, i as int) =~= h);
    total
}

/// The total refunded from one well-formed escrow.
fn refunded_out(e: &Escrow) -> (r: i128)
    requires
        e.wf(),
    ensures
        r == refunded_total(e.refund_history@),
{
    let ghost h = e.refund_history@;
    proof {
        lemma_refunded_prefix(h, h.len() as int);
        lemma_paid_prefix(e.payout_history@, e.payout_history@.len() as int);
        assert(h.subrange(0, h.len() as int) =~= h);
        assert(e.payout_history@.subrange(0, e.payout_history@.len() as int) =~= e.payout_history@);
    }
    let mut total: i128 = 0;
    let mut i: usize = 0;
    while i < e.refund_history.len()
        invariant
            e.wf(),
            h == e.refund_history@,
            i <= h.len(),
            total == refunded_total(h.subrange(0, i as int)),
            refunded_total(h) <= e.amount,
        decreases h.len() - i,
    {
        proof {
            assert(h.subrange(0, i + 1).drop_last() =~= h.subrange(0, i as int));
            lemma_refunded_prefix(h, i + 1);
        }
        total = total + e.refund_history[i].amount;
        i = i + 1;
    }
    assert(h.subrange(0, i as int) =~= h);
    total
}

impl BountyEscrowContract {
    /// The escrows that `filter` admits, in order of locking, through the
    /// window `page`, each with its bounty id.
    pub fn get_bounties(&self, filter: &EscrowFilter, page: &Pagination) -> (r: Vec<(u64, Escrow)>)
        requires
            self.wf(),
        ensures
            ({
                let shown = window(matching(self.escrows@, *filter, self.escrows@.len() as int), *page);
                &&& r@.len() == shown.len()
                &&& forall|k: int| 0 <= k < shown.len() ==> (#[trigger] r@[k]).0 == self.registry@[shown[k]]
                    && same_escrow(r@[k].1, self.escrows@[shown[k]])
            }),
    {
        let ghost es = self.escrows@;
        let mut out: Vec<(u64, Escrow)> = Vec::new();
        let mut seen: u64 = 0;
        let mut i: usize = 0;
        while i < self.escrows.len()
            invariant
                self.wf(),
                es == self.escrows@,
                i <= es.len(),
                seen == matching(es, *filter, i as int).len(),
                seen <= i,
                forall|x: int| 0 <= x < matching(es, *filter, i as int).len() ==> 0 <= #[trigger] matching(es, *filter, i as int)[x] < i,
                out@.len() == window(matching(es, *filter, i as int), *page).len(),
                forall|k: int| 0 <= k < out@.len() ==> (#[trigger] out@[k]).0
                    == self.registry@[window(matching(es, *filter, i as int), *page)[k]]
                    && same_escrow(out@[k].1, es[window(matching(es, *filter, i as int), *page)[k]]),
            decreases es.len() - i,
        {
            let ghost m = matching(es, *filter, i as int);
            if filter.check(&self.escrows[i]) {
                let ghost m2 = m.push(i as int);
                assert(matching(es, *filter, i + 1) == m2);
                if seen >= page.start_index && seen - page.start_index < page.limit as u64 {
                    let e = self.escrows[i].duplicate();
                    out.push((self.registry[i], e));
                    proof {
                        assert(window(m2, *page) =~= window(m, *page).push(i as int));
                    }
                } else {
                    proof {
                        assert(window(m2, *page) =~= window(m, *page));
                    }
                }
                seen = seen + 1;
            } else {
                assert(matching(es, *filter, i + 1) == m);
            }
            i = i + 1;
        }
        out
    }

    /// Counts and totals over every escrow. Totals beyond the largest `i128`
    /// are reported as that value.
    pub fn get_stats(&self) -> (r: EscrowStats)
        requires
            self.wf(),
        ensures
            r.total_bounties == self.registry@.len(),
            r.total_locked_amount == capped(locked_sum(self.escrows@)),
            r.total_released_amount == capped(released_sum(self.escrows@)),
            r.total_refunded_amount == capped(refunded_sum(self.escrows@)),
    {
        let ghost es = self.escrows@;
        let mut locked: i128 = 0;
        let mut released: i128 = 0;
        let mut refunded: i128 = 0;
        let mut i: usize = 0;
        while i < self.escrows.len()
            invariant
                self.wf(),
                es == self.escrows@,
                i <= es.len(),
                locked == capped(locked_sum(es.subrange(0, i as int))),
                released == capped(released_sum(es.subrange(0, i as int))),
                refunded == capped(refunded_sum(es.subrange(0, i as int))),
                locked_sum(es.subrange(0, i as int)) >= 0,
                released_sum(es.subrange(0, i as int)) >= 0,
                refunded_sum(es.subrange(0, i as int)) >= 0,
            decreases es.len() - i,
        {
            let e = &self.escrows[i];
            proof {
                assert(es.subrange(0, i + 1).drop_last() =~= es.subrange(0, i as int));
                assert(es[i as int].wf());
                lemma_paid_prefix(e.payout_history@, e.payout_history@.len() as int);
                lemma_refunded_prefix(e.refund_history@, e.refund_history@.len() as int);
                assert(e.payout_history@.subrange(0, e.payout_history@.len() as int) =~= e.payout_history@);
                assert(e.refund_history@.subrange(0, e.refund_history@.len() as int) =~= e.refund_history@);
            }
            locked = add_capped(locked, e.remaining_amount);
            released = add_capped(released, paid_out(e));
            refunded = add_capped(refunded, refunded_out(e));
            i = i + 1;
        }
        assert(es.subrange(0, i as int) =~= es);
        EscrowStats {
            total_bounties: self.registry.len() as u64,
            total_locked_amount: locked,
            total_released_amount: released,
            total_refunded_amount: refunded,
        }
    }

    /// The escrow of `bounty_id`.
    pub fn get_escrow_info(&self, bounty_id: u64) -> (r: Result<Escrow, Error>)
        requires
            self.wf(),
        ensures
            self.has(bounty_id) <==> r is Ok,
            !self.has(bounty_id) ==> r == Err::<Escrow, Error>(Error::BountyNotFound),
            r is Ok ==> same_escrow(r->Ok_0, self.escrow(bounty_id)),
    {
        match self.find_bounty(bounty_id) {
            None => Err(Error::BountyNotFound),
            Some(i) => Ok(self.escrows[i].duplicate()),
        }
    }

    /// The refunds of `bounty_id`, oldest first.
    pub fn get_refund_history(&self, bounty_id: u64) -> (r: Result<Vec<RefundRecord>, Error>)
        requires
            self.wf(),
        ensures
            self.has(bounty_id) <==> r is Ok,
            !self.has(bounty_id) ==> r == Err::<Vec<RefundRecord>, Error>(Error::BountyNotFound),
            r is Ok ==> r->Ok_0@ == self.escrow(bounty_id).refund_history@,
    {
        match self.find_bounty(bounty_id) {
            None => Err(Error::BountyNotFound),
            Some(i) => Ok(self.escrows[i].duplicate().refund_history),
        }
    }

    /// Whether the escrow of `bounty_id` can be refunded at `now`, whether
    /// its deadline has passed, what remains of it, and its live approval.
    /// It can be refunded when it is not settled and either its deadline has
    /// passed or an approval exists.
    pub fn get_refund_eligibility(&self, bounty_id: u64, now: u64) -> (r: Result<
        (bool, bool, i128, Option<RefundApproval>),
        Error,
    >)
        requires
            self.wf(),
        ensures
            self.has(bounty_id) <==> r is Ok,
            !self.has(bounty_id) ==> r is Err && r->Err_0 == Error::BountyNotFound,
            r is Ok ==> {
                let e = self.escrow(bounty_id);
                let passed = now >= e.deadline;
                let approval = self.approval(bounty_id);
                r->Ok_0 == (!e.status.is_terminal() && (passed || approval is Some), passed, e.remaining_amount, approval)
            },
    {
        match self.find_bounty(bounty_id) {
            None => Err(Error::BountyNotFound),
            Some(i) => {
                let passed = now >= self.escrows[i].deadline;
                let approval = self.approvals.lookup(bounty_id);
                let open = !self.escrows[i].status.is_final();
                Ok((open && (passed || approval.is_some()), passed, self.escrows[i].remaining_amount, approval))
            },
        }
    }
}

} // verus!
