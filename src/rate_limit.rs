use vstd::prelude::*;
use crate::types::{Address, Error};

verus! {

/// Limits on how often a non-allow-listed address may act.
#[derive(Clone, Copy, Debug, PartialEq, Eq, Structural)]
pub struct AntiAbuseConfig {
    /// Length of a window, in seconds.
    pub window_size: u64,
    /// Operations allowed within one window.
    pub max_operations: u32,
    /// Least number of seconds between two operations of one address.
    pub cooldown_period: u64,
}

/// What the limiter remembers of one address.
#[derive(Clone, Copy, Debug, PartialEq, Eq, Structural)]
pub struct AddressState {
    pub last_operation_timestamp: u64,
    pub window_start_timestamp: u64,
    pub operation_count: u32,
}

pub open spec fn sat_add(a: u64, b: u64) -> int {
    if a + b > u64::MAX {
        u64::MAX as int
    } else {
        a + b
    }
}

/// The state of an address that has never been seen, at time `now`.
pub open spec fn fresh_state(now: u64) -> AddressState {
    AddressState { last_operation_timestamp: 0, window_start_timestamp: now, operation_count: 0 }
}

/// One check of the limiter for a non-allow-listed address: the cooldown
/// since its last operation, then the window, which restarts once
/// `window_size` seconds have passed since it began and otherwise admits at
/// most `max_operations` operations. On success, the state to store.
pub open spec fn limiter_step(config: AntiAbuseConfig, prior: Option<AddressState>, now: u64) -> Result<AddressState, Error> {
    let s = match prior {
        Some(s) => s,
        None => fresh_state(now),
    };
    if s.last_operation_timestamp > 0 && now < sat_add(s.last_operation_timestamp, config.cooldown_period) {
        Err(Error::CooldownActive)
    } else if now >= sat_add(s.window_start_timestamp, config.window_size) {
        Ok(AddressState { last_operation_timestamp: now, window_start_timestamp: now, operation_count: 1 })
    } else if s.operation_count >= config.max_operations {
        Err(Error::RateLimitExceeded)
    } else {
        Ok(AddressState {
            last_operation_timestamp: now,
            window_start_timestamp: s.window_start_timestamp,
            operation_count: (s.operation_count + 1) as u32,
        })
    }
}

impl AntiAbuseConfig {
    /// One hour windows of ten operations, one minute apart.
    pub fn default_limits() -> (r: AntiAbuseConfig)
        ensures
            r.window_size == 3600,
            r.max_operations == 10,
            r.cooldown_period == 60,
    {
        AntiAbuseConfig { window_size: 3600, max_operations: 10, cooldown_period: 60 }
    }
}

/// Checks one operation of a non-allow-listed address at time `now`, given
/// what was stored for it (`None` the first time).
pub fn check_rate_limit(config: &AntiAbuseConfig, prior: Option<AddressState>, now: u64) -> (r: Result<AddressState, Error>)
    ensures
        r == limiter_step(*config, prior, now),
{
    let s = match prior {
        Some(s) => s,
        None => AddressState { last_operation_timestamp: 0, window_start_timestamp: now, operation_count: 0 },
    };
    if s.last_operation_timestamp > 0 && now < s.last_operation_timestamp.saturating_add(config.cooldown_period) {
        return Err(Error::CooldownActive);
    }
    if now >= s.window_start_timestamp.saturating_add(config.window_size) {
        Ok(AddressState { last_operation_timestamp: now, window_start_timestamp: now, operation_count: 1 })
    } else if s.operation_count >= config.max_operations {
        Err(Error::RateLimitExceeded)
    } else {
        Ok(AddressState {
            last_operation_timestamp: now,
            window_start_timestamp: s.window_start_timestamp,
            operation_count: s.operation_count + 1,
        })
    }
}

/// The per-address memory of the limiter, with its allow-list.
pub struct RateLimiter {
    pub config: AntiAbuseConfig,
    pub allow_list: Vec<Address>,
    pub states: Vec<(Address, AddressState)>,
}

impl RateLimiter {
    /// Addresses appear at most once in the state table.
    pub open spec fn wf(&self) -> bool {
        forall|i: int, j: int|
            0 <= i < j < self.states@.len() ==> #[trigger] self.states@[i].0 != #[trigger] self.states@[j].0
    }

    pub open spec fn allowed(&self, a: Address) -> bool {
        self.allow_list@.contains(a)
    }

    /// What is stored for `a`, if anything.
    pub open spec fn state_of(&self, a: Address) -> Option<AddressState> {
        if exists|i: int| 0 <= i < self.states@.len() && self.states@[i].0 == a {
            let i = choose|i: int| 0 <= i < self.states@.len() && self.states@[i].0 == a;
            Some(self.states@[i].1)
        } else {
            None
        }
    }

    /// The limiter's verdict on an operation of `a` at `now`: `Ok(None)` for
    /// an allow-listed address, which leaves no trace; else the state to
    /// store, or the rejection.
    pub open spec fn verdict(&self, a: Address, now: u64) -> Result<Option<AddressState>, Error> {
        if self.allowed(a) {
            Ok(None)
        } else {
            match limiter_step(self.config, self.state_of(a), now) {
                Ok(s) => Ok(Some(s)),
                Err(e) => Err(e),
            }
        }
    }

    /// `post` is this limiter after an admitted operation of `a` at `now`:
    /// the state that the verdict gives is stored for `a`, nothing else moves.
    pub open spec fn admitted(&self, post: &RateLimiter, a: Address, now: u64) -> bool {
        &&& post.config == self.config
        &&& post.allow_list@ == self.allow_list@
        &&& (self.verdict(a, now) == Ok::<Option<AddressState>, Error>(None) ==> post.states@ == self.states@)
        &&& (forall|s: AddressState| self.verdict(a, now) == Ok::<Option<AddressState>, Error>(Some(s))
                ==> post.state_of(a) == Some(s))
        &&& (forall|b: Address| b != a ==> post.state_of(b) == self.state_of(b))
    }

    pub fn new(config: AntiAbuseConfig) -> (r: RateLimiter)
        ensures
            r.wf(),
            r.config == config,
            r.allow_list@.len() == 0,
            r.states@.len() == 0,
    {
        RateLimiter { config, allow_list: Vec::new(), states: Vec::new() }
    }

    pub fn is_allowed(&self, a: Address) -> (r: bool)
        ensures
            r == self.allowed(a),
    {
        let mut i: usize = 0;
        while i < self.allow_list.len()
            invariant
                0 <= i <= self.allow_list@.len(),
                forall|k: int| 0 <= k < i ==> self.allow_list@[k] != a,
            decreases self.allow_list@.len() - i,
        {
            if self.allow_list[i] == a {
                return true;
            }
            i = i + 1;
        }
        false
    }

    /// Puts `a` on the allow-list, or takes it off.
    pub fn set_allowed(&mut self, a: Address, allowed: bool)
        requires
            old(self).wf(),
        ensures
            final(self).wf(),
            final(self).allowed(a) == allowed,
            forall|b: Address| b != a ==> final(self).allowed(b) == old(self).allowed(b),
            final(self).config == old(self).config,
            final(self).states == old(self).states,
    {
        let ghost orig = self.allow_list@;
        let mut kept: Vec<Address> = Vec::new();
        let mut i: usize = 0;
        while i < self.allow_list.len()
            invariant
                self.allow_list@ == orig,
                orig == old(self).allow_list@,
                i <= self.allow_list@.len(),
                !kept@.contains(a),
                forall|b: Address| b != a ==> (kept@.contains(b) <==> self.allow_list@.subrange(0, i as int).contains(b)),
            decreases self.allow_list@.len() - i,
        {
            let b = self.allow_list[i];
            let ghost prev = kept@;
            if b != a {
                kept.push(b);
            }
            proof {
                let sub = self.allow_list@.subrange(0, i + 1);
                assert(sub =~= self.allow_list@.subrange(0, i as int).push(b));
                assert forall|c: Address| c != a implies (kept@.contains(c) <==> sub.contains(c)) by {
                    if c == b {
                        assert(sub[i as int] == b);
                        assert(kept@[kept@.len() - 1] == b);
                    } else {
                        if kept@.contains(c) {
                            let x = choose|x: int| 0 <= x < kept@.len() && kept@[x] == c;
                            assert(prev[x] == c);
                            assert(prev.contains(c));
                            let y = choose|y: int| 0 <= y < i && self.allow_list@.subrange(0, i as int)[y] == c;
                            assert(sub[y] == c);
                        }
                        if sub.contains(c) {
                            let y = choose|y: int| 0 <= y < sub.len() && sub[y] == c;
                            assert(y < i);
                            assert(self.allow_list@.subrange(0, i as int)[y] == c);
                            assert(prev.contains(c));
                            let x = choose|x: int| 0 <= x < prev.len() && prev[x] == c;
                            assert(kept@[x] == c);
                        }
                    }
                }
                if kept@.contains(a) {
                    let x = choose|x: int| 0 <= x < kept@.len() && kept@[x] == a;
                    if x < prev.len() {
                        assert(prev[x] == a);
                    }
                }
            }
            i = i + 1;
        }
        proof {
            assert(self.allow_list@.subrange(0, i as int) =~= self.allow_list@);
            assert forall|b: Address| b != a implies (kept@.contains(b) <==> orig.contains(b)) by {
                assert(kept@.contains(b) <==> self.allow_list@.subrange(0, i as int).contains(b));
            }
        }
        let ghost swept = kept@;
        if allowed {
            let ghost pre = kept@;
            kept.push(a);
            proof {
                assert(kept@ == pre.push(a));
                assert(kept@[pre.len() as int] == a);
                assert forall|b: Address| b != a implies (kept@.contains(b) <==> orig.contains(b)) by {
                    assert(pre.contains(b) <==> orig.contains(b));
                    if kept@.contains(b) {
                        let x = choose|x: int| 0 <= x < kept@.len() && kept@[x] == b;
                        assert(x < pre.len());
                        assert(pre[x] == b);
                    }
                    if pre.contains(b) {
                        let x = choose|x: int| 0 <= x < pre.len() && pre[x] == b;
                        assert(kept@[x] == b);
                    }
                }
            }
        }
        assert forall|b: Address| b != a implies (kept@.contains(b) <==> orig.contains(b)) by {
            assert(swept.contains(b) <==> orig.contains(b));
        }
        self.allow_list = kept;
    }

    fn find(&self, a: Address) -> (r: Option<usize>)
        requires
            self.wf(),
        ensures
            match r {
                Some(i) => i < self.states@.len() && self.states@[i as int].0 == a
                    && self.state_of(a) == Some(self.states@[i as int].1),
                None => self.state_of(a) is None,
            },
    {
        let mut i: usize = 0;
        while i < self.states.len()
            invariant
                self.wf(),
                0 <= i <= self.states@.len(),
                forall|k: int| 0 <= k < i ==> self.states@[k].0 != a,
            decreases self.states@.len() - i,
        {
            if self.states[i].0 == a {
                proof {
                    let j = choose|j: int| 0 <= j < self.states@.len() && self.states@[j].0 == a;
                    if j != i as int {
                        if j < i {
                            assert(self.states@[j].0 != self.states@[i as int].0);
                        } else {
                            assert(self.states@[i as int].0 != self.states@[j].0);
                        }
                    }
                }
                return Some(i);
            }
            i = i + 1;
        }
        None
    }

    /// The verdict of the limiter on an operation of `a` at `now`.
    pub fn evaluate(&self, a: Address, now: u64) -> (r: Result<Option<AddressState>, Error>)
        requires
            self.wf(),
        ensures
            r == self.verdict(a, now),
    {
        if self.is_allowed(a) {
            return Ok(None);
        }
        let prior = match self.find(a) {
            Some(i) => Some(self.states[i].1),
            None => None,
        };
        match check_rate_limit(&self.config, prior, now) {
            Err(e) => Err(e),
            Ok(s) => Ok(Some(s)),
        }
    }

    /// Stores what an admitted operation of `a` at `now` left, as
    /// [`RateLimiter::evaluate`] gave it.
    pub fn store(&mut self, a: Address, now: u64, verdict: Option<AddressState>)
        requires
            old(self).wf(),
            old(self).verdict(a, now) == Ok::<Option<AddressState>, Error>(verdict),
        ensures
            final(self).wf(),
            old(self).admitted(&*final(self), a, now),
    {
        let s = match verdict {
            None => return,
            Some(s) => s,
        };
        let ghost before = self.states@;
        match self.find(a) {
            Some(i) => {
                self.states.set(i, (a, s));
                proof {
                    assert(self.states@ == before.update(i as int, (a, s)));
                    assert forall|b: Address| b != a implies self.state_of(b) == old(self).state_of(b) by {
                        if exists|k: int| 0 <= k < before.len() && before[k].0 == b {
                            let k = choose|k: int| 0 <= k < before.len() && before[k].0 == b;
                            assert(self.states@[k].0 == b);
                        }
                        if exists|k: int| 0 <= k < self.states@.len() && self.states@[k].0 == b {
                            let k = choose|k: int| 0 <= k < self.states@.len() && self.states@[k].0 == b;
                            assert(before[k].0 == b);
                        }
                    }
                    assert(self.states@[i as int].0 == a);
                }
            },
            None => {
                self.states.push((a, s));
                proof {
                    assert(self.states@ == before.push((a, s)));
                    let n = before.len() as int;
                    assert(self.states@[n].0 == a);
                    assert forall|b: Address| b != a implies self.state_of(b) == old(self).state_of(b) by {
                        if exists|k: int| 0 <= k < before.len() && before[k].0 == b {
                            let k = choose|k: int| 0 <= k < before.len() && before[k].0 == b;
                            assert(self.states@[k].0 == b);
                        }
                        if exists|k: int| 0 <= k < self.states@.len() && self.states@[k].0 == b {
                            let k = choose|k: int| 0 <= k < self.states@.len() && self.states@[k].0 == b;
                            assert(k < n);
                            assert(before[k].0 == b);
                        }
                    }
                }
            },
        }
    }
}

} // verus!
