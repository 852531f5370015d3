use vstd::prelude::*;
use crate::types::{Address, Error};

verus! {

/// Fee rates are in basis points out of this many.
pub const BASIS_POINTS: i128 = 10000;

/// The largest accepted fee rate: ten percent.
pub const MAX_FEE_RATE: i128 = 1000;

/// Which operation a fee is charged on.
#[derive(Clone, Copy, Debug, PartialEq, Eq, Structural)]
pub enum FeeOperationType {
    Lock,
    Release,
}

/// The fee engine's configuration.
#[derive(Clone, Copy, Debug, PartialEq, Eq, Structural)]
pub struct FeeConfig {
    pub lock_fee_rate: i128,
    pub release_fee_rate: i128,
    pub fee_recipient: Address,
    pub fee_enabled: bool,
}

/// `floor(amount * rate / 10000)`.
pub open spec fn fee_of(amount: int, rate: int) -> int {
    amount * rate / 10000
}

pub open spec fn valid_rate(rate: int) -> bool {
    0 <= rate <= 1000
}

impl FeeConfig {
    pub open spec fn wf(self) -> bool {
        valid_rate(self.lock_fee_rate as int) && valid_rate(self.release_fee_rate as int)
    }

    pub open spec fn rate_spec(self, op: FeeOperationType) -> int {
        match op {
            FeeOperationType::Lock => self.lock_fee_rate as int,
            FeeOperationType::Release => self.release_fee_rate as int,
        }
    }

    /// The fee that this configuration charges on `amount` for `op`: zero
    /// whenever the engine is disabled.
    pub open spec fn fee_spec(self, op: FeeOperationType, amount: int) -> int {
        if self.fee_enabled {
            fee_of(amount, self.rate_spec(op))
        } else {
            0
        }
    }

    /// A disabled engine with both rates at zero.
    pub fn disabled(fee_recipient: Address) -> (r: FeeConfig)
        ensures
            r.wf(),
            !r.fee_enabled,
            r.lock_fee_rate == 0,
            r.release_fee_rate == 0,
            r.fee_recipient == fee_recipient,
    {
        FeeConfig { lock_fee_rate: 0, release_fee_rate: 0, fee_recipient, fee_enabled: false }
    }

    pub fn rate_for(&self, op: FeeOperationType) -> (r: i128)
        ensures
            r == self.rate_spec(op),
    {
        match op {
            FeeOperationType::Lock => self.lock_fee_rate,
            FeeOperationType::Release => self.release_fee_rate,
        }
    }

    /// The fee charged on `amount` for `op`.
    pub fn fee_for(&self, op: FeeOperationType, amount: i128) -> (r: i128)
        requires
            self.wf(),
            amount >= 0,
        ensures
            r == self.fee_spec(op, amount as int),
            0 <= r <= amount / 10,
    {
        if self.fee_enabled {
            calculate_fee(amount, self.rate_for(op))
        } else {
            0
        }
    }
}

/// Checks that a rate lies in `[0, 1000]` basis points.
pub fn validate_fee_rate(rate: i128) -> (r: Result<(), Error>)
    ensures
        r is Ok <==> valid_rate(rate as int),
        r is Err ==> r == Err::<(), Error>(Error::InvalidFeeRate),
{
    if rate < 0 || rate > MAX_FEE_RATE {
        Err(Error::InvalidFeeRate)
    } else {
        Ok(())
    }
}

/// `floor(amount * rate / 10000)`, computed without forming the product
/// `amount * rate`, so that no amount can overflow it.
pub fn calculate_fee(amount: i128, rate: i128) -> (r: i128)
    requires
        amount >= 0,
        valid_rate(rate as int),
    ensures
        r == fee_of(amount as int, rate as int),
        0 <= r <= amount / 10,
{
    let whole = amount / BASIS_POINTS;
    let part = amount % BASIS_POINTS;
    proof {
        assert(amount == whole * 10000 + part);
        assert(0 <= whole * rate <= whole * 1000) by (nonlinear_arith)
            requires 0 <= whole, 0 <= rate <= 1000;
        assert(0 <= part * rate <= 9999 * 1000) by (nonlinear_arith)
            requires 0 <= part < 10000, 0 <= rate <= 1000;
        assert(whole * 1000 <= amount / 10) by (nonlinear_arith)
            requires amount == whole * 10000 + part, 0 <= part < 10000, 0 <= whole;
    }
    let r = whole * rate + (part * rate) / BASIS_POINTS;
    proof {
        assert(r == fee_of(amount as int, rate as int)) by (nonlinear_arith)
            requires
                amount == whole * 10000 + part,
                0 <= part < 10000,
                0 <= rate <= 1000,
                r == whole * rate + (part * rate) / 10000,
        {
            assert(amount * rate == (whole * rate) * 10000 + part * rate);
        }
        assert(fee_of(amount as int, rate as int) <= amount / 10) by (nonlinear_arith)
            requires 0 <= rate <= 1000, amount >= 0;
    }
    r
}

} // verus!
