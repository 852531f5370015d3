use vstd::prelude::*;

verus! {

/// A principal: an account or a contract, identified by a number.
#[derive(Clone, Copy, Debug, PartialEq, Eq, Structural)]
pub struct Address(pub u64);

/// Every way an operation can fail.
#[derive(Clone, Copy, Debug, PartialEq, Eq, Structural)]
pub enum Error {
    AlreadyInitialized,
    NotInitialized,
    BountyExists,
    BountyNotFound,
    FundsNotLocked,
    DeadlineNotPassed,
    Unauthorized,
    InvalidAmount,
    InvalidDeadline,
    BatchSizeMismatch,
    DuplicateBountyId,
    InsufficientFunds,
    RefundNotApproved,
    InvalidFeeRate,
    InvalidBatchSize,
    ActionNotReady,
    ActionNotFound,
    InvalidTimeLock,
    ContractPaused,
    /// An emergency withdrawal was asked for while the contract runs.
    NotPaused,
    /// A mutating operation started while another one was in flight.
    ReentrantCall,
    /// The caller has used up its operations for the current window.
    RateLimitExceeded,
    /// The caller acted again before its cooldown period ended.
    CooldownActive,
}

/// Where an escrow stands in its lifecycle.
#[derive(Clone, Copy, Debug, PartialEq, Eq, Structural)]
pub enum EscrowStatus {
    Locked,
    PartiallyReleased,
    Released,
    PartiallyRefunded,
    Refunded,
}

/// How a refund chooses its amount and recipient.
#[derive(Clone, Copy, Debug, PartialEq, Eq, Structural)]
pub enum RefundMode {
    Full,
    Partial,
    Custom,
}

/// A movement of value that the host must carry out for an operation.
#[derive(Clone, Copy, Debug, PartialEq, Eq, Structural)]
pub struct Transfer {
    pub from: Address,
    pub to: Address,
    pub amount: i128,
}

impl EscrowStatus {
    /// Released and Refunded never change again.
    pub open spec fn is_terminal(self) -> bool {
        self == EscrowStatus::Released || self == EscrowStatus::Refunded
    }

    pub fn is_final(&self) -> (r: bool)
        ensures
            r == self.is_terminal(),
    {
        match self {
            EscrowStatus::Released => true,
            EscrowStatus::Refunded => true,
            _ => false,
        }
    }
}

} // verus!
