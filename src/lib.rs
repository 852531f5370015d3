//! Conditional fund custody: escrows keyed by bounty id, a basis-point fee
//! engine, atomic batches, a reentrancy guard, a per-address rate limiter and
//! a time-locked queue of administrative changes.
//!
//! The whole contract state is one value, [`BountyEscrowContract`]. What the
//! host supplies (the ledger time, the principals that authorised a call, the
//! custody balance) comes in as arguments, and every movement of value that an
//! operation decides on comes back as a list of [`Transfer`]s for the host to
//! carry out. A refused operation changes nothing.

pub mod types;
pub mod fees;
pub mod rate_limit;
pub mod admin;
pub mod escrow;
pub mod batch;
pub mod query;
pub mod laws;

pub use types::{Address, Error, EscrowStatus, RefundMode, Transfer};
pub use fees::{calculate_fee, validate_fee_rate, FeeConfig, FeeOperationType, BASIS_POINTS, MAX_FEE_RATE};
pub use rate_limit::{check_rate_limit, AddressState, AntiAbuseConfig, RateLimiter};
pub use admin::{ActionQueue, AdminAction, AdminActionType, ConfigLimits, ContractState, FeeConfigUpdate, CONTRACT_VERSION};
pub use escrow::{ApprovalBook, BountyEscrowContract, Escrow, PayoutRecord, RefundApproval, RefundRecord, MAX_BATCH_SIZE};
pub use batch::{distinct_depositors, BatchFundsLocked, BatchFundsReleased, LockFundsItem, ReleaseFundsItem};
pub use query::{EscrowFilter, EscrowStats, Pagination};
