//! Products, policies, and what the engine reports about them.

use crate::text::{Addr, Sym};
use vstd::prelude::*;

verus! {

/// How a product's trigger is decided.
#[derive(Clone, Copy, Debug, PartialEq, Eq, Structural)]
pub enum TriggerType {
    /// A measured value crosses a threshold (rainfall, temperature, wind speed).
    Threshold,
    /// An event occurred or did not (flight delayed yes/no).
    Binary,
    /// The payout is proportional to the deviation of a parameter.
    Parametric,
}

/// How a measured value is held against the threshold.
#[derive(Clone, Copy, Debug, PartialEq, Eq, Structural)]
pub enum TriggerComparison {
    LessThan,
    GreaterThan,
    Equal,
}

#[derive(Clone, Copy, Debug, PartialEq, Eq, Structural)]
pub enum ProductStatus {
    Active,
    Paused,
    Deprecated,
}

#[derive(Clone, Copy, Debug, PartialEq, Eq, Structural)]
pub enum PolicyStatus {
    Active,
    Claimed,
    Expired,
    Cancelled,
}

/// An insurance product template.
#[derive(Clone, Copy, Debug, PartialEq, Eq)]
pub struct InsuranceProduct {
    pub id: u128,
    /// e.g. "Crop Insurance – Kisumu Rainfall"
    pub name: Sym,
    /// "crop" | "flight" | "disaster" | "health" | "defi"
    pub category: Sym,
    /// The oracle measurement to watch, e.g. "kis2606".
    pub oracle_key: Sym,
    pub trigger_type: TriggerType,
    /// Oracle data category: "weather" | "flight" | "onchain"
    pub oracle_data_type: Sym,
    /// Seven-decimal fixed point (50_000_000 is 5.0000000).
    pub trigger_threshold: i128,
    pub trigger_comparison: TriggerComparison,
    /// Smallest coverage, in USDC stroops (seven decimals).
    pub coverage_min: i128,
    pub coverage_max: i128,
    /// Premium rate in basis points: 500 is 5.00%.
    pub premium_rate_bps: u32,
    pub max_duration_days: u32,
    pub status: ProductStatus,
    pub created_at: u64,
}

/// One line of a batch purchase.
#[derive(Clone, Copy, Debug, PartialEq, Eq)]
pub struct BatchBuyItem {
    pub product_id: u128,
    pub coverage_amount: i128,
    pub duration_days: u32,
    pub oracle_key: Sym,
}

/// What an administrator states of a new product.
#[derive(Clone, Copy, Debug, PartialEq, Eq)]
pub struct CreateProductParams {
    pub name: Sym,
    pub category: Sym,
    pub oracle_key: Sym,
    pub trigger_type: TriggerType,
    pub oracle_data_type: Sym,
    pub trigger_threshold: i128,
    pub trigger_comparison: TriggerComparison,
    pub coverage_min: i128,
    pub coverage_max: i128,
    pub premium_rate_bps: u32,
    pub max_duration_days: u32,
}

/// An individual insurance policy owned by a policyholder.
#[derive(Clone, Copy, Debug, PartialEq, Eq)]
pub struct Policy {
    pub id: u128,
    pub product_id: u128,
    pub policyholder: Addr,
    pub coverage_amount: i128,
    pub premium_paid: i128,
    /// The oracle measurement to watch, e.g. "kis2606".
    pub oracle_key: Sym,
    pub oracle_data_type: Sym,
    pub trigger_threshold: i128,
    pub trigger_comparison: TriggerComparison,
    pub start_time: u64,
    pub end_time: u64,
    pub status: PolicyStatus,
    pub created_at: u64,
}

/// Summary figures of one product.
#[derive(Clone, Copy, Debug, PartialEq, Eq)]
pub struct ProductStats {
    pub product_id: u128,
    pub total_policies: u32,
    pub active_policies: u32,
    pub total_coverage: i128,
    pub total_premium_collected: i128,
}

#[derive(Clone, Copy, Debug, PartialEq, Eq)]
pub struct Initialized {
    pub admin: Addr,
    pub usdc_token: Addr,
    pub oracle_address: Addr,
}

#[derive(Clone, Copy, Debug, PartialEq, Eq)]
pub struct ClaimsProcessorUpdated {
    pub claims_processor: Addr,
}

#[derive(Clone, Copy, Debug, PartialEq, Eq)]
pub struct RiskPoolUpdated {
    pub risk_pool: Addr,
}

#[derive(Clone, Copy, Debug, PartialEq, Eq)]
pub struct ProductCreated {
    pub product_id: u128,
    pub name: Sym,
    pub category: Sym,
    pub premium_rate_bps: u32,
}

#[derive(Clone, Copy, Debug, PartialEq, Eq)]
pub struct ProductPaused {
    pub product_id: u128,
}

#[derive(Clone, Copy, Debug, PartialEq, Eq)]
pub struct ProductDeprecated {
    pub product_id: u128,
}

#[derive(Clone, Copy, Debug, PartialEq, Eq)]
pub struct PolicyCreated {
    pub policy_id: u128,
    pub product_id: u128,
    pub policyholder: Addr,
    pub coverage_amount: i128,
    pub premium_paid: i128,
}

#[derive(Clone, Copy, Debug, PartialEq, Eq)]
pub struct PolicyCancelled {
    pub policy_id: u128,
    pub policyholder: Addr,
    pub refund_amount: i128,
}

#[derive(Clone, Copy, Debug, PartialEq, Eq)]
pub struct PolicyTransferred {
    pub policy_id: u128,
    pub from: Addr,
    pub to: Addr,
}

#[derive(Clone, Copy, Debug, PartialEq, Eq)]
pub struct PolicyClaimed {
    pub policy_id: u128,
    pub policyholder: Addr,
    pub coverage_amount: i128,
}

#[derive(Clone, Copy, Debug, PartialEq, Eq)]
pub struct PolicyExpired {
    pub policy_id: u128,
}

/// A policy that is still active has entered its expiry warning window.
///
/// Cover lapses silently when `end_time` passes; this tells the holder while
/// renewing still helps.
#[derive(Clone, Copy, Debug, PartialEq, Eq)]
pub struct PolicyExpiringSoon {
    pub policy_id: u128,
    pub policyholder: Addr,
    pub product_id: u128,
    pub coverage_amount: i128,
    pub end_time: u64,
    /// Seconds left until `end_time` when this was emitted.
    pub seconds_remaining: u64,
}

#[derive(Clone, Copy, Debug, PartialEq, Eq)]
pub struct ExpiryWarningWindowUpdated {
    pub window: u64,
}

/// Where a policy stands relative to its own expiry.
#[derive(Clone, Copy, Debug, PartialEq, Eq, Structural)]
pub enum ExpiryState {
    /// Claimed, cancelled, or already marked expired.
    NotActive,
    /// Active, and outside the warning window.
    Active,
    /// Active, inside the warning window, still covered.
    ExpiringSoon,
    /// `end_time` has passed but the policy is not marked expired yet.
    Lapsed,
}

/// The expiry of one policy.
#[derive(Clone, Copy, Debug, PartialEq, Eq)]
pub struct PolicyExpiryInfo {
    pub policy_id: u128,
    pub state: ExpiryState,
    pub end_time: u64,
    /// Seconds until `end_time`, or 0 once it has passed.
    pub seconds_remaining: u64,
    /// Whether a warning was already emitted for this policy.
    pub warned: bool,
}

#[derive(Clone, Copy, Debug, PartialEq, Eq)]
pub struct AdminUpdated {
    pub new_admin: Addr,
}

#[derive(Clone, Copy, Debug, PartialEq, Eq)]
pub struct ContractUpgraded {
    pub old_version: u32,
    pub new_version: u32,
}

#[derive(Debug, PartialEq, Eq)]
pub struct GuardiansUpdated {
    pub guardians: Vec<Addr>,
    pub threshold: u32,
}

#[derive(Clone, Copy, Debug, PartialEq, Eq)]
pub struct UpgradeApproved {
    pub new_wasm_hash: [u8; 32],
    pub approver: Addr,
    pub approvals: u32,
    pub threshold: u32,
}

/// A contract upgrade that waits for guardian approvals.
#[derive(Debug, PartialEq, Eq)]
pub struct PendingUpgrade {
    pub new_wasm_hash: [u8; 32],
    pub new_version: u32,
    pub approvals: Vec<Addr>,
}

/// An admin transfer that waits for guardian approvals.
#[derive(Debug, PartialEq, Eq)]
pub struct PendingAdminChange {
    pub new_admin: Addr,
    pub approvals: Vec<Addr>,
}

/// Why the engine refuses a request.
#[derive(Clone, Copy, Debug, PartialEq, Eq, PartialOrd, Ord, Structural)]
pub enum Error {
    AlreadyInitialized,
    NotInitialized,
    Unauthorized,
    ProductNotFound,
    ProductNotActive,
    PolicyNotFound,
    PolicyNotActive,
    CoverageOutOfRange,
    DurationTooLong,
    InsufficientPool,
    AlreadyClaimed,
    AlreadyExpired,
    InvalidPremiumRate,
    InvalidTriggerThreshold,
    DuplicateProductKey,
    InvalidCoverageRange,
    InvalidToken,
    ClaimsProcessorNotSet,
    InvalidDurationRange,
    InvalidOracleKey,
    Overflow,
    TooManyProducts,
    InvalidMaxProducts,
    AdminTimelockNotExpired,
    InvalidAddress,
    InvalidVersion,
    /// An admin transfer was proposed while another one is still pending,
    /// which would reset the transfer timelock.
    AdminTransferPending,
    EmptyBatch,
    BatchTooLarge,
    NotExpiringSoon,
    InvalidWarningWindow,
    /// Another product already bears the name.
    DuplicateProductName,
    /// The category is none of those that pools exist for.
    InvalidCategory,
}

impl Error {
    /// The number by which callers on the ledger know the error.
    pub open spec fn code_spec(self) -> u32 {
        match self {
            Error::AlreadyInitialized => 1,
            Error::NotInitialized => 2,
            Error::Unauthorized => 3,
            Error::ProductNotFound => 4,
            Error::ProductNotActive => 5,
            Error::PolicyNotFound => 6,
            Error::PolicyNotActive => 7,
            Error::CoverageOutOfRange => 8,
            Error::DurationTooLong => 9,
            Error::InsufficientPool => 10,
            Error::AlreadyClaimed => 11,
            Error::AlreadyExpired => 12,
            Error::InvalidPremiumRate => 13,
            Error::InvalidTriggerThreshold => 14,
            Error::DuplicateProductKey => 15,
            Error::InvalidCoverageRange => 16,
            Error::InvalidToken => 17,
            Error::ClaimsProcessorNotSet => 18,
            Error::InvalidDurationRange => 19,
            Error::InvalidOracleKey => 20,
            Error::Overflow => 21,
            Error::TooManyProducts => 22,
            Error::InvalidMaxProducts => 23,
            Error::AdminTimelockNotExpired => 24,
            Error::InvalidAddress => 25,
            Error::InvalidVersion => 26,
            Error::AdminTransferPending => 27,
            Error::EmptyBatch => 29,
            Error::BatchTooLarge => 30,
            Error::NotExpiringSoon => 31,
            Error::InvalidWarningWindow => 32,
            Error::DuplicateProductName => 34,
            Error::InvalidCategory => 36,
        }
    }

    /// The number by which callers on the ledger know the error.
    pub fn code(self) -> (r: u32)
        ensures
            r == self.code_spec(),
    {
        match self {
            Error::AlreadyInitialized => 1,
            Error::NotInitialized => 2,
            Error::Unauthorized => 3,
            Error::ProductNotFound => 4,
            Error::ProductNotActive => 5,
            Error::PolicyNotFound => 6,
            Error::PolicyNotActive => 7,
            Error::CoverageOutOfRange => 8,
            Error::DurationTooLong => 9,
            Error::InsufficientPool => 10,
            Error::AlreadyClaimed => 11,
            Error::AlreadyExpired => 12,
            Error::InvalidPremiumRate => 13,
            Error::InvalidTriggerThreshold => 14,
            Error::DuplicateProductKey => 15,
            Error::InvalidCoverageRange => 16,
            Error::InvalidToken => 17,
            Error::ClaimsProcessorNotSet => 18,
            Error::InvalidDurationRange => 19,
            Error::InvalidOracleKey => 20,
            Error::Overflow => 21,
            Error::TooManyProducts => 22,
            Error::InvalidMaxProducts => 23,
            Error::AdminTimelockNotExpired => 24,
            Error::InvalidAddress => 25,
            Error::InvalidVersion => 26,
            Error::AdminTransferPending => 27,
            Error::EmptyBatch => 29,
            Error::BatchTooLarge => 30,
            Error::NotExpiringSoon => 31,
            Error::InvalidWarningWindow => 32,
            Error::DuplicateProductName => 34,
            Error::InvalidCategory => 36,
        }
    }
}

/// What the engine announces.
#[derive(Clone, Copy, Debug, PartialEq, Eq)]
pub enum Event {
    Initialized(Initialized),
    ClaimsProcessorUpdated(ClaimsProcessorUpdated),
    ProductCreated(ProductCreated),
    ProductPaused(ProductPaused),
    PolicyBought { buyer: Addr, policy_id: u128, product_id: u128, coverage_amount: i128, premium: i128 },
    PolicyCancelled(PolicyCancelled),
    PolicyTransferred(PolicyTransferred),
    ClaimPaid { policy_id: u128, policyholder: Addr, coverage_amount: i128 },
    PolicyExpired(PolicyExpired),
    AdminUpdated(AdminUpdated),
    MaxProductsUpdated { max_products: u32 },
    ExpiryWarningWindowUpdated(ExpiryWarningWindowUpdated),
    PolicyExpiringSoon(PolicyExpiringSoon),
    ContractUpgraded(ContractUpgraded),
}

/// What the ledger has to do for a call of the engine to stand. A call whose
/// effects cannot all be carried out has no effect at all.
#[derive(Clone, Copy, Debug, PartialEq, Eq)]
pub enum Effect {
    /// The address must have authorised the call.
    RequireAuth(Addr),
    /// Move `amount` of `token` from `from` to the engine.
    Collect { token: Addr, from: Addr, amount: i128 },
    /// Move `amount` of `token` from the engine to `to`.
    Pay { token: Addr, to: Addr, amount: i128 },
    /// Publish an event.
    Emit(Event),
    /// Replace the engine's code.
    ReplaceCode([u8; 32]),
}

} // verus!
