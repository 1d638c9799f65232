//! Claims, their settlement, and what is reported about them.

use crate::oracle_verifier::types::TriggerCondition;
use crate::policy_engine::types::Policy;
use crate::roster::Roster;
use crate::text::{Addr, Sym};
use vstd::prelude::*;

verus! {

#[derive(Clone, Copy, Debug, PartialEq, Eq, Structural)]
pub enum ClaimStatus {
    Pending,
    Paid,
    Rejected,
    Disputed,
    /// Claim was resolved as expired before it could be processed.
    Expired,
    /// Claim was partially paid (proportional payout based on trigger severity).
    PartiallyPaid,
    /// Claim sat Pending past the escalation threshold and was escalated for
    /// manual review. Still unresolved — this records that it is overdue, not
    /// that it was decided.
    Escalated,
}

/// Result returned by `process_claim` and `auto_process`.
#[derive(Clone, Copy, Debug, PartialEq, Eq, Structural)]
pub enum ClaimResult {
    /// Trigger was met — coverage paid to policyholder.
    Paid,
    /// Trigger not met — no payout.
    Rejected,
    /// Policy expired before trigger was confirmed.
    Expired,
    /// Policy was already claimed (idempotent response).
    AlreadyClaimed,
    /// Policy is not in Active state (cancelled etc.).
    PolicyNotActive,
    AlreadyProcessed,
    /// Trigger was met but payout was proportional (partial payment).
    PartiallyPaid,
}

/// A claim record stored on-chain.
#[derive(Clone, Copy, Debug, PartialEq, Eq)]
pub struct Claim {
    pub id: u128,
    pub policy_id: u128,
    pub claimant: Addr,
    pub coverage_amount: i128,
    /// Oracle value read at processing time (None if not yet evaluated)
    pub observed_value: Option<i128>,
    pub trigger_met: bool,
    pub status: ClaimStatus,
    pub submitted_at: u64,
    pub processed_at: Option<u64>,
    pub dispute_reason: Option<Sym>,
    /// For PartiallyPaid claims: the actual USDC amount paid out.
    pub paid_amount: Option<i128>,
    /// For PartiallyPaid claims: payout ratio in basis points (0-10000).
    /// 10000 = full coverage; lower = proportional partial payment.
    pub partial_payout_bps: Option<u32>,
    /// Installment payout configuration for large claims.
    pub installments: Option<InstallmentSchedule>,
    /// Timestamp at which payout becomes available.
    /// `None` means payout is immediate or not applicable.
    pub payout_ready_at: Option<u64>,
    /// Whether the claimant's identity was verified for this claim.
    pub identity_verified: bool,
    /// The kind of identity that was verified.
    pub verification_type: Option<Sym>,
    pub verification_time: Option<u64>,
}

/// Configuration for installment-based claim payouts.
#[derive(Clone, Copy, Debug, PartialEq, Eq)]
pub struct InstallmentSchedule {
    /// Total amount to be paid out in installments.
    pub total_amount: i128,
    /// Amount per installment.
    pub amount_per_installment: i128,
    /// Total number of installments.
    pub num_installments: u32,
    /// Interval in seconds between installments.
    pub interval_seconds: u64,
    /// Timestamp when first installment becomes claimable.
    pub first_installment_at: u64,
    /// Number of installments already paid out.
    pub paid_count: u32,
}

/// How overdue a pending claim is.
#[derive(Clone, Copy, Debug, PartialEq, Eq)]
pub struct ClaimAgeInfo {
    pub claim_id: u128,
    pub status: ClaimStatus,
    pub submitted_at: u64,
    /// Seconds the claim has been waiting. 0 once it is resolved.
    pub pending_for: u64,
    /// Threshold in force for escalation.
    pub escalation_threshold: u64,
    /// True when the claim is Pending and past the threshold.
    pub escalatable: bool,
    /// Seconds until it becomes escalatable, or 0 if it already is.
    pub seconds_until_escalatable: u64,
}

#[derive(Clone, Copy, Debug, PartialEq, Eq)]
pub struct Initialized {
    pub admin: Addr,
    pub policy_engine: Addr,
    pub risk_pool: Addr,
    pub oracle_verifier: Addr,
    pub staleness_threshold: u64,
}

#[derive(Clone, Copy, Debug, PartialEq, Eq)]
pub struct ClaimSubmitted {
    pub claim_id: u128,
    pub policy_id: u128,
    pub claimant: Addr,
    pub coverage_amount: i128,
}

#[derive(Clone, Copy, Debug, PartialEq, Eq)]
pub struct BatchClaimsSubmitted {
    pub claimant: Addr,
    pub count: u32,
}

#[derive(Clone, Copy, Debug, PartialEq, Eq)]
pub struct BatchClaimsProcessed {
    pub keeper: Addr,
    pub count: u32,
}

#[derive(Clone, Copy, Debug, PartialEq, Eq)]
pub struct ClaimProcessed {
    pub claim_id: u128,
    pub policy_id: u128,
    pub trigger_met: bool,
    pub status: ClaimStatus,
}

#[derive(Clone, Copy, Debug, PartialEq, Eq)]
pub struct ClaimDisputed {
    pub claim_id: u128,
    pub claimant: Addr,
    pub reason: Sym,
}

#[derive(Clone, Copy, Debug, PartialEq, Eq)]
pub struct ClaimResolved {
    pub claim_id: u128,
    pub resolver: Addr,
}

/// Emitted when an overdue claim is escalated for manual review.
#[derive(Clone, Copy, Debug, PartialEq, Eq)]
pub struct ClaimEscalated {
    pub claim_id: u128,
    pub policy_id: u128,
    pub claimant: Addr,
    /// Seconds the claim had been Pending when it was escalated.
    pub pending_for: u64,
    /// Who triggered the escalation.
    pub escalated_by: Addr,
}

#[derive(Clone, Copy, Debug, PartialEq, Eq)]
pub struct EscalationThresholdUpdated {
    pub threshold: u64,
}

#[derive(Clone, Copy, Debug, PartialEq, Eq)]
pub struct ClaimDeadlineUpdated {
    pub deadline: u64,
}

#[derive(Clone, Copy, Debug, PartialEq, Eq)]
pub struct ContractUpgraded {
    pub old_version: u32,
    pub new_version: u32,
}

#[derive(Debug, PartialEq, Eq)]
pub struct GuardiansUpdated {
    pub guardians: Vec<Addr>,
    pub threshold: u32,
}

#[derive(Clone, Copy, Debug, PartialEq, Eq)]
pub struct UpgradeApproved {
    pub new_wasm_hash: [u8; 32],
    pub approver: Addr,
    pub approvals: u32,
    pub threshold: u32,
}

/// A pending contract-upgrade action awaiting guardian approvals.
#[derive(Debug, PartialEq, Eq)]
pub struct PendingUpgrade {
    pub new_wasm_hash: [u8; 32],
    pub new_version: u32,
    pub approvals: Vec<Addr>,
}

/// A pending admin-transfer proposal awaiting guardian approvals.
#[derive(Debug, PartialEq, Eq)]
pub struct PendingAdminChange {
    pub new_admin: Addr,
    pub approvals: Vec<Addr>,
}

#[derive(Clone, Copy, Debug, PartialEq, Eq)]
pub struct AdminUpdated {
    pub new_admin: Addr,
}

/// An observation reported from another chain.
#[derive(Clone, Copy, Debug, PartialEq, Eq)]
pub struct CrossChainAttestation {
    /// Which chain this observation came from.
    pub chain_id: Sym,
    /// The registered attestor that submitted it.
    pub attestor: Addr,
    /// The observed value, in the same fixed-point units as
    /// `Policy.trigger_threshold`.
    pub observed_value: i128,
    /// Hash of the off-chain proof (light-client proof, relayer message,
    /// oracle report) backing `observed_value`. Opaque to the contract —
    /// kept for audit/dispute purposes, not verified on-chain.
    pub proof_hash: [u8; 32],
    /// Unix timestamp of the observation.
    pub timestamp: u64,
}

#[derive(Clone, Copy, Debug, PartialEq, Eq)]
pub struct CrossChainAttestorAdded {
    pub chain_id: Sym,
    pub attestor: Addr,
}

#[derive(Clone, Copy, Debug, PartialEq, Eq)]
pub struct CrossChainAttestorRemoved {
    pub chain_id: Sym,
    pub attestor: Addr,
}

#[derive(Clone, Copy, Debug, PartialEq, Eq)]
pub struct CrossChainAttestationSubmitted {
    pub policy_id: u128,
    pub chain_id: Sym,
    pub attestor: Addr,
    pub observed_value: i128,
    pub timestamp: u64,
}

#[derive(Clone, Copy, Debug, PartialEq, Eq)]
pub struct InstallmentPayoutScheduled {
    pub claim_id: u128,
    pub policy_id: u128,
    pub claimant: Addr,
    pub total_amount: i128,
    pub num_installments: u32,
    pub interval_seconds: u64,
    pub first_installment_at: u64,
}

#[derive(Clone, Copy, Debug, PartialEq, Eq)]
pub struct InstallmentPaid {
    pub claim_id: u128,
    pub claimant: Addr,
    pub amount: i128,
    pub paid_count: u32,
    pub total_installments: u32,
}

/// Emitted when the payout delay configuration is updated.
#[derive(Clone, Copy, Debug, PartialEq, Eq)]
pub struct PayoutDelayUpdated {
    pub delay_seconds: u64,
}

/// Supported payout currencies for claim settlements.
#[derive(Clone, Copy, Debug, PartialEq, Eq)]
pub enum PayoutCurrency {
    /// Default USDC (7-decimal)
    USDC,
    /// Alternative stablecoin (address stored separately)
    Custom(Addr),
}

/// Multi-currency payout configuration for a claim.
#[derive(Clone, Copy, Debug, PartialEq, Eq)]
pub struct PayoutOption {
    /// Currency to pay out in.
    pub currency: PayoutCurrency,
    /// Exchange rate (basis points) relative to USDC. 10000 = 1:1 parity.
    /// Used to convert USDC coverage amounts to equivalent other-currency amounts.
    pub exchange_rate_bps: u32,
    /// Whether this payout option is currently enabled.
    pub enabled: bool,
}

/// Record of available payout currencies and their exchange rates.
#[derive(Debug, PartialEq, Eq)]
pub struct PayoutCurrencyRegistry {
    /// Address of the USDC token contract (default payout currency).
    pub usdc_token: Addr,
    /// Optional alternative payout currencies with their exchange rates.
    pub alt_currencies: Vec<Addr>,
    /// Exchange rates for alt currencies (index matches alt_currencies).
    pub exchange_rates_bps: Vec<u32>,
}

/// Emitted when a new payout currency is registered.
#[derive(Clone, Copy, Debug, PartialEq, Eq)]
pub struct PayoutCurrencyAdded {
    pub token: Addr,
    pub exchange_rate_bps: u32,
}

/// Emitted when a payout currency's exchange rate is updated.
#[derive(Clone, Copy, Debug, PartialEq, Eq)]
pub struct PayoutCurrencyRateUpdated {
    pub token: Addr,
    pub old_rate_bps: u32,
    pub new_rate_bps: u32,
}

/// Emitted when a claim is paid out in an alternate currency.
#[derive(Clone, Copy, Debug, PartialEq, Eq)]
pub struct ClaimPaidInAlternativeCurrency {
    pub claim_id: u128,
    pub claimant: Addr,
    pub usdc_equivalent: i128,
    pub token: Addr,
    pub actual_amount: i128,
    pub exchange_rate_bps: u32,
}

/// What the fraud detector does with a submission that it flags.
#[derive(Clone, Copy, Debug, PartialEq, Eq, Structural)]
pub enum FraudMode {
    /// The submission is refused.
    Block,
    /// The submission goes through and a record of the judgement is kept.
    FlagOnly,
}

/// The rules of the fraud detector. A window, count, multiplier or score of
/// zero turns its rule off.
#[derive(Clone, Copy, Debug, PartialEq, Eq)]
pub struct FraudConfig {
    /// Seconds within which a further submission counts as rapid.
    pub rate_window_secs: u64,
    pub rate_score: u32,
    /// Seconds that a burst of submissions is counted over.
    pub burst_window_secs: u64,
    /// The submission of a burst from which on it counts.
    pub burst_count: u32,
    pub burst_score: u32,
    /// How many times the largest earlier coverage is still ordinary.
    pub coverage_anomaly_multiplier: u32,
    pub coverage_score: u32,
    /// The score from which on a submission is flagged; zero flags none.
    pub fraud_threshold_score: u32,
    pub mode: FraudMode,
}

/// What the fraud detector remembers of a claimant.
#[derive(Clone, Copy, Debug, PartialEq, Eq)]
pub struct ClaimantHistory {
    pub last_submission_at: u64,
    /// When the current burst began; zero where there is none.
    pub burst_bucket_start: u64,
    pub burst_count: u32,
    pub max_coverage_ever: i128,
    pub total_submissions: u32,
}

/// The fraud detector's judgement on one claim.
#[derive(Clone, Copy, Debug, PartialEq, Eq)]
pub struct FraudRecord {
    pub claim_id: u128,
    pub score: u32,
    /// Which rules fired: 1 rapid resubmission, 2 burst, 4 coverage anomaly.
    pub flags: u32,
    pub checked_at: u64,
}

#[derive(Clone, Copy, Debug, PartialEq, Eq)]
pub struct FraudFlagged {
    pub claim_id: u128,
    pub claimant: Addr,
    pub score: u32,
    pub flags: u32,
    pub mode: FraudMode,
}

#[derive(Clone, Copy, Debug, PartialEq, Eq)]
pub struct FraudConfigUpdated {
    pub rate_window_secs: u64,
    pub rate_score: u32,
    pub burst_window_secs: u64,
    pub burst_count: u32,
    pub burst_score: u32,
    pub coverage_anomaly_multiplier: u32,
    pub coverage_score: u32,
    pub fraud_threshold_score: u32,
    pub mode: FraudMode,
}

/// Why the processor refuses a request.
#[derive(Clone, Copy, Debug, PartialEq, Eq, PartialOrd, Ord, Structural)]
pub enum Error {
    AlreadyInitialized,
    NotInitialized,
    Unauthorized,
    ClaimNotFound,
    PolicyNotActive,
    AlreadyClaimed,
    AlreadyProcessed,
    InvalidAddress,
    Paused,
    PolicyExpired,
    InvalidVersion,
    NotGuardian,
    AlreadyApprovedAction,
    NoPendingUpgrade,
    InvalidThreshold,
    AdminTimelockNotExpired,
    NotEscalatable,
    InvalidThresholdValue,
    /// The window after the end of the policy in which a claim can still be
    /// submitted is over.
    ClaimDeadlinePassed,
    /// The payout delay of the claim is not over.
    PayoutDelayNotElapsed,
    /// The claim's category asks for a verified identity.
    IdentityVerificationRequired,
    InvalidInput,
    /// The fraud detector flagged the submission and is set to block.
    FraudSuspected,
    /// An admin transfer was proposed while another one is still pending,
    /// which would reset the transfer timelock.
    AdminTransferPending,
}

impl Error {
    /// The number by which callers on the ledger know the error.
    pub open spec fn code_spec(self) -> u32 {
        match self {
            Error::AlreadyInitialized => 1,
            Error::NotInitialized => 2,
            Error::Unauthorized => 3,
            Error::ClaimNotFound => 4,
            Error::PolicyNotActive => 5,
            Error::AlreadyClaimed => 6,
            Error::AlreadyProcessed => 7,
            Error::InvalidAddress => 8,
            Error::Paused => 9,
            Error::PolicyExpired => 10,
            Error::InvalidVersion => 11,
            Error::NotGuardian => 12,
            Error::AlreadyApprovedAction => 13,
            Error::NoPendingUpgrade => 14,
            Error::InvalidThreshold => 15,
            Error::AdminTimelockNotExpired => 16,
            Error::NotEscalatable => 17,
            Error::InvalidThresholdValue => 18,
            Error::ClaimDeadlinePassed => 19,
            Error::PayoutDelayNotElapsed => 20,
            Error::IdentityVerificationRequired => 21,
            Error::InvalidInput => 22,
            Error::FraudSuspected => 23,
            Error::AdminTransferPending => 24,
        }
    }

    /// The number by which callers on the ledger know the error.
    pub fn code(self) -> (r: u32)
        ensures
            r == self.code_spec(),
    {
        match self {
            Error::AlreadyInitialized => 1,
            Error::NotInitialized => 2,
            Error::Unauthorized => 3,
            Error::ClaimNotFound => 4,
            Error::PolicyNotActive => 5,
            Error::AlreadyClaimed => 6,
            Error::AlreadyProcessed => 7,
            Error::InvalidAddress => 8,
            Error::Paused => 9,
            Error::PolicyExpired => 10,
            Error::InvalidVersion => 11,
            Error::NotGuardian => 12,
            Error::AlreadyApprovedAction => 13,
            Error::NoPendingUpgrade => 14,
            Error::InvalidThreshold => 15,
            Error::AdminTimelockNotExpired => 16,
            Error::NotEscalatable => 17,
            Error::InvalidThresholdValue => 18,
            Error::ClaimDeadlinePassed => 19,
            Error::PayoutDelayNotElapsed => 20,
            Error::IdentityVerificationRequired => 21,
            Error::InvalidInput => 22,
            Error::FraudSuspected => 23,
            Error::AdminTransferPending => 24,
        }
    }
}

/// What the processor announces.
#[derive(Debug, PartialEq, Eq)]
pub enum Event {
    Initialized(Initialized),
    KeeperAdded { keeper: Addr },
    KeeperRemoved { keeper: Addr },
    ClaimSubmitted(ClaimSubmitted),
    BatchClaimsSubmitted(BatchClaimsSubmitted),
    BatchClaimsProcessed(BatchClaimsProcessed),
    ClaimDisputed(ClaimDisputed),
    ClaimResolved(ClaimResolved),
    InstallmentPayoutScheduled(InstallmentPayoutScheduled),
    InstallmentPaid(InstallmentPaid),
    Paused { admin: Addr },
    Resumed { admin: Addr },
    ContractUpgraded(ContractUpgraded),
    GuardiansUpdated { guardians: Roster, threshold: u32 },
    UpgradeApproved(UpgradeApproved),
    AdminUpdated(AdminUpdated),
    EscalationThresholdUpdated(EscalationThresholdUpdated),
    ClaimDeadlineUpdated(ClaimDeadlineUpdated),
    PayoutDelayUpdated(PayoutDelayUpdated),
    FraudConfigUpdated(FraudConfigUpdated),
    FraudFlagged(FraudFlagged),
    PayoutReleased { claim_id: u128, policy_id: u128, paid_amount: i128 },
    ClaimEscalated(ClaimEscalated),
    IdentityRequirementSet { product_id: u128, id_type: Sym },
    IdentityRequirementRemoved { product_id: u128 },
    IdentityVerified { claim_id: u128, id_type: Sym, now: u64 },
    ClaimPaid { claim_id: u128, policy_id: u128, coverage_amount: i128 },
    /// The trigger was not met.
    ClaimRejected { claim_id: u128, policy_id: u128 },
    ClaimSettled { claim_id: u128, trigger_met: bool, coverage_amount: i128 },
}

impl Event {
    /// The same announcement once more.
    pub fn copied(&self) -> (r: Event)
        ensures
            r == *self,
    {
        match self {
            Event::Initialized(e) => Event::Initialized(*e),
            Event::KeeperAdded { keeper } => Event::KeeperAdded { keeper: *keeper },
            Event::KeeperRemoved { keeper } => Event::KeeperRemoved { keeper: *keeper },
            Event::ClaimSubmitted(e) => Event::ClaimSubmitted(*e),
            Event::BatchClaimsSubmitted(e) => Event::BatchClaimsSubmitted(*e),
            Event::BatchClaimsProcessed(e) => Event::BatchClaimsProcessed(*e),
            Event::ClaimDisputed(e) => Event::ClaimDisputed(*e),
            Event::ClaimResolved(e) => Event::ClaimResolved(*e),
            Event::InstallmentPayoutScheduled(e) => Event::InstallmentPayoutScheduled(*e),
            Event::InstallmentPaid(e) => Event::InstallmentPaid(*e),
            Event::Paused { admin } => Event::Paused { admin: *admin },
            Event::Resumed { admin } => Event::Resumed { admin: *admin },
            Event::ContractUpgraded(e) => Event::ContractUpgraded(*e),
            Event::GuardiansUpdated { guardians, threshold } => Event::GuardiansUpdated { guardians: guardians.copied(), threshold: *threshold },
            Event::UpgradeApproved(e) => Event::UpgradeApproved(*e),
            Event::AdminUpdated(e) => Event::AdminUpdated(*e),
            Event::EscalationThresholdUpdated(e) => Event::EscalationThresholdUpdated(*e),
            Event::ClaimDeadlineUpdated(e) => Event::ClaimDeadlineUpdated(*e),
            Event::PayoutDelayUpdated(e) => Event::PayoutDelayUpdated(*e),
            Event::FraudConfigUpdated(e) => Event::FraudConfigUpdated(*e),
            Event::FraudFlagged(e) => Event::FraudFlagged(*e),
            Event::PayoutReleased { claim_id, policy_id, paid_amount } => Event::PayoutReleased { claim_id: *claim_id, policy_id: *policy_id, paid_amount: *paid_amount },
            Event::ClaimEscalated(e) => Event::ClaimEscalated(*e),
            Event::IdentityRequirementSet { product_id, id_type } => Event::IdentityRequirementSet { product_id: *product_id, id_type: *id_type },
            Event::IdentityRequirementRemoved { product_id } => Event::IdentityRequirementRemoved { product_id: *product_id },
            Event::IdentityVerified { claim_id, id_type, now } => Event::IdentityVerified { claim_id: *claim_id, id_type: *id_type, now: *now },
            Event::ClaimPaid { claim_id, policy_id, coverage_amount } => Event::ClaimPaid { claim_id: *claim_id, policy_id: *policy_id, coverage_amount: *coverage_amount },
            Event::ClaimRejected { claim_id, policy_id } => Event::ClaimRejected { claim_id: *claim_id, policy_id: *policy_id },
            Event::ClaimSettled { claim_id, trigger_met, coverage_amount } => Event::ClaimSettled { claim_id: *claim_id, trigger_met: *trigger_met, coverage_amount: *coverage_amount },
        }
    }
}

/// What the ledger has to do for a call of the processor to stand. A call
/// whose effects cannot all be carried out has no effect at all.
#[derive(Debug, PartialEq, Eq)]
pub enum Effect {
    /// The address must have authorised the call.
    RequireAuth(Addr),
    /// Have the policy engine pay a policy out.
    PayPolicy { policy_engine: Addr, policy_id: u128 },
    /// Have the policy engine mark a policy as expired.
    ExpirePolicy { policy_engine: Addr, policy_id: u128 },
    /// Have the risk pool release the cover of a claimed policy.
    ReleaseForClaim { risk_pool: Addr, policy_id: u128 },
    /// Have the risk pool release the cover of an expired policy.
    ReleaseForExpiry { risk_pool: Addr, policy_id: u128 },
    /// Publish an event.
    Emit(Event),
    /// Replace the processor's code.
    ReplaceCode([u8; 32]),
}

impl Effect {
    /// The same effect once more.
    pub fn copied(&self) -> (r: Effect)
        ensures
            r == *self,
    {
        match self {
            Effect::RequireAuth(x) => Effect::RequireAuth(*x),
            Effect::PayPolicy { policy_engine, policy_id } => Effect::PayPolicy {
                policy_engine: *policy_engine,
                policy_id: *policy_id,
            },
            Effect::ExpirePolicy { policy_engine, policy_id } => Effect::ExpirePolicy {
                policy_engine: *policy_engine,
                policy_id: *policy_id,
            },
            Effect::ReleaseForClaim { risk_pool, policy_id } => Effect::ReleaseForClaim {
                risk_pool: *risk_pool,
                policy_id: *policy_id,
            },
            Effect::ReleaseForExpiry { risk_pool, policy_id } => Effect::ReleaseForExpiry {
                risk_pool: *risk_pool,
                policy_id: *policy_id,
            },
            Effect::Emit(e) => Effect::Emit(e.copied()),
            Effect::ReplaceCode(x) => Effect::ReplaceCode(*x),
        }
    }
}

/// What another contract has to be asked before a request can be decided.
#[derive(Clone, Copy, Debug, PartialEq, Eq)]
pub enum Question {
    /// The policy engine's record of a policy.
    Policy { policy_engine: Addr, policy_id: u128 },
    /// Whether the oracle verifier finds the condition met by data of at most
    /// that age.
    Trigger { oracle_verifier: Addr, condition: TriggerCondition, max_age_seconds: u64 },
}

/// The answers that are known to the questions of one request.
#[derive(Clone, Copy, Debug, PartialEq, Eq)]
pub struct Reply {
    pub policy: Option<Policy>,
    pub trigger: Option<bool>,
}

/// How far a request got: to its end, or to a question of its item `item`. A
/// request that asks changes nothing; it is made again once the answer is
/// known.
#[derive(Debug, PartialEq, Eq)]
pub enum Step<T> {
    Done(T),
    Ask { item: usize, question: Question },
}

} // verus!
