//! Oracles, their submissions, and what is reported about them.

use crate::text::{Addr, Sym};
use vstd::prelude::*;

verus! {

/// Reputation score for an oracle, tracking accuracy over time.
#[derive(Clone, Copy, Debug, PartialEq, Eq)]
pub struct OracleReputation {
    pub oracle: Addr,
    pub data_type: Sym,
    /// Total number of submissions made by this oracle
    pub total_submissions: u64,
    /// Number of submissions that were accurate (within tolerance of median)
    pub accurate_submissions: u64,
    /// Reputation score 0-1000 (basis points of accuracy)
    pub score: u32,
    /// Timestamp of last reputation update
    pub last_updated: u64,
}

#[derive(Clone, Copy, Debug, PartialEq, Eq)]
pub struct ReputationUpdated {
    pub oracle: Addr,
    pub data_type: Sym,
    pub score: u32,
    pub accurate: u64,
    pub total: u64,
}

/// How multiple oracle submissions are combined into a single consensus value.
///
/// The right choice depends on the threat model for a data type. Median
/// resists a minority of outliers completely — one oracle reporting an absurd
/// value cannot move it — which is what you want for adversarial or
/// error-prone feeds. A weighted average uses every submission in proportion
/// to its registered weight, which tracks small genuine variations more
/// smoothly but lets a single extreme value drag the result. A time-weighted
/// average additionally accounts for how long each submission held before
/// being superseded, so a feed with irregular submission cadence isn't
/// skewed by a burst of readings clustered in a short window.
#[derive(Clone, Copy, Debug, PartialEq, Eq, Structural)]
pub enum AggregationMethod {
    /// Weight-aware median: the value at the middle of cumulative weight.
    /// A minority of outliers cannot move it. This is the default.
    WeightedMedian,
    /// Weighted arithmetic mean: `sum(value * weight) / sum(weight)`.
    /// Smooth, but one extreme submission moves the result.
    WeightedAverage,
    /// Unweighted arithmetic mean: every valid submission counts equally.
    /// Use when registered weights are not meaningful for this data type.
    Mean,
    /// Oracle-weight- and time-weighted average: each eligible submission
    /// is weighted by its registered oracle weight *and* by how many
    /// seconds it was the most recent reading for its oracle — from its
    /// own timestamp until the next later submission's timestamp (or
    /// "now" for the newest one). Only point-in-time values are ever
    /// submitted; this reconstructs a time-weighted average (TWAP-style)
    /// over the observation window from those snapshots, rather than
    /// treating every snapshot as equally significant regardless of how
    /// long it held.
    TimeWeightedAverage,
}

/// How the trigger threshold is compared against the observed value.
#[derive(Clone, Copy, Debug, PartialEq, Eq, Structural)]
pub enum TriggerComparison {
    /// Trigger fires when observed < threshold (drought: rainfall < 50mm)
    LessThan,
    /// Trigger fires when observed > threshold (storm: wind_speed > 120 km/h)
    GreaterThan,
    /// Trigger fires when observed == threshold (binary events)
    Equal,
    /// Matches if |median - threshold| <= tolerance
    EqualWithTolerance,
}

/// A trigger condition evaluated by the Claims Processor.
#[derive(Clone, Copy, Debug, PartialEq, Eq)]
pub struct TriggerCondition {
    /// Oracle data category: "weather", "flight", "disaster", "onchain"
    pub data_type: Sym,
    /// Specific key: "rainfall:kisumu:2026-06", "flight:KQ100:2026-06-15"
    pub key: Sym,
    /// Threshold in 7-decimal fixed point
    pub threshold: i128,
    pub comparison: TriggerComparison,
    /// The maximum acceptable absolute variance.
    /// Set to 0 if utilizing standard LessThan/GreaterThan/Equal.
    pub tolerance: i128,
}

/// Input struct for a single reading inside a bulk `submit_data_batch` call.
#[derive(Clone, Copy, Debug, PartialEq, Eq)]
pub struct OracleDataSubmission {
    /// Specific measurement key — e.g., `symbol_short!("kis2606")`
    pub key: Sym,
    /// Observed value in 7-decimal fixed point
    pub value: i128,
    /// Reliability score 0-100
    pub confidence: u32,
    /// Unix timestamp of the real-world observation
    pub timestamp: u64,
}

/// A single data submission from one oracle.
#[derive(Clone, Copy, Debug, PartialEq, Eq)]
pub struct OracleDataPoint {
    pub oracle: Addr,
    /// Observed value in 7-decimal fixed point (e.g., 32_000_000 = 32.0000000 mm)
    pub value: i128,
    /// Reliability score 0-100
    pub confidence: u32,
    /// Unix timestamp of the real-world observation
    pub timestamp: u64,
}

/// Aggregated statistics across all oracles for a key.
#[derive(Clone, Copy, Debug, PartialEq, Eq)]
pub struct AggregatedData {
    pub median_value: i128,
    /// How many stored submissions for the key come from active oracles. This
    /// is not the number of active oracles: see `active_oracle_count`.
    pub oracle_count: u32,
    /// How many oracles are registered and active for the data type, whether
    /// or not they submitted anything for the key.
    pub active_oracle_count: u32,
    /// The average confidence of those submissions, each weighted by its
    /// oracle's registered weight, rounded down.
    pub confidence: u32,
    pub min_confidence: u32,
    pub last_updated: u64,
}

/// Registered oracle record.
#[derive(Clone, Copy, Debug, PartialEq, Eq)]
pub struct OracleEntry {
    pub oracle: Addr,
    pub data_type: Sym,
    /// Relative weight in the weighted median (1-100)
    pub weight: u32,
    pub active: bool,
}

/// Summary returned by get_oracle_health for a specific oracle.
#[derive(Clone, Copy, Debug, PartialEq, Eq)]
pub struct OracleHealth {
    pub oracle: Addr,
    pub data_type: Sym,
    pub weight: u32,
    pub active: bool,
    /// Timestamp of their most recent submission, or 0 if never.
    pub last_submitted: u64,
}

#[derive(Clone, Copy, Debug, PartialEq, Eq)]
pub struct Initialized {
    pub admin: Addr,
}

#[derive(Clone, Copy, Debug, PartialEq, Eq)]
pub struct OracleAdded {
    pub oracle: Addr,
    pub data_type: Sym,
    pub weight: u32,
}

#[derive(Clone, Copy, Debug, PartialEq, Eq)]
pub struct OracleRemoved {
    pub oracle: Addr,
    pub data_type: Sym,
}

#[derive(Clone, Copy, Debug, PartialEq, Eq)]
pub struct MinConfidenceUpdated {
    pub threshold: u32,
}

#[derive(Clone, Copy, Debug, PartialEq, Eq)]
pub struct MaxDataAgeUpdated {
    pub max_age: u64,
}

#[derive(Clone, Copy, Debug, PartialEq, Eq)]
pub struct DataTypeMaxAgeUpdated {
    pub data_type: Sym,
    /// `None` is encoded as 0, meaning the override was cleared.
    pub max_age: u64,
}

#[derive(Clone, Copy, Debug, PartialEq, Eq)]
pub struct AggregationMethodUpdated {
    pub data_type: Sym,
    pub method: AggregationMethod,
}

/// Freshness report for a `(data_type, key)` pair.
///
/// Answers "can this data be used right now?" without panicking, so a caller
/// can check before committing to a claim evaluation that would otherwise
/// abort the whole transaction.
#[derive(Clone, Copy, Debug, PartialEq, Eq)]
pub struct FreshnessReport {
    pub data_type: Sym,
    pub key: Sym,
    /// True when at least `min_oracle_count` submissions are within the
    /// effective max age for this data type.
    pub is_fresh: bool,
    /// Age in seconds of the newest submission. `u64::MAX` when there are no
    /// submissions at all.
    pub newest_age: u64,
    /// Number of submissions still inside the freshness window.
    pub fresh_count: u32,
    /// Number of submissions held for this key, fresh or not.
    pub total_count: u32,
    /// The max age applied — the per-data-type override when set, else global.
    pub max_age: u64,
}

#[derive(Clone, Copy, Debug, PartialEq, Eq)]
pub struct MinOracleCountUpdated {
    pub min_count: u32,
}

#[derive(Clone, Copy, Debug, PartialEq, Eq)]
pub struct GeoWeightUpdated {
    pub oracle: Addr,
    pub data_type: Sym,
    pub region: Sym,
    pub geo_weight_bps: u32,
}

#[derive(Clone, Copy, Debug, PartialEq, Eq)]
pub struct DataTypeMinOracleCountUpdated {
    pub data_type: Sym,
    pub min_count: u32,
}

/// Per-product consensus threshold configuration.
/// Allows specifying minimum oracle agreement levels per data type/product.
#[derive(Clone, Copy, Debug, PartialEq, Eq)]
pub struct ConsensusThreshold {
    pub data_type: Sym,
    /// Minimum number of agreeing oracles required for consensus (basis points).
    /// 10000 = unanimous, 5000 = majority, etc.
    pub agreement_threshold_bps: u32,
}

#[derive(Clone, Copy, Debug, PartialEq, Eq)]
pub struct MinSubmitIntervalUpdated {
    pub seconds: u64,
}

#[derive(Clone, Copy, Debug, PartialEq, Eq)]
pub struct ConsensusThresholdUpdated {
    pub data_type: Sym,
    pub agreement_threshold_bps: u32,
}

#[derive(Clone, Copy, Debug, PartialEq, Eq)]
pub struct OracleDataSubmitted {
    pub oracle: Addr,
    pub data_type: Sym,
    pub key: Sym,
    pub value: i128,
    pub confidence: u32,
    pub timestamp: u64,
}

#[derive(Clone, Copy, Debug, PartialEq, Eq)]
pub struct AdminUpdated {
    pub new_admin: Addr,
}

#[derive(Clone, Copy, Debug, PartialEq, Eq)]
pub struct ContractUpgraded {
    pub old_version: u32,
    pub new_version: u32,
}

#[derive(Clone, Copy, Debug, PartialEq, Eq)]
pub struct StakeDeposited {
    pub oracle: Addr,
    pub data_type: Sym,
    pub amount: i128,
    pub total_stake: i128,
}

#[derive(Clone, Copy, Debug, PartialEq, Eq)]
pub struct StakeWithdrawn {
    pub oracle: Addr,
    pub data_type: Sym,
    pub amount: i128,
}

#[derive(Clone, Copy, Debug, PartialEq, Eq)]
pub struct OracleSlashed {
    pub oracle: Addr,
    pub data_type: Sym,
    pub amount: i128,
    pub remaining_stake: i128,
    pub reason: Sym,
}

#[derive(Clone, Copy, Debug, PartialEq, Eq)]
pub struct MinStakeUpdated {
    pub min_stake: i128,
}

#[derive(Clone, Copy, Debug, PartialEq, Eq)]
pub struct StakeTokenUpdated {
    pub token: Addr,
}

#[derive(Debug, PartialEq, Eq)]
pub struct GuardiansUpdated {
    pub guardians: Vec<Addr>,
    pub threshold: u32,
}

#[derive(Clone, Copy, Debug, PartialEq, Eq)]
pub struct UpgradeApproved {
    pub new_wasm_hash: [u8; 32],
    pub approver: Addr,
    pub approvals: u32,
    pub threshold: u32,
}

/// A pending contract-upgrade action awaiting guardian approvals.
#[derive(Debug, PartialEq, Eq)]
pub struct PendingUpgrade {
    pub new_wasm_hash: [u8; 32],
    pub approvals: Vec<Addr>,
}

/// A pending admin-transfer proposal awaiting guardian approvals.
#[derive(Debug, PartialEq, Eq)]
pub struct PendingAdminChange {
    pub new_admin: Addr,
    pub approvals: Vec<Addr>,
}

/// An encrypted data submission from one oracle.
///
/// `ciphertext`/`nonce` are opaque to the contract — decryption happens
/// entirely off-chain by whichever parties hold the key for this data_type.
/// Kept in a separate storage path from `OracleDataPoint` so a consumer can
/// never accidentally treat ciphertext as a usable plaintext value.
#[derive(Debug, PartialEq, Eq)]
pub struct EncryptedOracleDataPoint {
    pub oracle: Addr,
    pub ciphertext: Vec<u8>,
    /// Nonce/IV used for this submission's encryption. 12 bytes fits the
    /// common AEAD schemes (e.g. AES-GCM, ChaCha20-Poly1305) off-chain
    /// consumers are expected to use.
    pub nonce: [u8; 12],
    /// Reliability score 0-100, same meaning as on a plaintext submission.
    pub confidence: u32,
    pub timestamp: u64,
}

#[derive(Clone, Copy, Debug, PartialEq, Eq)]
pub struct EncryptionRequiredUpdated {
    pub data_type: Sym,
    pub required: bool,
}

#[derive(Clone, Copy, Debug, PartialEq, Eq)]
pub struct MaxTimestampAgeUpdated {
    pub max_timestamp_age: u64,
}

#[derive(Clone, Copy, Debug, PartialEq, Eq)]
pub struct OracleEncryptedDataSubmitted {
    pub oracle: Addr,
    pub data_type: Sym,
    pub key: Sym,
    pub confidence: u32,
    pub timestamp: u64,
}

#[derive(Clone, Copy, Debug, PartialEq, Eq)]
pub struct TimestampFutureBufferUpdated {
    pub seconds: u64,
}

/// Outlier-rejection settings applied before aggregation for a data type.
///
/// Filtering uses a MAD-based (median absolute deviation) modified
/// z-score: robust to the same kind of extreme-minority manipulation the
/// submissions themselves represent, unlike a mean/standard-deviation
/// approach whose own spread is skewed by the very outlier it is trying to
/// catch.
#[derive(Clone, Copy, Debug, PartialEq, Eq)]
pub struct OutlierConfig {
    /// Off by default — an existing data type's aggregation does not
    /// change until an admin opts it in.
    pub enabled: bool,
    /// Rejection threshold in basis points of the MAD: a submission is
    /// flagged once `|value - median| * 10_000 > threshold_bps * MAD`.
    pub threshold_bps: u32,
    /// Filtering is skipped below this many eligible submissions, and never
    /// removes enough points to leave fewer than this many behind.
    pub min_sample_size: u32,
}

/// A cross-validation rule between two oracle data types.
///
/// Ensures that submitted data for `source_type` is consistent with
/// `target_type` within `max_variance`. For example, rainfall and
/// temperature data from the same region should not diverge wildly.
#[derive(Debug, PartialEq, Eq)]
pub struct CrossValidationRule {
    pub source_type: Sym,
    pub target_type: Sym,
    /// Maximum allowed absolute variance between aggregated values (fixed-point).
    pub max_variance: i128,
    /// Description of the rule for auditability.
    pub description: Vec<u8>,
}

#[derive(Clone, Copy, Debug, PartialEq, Eq)]
pub struct OutlierConfigUpdated {
    pub data_type: Sym,
    pub enabled: bool,
    pub threshold_bps: u32,
    pub min_sample_size: u32,
}

#[derive(Clone, Copy, Debug, PartialEq, Eq)]
pub struct CrossValidationRuleAdded {
    pub source_type: Sym,
    pub target_type: Sym,
    pub max_variance: i128,
}

#[derive(Clone, Copy, Debug, PartialEq, Eq)]
pub struct CrossValidationRuleRemoved {
    pub source_type: Sym,
    pub target_type: Sym,
}

#[derive(Clone, Copy, Debug, PartialEq, Eq)]
pub struct CrossValidationFailed {
    pub source_type: Sym,
    pub source_value: i128,
    pub target_type: Sym,
    pub target_value: i128,
    pub variance: i128,
    pub max_variance: i128,
}

/// Staleness report for oracle data across all submissions for a key.
///
/// Unlike `FreshnessReport` which checks individual submissions, this
/// aggregates staleness across the entire data set to give a holistic
/// view of whether the data is safe to use for decision-making.
#[derive(Clone, Copy, Debug, PartialEq, Eq)]
pub struct StalenessReport {
    pub data_type: Sym,
    pub key: Sym,
    /// Whether the data is considered stale overall.
    pub is_stale: bool,
    /// Age in seconds of the oldest fresh submission.
    pub oldest_fresh_age: u64,
    /// Age in seconds of the newest submission.
    pub newest_age: u64,
    /// Number of submissions that are stale (older than max_age).
    pub stale_count: u32,
    /// Total submissions for this key.
    pub total_count: u32,
    /// The max age threshold used (per-type or global).
    pub max_age: u64,
    /// Percentage of submissions that are fresh (0-10000 basis points).
    pub freshness_ratio_bps: u32,
}

/// Temporal decay configuration for oracle submissions.
/// Applies exponential decay to older submissions, giving more weight to recent data.
/// Prevents stale oracles from permanently distorting aggregation as data ages.
#[derive(Clone, Copy, Debug, PartialEq, Eq)]
pub struct TemporalDecayConfig {
    pub data_type: Sym,
    /// Whether temporal decay weighting is enabled for this data type.
    pub enabled: bool,
    /// Half-life in seconds: age at which submission weight drops to 50%.
    /// For example: 86400 = 1 day, 3600 = 1 hour.
    pub half_life_seconds: u64,
    /// Minimum weight floor (basis points). Submissions never drop below this.
    /// 0 = no floor, 1000 = 10% minimum weight.
    pub min_weight_bps: u32,
    /// Maximum weight ceiling (basis points) for the newest submissions.
    /// 10000 = no ceiling, newest always get full weight.
    pub max_weight_bps: u32,
}

/// Emitted when stale oracle data is detected during submission or verification.
#[derive(Clone, Copy, Debug, PartialEq, Eq)]
pub struct StaleDataDetected {
    pub data_type: Sym,
    pub key: Sym,
    pub stale_count: u32,
    pub total_count: u32,
    pub oldest_age: u64,
    pub max_age: u64,
}

#[derive(Clone, Copy, Debug, PartialEq, Eq)]
pub struct TemporalDecayConfigUpdated {
    pub data_type: Sym,
    pub enabled: bool,
    pub half_life_seconds: u64,
    pub min_weight_bps: u32,
    pub max_weight_bps: u32,
}

#[derive(Clone, Copy, Debug, PartialEq, Eq)]
pub struct AggregatedDataWeighted {
    pub data_type: Sym,
    pub key: Sym,
    pub median_value: i128,
    /// Whether temporal decay weighting was applied.
    pub temporal_decay_applied: bool,
    /// Average age in seconds of submissions included in aggregation.
    pub average_submission_age: u64,
    /// Total decay factor applied (0-10000 basis points).
    pub decay_factor_bps: u32,
}

/// Why the verifier refuses a request.
#[derive(Clone, Copy, Debug, PartialEq, Eq, PartialOrd, Ord, Structural)]
pub enum Error {
    AlreadyInitialized,
    NotInitialized,
    Unauthorized,
    OracleNotRegistered,
    OracleAlreadyExists,
    NoDataAvailable,
    InvalidConfidence,
    InvalidWeight,
    StaleData,
    TooManyOracles,
    InvalidTimestamp,
    InvalidAddress,
    RateLimited,
    /// An admin transfer was accepted before its timelock was over.
    AdminTimelockNotExpired,
    /// A median cannot be made of less than one submission.
    InvalidMinOracleCount,
}

impl Error {
    /// The number by which callers on the ledger know the error.
    pub open spec fn code_spec(self) -> u32 {
        match self {
            Error::AlreadyInitialized => 1,
            Error::NotInitialized => 2,
            Error::Unauthorized => 3,
            Error::OracleNotRegistered => 4,
            Error::OracleAlreadyExists => 5,
            Error::NoDataAvailable => 6,
            Error::InvalidConfidence => 7,
            Error::InvalidWeight => 8,
            Error::StaleData => 9,
            Error::TooManyOracles => 10,
            Error::InvalidTimestamp => 11,
            Error::InvalidAddress => 12,
            Error::RateLimited => 13,
            Error::AdminTimelockNotExpired => 23,
            Error::InvalidMinOracleCount => 33,
        }
    }

    /// The number by which callers on the ledger know the error.
    pub fn code(self) -> (r: u32)
        ensures
            r == self.code_spec(),
    {
        match self {
            Error::AlreadyInitialized => 1,
            Error::NotInitialized => 2,
            Error::Unauthorized => 3,
            Error::OracleNotRegistered => 4,
            Error::OracleAlreadyExists => 5,
            Error::NoDataAvailable => 6,
            Error::InvalidConfidence => 7,
            Error::InvalidWeight => 8,
            Error::StaleData => 9,
            Error::TooManyOracles => 10,
            Error::InvalidTimestamp => 11,
            Error::InvalidAddress => 12,
            Error::RateLimited => 13,
            Error::AdminTimelockNotExpired => 23,
            Error::InvalidMinOracleCount => 33,
        }
    }
}

/// What the verifier announces.
#[derive(Clone, Copy, Debug, PartialEq, Eq)]
pub enum Event {
    Initialized(Initialized),
    OracleAdded(OracleAdded),
    OracleRemoved(OracleRemoved),
    MinConfidenceUpdated(MinConfidenceUpdated),
    MaxDataAgeUpdated(MaxDataAgeUpdated),
    MinOracleCountUpdated(MinOracleCountUpdated),
    OracleDataSubmitted(OracleDataSubmitted),
    VerificationResult { data_type: Sym, key: Sym, result: bool, median: i128, threshold: i128 },
    AdminUpdated(AdminUpdated),
}

/// What the ledger has to do for a call of the verifier to stand. A call whose
/// effects cannot all be carried out has no effect at all.
#[derive(Clone, Copy, Debug, PartialEq, Eq)]
pub enum Effect {
    /// The address must have authorised the call.
    RequireAuth(Addr),
    /// Publish an event.
    Emit(Event),
    /// Replace the verifier's code.
    ReplaceCode([u8; 32]),
}

} // verus!
