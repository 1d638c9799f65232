//! The processor's state as mathematics, and what each request does to it.

use crate::arith::{clamp_i128, fits_i128, greatest, least, trunc_div};
use crate::claims_processor::types::{
    AdminUpdated, BatchClaimsProcessed, BatchClaimsSubmitted, Claim, ClaimAgeInfo,
    ClaimDeadlineUpdated, ClaimDisputed, ClaimEscalated, ClaimResolved, ClaimResult, ClaimStatus,
    ClaimSubmitted, ClaimantHistory, ContractUpgraded, Effect, Error, EscalationThresholdUpdated,
    Event, FraudConfig, FraudConfigUpdated, FraudFlagged, FraudMode, FraudRecord, Initialized,
    InstallmentPaid, InstallmentPayoutScheduled, InstallmentSchedule, PayoutDelayUpdated, Question,
    Reply, Step, UpgradeApproved,
};
use crate::common::{is_address_text, or_default, timelock_end};
use crate::oracle_verifier::types::{TriggerComparison, TriggerCondition};
use crate::policy_engine::types::{Policy, PolicyStatus};
use crate::roster::roster_of;
use crate::text::{Addr, Sym};
use vstd::prelude::*;

verus! {

/// Most claims that one batch settles or submits.
pub const MAX_BATCH_SIZE: u32 = 50;

/// Seconds between two ledgers, roughly.
pub const LEDGER_SECONDS: u64 = 5;

/// How long a claim's record has to stay stored, in seconds: a year.
pub const CLAIM_RETENTION_SECONDS: u64 = 365 * 24 * 60 * 60;

/// Seconds that a claim is pending before it can be escalated, when nothing
/// else was set: seven days.
pub const DEFAULT_ESCALATION_THRESHOLD: u64 = 7 * 24 * 60 * 60;

/// Shortest escalation threshold: an hour.
pub const MIN_ESCALATION_THRESHOLD: u64 = 60 * 60;

/// Seconds after the end of a policy in which a claim can be submitted, when
/// nothing else was set: thirty days.
pub const DEFAULT_CLAIM_DEADLINE: u64 = 30 * 24 * 60 * 60;

/// Oldest oracle data that settles a claim, in seconds, when nothing else was
/// set: seven days.
pub const DEFAULT_STALENESS_THRESHOLD: u64 = 604_800;

/// Highest score that can be set as the threshold of the fraud detector.
pub const MAX_FRAUD_SCORE: u32 = 100;

/// The flag of the rule on rapid resubmission.
pub const FRAUD_FLAG_RATE: u32 = 1;

/// The flag of the rule on bursts.
pub const FRAUD_FLAG_BURST: u32 = 2;

/// The flag of the rule on coverage.
pub const FRAUD_FLAG_COVERAGE: u32 = 4;

/// An upgrade that waits for guardian approvals.
#[verifier::ext_equal]
pub struct UpgradeProposal {
    pub new_wasm_hash: [u8; 32],
    pub new_version: u32,
    pub approvals: Seq<Addr>,
}

/// An admin transfer that waits for guardian approvals.
#[verifier::ext_equal]
pub struct AdminProposal {
    pub new_admin: Addr,
    pub approvals: Seq<Addr>,
}

/// Everything the processor remembers.
#[verifier::ext_equal]
pub struct ProcessorState {
    pub initialized: bool,
    pub admin: Option<Addr>,
    pub policy_engine: Option<Addr>,
    pub risk_pool: Option<Addr>,
    pub oracle_verifier: Option<Addr>,
    pub staleness_threshold: Option<u64>,
    pub claims: Map<u128, Claim>,
    /// The claim of each policy that has one.
    pub policy_claims: Map<u128, u128>,
    pub next_claim_id: Option<u128>,
    pub pending_claims: Seq<u128>,
    pub keepers: Map<Addr, bool>,
    pub paused: bool,
    pub pending_admin: Option<Addr>,
    pub pending_admin_since: Option<u64>,
    pub pending_admin_change: Option<AdminProposal>,
    pub version: Option<u32>,
    pub guardians: Seq<Addr>,
    pub guardian_threshold: u32,
    pub pending_upgrade: Option<UpgradeProposal>,
    pub escalation_threshold: Option<u64>,
    pub claim_deadline: Option<u64>,
    pub payout_delay: u64,
    pub identity_requirements: Map<u128, Sym>,
    pub fraud_config: Option<FraudConfig>,
    pub claimant_history: Map<Addr, ClaimantHistory>,
    pub fraud_records: Map<u128, FraudRecord>,
    pub outbox: Seq<Effect>,
}

/// `a + b`, held at the end of the range.
pub open spec fn sum_u64(a: u64, b: u64) -> u64 {
    least(a + b, u64::MAX as int) as u64
}

/// `a - b`, held at zero.
pub open spec fn difference_u64(a: u64, b: u64) -> u64 {
    greatest(a - b, 0) as u64
}

/// `a + b`, held at the end of the range.
pub open spec fn sum_u32(a: u32, b: u32) -> u32 {
    least(a + b, u32::MAX as int) as u32
}

/// The oracle condition that a policy's comparison stands for.
pub open spec fn comparison_of(c: crate::policy_engine::types::TriggerComparison) -> TriggerComparison {
    match c {
        crate::policy_engine::types::TriggerComparison::LessThan => TriggerComparison::LessThan,
        crate::policy_engine::types::TriggerComparison::GreaterThan => TriggerComparison::GreaterThan,
        crate::policy_engine::types::TriggerComparison::Equal => TriggerComparison::Equal,
    }
}

/// The condition under which a policy pays.
pub open spec fn trigger_of(policy: Policy) -> TriggerCondition {
    TriggerCondition {
        data_type: policy.oracle_data_type,
        key: policy.oracle_key,
        threshold: policy.trigger_threshold,
        comparison: comparison_of(policy.trigger_comparison),
        tolerance: 0,
    }
}

/// The share of the coverage that is paid, in basis points, at most all of it.
pub open spec fn payout_bps(partial_payout_bps: Option<u32>) -> u32 {
    least(or_default(partial_payout_bps, 10_000) as int, 10_000) as u32
}

/// What is paid of a coverage.
pub open spec fn payout_of(coverage: int, bps: u32) -> int {
    if bps >= 10_000 {
        coverage
    } else {
        trunc_div(coverage * bps, 10_000)
    }
}

/// Whether what is paid of a coverage can be computed.
pub open spec fn payout_fits(coverage: int, bps: u32) -> bool {
    bps < 10_000 ==> fits_i128(coverage * bps)
}

/// Whether `part` is what is left of `whole` when some items are passed over.
pub open spec fn is_subsequence(part: Seq<u128>, whole: Seq<u128>) -> bool
    decreases whole.len(),
{
    if part.len() == 0 {
        true
    } else if whole.len() == 0 {
        false
    } else {
        is_subsequence(part, whole.drop_last()) || part.last() == whole.last() && is_subsequence(
            part.drop_last(),
            whole.drop_last(),
        )
    }
}

/// A claimant that never submitted anything.
pub open spec fn blank_history() -> ClaimantHistory {
    ClaimantHistory {
        last_submission_at: 0,
        burst_bucket_start: 0,
        burst_count: 0,
        max_coverage_ever: 0,
        total_submissions: 0,
    }
}

/// Whether the claimant submitted something shortly before.
pub open spec fn rate_rule(cfg: FraudConfig, now: u64, history: ClaimantHistory) -> bool {
    cfg.rate_window_secs > 0 && cfg.rate_score > 0 && history.last_submission_at > 0
        && difference_u64(now, history.last_submission_at) < cfg.rate_window_secs
}

/// The place of a submission in the burst that it belongs to.
pub open spec fn burst_place(cfg: FraudConfig, now: u64, history: ClaimantHistory) -> u32 {
    if history.burst_bucket_start > 0 && difference_u64(now, history.burst_bucket_start)
        < cfg.burst_window_secs {
        sum_u32(history.burst_count, 1)
    } else {
        1
    }
}

/// Whether the submission is one of too many in a short time.
pub open spec fn burst_rule(cfg: FraudConfig, now: u64, history: ClaimantHistory) -> bool {
    cfg.burst_window_secs > 0 && cfg.burst_count > 0 && cfg.burst_score > 0 && burst_place(
        cfg,
        now,
        history,
    ) >= cfg.burst_count
}

/// Whether the coverage is out of proportion to what the claimant had before.
pub open spec fn coverage_rule(cfg: FraudConfig, history: ClaimantHistory, coverage: i128) -> bool {
    cfg.coverage_anomaly_multiplier > 0 && cfg.coverage_score > 0 && history.max_coverage_ever > 0
        && coverage > clamp_i128(history.max_coverage_ever * cfg.coverage_anomaly_multiplier)
}

/// The scores of the rules that fire added up, held at the end of the range.
pub open spec fn fraud_score(
    cfg: FraudConfig,
    now: u64,
    history: ClaimantHistory,
    coverage: i128,
) -> u32 {
    least(
        (if rate_rule(cfg, now, history) {
            cfg.rate_score as int
        } else {
            0
        }) + (if burst_rule(cfg, now, history) {
            cfg.burst_score as int
        } else {
            0
        }) + (if coverage_rule(cfg, history, coverage) {
            cfg.coverage_score as int
        } else {
            0
        }),
        u32::MAX as int,
    ) as u32
}

/// The flags of the rules that fire.
pub open spec fn fraud_flags(
    cfg: FraudConfig,
    now: u64,
    history: ClaimantHistory,
    coverage: i128,
) -> u32 {
    ((if rate_rule(cfg, now, history) {
        FRAUD_FLAG_RATE as int
    } else {
        0
    }) + (if burst_rule(cfg, now, history) {
        FRAUD_FLAG_BURST as int
    } else {
        0
    }) + (if coverage_rule(cfg, history, coverage) {
        FRAUD_FLAG_COVERAGE as int
    } else {
        0
    })) as u32
}

/// The history of a claimant after one more submission. A burst window of zero
/// means that bursts are not followed.
pub open spec fn history_after(
    prev: ClaimantHistory,
    now: u64,
    coverage: i128,
    burst_window_secs: u64,
) -> ClaimantHistory {
    let continues = prev.burst_bucket_start != 0 && difference_u64(now, prev.burst_bucket_start)
        < burst_window_secs;
    ClaimantHistory {
        last_submission_at: now,
        burst_bucket_start: if burst_window_secs == 0 {
            0
        } else if continues {
            prev.burst_bucket_start
        } else {
            now
        },
        burst_count: if burst_window_secs == 0 {
            0
        } else if continues {
            sum_u32(prev.burst_count, 1)
        } else {
            1
        },
        max_coverage_ever: greatest(prev.max_coverage_ever as int, coverage as int) as i128,
        total_submissions: sum_u32(prev.total_submissions, 1),
    }
}

/// The claim that is opened for a policy.
pub open spec fn new_claim(id: u128, policy_id: u128, claimant: Addr, coverage_amount: i128, now: u64) -> Claim {
    Claim {
        id,
        policy_id,
        claimant,
        coverage_amount,
        observed_value: None,
        trigger_met: false,
        status: ClaimStatus::Pending,
        submitted_at: now,
        processed_at: None,
        dispute_reason: None,
        paid_amount: None,
        partial_payout_bps: None,
        installments: None,
        payout_ready_at: None,
        identity_verified: false,
        verification_type: None,
        verification_time: None,
    }
}

/// A claim after its trigger was evaluated.
pub open spec fn settled_claim(
    claim: Claim,
    now: u64,
    met: bool,
    bps: u32,
    payout_delay: u64,
) -> Claim {
    if met {
        Claim {
            trigger_met: true,
            processed_at: Some(now),
            status: if bps >= 10_000 {
                ClaimStatus::Paid
            } else {
                ClaimStatus::PartiallyPaid
            },
            paid_amount: Some(payout_of(claim.coverage_amount as int, bps) as i128),
            partial_payout_bps: Some(bps),
            payout_ready_at: if payout_delay > 0 {
                Some(sum_u64(now, payout_delay))
            } else {
                claim.payout_ready_at
            },
            ..claim
        }
    } else {
        Claim {
            trigger_met: false,
            processed_at: Some(now),
            status: ClaimStatus::Rejected,
            ..claim
        }
    }
}

/// What the keeper is told of a settlement.
pub open spec fn settle_result(met: bool, bps: u32) -> ClaimResult {
    if !met {
        ClaimResult::Rejected
    } else if bps >= 10_000 {
        ClaimResult::Paid
    } else {
        ClaimResult::PartiallyPaid
    }
}

/// How many installments of a schedule have fallen due.
pub open spec fn installments_due(s: InstallmentSchedule, now: u64) -> u32 {
    if now >= s.first_installment_at {
        least((now - s.first_installment_at) / s.interval_seconds as int + 1, s.num_installments as int) as u32
    } else {
        0
    }
}

/// How many ledgers a claim's record is kept for, where the network keeps
/// nothing longer than `max_ttl`.
pub open spec fn claim_ttl_of(max_ttl: u32) -> u32 {
    least((CLAIM_RETENTION_SECONDS / LEDGER_SECONDS) as int, max_ttl as int) as u32
}

/// No answers yet.
pub open spec fn no_reply() -> Reply {
    Reply { policy: None, trigger: None }
}

/// The answers for one item of a batch.
pub open spec fn reply_at(replies: Seq<Reply>, i: int) -> Reply {
    if i < replies.len() {
        replies[i]
    } else {
        no_reply()
    }
}

/// How many items of a batch are taken.
pub open spec fn batch_count(n: nat) -> nat {
    least(n as int, MAX_BATCH_SIZE as int) as nat
}

impl ProcessorState {
    /// The state before anything was stored.
    pub open spec fn fresh() -> ProcessorState {
        ProcessorState {
            initialized: false,
            admin: None,
            policy_engine: None,
            risk_pool: None,
            oracle_verifier: None,
            staleness_threshold: None,
            claims: Map::empty(),
            policy_claims: Map::empty(),
            next_claim_id: None,
            pending_claims: Seq::empty(),
            keepers: Map::empty(),
            paused: false,
            pending_admin: None,
            pending_admin_since: None,
            pending_admin_change: None,
            version: None,
            guardians: Seq::empty(),
            guardian_threshold: 0,
            pending_upgrade: None,
            escalation_threshold: None,
            claim_deadline: None,
            payout_delay: 0,
            identity_requirements: Map::empty(),
            fraud_config: None,
            claimant_history: Map::empty(),
            fraud_records: Map::empty(),
            outbox: Seq::empty(),
        }
    }

    pub open spec fn send(self, e: Effect) -> ProcessorState {
        ProcessorState { outbox: self.outbox.push(e), ..self }
    }

    pub open spec fn emit(self, e: Event) -> ProcessorState {
        self.send(Effect::Emit(e))
    }

    /// The state with a demand that `who` authorised the call.
    pub open spec fn demand(self, who: Addr) -> ProcessorState {
        self.send(Effect::RequireAuth(who))
    }

    /// Why `caller` may not act as the administrator.
    pub open spec fn admin_error(self, caller: Addr) -> Option<Error> {
        match self.admin {
            None => Some(Error::NotInitialized),
            Some(admin) => if caller == admin {
                None
            } else {
                Some(Error::Unauthorized)
            },
        }
    }

    /// Whether an address is a keeper.
    pub open spec fn is_keeper(self, keeper: Addr) -> bool {
        self.keepers.contains_key(keeper) && self.keepers[keeper]
    }

    /// Why `caller` may not settle claims now.
    pub open spec fn keeper_error(self, caller: Addr) -> Option<Error> {
        if !self.is_keeper(caller) {
            Some(Error::Unauthorized)
        } else if self.paused {
            Some(Error::Paused)
        } else {
            None
        }
    }

    /// The number that the next claim gets.
    pub open spec fn claim_counter(self) -> u128 {
        or_default(self.next_claim_id, 1)
    }

    pub open spec fn escalation_after(self) -> u64 {
        or_default(self.escalation_threshold, DEFAULT_ESCALATION_THRESHOLD)
    }

    pub open spec fn deadline(self) -> u64 {
        or_default(self.claim_deadline, DEFAULT_CLAIM_DEADLINE)
    }

    pub open spec fn staleness(self) -> u64 {
        or_default(self.staleness_threshold, DEFAULT_STALENESS_THRESHOLD)
    }

    pub open spec fn stored_version(self) -> u32 {
        or_default(self.version, 1)
    }

    pub open spec fn history_of(self, claimant: Addr) -> ClaimantHistory {
        if self.claimant_history.contains_key(claimant) {
            self.claimant_history[claimant]
        } else {
            blank_history()
        }
    }

    pub open spec fn initialize(
        self,
        admin: Addr,
        policy_engine: Addr,
        risk_pool: Addr,
        oracle_verifier: Addr,
        staleness_threshold: u64,
    ) -> Result<(ProcessorState, ()), Error> {
        if self.initialized {
            Err(Error::AlreadyInitialized)
        } else if !is_address_text(admin@) || !is_address_text(policy_engine@) || !is_address_text(
            risk_pool@,
        ) || !is_address_text(oracle_verifier@) {
            Err(Error::InvalidAddress)
        } else {
            let next = ProcessorState {
                initialized: true,
                admin: Some(admin),
                policy_engine: Some(policy_engine),
                risk_pool: Some(risk_pool),
                oracle_verifier: Some(oracle_verifier),
                staleness_threshold: Some(staleness_threshold),
                next_claim_id: Some(1),
                pending_claims: Seq::empty(),
                paused: false,
                claim_deadline: Some(DEFAULT_CLAIM_DEADLINE),
                escalation_threshold: Some(DEFAULT_ESCALATION_THRESHOLD),
                ..self
            };
            Ok((
                next.demand(admin).emit(
                    Event::Initialized(
                        Initialized {
                            admin,
                            policy_engine,
                            risk_pool,
                            oracle_verifier,
                            staleness_threshold,
                        },
                    ),
                ),
                (),
            ))
        }
    }

    pub open spec fn add_keeper(self, admin: Addr, keeper: Addr) -> Result<
        (ProcessorState, ()),
        Error,
    > {
        match self.admin_error(admin) {
            Some(e) => Err(e),
            None => Ok((
                ProcessorState { keepers: self.keepers.insert(keeper, true), ..self }.demand(
                    admin,
                ).emit(Event::KeeperAdded { keeper }),
                (),
            )),
        }
    }

    pub open spec fn remove_keeper(self, admin: Addr, keeper: Addr) -> Result<
        (ProcessorState, ()),
        Error,
    > {
        match self.admin_error(admin) {
            Some(e) => Err(e),
            None => Ok((
                ProcessorState { keepers: self.keepers.remove(keeper), ..self }.demand(admin).emit(
                    Event::KeeperRemoved { keeper },
                ),
                (),
            )),
        }
    }

    /// The state with a claim opened for a policy and put in the queue.
    pub open spec fn open_claim(self, now: u64, policy_id: u128, claimant: Addr, coverage_amount: i128) -> ProcessorState {
        let id = self.claim_counter();
        ProcessorState {
            claims: self.claims.insert(
                id,
                new_claim(id, policy_id, claimant, coverage_amount, now),
            ),
            policy_claims: self.policy_claims.insert(policy_id, id),
            pending_claims: self.pending_claims.push(id),
            next_claim_id: Some((id + 1) as u128),
            ..self
        }.emit(
            Event::ClaimSubmitted(
                ClaimSubmitted { claim_id: id, policy_id, claimant, coverage_amount },
            ),
        )
    }

    /// The fraud detector's judgement on a submission: score and flags. Without
    /// a configuration both are zero.
    pub open spec fn judge(self, now: u64, claimant: Addr, coverage: i128) -> (u32, u32) {
        match self.fraud_config {
            None => (0, 0),
            Some(cfg) => (
                fraud_score(cfg, now, self.history_of(claimant), coverage),
                fraud_flags(cfg, now, self.history_of(claimant), coverage),
            ),
        }
    }

    /// Whether the fraud detector flags a submission.
    pub open spec fn is_flagged(self, now: u64, claimant: Addr, coverage: i128) -> bool {
        self.fraud_config matches Some(cfg) && cfg.fraud_threshold_score > 0 && self.judge(
            now,
            claimant,
            coverage,
        ).0 >= cfg.fraud_threshold_score
    }

    /// The state after the fraud detector let a submission through.
    pub open spec fn fraud_noted(self, now: u64, claim_id: u128, claimant: Addr, coverage: i128) -> ProcessorState {
        if self.is_flagged(now, claimant, coverage) {
            let (score, flags) = self.judge(now, claimant, coverage);
            self.emit(
                Event::FraudFlagged(
                    FraudFlagged {
                        claim_id,
                        claimant,
                        score,
                        flags,
                        mode: self.fraud_config->0.mode,
                    },
                ),
            ).with_record(FraudRecord { claim_id, score, flags, checked_at: now })
        } else {
            self
        }
    }

    pub open spec fn with_record(self, record: FraudRecord) -> ProcessorState {
        ProcessorState { fraud_records: self.fraud_records.insert(record.claim_id, record), ..self }
    }

    /// The state with one more submission in the claimant's history.
    pub open spec fn remembered(self, now: u64, claimant: Addr, coverage: i128) -> ProcessorState {
        let window = match self.fraud_config {
            Some(cfg) => cfg.burst_window_secs,
            None => 0,
        };
        ProcessorState {
            claimant_history: self.claimant_history.insert(
                claimant,
                history_after(self.history_of(claimant), now, coverage, window),
            ),
            ..self
        }
    }

    /// Why a submission is refused, given the policy.
    pub open spec fn submit_error(self, now: u64, claimant: Addr, policy: Policy) -> Option<Error> {
        if policy.policyholder != claimant {
            Some(Error::Unauthorized)
        } else if policy.status != PolicyStatus::Active {
            Some(Error::PolicyNotActive)
        } else if policy.end_time > 0 && now > sum_u64(policy.end_time, self.deadline()) {
            Some(Error::ClaimDeadlinePassed)
        } else if self.is_flagged(now, claimant, policy.coverage_amount)
            && self.fraud_config->0.mode == FraudMode::Block {
            Some(Error::FraudSuspected)
        } else {
            None
        }
    }

    /// A submission by a claimant whose authorisation is already demanded.
    pub open spec fn submit_inner(
        self,
        now: u64,
        claimant: Addr,
        policy_id: u128,
        policy: Option<Policy>,
        item: usize,
    ) -> Result<(ProcessorState, Step<u128>), Error> {
        if self.policy_claims.contains_key(policy_id) {
            Err(Error::AlreadyClaimed)
        } else {
            match (self.policy_engine, policy) {
                (None, _) => Err(Error::NotInitialized),
                (Some(policy_engine), None) => Ok((
                    self,
                    Step::Ask { item, question: Question::Policy { policy_engine, policy_id } },
                )),
                (Some(_), Some(policy)) => match self.submit_error(now, claimant, policy) {
                    Some(e) => Err(e),
                    None => {
                        let id = self.claim_counter();
                        let coverage = policy.coverage_amount;
                        Ok((
                            self.fraud_noted(now, id, claimant, coverage).open_claim(
                                now,
                                policy_id,
                                claimant,
                                coverage,
                            ).remembered(now, claimant, coverage),
                            Step::Done(id),
                        ))
                    },
                },
            }
        }
    }

    pub open spec fn submit_claim(self, now: u64, claimant: Addr, policy_id: u128, reply: Reply) -> Result<
        (ProcessorState, Step<u128>),
        Error,
    > {
        if self.paused {
            Err(Error::Paused)
        } else {
            match self.demand(claimant).submit_inner(now, claimant, policy_id, reply.policy, 0) {
                Err(e) => Err(e),
                Ok((s, Step::Done(id))) => Ok((s, Step::Done(id))),
                Ok((_, Step::Ask { item, question })) => Ok((self, Step::Ask { item, question })),
            }
        }
    }

    /// The first `n` submissions of a batch.
    pub open spec fn submit_items(
        self,
        now: u64,
        claimant: Addr,
        policy_ids: Seq<u128>,
        replies: Seq<Reply>,
        n: nat,
    ) -> Result<(ProcessorState, Step<Seq<u128>>), Error>
        decreases n,
    {
        if n == 0 {
            Ok((self, Step::Done(Seq::empty())))
        } else {
            match self.submit_items(now, claimant, policy_ids, replies, (n - 1) as nat) {
                Err(e) => Err(e),
                Ok((s, Step::Ask { item, question })) => Ok((s, Step::Ask { item, question })),
                Ok((s, Step::Done(ids))) => match s.submit_inner(
                    now,
                    claimant,
                    policy_ids[n - 1],
                    reply_at(replies, n - 1).policy,
                    (n - 1) as usize,
                ) {
                    Err(e) => Err(e),
                    Ok((t, Step::Ask { item, question })) => Ok((t, Step::Ask { item, question })),
                    Ok((t, Step::Done(id))) => Ok((t, Step::Done(ids.push(id)))),
                },
            }
        }
    }

    pub open spec fn batch_submit_claims(
        self,
        now: u64,
        claimant: Addr,
        policy_ids: Seq<u128>,
        replies: Seq<Reply>,
    ) -> Result<(ProcessorState, Step<Seq<u128>>), Error> {
        if self.paused {
            Err(Error::Paused)
        } else {
            let count = batch_count(policy_ids.len());
            match self.demand(claimant).submit_items(now, claimant, policy_ids, replies, count) {
                Err(e) => Err(e),
                Ok((_, Step::Ask { item, question })) => Ok((self, Step::Ask { item, question })),
                Ok((s, Step::Done(ids))) => Ok((
                    s.emit(
                        Event::BatchClaimsSubmitted(
                            BatchClaimsSubmitted { claimant, count: count as u32 },
                        ),
                    ),
                    Step::Done(ids),
                )),
            }
        }
    }

    /// Whether claims can be settled at all.
    pub open spec fn is_wired(self) -> bool {
        self.oracle_verifier is Some && self.policy_engine is Some && self.risk_pool is Some
    }

    /// The question that decides whether a policy pays.
    pub open spec fn trigger_question(self, policy: Policy) -> Question {
        Question::Trigger {
            oracle_verifier: self.oracle_verifier->0,
            condition: trigger_of(policy),
            max_age_seconds: self.staleness(),
        }
    }

    /// The state with the effects of a payout.
    pub open spec fn pay_out(self, policy_id: u128) -> ProcessorState {
        self.send(
            Effect::PayPolicy { policy_engine: self.policy_engine->0, policy_id },
        ).send(Effect::ReleaseForClaim { risk_pool: self.risk_pool->0, policy_id })
    }

    /// The state with a claim out of the queue.
    pub open spec fn dequeued(self, claim_id: u128) -> ProcessorState {
        ProcessorState { pending_claims: self.pending_claims.remove_value(claim_id), ..self }
    }

    pub open spec fn with_claim(self, claim_id: u128, claim: Claim) -> ProcessorState {
        ProcessorState { claims: self.claims.insert(claim_id, claim), ..self }
    }

    /// The state once a claim is settled: paid, at once or after the payout
    /// delay, where the trigger was met, and rejected where it was not.
    pub open spec fn settled(self, now: u64, claim: Claim, met: bool, bps: u32) -> ProcessorState {
        let paid = if met && self.payout_delay == 0 {
            self.pay_out(claim.policy_id)
        } else {
            self
        };
        paid.with_claim(claim.id, settled_claim(claim, now, met, bps, self.payout_delay)).dequeued(
            claim.id,
        ).emit(
            if met {
                Event::ClaimPaid {
                    claim_id: claim.id,
                    policy_id: claim.policy_id,
                    coverage_amount: claim.coverage_amount,
                }
            } else {
                Event::ClaimRejected { claim_id: claim.id, policy_id: claim.policy_id }
            },
        ).emit(
            Event::ClaimSettled {
                claim_id: claim.id,
                trigger_met: met,
                coverage_amount: claim.coverage_amount,
            },
        )
    }

    /// Whether a claim on a policy waits for the claimant's identity to be
    /// verified.
    pub open spec fn lacks_identity(self, claim: Claim, policy: Policy) -> bool {
        !claim.identity_verified && self.identity_requirements.contains_key(policy.product_id)
    }

    /// The evaluation of a pending claim. One whose trigger is not met is
    /// rejected; one whose trigger is met is paid, unless an identity is missing.
    pub open spec fn evaluate_and_settle(
        self,
        now: u64,
        claim: Claim,
        policy: Policy,
        partial_payout_bps: Option<u32>,
        trigger: Option<bool>,
        item: usize,
    ) -> Result<(ProcessorState, Step<ClaimResult>), Error> {
        if claim.status != ClaimStatus::Pending {
            Err(Error::AlreadyProcessed)
        } else if !self.is_wired() {
            Err(Error::NotInitialized)
        } else {
            match trigger {
                None => Ok((self, Step::Ask { item, question: self.trigger_question(policy) })),
                Some(met) => if met && self.lacks_identity(claim, policy) {
                    Err(Error::IdentityVerificationRequired)
                } else {
                    Ok((
                        self.settled(now, claim, met, payout_bps(partial_payout_bps)),
                        Step::Done(settle_result(met, payout_bps(partial_payout_bps))),
                    ))
                },
            }
        }
    }

    /// The processing of a claim for a keeper whose authorisation is already
    /// demanded.
    pub open spec fn process_inner(
        self,
        now: u64,
        claim_id: u128,
        partial_payout_bps: Option<u32>,
        reply: Reply,
        item: usize,
    ) -> Result<(ProcessorState, Step<ClaimResult>), Error> {
        if !self.claims.contains_key(claim_id) {
            Err(Error::ClaimNotFound)
        } else {
            let claim = self.claims[claim_id];
            if claim.status != ClaimStatus::Pending {
                Ok((self, Step::Done(ClaimResult::AlreadyProcessed)))
            } else {
                match (self.policy_engine, reply.policy) {
                    (None, _) => Err(Error::NotInitialized),
                    (Some(policy_engine), None) => Ok((
                        self,
                        Step::Ask {
                            item,
                            question: Question::Policy {
                                policy_engine,
                                policy_id: claim.policy_id,
                            },
                        },
                    )),
                    (Some(_), Some(policy)) => self.evaluate_and_settle(
                        now,
                        claim,
                        policy,
                        partial_payout_bps,
                        reply.trigger,
                        item,
                    ),
                }
            }
        }
    }

    /// Whether a claim is paid on these answers, once its turn comes.
    pub open spec fn pays_on(self, claim: Claim, reply: Reply) -> bool {
        reply.trigger == Some(true) && (reply.policy matches Some(policy) && !self.lacks_identity(
            claim,
            policy,
        ))
    }

    /// Whether what a claim would be paid can be computed.
    pub open spec fn claim_fits(self, claim_id: u128, bps: Option<u32>, reply: Reply) -> bool {
        self.claims.contains_key(claim_id) && self.claims[claim_id].status == ClaimStatus::Pending
            && self.pays_on(self.claims[claim_id], reply) ==> payout_fits(
            self.claims[claim_id].coverage_amount as int,
            payout_bps(bps),
        )
    }

    pub open spec fn process_claim(
        self,
        now: u64,
        keeper: Addr,
        claim_id: u128,
        partial_payout_bps: Option<u32>,
        reply: Reply,
    ) -> Result<(ProcessorState, Step<ClaimResult>), Error> {
        match self.keeper_error(keeper) {
            Some(e) => Err(e),
            None => match self.demand(keeper).process_inner(
                now,
                claim_id,
                partial_payout_bps,
                reply,
                0,
            ) {
                Err(e) => Err(e),
                Ok((_, Step::Ask { item, question })) => Ok((self, Step::Ask { item, question })),
                Ok((s, Step::Done(result))) => Ok((s, Step::Done(result))),
            },
        }
    }

    /// The first `n` claims of a batch processed.
    pub open spec fn process_items(
        self,
        now: u64,
        claim_ids: Seq<u128>,
        partial_payout_bps: Option<u32>,
        replies: Seq<Reply>,
        n: nat,
    ) -> Result<(ProcessorState, Step<Seq<(u128, ClaimResult)>>), Error>
        decreases n,
    {
        if n == 0 {
            Ok((self, Step::Done(Seq::empty())))
        } else {
            match self.process_items(now, claim_ids, partial_payout_bps, replies, (n - 1) as nat) {
                Err(e) => Err(e),
                Ok((s, Step::Ask { item, question })) => Ok((s, Step::Ask { item, question })),
                Ok((s, Step::Done(results))) => match s.process_inner(
                    now,
                    claim_ids[n - 1],
                    partial_payout_bps,
                    reply_at(replies, n - 1),
                    (n - 1) as usize,
                ) {
                    Err(e) => Err(e),
                    Ok((t, Step::Ask { item, question })) => Ok((t, Step::Ask { item, question })),
                    Ok((t, Step::Done(result))) => Ok((
                        t,
                        Step::Done(results.push((claim_ids[n - 1], result))),
                    )),
                },
            }
        }
    }

    pub open spec fn batch_process_claims(
        self,
        now: u64,
        keeper: Addr,
        claim_ids: Seq<u128>,
        partial_payout_bps: Option<u32>,
        replies: Seq<Reply>,
    ) -> Result<(ProcessorState, Step<Seq<(u128, ClaimResult)>>), Error> {
        match self.keeper_error(keeper) {
            Some(e) => Err(e),
            None => {
                let count = batch_count(claim_ids.len());
                match self.demand(keeper).process_items(
                    now,
                    claim_ids,
                    partial_payout_bps,
                    replies,
                    count,
                ) {
                    Err(e) => Err(e),
                    Ok((_, Step::Ask { item, question })) => Ok((
                        self,
                        Step::Ask { item, question },
                    )),
                    Ok((s, Step::Done(results))) => Ok((
                        s.emit(
                            Event::BatchClaimsProcessed(
                                BatchClaimsProcessed { keeper, count: count as u32 },
                            ),
                        ),
                        Step::Done(results),
                    )),
                }
            },
        }
    }

    /// Whether a policy's claim was already decided or taken out of the
    /// automatic path.
    pub open spec fn is_processed(self, policy_id: u128) -> bool {
        self.policy_claims.contains_key(policy_id) && self.claims.contains_key(
            self.policy_claims[policy_id],
        ) && self.claims[self.policy_claims[policy_id]].status != ClaimStatus::Pending
    }

    /// The state in which a policy has a claim.
    pub open spec fn with_open_claim(self, now: u64, policy_id: u128, policy: Policy) -> ProcessorState {
        if self.policy_claims.contains_key(policy_id) {
            self
        } else {
            self.open_claim(now, policy_id, policy.policyholder, policy.coverage_amount)
        }
    }

    /// The automatic processing of a policy that is active and not over.
    pub open spec fn auto_settle(
        self,
        now: u64,
        policy_id: u128,
        policy: Policy,
        partial_payout_bps: Option<u32>,
        trigger: Option<bool>,
    ) -> Result<(ProcessorState, Step<ClaimResult>), Error> {
        let opened = self.with_open_claim(now, policy_id, policy);
        opened.evaluate_and_settle(
            now,
            opened.claims[opened.policy_claims[policy_id]],
            policy,
            partial_payout_bps,
            trigger,
            0,
        )
    }

    pub open spec fn auto_process(
        self,
        now: u64,
        keeper: Addr,
        policy_id: u128,
        partial_payout_bps: Option<u32>,
        reply: Reply,
    ) -> Result<(ProcessorState, Step<ClaimResult>), Error> {
        match self.keeper_error(keeper) {
            Some(e) => Err(e),
            None => {
                let asked = self.demand(keeper);
                if self.is_processed(policy_id) {
                    Ok((asked, Step::Done(ClaimResult::AlreadyProcessed)))
                } else {
                    match (self.policy_engine, reply.policy) {
                        (None, _) => Err(Error::NotInitialized),
                        (Some(policy_engine), None) => Ok((
                            self,
                            Step::Ask {
                                item: 0,
                                question: Question::Policy { policy_engine, policy_id },
                            },
                        )),
                        (Some(policy_engine), Some(policy)) => match policy.status {
                            PolicyStatus::Claimed => Ok((
                                asked,
                                Step::Done(ClaimResult::AlreadyClaimed),
                            )),
                            PolicyStatus::Expired => Ok((asked, Step::Done(ClaimResult::Expired))),
                            PolicyStatus::Cancelled => Ok((
                                asked,
                                Step::Done(ClaimResult::PolicyNotActive),
                            )),
                            PolicyStatus::Active => if now >= policy.end_time {
                                match self.risk_pool {
                                    None => Err(Error::NotInitialized),
                                    Some(risk_pool) => Ok((
                                        asked.send(
                                            Effect::ExpirePolicy { policy_engine, policy_id },
                                        ).send(Effect::ReleaseForExpiry { risk_pool, policy_id }),
                                        Step::Done(ClaimResult::Expired),
                                    )),
                                }
                            } else {
                                match asked.auto_settle(
                                    now,
                                    policy_id,
                                    policy,
                                    partial_payout_bps,
                                    reply.trigger,
                                ) {
                                    Err(e) => Err(e),
                                    Ok((_, Step::Ask { item, question })) => Ok((
                                        self,
                                        Step::Ask { item, question },
                                    )),
                                    Ok((s, Step::Done(result))) => Ok((s, Step::Done(result))),
                                }
                            },
                        },
                    }
                }
            },
        }
    }

    /// Whether the claim that automatic processing settles can be paid in the
    /// processor's arithmetic.
    pub open spec fn auto_fits(self, policy_id: u128, bps: Option<u32>, reply: Reply) -> bool {
        if self.policy_claims.contains_key(policy_id) {
            self.claim_fits(self.policy_claims[policy_id], bps, reply)
        } else {
            reply.trigger == Some(true) && (reply.policy matches Some(policy)
                && !self.identity_requirements.contains_key(policy.product_id)) ==> payout_fits(
                reply.policy->0.coverage_amount as int,
                payout_bps(bps),
            )
        }
    }

    /// The claims that one automatic batch looks at.
    pub open spec fn batch_queue(self, limit: u32) -> Seq<u128> {
        self.pending_claims.take(
            least(
                least(limit as int, MAX_BATCH_SIZE as int),
                self.pending_claims.len() as int,
            ),
        )
    }

    /// Whether an automatic batch attempts a claim.
    pub open spec fn is_candidate(self, claim_id: u128) -> bool {
        self.claims.contains_key(claim_id) && self.claims[claim_id].status == ClaimStatus::Pending
            && self.claims[claim_id].processed_at is None
    }

    pub open spec fn dispute_claim(self, claimant: Addr, claim_id: u128, reason: Sym) -> Result<
        (ProcessorState, ()),
        Error,
    > {
        if !self.claims.contains_key(claim_id) {
            Err(Error::ClaimNotFound)
        } else {
            let claim = self.claims[claim_id];
            if claim.claimant != claimant {
                Err(Error::Unauthorized)
            } else if claim.status != ClaimStatus::Pending && claim.status != ClaimStatus::Rejected
                && claim.status != ClaimStatus::PartiallyPaid {
                Err(Error::AlreadyProcessed)
            } else {
                Ok((
                    self.demand(claimant).with_claim(
                        claim_id,
                        Claim {
                            status: ClaimStatus::Disputed,
                            dispute_reason: Some(reason),
                            ..claim
                        },
                    ).dequeued(claim_id).emit(
                        Event::ClaimDisputed(ClaimDisputed { claim_id, claimant, reason }),
                    ),
                    (),
                ))
            }
        }
    }

    pub open spec fn resolve_dispute(self, admin: Addr, claim_id: u128) -> Result<
        (ProcessorState, ()),
        Error,
    > {
        match self.admin_error(admin) {
            Some(e) => Err(e),
            None => if !self.claims.contains_key(claim_id) {
                Err(Error::ClaimNotFound)
            } else if self.claims[claim_id].status != ClaimStatus::Disputed {
                Err(Error::AlreadyProcessed)
            } else {
                let claim = self.claims[claim_id];
                let reopened = self.demand(admin).with_claim(
                    claim_id,
                    Claim { status: ClaimStatus::Pending, dispute_reason: None, ..claim },
                );
                Ok((
                    ProcessorState {
                        pending_claims: self.pending_claims.push(claim_id),
                        ..reopened
                    }.emit(Event::ClaimResolved(ClaimResolved { claim_id, resolver: admin })),
                    (),
                ))
            },
        }
    }

    pub open spec fn schedule_installments(
        self,
        now: u64,
        caller: Addr,
        claim_id: u128,
        amount_per_installment: i128,
        num_installments: u32,
        interval_seconds: u64,
    ) -> Result<(ProcessorState, ()), Error> {
        match self.keeper_error(caller) {
            Some(e) => Err(e),
            None => if !self.claims.contains_key(claim_id) {
                Err(Error::ClaimNotFound)
            } else {
                let claim = self.claims[claim_id];
                let total_amount = clamp_i128(amount_per_installment * num_installments) as i128;
                let first_installment_at = sum_u64(now, interval_seconds);
                if claim.status != ClaimStatus::Paid && claim.status != ClaimStatus::PartiallyPaid {
                    Err(Error::InvalidInput)
                } else if total_amount > claim.coverage_amount {
                    Err(Error::InvalidInput)
                } else {
                    Ok((
                        self.demand(caller).with_claim(
                            claim_id,
                            Claim {
                                installments: Some(
                                    InstallmentSchedule {
                                        total_amount,
                                        amount_per_installment,
                                        num_installments,
                                        interval_seconds,
                                        first_installment_at,
                                        paid_count: 0,
                                    },
                                ),
                                ..claim
                            },
                        ).emit(
                            Event::InstallmentPayoutScheduled(
                                InstallmentPayoutScheduled {
                                    claim_id,
                                    policy_id: claim.policy_id,
                                    claimant: claim.claimant,
                                    total_amount,
                                    num_installments,
                                    interval_seconds,
                                    first_installment_at,
                                },
                            ),
                        ),
                        (),
                    ))
                }
            },
        }
    }

    /// Whether the installments that a claimant asks for can be counted, where
    /// nothing speaks against the request before that.
    pub open spec fn interval_ok(self, now: u64, claimant: Addr, claim_id: u128) -> bool {
        !self.paused && self.claims.contains_key(claim_id) && self.claims[claim_id].claimant
            == claimant ==> match self.claims[claim_id].installments {
            Some(s) => s.paid_count < s.num_installments && now >= s.first_installment_at
                ==> s.interval_seconds > 0,
            None => true,
        }
    }

    pub open spec fn claim_installment(self, now: u64, claimant: Addr, claim_id: u128) -> Result<
        (ProcessorState, i128),
        Error,
    > {
        if self.paused {
            Err(Error::Paused)
        } else if !self.claims.contains_key(claim_id) {
            Err(Error::ClaimNotFound)
        } else {
            let claim = self.claims[claim_id];
            if claim.claimant != claimant {
                Err(Error::Unauthorized)
            } else {
                match claim.installments {
                    None => Err(Error::InvalidInput),
                    Some(s) => if s.paid_count >= s.num_installments {
                        Err(Error::InvalidInput)
                    } else if installments_due(s, now) <= s.paid_count {
                        Err(Error::InvalidInput)
                    } else {
                        let due = installments_due(s, now);
                        let amount = clamp_i128(
                            s.amount_per_installment * (due - s.paid_count),
                        ) as i128;
                        match self.risk_pool {
                            None => Err(Error::NotInitialized),
                            Some(risk_pool) => Ok((
                                self.demand(claimant).send(
                                    Effect::ReleaseForClaim {
                                        risk_pool,
                                        policy_id: claim.policy_id,
                                    },
                                ).with_claim(
                                    claim_id,
                                    Claim {
                                        installments: Some(
                                            InstallmentSchedule { paid_count: due, ..s },
                                        ),
                                        ..claim
                                    },
                                ).emit(
                                    Event::InstallmentPaid(
                                        InstallmentPaid {
                                            claim_id,
                                            claimant,
                                            amount,
                                            paid_count: due,
                                            total_installments: s.num_installments,
                                        },
                                    ),
                                ),
                                amount,
                            )),
                        }
                    },
                }
            }
        }
    }

    pub open spec fn set_paused(self, admin: Addr, paused: bool) -> Result<
        (ProcessorState, ()),
        Error,
    > {
        match self.admin_error(admin) {
            Some(e) => Err(e),
            None => Ok((
                ProcessorState { paused, ..self }.demand(admin).emit(
                    if paused {
                        Event::Paused { admin }
                    } else {
                        Event::Resumed { admin }
                    },
                ),
                (),
            )),
        }
    }

    /// The state after the code was replaced.
    pub open spec fn upgraded(self, new_wasm_hash: [u8; 32], new_version: u32) -> ProcessorState {
        ProcessorState { version: Some(new_version), ..self }.send(
            Effect::ReplaceCode(new_wasm_hash),
        ).emit(
            Event::ContractUpgraded(
                ContractUpgraded { old_version: self.stored_version(), new_version },
            ),
        )
    }

    pub open spec fn upgrade(self, admin: Addr, new_wasm_hash: [u8; 32], new_version: u32) -> Result<
        (ProcessorState, ()),
        Error,
    > {
        match self.admin_error(admin) {
            Some(e) => Err(e),
            None => if new_version <= self.stored_version() {
                Err(Error::InvalidVersion)
            } else if self.guardian_threshold == 0 {
                Ok((self.demand(admin).upgraded(new_wasm_hash, new_version), ()))
            } else {
                Ok((
                    ProcessorState {
                        pending_upgrade: Some(
                            UpgradeProposal { new_wasm_hash, new_version, approvals: Seq::empty() },
                        ),
                        ..self
                    }.demand(admin),
                    (),
                ))
            },
        }
    }

    pub open spec fn set_guardians(self, admin: Addr, guardians: Seq<Addr>, threshold: u32) -> Result<
        (ProcessorState, ()),
        Error,
    > {
        match self.admin_error(admin) {
            Some(e) => Err(e),
            None => if threshold > guardians.len() {
                Err(Error::InvalidThreshold)
            } else {
                Ok((
                    ProcessorState { guardians, guardian_threshold: threshold, ..self }.demand(
                        admin,
                    ).emit(Event::GuardiansUpdated { guardians: roster_of(guardians), threshold }),
                    (),
                ))
            },
        }
    }

    pub open spec fn approve_upgrade(self, guardian: Addr, new_wasm_hash: [u8; 32]) -> Result<
        (ProcessorState, ()),
        Error,
    > {
        if !self.guardians.contains(guardian) {
            Err(Error::NotGuardian)
        } else {
            match self.pending_upgrade {
                None => Err(Error::NoPendingUpgrade),
                Some(p) => if p.new_wasm_hash != new_wasm_hash {
                    Err(Error::NoPendingUpgrade)
                } else if p.approvals.contains(guardian) {
                    Err(Error::AlreadyApprovedAction)
                } else {
                    let approvals = p.approvals.push(guardian);
                    let asked = self.demand(guardian).emit(
                        Event::UpgradeApproved(
                            UpgradeApproved {
                                new_wasm_hash,
                                approver: guardian,
                                approvals: approvals.len() as u32,
                                threshold: self.guardian_threshold,
                            },
                        ),
                    );
                    Ok((
                        if approvals.len() >= self.guardian_threshold {
                            ProcessorState { pending_upgrade: None, ..asked }.upgraded(
                                new_wasm_hash,
                                p.new_version,
                            )
                        } else {
                            ProcessorState {
                                pending_upgrade: Some(UpgradeProposal { approvals, ..p }),
                                ..asked
                            }
                        },
                        (),
                    ))
                },
            }
        }
    }

    pub open spec fn cancel_pending_upgrade(self, admin: Addr) -> Result<
        (ProcessorState, ()),
        Error,
    > {
        match self.admin_error(admin) {
            Some(e) => Err(e),
            None => if self.pending_upgrade is None {
                Err(Error::NoPendingUpgrade)
            } else {
                Ok((ProcessorState { pending_upgrade: None, ..self }.demand(admin), ()))
            },
        }
    }

    pub open spec fn propose_new_admin(self, now: u64, admin: Addr, new_admin: Addr) -> Result<
        (ProcessorState, ()),
        Error,
    > {
        match self.admin_error(admin) {
            Some(e) => Err(e),
            None => if !is_address_text(new_admin@) {
                Err(Error::InvalidAddress)
            } else if self.pending_admin is Some {
                Err(Error::AdminTransferPending)
            } else if self.guardian_threshold == 0 {
                Ok((
                    ProcessorState {
                        pending_admin: Some(new_admin),
                        pending_admin_since: Some(now),
                        ..self
                    }.demand(admin),
                    (),
                ))
            } else {
                Ok((
                    ProcessorState {
                        pending_admin_change: Some(
                            AdminProposal { new_admin, approvals: Seq::empty() },
                        ),
                        ..self
                    }.demand(admin),
                    (),
                ))
            },
        }
    }

    pub open spec fn approve_admin_change(self, now: u64, guardian: Addr, new_admin: Addr) -> Result<
        (ProcessorState, ()),
        Error,
    > {
        if !self.guardians.contains(guardian) {
            Err(Error::NotGuardian)
        } else {
            match self.pending_admin_change {
                None => Err(Error::NoPendingUpgrade),
                Some(p) => if p.new_admin != new_admin {
                    Err(Error::NoPendingUpgrade)
                } else if p.approvals.contains(guardian) {
                    Err(Error::AlreadyApprovedAction)
                } else {
                    let approvals = p.approvals.push(guardian);
                    let asked = self.demand(guardian);
                    Ok((
                        if approvals.len() >= self.guardian_threshold {
                            ProcessorState {
                                pending_admin_change: None,
                                pending_admin: Some(new_admin),
                                pending_admin_since: Some(
                                    or_default(self.pending_admin_since, now),
                                ),
                                ..asked
                            }
                        } else {
                            ProcessorState {
                                pending_admin_change: Some(AdminProposal { approvals, ..p }),
                                ..asked
                            }
                        },
                        (),
                    ))
                },
            }
        }
    }

    pub open spec fn accept_admin(self, now: u64, admin: Addr) -> Result<
        (ProcessorState, ()),
        Error,
    > {
        if self.pending_admin != Some(admin) {
            Err(Error::Unauthorized)
        } else if now < timelock_end(or_default(self.pending_admin_since, 0)) {
            Err(Error::AdminTimelockNotExpired)
        } else {
            Ok((
                ProcessorState {
                    admin: Some(admin),
                    pending_admin: None,
                    pending_admin_since: None,
                    ..self
                }.demand(admin).emit(Event::AdminUpdated(AdminUpdated { new_admin: admin })),
                (),
            ))
        }
    }

    pub open spec fn set_escalation_threshold(self, admin: Addr, threshold: u64) -> Result<
        (ProcessorState, ()),
        Error,
    > {
        match self.admin_error(admin) {
            Some(e) => Err(e),
            None => if threshold < MIN_ESCALATION_THRESHOLD {
                Err(Error::InvalidThresholdValue)
            } else {
                Ok((
                    ProcessorState { escalation_threshold: Some(threshold), ..self }.demand(
                        admin,
                    ).emit(
                        Event::EscalationThresholdUpdated(EscalationThresholdUpdated { threshold }),
                    ),
                    (),
                ))
            },
        }
    }

    pub open spec fn set_claim_deadline(self, admin: Addr, deadline: u64) -> Result<
        (ProcessorState, ()),
        Error,
    > {
        match self.admin_error(admin) {
            Some(e) => Err(e),
            None => if deadline != 0 && deadline < MIN_ESCALATION_THRESHOLD {
                Err(Error::InvalidThresholdValue)
            } else {
                Ok((
                    ProcessorState { claim_deadline: Some(deadline), ..self }.demand(admin).emit(
                        Event::ClaimDeadlineUpdated(ClaimDeadlineUpdated { deadline }),
                    ),
                    (),
                ))
            },
        }
    }

    pub open spec fn set_payout_delay(self, admin: Addr, delay_seconds: u64) -> Result<
        (ProcessorState, ()),
        Error,
    > {
        match self.admin_error(admin) {
            Some(e) => Err(e),
            None => Ok((
                ProcessorState { payout_delay: delay_seconds, ..self }.demand(admin).emit(
                    Event::PayoutDelayUpdated(PayoutDelayUpdated { delay_seconds }),
                ),
                (),
            )),
        }
    }

    pub open spec fn set_fraud_config(self, admin: Addr, config: FraudConfig) -> Result<
        (ProcessorState, ()),
        Error,
    > {
        match self.admin_error(admin) {
            Some(e) => Err(e),
            None => if config.fraud_threshold_score > MAX_FRAUD_SCORE {
                Err(Error::InvalidInput)
            } else {
                Ok((
                    ProcessorState { fraud_config: Some(config), ..self }.demand(admin).emit(
                        Event::FraudConfigUpdated(
                            FraudConfigUpdated {
                                rate_window_secs: config.rate_window_secs,
                                rate_score: config.rate_score,
                                burst_window_secs: config.burst_window_secs,
                                burst_count: config.burst_count,
                                burst_score: config.burst_score,
                                coverage_anomaly_multiplier: config.coverage_anomaly_multiplier,
                                coverage_score: config.coverage_score,
                                fraud_threshold_score: config.fraud_threshold_score,
                                mode: config.mode,
                            },
                        ),
                    ),
                    (),
                ))
            },
        }
    }

    pub open spec fn claim_payout(self, now: u64, claim_id: u128, policy: Option<Policy>) -> Result<
        (ProcessorState, Step<i128>),
        Error,
    > {
        if self.paused {
            Err(Error::Paused)
        } else if !self.claims.contains_key(claim_id) {
            Err(Error::ClaimNotFound)
        } else {
            let claim = self.claims[claim_id];
            if claim.payout_ready_at is None || now < claim.payout_ready_at->0 {
                Err(Error::PayoutDelayNotElapsed)
            } else if claim.paid_amount is None {
                Err(Error::ClaimNotFound)
            } else if self.policy_engine is None || self.risk_pool is None {
                Err(Error::NotInitialized)
            } else if !claim.identity_verified && policy is None {
                Ok((
                    self,
                    Step::Ask {
                        item: 0,
                        question: Question::Policy {
                            policy_engine: self.policy_engine->0,
                            policy_id: claim.policy_id,
                        },
                    },
                ))
            } else if !claim.identity_verified && self.lacks_identity(claim, policy->0) {
                Err(Error::IdentityVerificationRequired)
            } else {
                Ok((
                    self.with_claim(claim_id, Claim { payout_ready_at: None, ..claim }).pay_out(
                        claim.policy_id,
                    ).emit(
                        Event::PayoutReleased {
                            claim_id,
                            policy_id: claim.policy_id,
                            paid_amount: claim.paid_amount->0,
                        },
                    ),
                    Step::Done(claim.paid_amount->0),
                ))
            }
        }
    }

    /// How long a pending claim has been waiting.
    pub open spec fn waiting(claim: Claim, now: u64) -> u64 {
        difference_u64(now, claim.submitted_at)
    }

    pub open spec fn escalate_claim(self, now: u64, caller: Addr, claim_id: u128) -> Result<
        (ProcessorState, ()),
        Error,
    > {
        if self.paused {
            Err(Error::Paused)
        } else if !self.claims.contains_key(claim_id) {
            Err(Error::ClaimNotFound)
        } else {
            let claim = self.claims[claim_id];
            if claim.status != ClaimStatus::Pending || Self::waiting(claim, now)
                < self.escalation_after() {
                Err(Error::NotEscalatable)
            } else {
                Ok((
                    self.demand(caller).with_claim(
                        claim_id,
                        Claim { status: ClaimStatus::Escalated, ..claim },
                    ).dequeued(claim_id).emit(
                        Event::ClaimEscalated(
                            ClaimEscalated {
                                claim_id,
                                policy_id: claim.policy_id,
                                claimant: claim.claimant,
                                pending_for: Self::waiting(claim, now),
                                escalated_by: caller,
                            },
                        ),
                    ),
                    (),
                ))
            }
        }
    }

    /// Whether a claim is pending and overdue.
    pub open spec fn is_overdue(self, now: u64) -> spec_fn(u128) -> bool {
        |id: u128|
            self.claims.contains_key(id) && self.claims[id].status == ClaimStatus::Pending
                && Self::waiting(self.claims[id], now) >= self.escalation_after()
    }

    /// What is said of a claim's age.
    pub open spec fn age_info(self, now: u64, claim_id: u128) -> ClaimAgeInfo {
        let claim = self.claims[claim_id];
        let is_pending = claim.status == ClaimStatus::Pending;
        let pending_for = if is_pending {
            Self::waiting(claim, now)
        } else {
            0
        };
        ClaimAgeInfo {
            claim_id,
            status: claim.status,
            submitted_at: claim.submitted_at,
            pending_for,
            escalation_threshold: self.escalation_after(),
            escalatable: is_pending && pending_for >= self.escalation_after(),
            seconds_until_escalatable: if !is_pending {
                0
            } else {
                difference_u64(self.escalation_after(), pending_for)
            },
        }
    }

    pub open spec fn require_identity_for_category(
        self,
        admin: Addr,
        product_id: u128,
        id_type: Sym,
    ) -> Result<(ProcessorState, ()), Error> {
        match self.admin_error(admin) {
            Some(e) => Err(e),
            None => Ok((
                ProcessorState {
                    identity_requirements: self.identity_requirements.insert(product_id, id_type),
                    ..self
                }.demand(admin).emit(Event::IdentityRequirementSet { product_id, id_type }),
                (),
            )),
        }
    }

    pub open spec fn remove_identity_requirement(self, admin: Addr, product_id: u128) -> Result<
        (ProcessorState, ()),
        Error,
    > {
        match self.admin_error(admin) {
            Some(e) => Err(e),
            None => Ok((
                ProcessorState {
                    identity_requirements: self.identity_requirements.remove(product_id),
                    ..self
                }.demand(admin).emit(Event::IdentityRequirementRemoved { product_id }),
                (),
            )),
        }
    }

    pub open spec fn verify_claimant_identity(
        self,
        now: u64,
        admin: Addr,
        claim_id: u128,
        id_type: Sym,
    ) -> Result<(ProcessorState, ()), Error> {
        match self.admin_error(admin) {
            Some(e) => Err(e),
            None => if !self.claims.contains_key(claim_id) {
                Err(Error::ClaimNotFound)
            } else {
                Ok((
                    self.demand(admin).with_claim(
                        claim_id,
                        Claim {
                            identity_verified: true,
                            verification_type: Some(id_type),
                            verification_time: Some(now),
                            ..self.claims[claim_id]
                        },
                    ).emit(Event::IdentityVerified { claim_id, id_type, now }),
                    (),
                ))
            },
        }
    }
}

impl ProcessorState {
    /// What stops the beginning of a batch of submissions stops the batch.
    pub proof fn lemma_submit_items_stop(
        self,
        now: u64,
        claimant: Addr,
        policy_ids: Seq<u128>,
        replies: Seq<Reply>,
        m: nat,
        n: nat,
    )
        requires
            m <= n,
            !(self.submit_items(now, claimant, policy_ids, replies, m) matches Ok((_, Step::Done(_)))),
        ensures
            self.submit_items(now, claimant, policy_ids, replies, n) == self.submit_items(
                now,
                claimant,
                policy_ids,
                replies,
                m,
            ),
        decreases n,
    {
        if m < n {
            self.lemma_submit_items_stop(now, claimant, policy_ids, replies, m, (n - 1) as nat);
        }
    }

    /// What stops the beginning of a batch of claims stops the batch.
    pub proof fn lemma_process_items_stop(
        self,
        now: u64,
        claim_ids: Seq<u128>,
        bps: Option<u32>,
        replies: Seq<Reply>,
        m: nat,
        n: nat,
    )
        requires
            m <= n,
            !(self.process_items(now, claim_ids, bps, replies, m) matches Ok((_, Step::Done(_)))),
        ensures
            self.process_items(now, claim_ids, bps, replies, n) == self.process_items(
                now,
                claim_ids,
                bps,
                replies,
                m,
            ),
        decreases n,
    {
        if m < n {
            self.lemma_process_items_stop(now, claim_ids, bps, replies, m, (n - 1) as nat);
        }
    }

    /// Whether every pending claim was pending before with the same coverage and
    /// the same standing of its claimant's identity.
    pub open spec fn covers_kept(self, before: ProcessorState) -> bool {
        &&& self.identity_requirements == before.identity_requirements
        &&& forall|id: u128|
            #![trigger self.claims[id]]
            self.claims.contains_key(id) && self.claims[id].status == ClaimStatus::Pending
                ==> before.claims.contains_key(id) && before.claims[id].status
                == ClaimStatus::Pending && before.claims[id].coverage_amount
                == self.claims[id].coverage_amount && before.claims[id].identity_verified
                == self.claims[id].identity_verified
    }
}

} // verus!
